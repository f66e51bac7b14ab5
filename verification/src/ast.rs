use crate::token::{Token, TokenV};
use vstd::prelude::*;

verus! {

/// An expression node, together with the position (line, column) where it starts.
#[derive(Debug, PartialEq)]
pub struct NodeExpression {
    pub position: (usize, usize),
    pub expression: Expression,
}

#[derive(Debug, PartialEq)]
pub enum Expression {
    Identifier(String),
    IntLiteral(i64),
    StringLiteral(String),
    Boolean(bool),
    ArrayLiteral(Vec<NodeExpression>),
    HashLiteral(Vec<(NodeExpression, NodeExpression)>),
    IndexExpression(Box<NodeExpression>, Box<NodeExpression>),
    PrefixExpression(Token, Box<NodeExpression>),
    InfixExpression(Box<NodeExpression>, Token, Box<NodeExpression>),
    BlockExpression(Vec<NodeStatement>),
    IfExpression {
        condition: Box<NodeExpression>,
        consequence: Vec<NodeStatement>,
        alternative: Vec<NodeStatement>,
    },
    FunctionLiteral { parameters: Vec<String>, body: Vec<NodeStatement> },
    CallExpression { function: Box<NodeExpression>, arguments: Vec<NodeExpression> },
    Nil,
}

/// A statement node, together with the position (line, column) where it starts.
#[derive(Debug, PartialEq)]
pub struct NodeStatement {
    pub position: (usize, usize),
    pub statement: Statement,
}

pub type LetStatement = (String, NodeExpression);

#[derive(Debug, PartialEq)]
pub enum Statement {
    Let(Box<LetStatement>),
    Return(Box<NodeExpression>),
    ExpressionStatement(Box<NodeExpression>),
}

} // verus!

verus! {

// ---------------------------------------------------------------------------------------------
// Views: the same trees, with sequences in place of vectors and strings
// ---------------------------------------------------------------------------------------------

pub struct NodeExpressionV {
    pub position: (usize, usize),
    pub expression: ExpressionV,
}

pub enum ExpressionV {
    Identifier(Seq<char>),
    IntLiteral(i64),
    StringLiteral(Seq<char>),
    Boolean(bool),
    ArrayLiteral(Seq<NodeExpressionV>),
    HashLiteral(Seq<(NodeExpressionV, NodeExpressionV)>),
    IndexExpression(Box<NodeExpressionV>, Box<NodeExpressionV>),
    PrefixExpression(TokenV, Box<NodeExpressionV>),
    InfixExpression(Box<NodeExpressionV>, TokenV, Box<NodeExpressionV>),
    BlockExpression(Seq<NodeStatementV>),
    IfExpression {
        condition: Box<NodeExpressionV>,
        consequence: Seq<NodeStatementV>,
        alternative: Seq<NodeStatementV>,
    },
    FunctionLiteral { parameters: Seq<Seq<char>>, body: Seq<NodeStatementV> },
    CallExpression { function: Box<NodeExpressionV>, arguments: Seq<NodeExpressionV> },
    Nil,
}

pub struct NodeStatementV {
    pub position: (usize, usize),
    pub statement: StatementV,
}

pub enum StatementV {
    Let(Seq<char>, Box<NodeExpressionV>),
    Return(Box<NodeExpressionV>),
    ExpressionStatement(Box<NodeExpressionV>),
}

pub open spec fn strings_view(s: Seq<String>) -> Seq<Seq<char>> {
    s.map_values(|x: String| x@)
}

pub open spec fn expr_view(e: NodeExpression) -> NodeExpressionV
    decreases e,
{
    NodeExpressionV {
        position: e.position,
        expression: match e.expression {
            Expression::Identifier(s) => ExpressionV::Identifier(s@),
            Expression::IntLiteral(i) => ExpressionV::IntLiteral(i),
            Expression::StringLiteral(s) => ExpressionV::StringLiteral(s@),
            Expression::Boolean(b) => ExpressionV::Boolean(b),
            Expression::ArrayLiteral(v) => ExpressionV::ArrayLiteral(exprs_view(v@)),
            Expression::HashLiteral(v) => ExpressionV::HashLiteral(pairs_view(v@)),
            Expression::IndexExpression(a, b) => ExpressionV::IndexExpression(
                Box::new(expr_view(*a)),
                Box::new(expr_view(*b)),
            ),
            Expression::PrefixExpression(t, a) => ExpressionV::PrefixExpression(
                t@,
                Box::new(expr_view(*a)),
            ),
            Expression::InfixExpression(a, t, b) => ExpressionV::InfixExpression(
                Box::new(expr_view(*a)),
                t@,
                Box::new(expr_view(*b)),
            ),
            Expression::BlockExpression(v) => ExpressionV::BlockExpression(stmts_view(v@)),
            Expression::IfExpression { condition, consequence, alternative } =>
                ExpressionV::IfExpression {
                condition: Box::new(expr_view(*condition)),
                consequence: stmts_view(consequence@),
                alternative: stmts_view(alternative@),
            },
            Expression::FunctionLiteral { parameters, body } => ExpressionV::FunctionLiteral {
                parameters: strings_view(parameters@),
                body: stmts_view(body@),
            },
            Expression::CallExpression { function, arguments } => ExpressionV::CallExpression {
                function: Box::new(expr_view(*function)),
                arguments: exprs_view(arguments@),
            },
            Expression::Nil => ExpressionV::Nil,
        },
    }
}

pub open spec fn exprs_view(s: Seq<NodeExpression>) -> Seq<NodeExpressionV>
    decreases s,
{
    if s.len() == 0 {
        seq![]
    } else {
        proof {
            vstd::seq::axiom_seq_len_decreases(s, s.drop_last());
        }
        exprs_view(s.drop_last()).push(expr_view(s.last()))
    }
}

pub open spec fn pairs_view(s: Seq<(NodeExpression, NodeExpression)>) -> Seq<
    (NodeExpressionV, NodeExpressionV),
>
    decreases s,
{
    if s.len() == 0 {
        seq![]
    } else {
        proof {
            vstd::seq::axiom_seq_len_decreases(s, s.drop_last());
        }
        pairs_view(s.drop_last()).push((expr_view(s.last().0), expr_view(s.last().1)))
    }
}

pub open spec fn stmt_view(st: NodeStatement) -> NodeStatementV
    decreases st,
{
    NodeStatementV {
        position: st.position,
        statement: match st.statement {
            Statement::Let(b) => StatementV::Let(b.0@, Box::new(expr_view(b.1))),
            Statement::Return(e) => StatementV::Return(Box::new(expr_view(*e))),
            Statement::ExpressionStatement(e) => StatementV::ExpressionStatement(
                Box::new(expr_view(*e)),
            ),
        },
    }
}

pub open spec fn stmts_view(s: Seq<NodeStatement>) -> Seq<NodeStatementV>
    decreases s,
{
    if s.len() == 0 {
        seq![]
    } else {
        proof {
            vstd::seq::axiom_seq_len_decreases(s, s.drop_last());
        }
        stmts_view(s.drop_last()).push(stmt_view(s.last()))
    }
}

pub proof fn lemma_exprs_view_index(s: Seq<NodeExpression>)
    ensures
        exprs_view(s).len() == s.len(),
        forall|i: int| 0 <= i < s.len() ==> #[trigger] exprs_view(s)[i] == expr_view(s[i]),
    decreases s.len(),
{
    if s.len() > 0 {
        lemma_exprs_view_index(s.drop_last());
    }
}

pub proof fn lemma_pairs_view_index(s: Seq<(NodeExpression, NodeExpression)>)
    ensures
        pairs_view(s).len() == s.len(),
        forall|i: int|
            0 <= i < s.len() ==> #[trigger] pairs_view(s)[i] == (
                expr_view(s[i].0),
                expr_view(s[i].1),
            ),
    decreases s.len(),
{
    if s.len() > 0 {
        lemma_pairs_view_index(s.drop_last());
    }
}

pub proof fn lemma_stmts_view_index(s: Seq<NodeStatement>)
    ensures
        stmts_view(s).len() == s.len(),
        forall|i: int| 0 <= i < s.len() ==> #[trigger] stmts_view(s)[i] == stmt_view(s[i]),
    decreases s.len(),
{
    if s.len() > 0 {
        lemma_stmts_view_index(s.drop_last());
    }
}

// ---------------------------------------------------------------------------------------------
// Copies
// ---------------------------------------------------------------------------------------------

/// A copy of a list of strings.
pub fn clone_strings(v: &Vec<String>) -> (r: Vec<String>)
    ensures
        strings_view(r@) == strings_view(v@),
{
    let mut r: Vec<String> = Vec::new();
    let mut i: usize = 0;
    while i < v.len()
        invariant
            i <= v@.len(),
            r@.len() == i,
            strings_view(r@) == strings_view(v@.take(i as int)),
        decreases v@.len() - i,
    {
        let ghost old_r = r@;
        let c = v[i].clone();
        assert(c@ == v@[i as int]@);
        r.push(c);
        assert forall|k: int| 0 <= k < i + 1 implies strings_view(r@)[k] == strings_view(
            v@.take(i + 1),
        )[k] by {
            if k < i {
                assert(r@[k] == old_r[k]);
                assert(strings_view(old_r)[k] == strings_view(v@.take(i as int))[k]);
            }
        }
        assert(strings_view(r@) =~= strings_view(v@.take(i + 1)));
        i = i + 1;
    }
    assert(v@.take(v@.len() as int) =~= v@);
    r
}

/// A copy of an expression tree.
pub fn clone_expression(e: &NodeExpression) -> (r: NodeExpression)
    ensures
        expr_view(r) == expr_view(*e),
    decreases e,
{
    let expression = match &e.expression {
        Expression::Identifier(s) => Expression::Identifier(s.clone()),
        Expression::IntLiteral(i) => Expression::IntLiteral(*i),
        Expression::StringLiteral(s) => Expression::StringLiteral(s.clone()),
        Expression::Boolean(b) => Expression::Boolean(*b),
        Expression::ArrayLiteral(v) => {
            proof {
                assert(decreases_to!(*e => e.expression));
                assert(decreases_to!(e.expression => e.expression->ArrayLiteral_0));
            }
            Expression::ArrayLiteral(clone_expressions(v))
        },
        Expression::HashLiteral(v) => {
            proof {
                assert(decreases_to!(*e => e.expression));
                assert(decreases_to!(e.expression => e.expression->HashLiteral_0));
            }
            Expression::HashLiteral(clone_pairs(v))
        },
        Expression::IndexExpression(a, b) => Expression::IndexExpression(
            Box::new(clone_expression(a)),
            Box::new(clone_expression(b)),
        ),
        Expression::PrefixExpression(t, a) => Expression::PrefixExpression(
            clone_token(t),
            Box::new(clone_expression(a)),
        ),
        Expression::InfixExpression(a, t, b) => Expression::InfixExpression(
            Box::new(clone_expression(a)),
            clone_token(t),
            Box::new(clone_expression(b)),
        ),
        Expression::BlockExpression(v) => {
            proof {
                assert(decreases_to!(*e => e.expression));
                assert(decreases_to!(e.expression => e.expression->BlockExpression_0));
            }
            Expression::BlockExpression(clone_statements(v))
        },
        Expression::IfExpression { condition, consequence, alternative } => {
            proof {
                assert(decreases_to!(*e => e.expression));
                assert(decreases_to!(e.expression => e.expression->consequence));
                assert(decreases_to!(e.expression => e.expression->alternative));
            }
            Expression::IfExpression {
                condition: Box::new(clone_expression(condition)),
                consequence: clone_statements(consequence),
                alternative: clone_statements(alternative),
            }
        },
        Expression::FunctionLiteral { parameters, body } => {
            proof {
                assert(decreases_to!(*e => e.expression));
                assert(decreases_to!(e.expression => e.expression->body));
            }
            Expression::FunctionLiteral {
                parameters: clone_strings(parameters),
                body: clone_statements(body),
            }
        },
        Expression::CallExpression { function, arguments } => {
            proof {
                assert(decreases_to!(*e => e.expression));
                assert(decreases_to!(e.expression => e.expression->arguments));
            }
            Expression::CallExpression {
                function: Box::new(clone_expression(function)),
                arguments: clone_expressions(arguments),
            }
        },
        Expression::Nil => Expression::Nil,
    };
    NodeExpression { position: e.position, expression }
}

/// A copy of a token.
pub fn clone_token(t: &Token) -> (r: Token)
    ensures
        r@ == t@,
{
    match t {
        Token::Identifier(s) => Token::Identifier(s.clone()),
        Token::Str(s) => Token::Str(s.clone()),
        Token::Int(i) => Token::Int(*i),
        Token::Illegal(c) => Token::Illegal(*c),
        Token::EOF => Token::EOF,
        Token::Assign => Token::Assign,
        Token::Bang => Token::Bang,
        Token::Plus => Token::Plus,
        Token::Minus => Token::Minus,
        Token::Asterisk => Token::Asterisk,
        Token::Slash => Token::Slash,
        Token::Exponent => Token::Exponent,
        Token::Modulo => Token::Modulo,
        Token::LessThan => Token::LessThan,
        Token::GreaterThan => Token::GreaterThan,
        Token::Equals => Token::Equals,
        Token::NotEquals => Token::NotEquals,
        Token::LessEq => Token::LessEq,
        Token::GreaterEq => Token::GreaterEq,
        Token::Comma => Token::Comma,
        Token::Semicolon => Token::Semicolon,
        Token::Colon => Token::Colon,
        Token::OpenParen => Token::OpenParen,
        Token::CloseParen => Token::CloseParen,
        Token::OpenCurlyBrace => Token::OpenCurlyBrace,
        Token::CloseCurlyBrace => Token::CloseCurlyBrace,
        Token::OpenSquareBracket => Token::OpenSquareBracket,
        Token::CloseSquareBracket => Token::CloseSquareBracket,
        Token::OpenHash => Token::OpenHash,
        Token::Function => Token::Function,
        Token::Let => Token::Let,
        Token::True => Token::True,
        Token::False => Token::False,
        Token::If => Token::If,
        Token::Else => Token::Else,
        Token::Return => Token::Return,
        Token::Nil => Token::Nil,
    }
}

/// A copy of a list of expression trees.
pub fn clone_expressions(v: &Vec<NodeExpression>) -> (r: Vec<NodeExpression>)
    ensures
        exprs_view(r@) == exprs_view(v@),
    decreases v,
{
    let mut r: Vec<NodeExpression> = Vec::new();
    let mut i: usize = 0;
    while i < v.len()
        invariant
            i <= v@.len(),
            exprs_view(r@) == exprs_view(v@.take(i as int)),
        decreases v@.len() - i,
    {
        let ghost old_r = r@;
        proof {
            assert(decreases_to!(*v => v@[i as int]));
        }
        let c = clone_expression(&v[i]);
        r.push(c);
        assert(r@.drop_last() =~= old_r);
        assert(v@.take(i + 1).drop_last() =~= v@.take(i as int));
        assert(exprs_view(r@) == exprs_view(old_r).push(expr_view(c)));
        assert(exprs_view(v@.take(i + 1)) == exprs_view(v@.take(i as int)).push(
            expr_view(v@[i as int]),
        ));
        i = i + 1;
    }
    assert(v@.take(v@.len() as int) =~= v@);
    r
}

/// A copy of a list of pairs of expression trees.
pub fn clone_pairs(v: &Vec<(NodeExpression, NodeExpression)>) -> (r: Vec<
    (NodeExpression, NodeExpression),
>)
    ensures
        pairs_view(r@) == pairs_view(v@),
    decreases v,
{
    let mut r: Vec<(NodeExpression, NodeExpression)> = Vec::new();
    let mut i: usize = 0;
    while i < v.len()
        invariant
            i <= v@.len(),
            pairs_view(r@) == pairs_view(v@.take(i as int)),
        decreases v@.len() - i,
    {
        let ghost old_r = r@;
        proof {
            assert(decreases_to!(*v => v@[i as int]));
            assert(decreases_to!(v@[i as int] => v@[i as int].0));
            assert(decreases_to!(v@[i as int] => v@[i as int].1));
        }
        let a = clone_expression(&v[i].0);
        let b = clone_expression(&v[i].1);
        r.push((a, b));
        assert(r@.drop_last() =~= old_r);
        assert(v@.take(i + 1).drop_last() =~= v@.take(i as int));
        assert(pairs_view(r@) == pairs_view(old_r).push((expr_view(a), expr_view(b))));
        assert(pairs_view(v@.take(i + 1)) == pairs_view(v@.take(i as int)).push(
            (expr_view(v@[i as int].0), expr_view(v@[i as int].1)),
        ));
        i = i + 1;
    }
    assert(v@.take(v@.len() as int) =~= v@);
    r
}

/// A copy of a statement tree.
pub fn clone_statement(st: &NodeStatement) -> (r: NodeStatement)
    ensures
        stmt_view(r) == stmt_view(*st),
    decreases st,
{
    let statement = match &st.statement {
        Statement::Let(b) => {
            let name = b.0.clone();
            let value = clone_expression(&b.1);
            Statement::Let(Box::new((name, value)))
        },
        Statement::Return(e) => Statement::Return(Box::new(clone_expression(e))),
        Statement::ExpressionStatement(e) => Statement::ExpressionStatement(
            Box::new(clone_expression(e)),
        ),
    };
    NodeStatement { position: st.position, statement }
}

/// A copy of a list of statement trees.
pub fn clone_statements(v: &Vec<NodeStatement>) -> (r: Vec<NodeStatement>)
    ensures
        stmts_view(r@) == stmts_view(v@),
    decreases v,
{
    let mut r: Vec<NodeStatement> = Vec::new();
    let mut i: usize = 0;
    while i < v.len()
        invariant
            i <= v@.len(),
            stmts_view(r@) == stmts_view(v@.take(i as int)),
        decreases v@.len() - i,
    {
        let ghost old_r = r@;
        proof {
            assert(decreases_to!(*v => v@[i as int]));
        }
        let c = clone_statement(&v[i]);
        r.push(c);
        assert(r@.drop_last() =~= old_r);
        assert(v@.take(i + 1).drop_last() =~= v@.take(i as int));
        assert(stmts_view(r@) == stmts_view(old_r).push(stmt_view(c)));
        assert(stmts_view(v@.take(i + 1)) == stmts_view(v@.take(i as int)).push(
            stmt_view(v@[i as int]),
        ));
        i = i + 1;
    }
    assert(v@.take(v@.len() as int) =~= v@);
    r
}

} // verus!
