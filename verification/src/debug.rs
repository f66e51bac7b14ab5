use crate::ast::{
    expr_view, exprs_view, lemma_exprs_view_index, lemma_pairs_view_index,
    lemma_stmts_view_index, pairs_view, stmt_view, stmts_view, strings_view, Expression,
    ExpressionV, NodeExpression, NodeExpressionV, NodeStatement, NodeStatementV, Statement,
    StatementV,
};
use crate::text::{debug_char, debug_char_spec, debug_str, debug_str_spec, int_text, push_chars, push_int, push_str, string_from_chars};
use crate::token::{Token, TokenV};
use vstd::prelude::*;

verus! {

// ---------------------------------------------------------------------------------------------
// How syntax trees are shown: as the variants and fields of the tree, without positions
// ---------------------------------------------------------------------------------------------

/// How a token is shown: the name of its variant, with its payload.
pub open spec fn token_debug(t: TokenV) -> Seq<char> {
    match t {
        TokenV::Illegal(c) => "Illegal("@ + debug_char_spec(c) + ")"@,
        TokenV::EOF => "EOF"@,
        TokenV::Identifier(s) => "Identifier("@ + debug_str_spec(s) + ")"@,
        TokenV::Int(i) => "Int("@ + int_text(i as int) + ")"@,
        TokenV::Str(s) => "Str("@ + debug_str_spec(s) + ")"@,
        TokenV::Assign => "Assign"@,
        TokenV::Bang => "Bang"@,
        TokenV::Plus => "Plus"@,
        TokenV::Minus => "Minus"@,
        TokenV::Asterisk => "Asterisk"@,
        TokenV::Slash => "Slash"@,
        TokenV::Exponent => "Exponent"@,
        TokenV::Modulo => "Modulo"@,
        TokenV::LessThan => "LessThan"@,
        TokenV::GreaterThan => "GreaterThan"@,
        TokenV::Equals => "Equals"@,
        TokenV::NotEquals => "NotEquals"@,
        TokenV::LessEq => "LessEq"@,
        TokenV::GreaterEq => "GreaterEq"@,
        TokenV::Comma => "Comma"@,
        TokenV::Semicolon => "Semicolon"@,
        TokenV::Colon => "Colon"@,
        TokenV::OpenParen => "OpenParen"@,
        TokenV::CloseParen => "CloseParen"@,
        TokenV::OpenCurlyBrace => "OpenCurlyBrace"@,
        TokenV::CloseCurlyBrace => "CloseCurlyBrace"@,
        TokenV::OpenSquareBracket => "OpenSquareBracket"@,
        TokenV::CloseSquareBracket => "CloseSquareBracket"@,
        TokenV::OpenHash => "OpenHash"@,
        TokenV::Function => "Function"@,
        TokenV::Let => "Let"@,
        TokenV::True => "True"@,
        TokenV::False => "False"@,
        TokenV::If => "If"@,
        TokenV::Else => "Else"@,
        TokenV::Return => "Return"@,
        TokenV::Nil => "Nil"@,
    }
}

/// How an expression is shown.
pub open spec fn expr_debug(e: NodeExpressionV) -> Seq<char>
    decreases e,
{
    match e.expression {
        ExpressionV::Identifier(s) => "Identifier("@ + debug_str_spec(s) + ")"@,
        ExpressionV::IntLiteral(i) => "IntLiteral("@ + int_text(i as int) + ")"@,
        ExpressionV::StringLiteral(s) => "StringLiteral("@ + debug_str_spec(s) + ")"@,
        ExpressionV::Boolean(b) => if b {
            "Boolean(true)"@
        } else {
            "Boolean(false)"@
        },
        ExpressionV::ArrayLiteral(v) => "ArrayLiteral(["@ + exprs_debug(v) + "])"@,
        ExpressionV::HashLiteral(v) => "HashLiteral(["@ + pairs_debug(v) + "])"@,
        ExpressionV::IndexExpression(a, b) => "IndexExpression("@ + expr_debug(*a) + ", "@
            + expr_debug(*b) + ")"@,
        ExpressionV::PrefixExpression(t, a) => "PrefixExpression("@ + token_debug(t) + ", "@
            + expr_debug(*a) + ")"@,
        ExpressionV::InfixExpression(a, t, b) => "InfixExpression("@ + expr_debug(*a) + ", "@
            + token_debug(t) + ", "@ + expr_debug(*b) + ")"@,
        ExpressionV::BlockExpression(v) => "BlockExpression(["@ + stmts_debug(v) + "])"@,
        ExpressionV::IfExpression { condition, consequence, alternative } =>
            "IfExpression { condition: "@ + expr_debug(*condition) + ", consequence: ["@
            + stmts_debug(consequence) + "], alternative: ["@ + stmts_debug(alternative)
            + "] }"@,
        ExpressionV::FunctionLiteral { parameters, body } => "FunctionLiteral { parameters: ["@
            + names_debug(parameters) + "], body: ["@ + stmts_debug(body) + "] }"@,
        ExpressionV::CallExpression { function, arguments } => "CallExpression { function: "@
            + expr_debug(*function) + ", arguments: ["@ + exprs_debug(arguments) + "] }"@,
        ExpressionV::Nil => "Nil"@,
    }
}

/// The expressions shown, separated by ", ".
pub open spec fn exprs_debug(s: Seq<NodeExpressionV>) -> Seq<char>
    decreases s,
{
    if s.len() == 0 {
        seq![]
    } else {
        proof {
            vstd::seq::axiom_seq_len_decreases(s, s.drop_last());
        }
        if s.len() == 1 {
            expr_debug(s.last())
        } else {
            exprs_debug(s.drop_last()) + ", "@ + expr_debug(s.last())
        }
    }
}

/// The pairs shown as `(key, value)`, separated by ", ".
pub open spec fn pairs_debug(s: Seq<(NodeExpressionV, NodeExpressionV)>) -> Seq<char>
    decreases s,
{
    if s.len() == 0 {
        seq![]
    } else {
        proof {
            vstd::seq::axiom_seq_len_decreases(s, s.drop_last());
        }
        let last = "("@ + expr_debug(s.last().0) + ", "@ + expr_debug(s.last().1) + ")"@;
        if s.len() == 1 {
            last
        } else {
            pairs_debug(s.drop_last()) + ", "@ + last
        }
    }
}

/// The names shown as quoted strings, separated by ", ".
pub open spec fn names_debug(s: Seq<Seq<char>>) -> Seq<char>
    decreases s.len(),
{
    if s.len() == 0 {
        seq![]
    } else if s.len() == 1 {
        debug_str_spec(s.last())
    } else {
        names_debug(s.drop_last()) + ", "@ + debug_str_spec(s.last())
    }
}

/// How a statement is shown.
pub open spec fn stmt_debug(st: NodeStatementV) -> Seq<char>
    decreases st,
{
    match st.statement {
        StatementV::Let(name, e) => "Let(("@ + debug_str_spec(name) + ", "@ + expr_debug(*e)
            + "))"@,
        StatementV::Return(e) => "Return("@ + expr_debug(*e) + ")"@,
        StatementV::ExpressionStatement(e) => "ExpressionStatement("@ + expr_debug(*e) + ")"@,
    }
}

/// The statements shown, separated by ", ".
pub open spec fn stmts_debug(s: Seq<NodeStatementV>) -> Seq<char>
    decreases s,
{
    if s.len() == 0 {
        seq![]
    } else {
        proof {
            vstd::seq::axiom_seq_len_decreases(s, s.drop_last());
        }
        if s.len() == 1 {
            stmt_debug(s.last())
        } else {
            stmts_debug(s.drop_last()) + ", "@ + stmt_debug(s.last())
        }
    }
}

fn push_debug_str(out: &mut Vec<char>, s: &str)
    ensures
        final(out)@ == old(out)@ + debug_str_spec(s@),
{
    let d = debug_str(s);
    push_chars(out, &d);
}

/// Appends how a token is shown.
pub fn push_token_debug(out: &mut Vec<char>, t: &Token)
    ensures
        final(out)@ == old(out)@ + token_debug(t@),
{
    let ghost before = out@;
    match t {
        Token::Illegal(c) => {
            push_str(out, "Illegal(");
            let d = debug_char(*c);
            push_chars(out, &d);
            push_str(out, ")");
        },
        Token::EOF => push_str(out, "EOF"),
        Token::Identifier(s) => {
            push_str(out, "Identifier(");
            push_debug_str(out, s.as_str());
            push_str(out, ")");
        },
        Token::Int(i) => {
            push_str(out, "Int(");
            push_int(out, *i);
            push_str(out, ")");
        },
        Token::Str(s) => {
            push_str(out, "Str(");
            push_debug_str(out, s.as_str());
            push_str(out, ")");
        },
        Token::Assign => push_str(out, "Assign"),
        Token::Bang => push_str(out, "Bang"),
        Token::Plus => push_str(out, "Plus"),
        Token::Minus => push_str(out, "Minus"),
        Token::Asterisk => push_str(out, "Asterisk"),
        Token::Slash => push_str(out, "Slash"),
        Token::Exponent => push_str(out, "Exponent"),
        Token::Modulo => push_str(out, "Modulo"),
        Token::LessThan => push_str(out, "LessThan"),
        Token::GreaterThan => push_str(out, "GreaterThan"),
        Token::Equals => push_str(out, "Equals"),
        Token::NotEquals => push_str(out, "NotEquals"),
        Token::LessEq => push_str(out, "LessEq"),
        Token::GreaterEq => push_str(out, "GreaterEq"),
        Token::Comma => push_str(out, "Comma"),
        Token::Semicolon => push_str(out, "Semicolon"),
        Token::Colon => push_str(out, "Colon"),
        Token::OpenParen => push_str(out, "OpenParen"),
        Token::CloseParen => push_str(out, "CloseParen"),
        Token::OpenCurlyBrace => push_str(out, "OpenCurlyBrace"),
        Token::CloseCurlyBrace => push_str(out, "CloseCurlyBrace"),
        Token::OpenSquareBracket => push_str(out, "OpenSquareBracket"),
        Token::CloseSquareBracket => push_str(out, "CloseSquareBracket"),
        Token::OpenHash => push_str(out, "OpenHash"),
        Token::Function => push_str(out, "Function"),
        Token::Let => push_str(out, "Let"),
        Token::True => push_str(out, "True"),
        Token::False => push_str(out, "False"),
        Token::If => push_str(out, "If"),
        Token::Else => push_str(out, "Else"),
        Token::Return => push_str(out, "Return"),
        Token::Nil => push_str(out, "Nil"),
    }
    assert(out@ =~= before + token_debug(t@));
}

/// Appends how an expression is shown.
pub fn push_expr_debug(out: &mut Vec<char>, e: &NodeExpression)
    ensures
        final(out)@ == old(out)@ + expr_debug(expr_view(*e)),
    decreases e, 1nat,
{
    let ghost before = out@;
    match &e.expression {
        Expression::Identifier(s) => {
            push_str(out, "Identifier(");
            push_debug_str(out, s.as_str());
            push_str(out, ")");
        },
        Expression::IntLiteral(i) => {
            push_str(out, "IntLiteral(");
            push_int(out, *i);
            push_str(out, ")");
        },
        Expression::StringLiteral(s) => {
            push_str(out, "StringLiteral(");
            push_debug_str(out, s.as_str());
            push_str(out, ")");
        },
        Expression::Boolean(b) => {
            if *b {
                push_str(out, "Boolean(true)");
            } else {
                push_str(out, "Boolean(false)");
            }
        },
        Expression::ArrayLiteral(v) => {
            proof {
                assert(decreases_to!(*e => e.expression));
                assert(decreases_to!(e.expression => e.expression->ArrayLiteral_0));
            }
            push_str(out, "ArrayLiteral([");
            push_exprs_debug(out, v);
            push_str(out, "])");
        },
        Expression::HashLiteral(v) => {
            proof {
                assert(decreases_to!(*e => e.expression));
                assert(decreases_to!(e.expression => e.expression->HashLiteral_0));
            }
            push_str(out, "HashLiteral([");
            push_pairs_debug(out, v);
            push_str(out, "])");
        },
        Expression::IndexExpression(a, b) => {
            push_str(out, "IndexExpression(");
            push_expr_debug(out, a);
            push_str(out, ", ");
            push_expr_debug(out, b);
            push_str(out, ")");
        },
        Expression::PrefixExpression(t, a) => {
            push_str(out, "PrefixExpression(");
            push_token_debug(out, t);
            push_str(out, ", ");
            push_expr_debug(out, a);
            push_str(out, ")");
        },
        Expression::InfixExpression(a, t, b) => {
            push_str(out, "InfixExpression(");
            push_expr_debug(out, a);
            push_str(out, ", ");
            push_token_debug(out, t);
            push_str(out, ", ");
            push_expr_debug(out, b);
            push_str(out, ")");
        },
        Expression::BlockExpression(v) => {
            proof {
                assert(decreases_to!(*e => e.expression));
                assert(decreases_to!(e.expression => e.expression->BlockExpression_0));
            }
            push_str(out, "BlockExpression([");
            push_stmts_debug(out, v);
            push_str(out, "])");
        },
        Expression::IfExpression { condition, consequence, alternative } => {
            proof {
                assert(decreases_to!(*e => e.expression));
                assert(decreases_to!(e.expression => e.expression->consequence));
                assert(decreases_to!(e.expression => e.expression->alternative));
            }
            push_str(out, "IfExpression { condition: ");
            push_expr_debug(out, condition);
            push_str(out, ", consequence: [");
            push_stmts_debug(out, consequence);
            push_str(out, "], alternative: [");
            push_stmts_debug(out, alternative);
            push_str(out, "] }");
        },
        Expression::FunctionLiteral { parameters, body } => {
            proof {
                assert(decreases_to!(*e => e.expression));
                assert(decreases_to!(e.expression => e.expression->body));
            }
            push_str(out, "FunctionLiteral { parameters: [");
            push_names_debug(out, parameters);
            push_str(out, "], body: [");
            push_stmts_debug(out, body);
            push_str(out, "] }");
        },
        Expression::CallExpression { function, arguments } => {
            proof {
                assert(decreases_to!(*e => e.expression));
                assert(decreases_to!(e.expression => e.expression->arguments));
            }
            push_str(out, "CallExpression { function: ");
            push_expr_debug(out, function);
            push_str(out, ", arguments: [");
            push_exprs_debug(out, arguments);
            push_str(out, "] }");
        },
        Expression::Nil => push_str(out, "Nil"),
    }
    assert(out@ =~= before + expr_debug(expr_view(*e)));
}

fn push_exprs_debug(out: &mut Vec<char>, v: &Vec<NodeExpression>)
    ensures
        final(out)@ == old(out)@ + exprs_debug(exprs_view(v@)),
    decreases v, 0nat,
{
    let ghost before = out@;
    let ghost ev = exprs_view(v@);
    proof {
        lemma_exprs_view_index(v@);
    }
    let mut i: usize = 0;
    assert(ev.take(0) =~= Seq::<NodeExpressionV>::empty());
    while i < v.len()
        invariant
            i <= v@.len(),
            ev == exprs_view(v@),
            ev.len() == v@.len(),
            forall|k: int| 0 <= k < v@.len() ==> #[trigger] ev[k] == expr_view(v@[k]),
            out@ == before + exprs_debug(ev.take(i as int)),
        decreases v@.len() - i,
    {
        proof {
            assert(decreases_to!(*v => v@[i as int]));
        }
        if i > 0 {
            push_str(out, ", ");
        }
        push_expr_debug(out, &v[i]);
        proof {
            assert(ev.take(i + 1).drop_last() =~= ev.take(i as int));
            assert(ev.take(i + 1).last() == ev[i as int]);
        }
        i = i + 1;
        assert(out@ =~= before + exprs_debug(ev.take(i as int)));
    }
    assert(ev.take(v@.len() as int) =~= ev);
}

fn push_pairs_debug(out: &mut Vec<char>, v: &Vec<(NodeExpression, NodeExpression)>)
    ensures
        final(out)@ == old(out)@ + pairs_debug(pairs_view(v@)),
    decreases v, 0nat,
{
    let ghost before = out@;
    let ghost pv = pairs_view(v@);
    proof {
        lemma_pairs_view_index(v@);
    }
    let mut i: usize = 0;
    assert(pv.take(0) =~= Seq::<(NodeExpressionV, NodeExpressionV)>::empty());
    while i < v.len()
        invariant
            i <= v@.len(),
            pv == pairs_view(v@),
            pv.len() == v@.len(),
            forall|k: int|
                0 <= k < v@.len() ==> #[trigger] pv[k] == (expr_view(v@[k].0), expr_view(v@[k].1)),
            out@ == before + pairs_debug(pv.take(i as int)),
        decreases v@.len() - i,
    {
        proof {
            assert(decreases_to!(*v => v@[i as int]));
            assert(decreases_to!(v@[i as int] => v@[i as int].0));
            assert(decreases_to!(v@[i as int] => v@[i as int].1));
        }
        if i > 0 {
            push_str(out, ", ");
        }
        push_str(out, "(");
        push_expr_debug(out, &v[i].0);
        push_str(out, ", ");
        push_expr_debug(out, &v[i].1);
        push_str(out, ")");
        proof {
            assert(pv.take(i + 1).drop_last() =~= pv.take(i as int));
            assert(pv.take(i + 1).last() == pv[i as int]);
        }
        i = i + 1;
        assert(out@ =~= before + pairs_debug(pv.take(i as int)));
    }
    assert(pv.take(v@.len() as int) =~= pv);
}

fn push_names_debug(out: &mut Vec<char>, v: &Vec<String>)
    ensures
        final(out)@ == old(out)@ + names_debug(strings_view(v@)),
{
    let ghost before = out@;
    let ghost nv = strings_view(v@);
    let mut i: usize = 0;
    assert(nv.take(0) =~= Seq::<Seq<char>>::empty());
    while i < v.len()
        invariant
            i <= v@.len(),
            nv == strings_view(v@),
            out@ == before + names_debug(nv.take(i as int)),
        decreases v@.len() - i,
    {
        if i > 0 {
            push_str(out, ", ");
        }
        push_debug_str(out, v[i].as_str());
        proof {
            assert(nv.take(i + 1).drop_last() =~= nv.take(i as int));
            assert(nv.take(i + 1).last() == v@[i as int]@);
        }
        i = i + 1;
        assert(out@ =~= before + names_debug(nv.take(i as int)));
    }
    assert(nv.take(v@.len() as int) =~= nv);
}

/// Appends how a statement is shown.
pub fn push_stmt_debug(out: &mut Vec<char>, st: &NodeStatement)
    ensures
        final(out)@ == old(out)@ + stmt_debug(stmt_view(*st)),
    decreases st, 1nat,
{
    let ghost before = out@;
    match &st.statement {
        Statement::Let(b) => {
            proof {
                assert(decreases_to!(*st => st.statement));
                assert(decreases_to!(st.statement => st.statement->Let_0));
                assert(decreases_to!(st.statement->Let_0 => st.statement->Let_0.1));
            }
            push_str(out, "Let((");
            push_debug_str(out, b.0.as_str());
            push_str(out, ", ");
            push_expr_debug(out, &b.1);
            push_str(out, "))");
        },
        Statement::Return(e) => {
            push_str(out, "Return(");
            push_expr_debug(out, e);
            push_str(out, ")");
        },
        Statement::ExpressionStatement(e) => {
            push_str(out, "ExpressionStatement(");
            push_expr_debug(out, e);
            push_str(out, ")");
        },
    }
    assert(out@ =~= before + stmt_debug(stmt_view(*st)));
}

fn push_stmts_debug(out: &mut Vec<char>, v: &Vec<NodeStatement>)
    ensures
        final(out)@ == old(out)@ + stmts_debug(stmts_view(v@)),
    decreases v, 0nat,
{
    let ghost before = out@;
    let ghost sv = stmts_view(v@);
    proof {
        lemma_stmts_view_index(v@);
    }
    let mut i: usize = 0;
    assert(sv.take(0) =~= Seq::<NodeStatementV>::empty());
    while i < v.len()
        invariant
            i <= v@.len(),
            sv == stmts_view(v@),
            sv.len() == v@.len(),
            forall|k: int| 0 <= k < v@.len() ==> #[trigger] sv[k] == stmt_view(v@[k]),
            out@ == before + stmts_debug(sv.take(i as int)),
        decreases v@.len() - i,
    {
        proof {
            assert(decreases_to!(*v => v@[i as int]));
        }
        if i > 0 {
            push_str(out, ", ");
        }
        push_stmt_debug(out, &v[i]);
        proof {
            assert(sv.take(i + 1).drop_last() =~= sv.take(i as int));
            assert(sv.take(i + 1).last() == sv[i as int]);
        }
        i = i + 1;
        assert(out@ =~= before + stmts_debug(sv.take(i as int)));
    }
    assert(sv.take(v@.len() as int) =~= sv);
}

impl NodeExpression {
    /// How this expression is shown: its variants and fields, without positions.
    pub fn debug_string(&self) -> (r: String)
        ensures
            r@ == expr_debug(expr_view(*self)),
    {
        let mut out: Vec<char> = Vec::new();
        push_expr_debug(&mut out, self);
        string_from_chars(&out)
    }
}

impl NodeStatement {
    /// How this statement is shown: its variants and fields, without positions.
    pub fn debug_string(&self) -> (r: String)
        ensures
            r@ == stmt_debug(stmt_view(*self)),
    {
        let mut out: Vec<char> = Vec::new();
        push_stmt_debug(&mut out, self);
        string_from_chars(&out)
    }
}

} // verus!
