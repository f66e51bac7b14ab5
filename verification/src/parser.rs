use crate::ast::{
    strings_view, clone_token, expr_view, exprs_view, pairs_view, stmt_view, stmts_view,
    Expression, ExpressionV, NodeExpression, NodeExpressionV, NodeStatement, NodeStatementV,
    Statement, StatementV,
};
use crate::error::{MonkeyError, MonkeyResult, ParserError, Position};
use crate::lexer::Lexer;
use crate::error::tokens_view;
use crate::parser_model::{
    array_s, block_expr_s, block_loop_s, block_s, call_s, consume_optional_spec,
    expect_multiple_spec, expect_or_eof_spec, expect_spec, expr_loop_s, expr_stmt_s,
    expression_s, function_s, grouped_s, hash_entry_s, hash_finish, hash_loop_s, hash_s,
    list_finish, if_s, index_s, infix_expr_s, infix_s, let_s, list_loop_s, list_s, measure,
    params_loop_s, params_s, parse_source, prefix_expr_s, prefix_s, program_loop_s, read_spec,
    return_s, same_kind_v, start_spec, statement_s, PResult, ParserV, SyntaxErrV,
};
use crate::token::{same_kind, Token, TokenV};
use vstd::prelude::*;

verus! {

// ---------------------------------------------------------------------------------------------
// What a parsed program looks like
// ---------------------------------------------------------------------------------------------

/// The tokens that stand between the two operands of an infix expression.
pub open spec fn is_infix_operator(t: TokenV) -> bool {
    match t {
        TokenV::Equals | TokenV::NotEquals | TokenV::LessThan | TokenV::LessEq
        | TokenV::GreaterThan | TokenV::GreaterEq | TokenV::Plus | TokenV::Minus
        | TokenV::Slash | TokenV::Asterisk | TokenV::Exponent | TokenV::Modulo => true,
        _ => false,
    }
}

/// The tokens that stand before the operand of a prefix expression.
pub open spec fn is_prefix_operator(t: TokenV) -> bool {
    t == TokenV::Bang || t == TokenV::Minus
}

/// Every operator in the expression is an operator of its kind.
pub open spec fn expr_wf(e: NodeExpressionV) -> bool
    decreases e,
{
    match e.expression {
        ExpressionV::ArrayLiteral(v) => exprs_wf(v),
        ExpressionV::HashLiteral(v) => pairs_wf(v),
        ExpressionV::IndexExpression(a, b) => expr_wf(*a) && expr_wf(*b),
        ExpressionV::PrefixExpression(t, a) => is_prefix_operator(t) && expr_wf(*a),
        ExpressionV::InfixExpression(a, t, b) => is_infix_operator(t) && expr_wf(*a) && expr_wf(
            *b,
        ),
        ExpressionV::BlockExpression(v) => stmts_wf(v),
        ExpressionV::IfExpression { condition, consequence, alternative } => expr_wf(*condition)
            && stmts_wf(consequence) && stmts_wf(alternative),
        ExpressionV::FunctionLiteral { body, .. } => stmts_wf(body),
        ExpressionV::CallExpression { function, arguments } => expr_wf(*function) && exprs_wf(
            arguments,
        ),
        _ => true,
    }
}

pub open spec fn exprs_wf(s: Seq<NodeExpressionV>) -> bool
    decreases s,
{
    if s.len() == 0 {
        true
    } else {
        proof {
            vstd::seq::axiom_seq_len_decreases(s, s.drop_last());
        }
        exprs_wf(s.drop_last()) && expr_wf(s.last())
    }
}

pub open spec fn pairs_wf(s: Seq<(NodeExpressionV, NodeExpressionV)>) -> bool
    decreases s,
{
    if s.len() == 0 {
        true
    } else {
        proof {
            vstd::seq::axiom_seq_len_decreases(s, s.drop_last());
        }
        pairs_wf(s.drop_last()) && expr_wf(s.last().0) && expr_wf(s.last().1)
    }
}

pub open spec fn stmt_wf(st: NodeStatementV) -> bool
    decreases st,
{
    match st.statement {
        StatementV::Let(_, e) => expr_wf(*e),
        StatementV::Return(e) => expr_wf(*e),
        StatementV::ExpressionStatement(e) => expr_wf(*e),
    }
}

pub open spec fn stmts_wf(s: Seq<NodeStatementV>) -> bool
    decreases s,
{
    if s.len() == 0 {
        true
    } else {
        proof {
            vstd::seq::axiom_seq_len_decreases(s, s.drop_last());
        }
        stmts_wf(s.drop_last()) && stmt_wf(s.last())
    }
}

proof fn lemma_exprs_push(s: Seq<NodeExpression>, e: NodeExpression)
    ensures
        exprs_view(s.push(e)) == exprs_view(s).push(expr_view(e)),
        exprs_wf(exprs_view(s.push(e))) == (exprs_wf(exprs_view(s)) && expr_wf(expr_view(e))),
{
    assert(s.push(e).drop_last() =~= s);
    assert(exprs_view(s).push(expr_view(e)).drop_last() =~= exprs_view(s));
}

proof fn lemma_pairs_push(s: Seq<(NodeExpression, NodeExpression)>, p: (NodeExpression, NodeExpression))
    ensures
        pairs_view(s.push(p)) == pairs_view(s).push((expr_view(p.0), expr_view(p.1))),
        pairs_wf(pairs_view(s.push(p))) == (pairs_wf(pairs_view(s)) && expr_wf(expr_view(p.0))
            && expr_wf(expr_view(p.1))),
{
    assert(s.push(p).drop_last() =~= s);
    assert(pairs_view(s).push((expr_view(p.0), expr_view(p.1))).drop_last() =~= pairs_view(s));
}

proof fn lemma_stmts_push(s: Seq<NodeStatement>, st: NodeStatement)
    ensures
        stmts_view(s.push(st)) == stmts_view(s).push(stmt_view(st)),
        stmts_wf(stmts_view(s.push(st))) == (stmts_wf(stmts_view(s)) && stmt_wf(stmt_view(st))),
{
    assert(s.push(st).drop_last() =~= s);
    assert(stmts_view(s).push(stmt_view(st)).drop_last() =~= stmts_view(s));
}

// ---------------------------------------------------------------------------------------------
// Precedence
// ---------------------------------------------------------------------------------------------

/// The binding power of a token that follows an expression: 0 (lowest) for a token that does not
/// continue it, then equality, comparison, sum, product, exponent, (prefix), call, index.
pub open spec fn precedence_spec(t: TokenV) -> u8 {
    match t {
        TokenV::Equals | TokenV::NotEquals => 1,
        TokenV::LessThan | TokenV::LessEq | TokenV::GreaterThan | TokenV::GreaterEq => 2,
        TokenV::Plus | TokenV::Minus => 3,
        TokenV::Slash | TokenV::Asterisk | TokenV::Modulo => 4,
        TokenV::Exponent => 5,
        TokenV::OpenParen => 7,
        TokenV::OpenSquareBracket => 8,
        _ => 0,
    }
}

/// The precedence of the operand of a prefix operator.
pub const PREFIX_PRECEDENCE: u8 = 6;

/// The binding power of a token that follows an expression.
pub fn get_precedence(token: &Token) -> (r: u8)
    ensures
        r == precedence_spec(token@),
{
    match token {
        Token::Equals | Token::NotEquals => 1,
        Token::LessThan | Token::LessEq | Token::GreaterThan | Token::GreaterEq => 2,
        Token::Plus | Token::Minus => 3,
        Token::Slash | Token::Asterisk | Token::Modulo => 4,
        Token::Exponent => 5,
        Token::OpenParen => 7,
        Token::OpenSquareBracket => 8,
        _ => 0,
    }
}

// ---------------------------------------------------------------------------------------------
// The parser
// ---------------------------------------------------------------------------------------------

/// Builds the syntax tree of a program from the tokens of a lexer, reading one token ahead.
pub struct Parser {
    lexer: Lexer,
    current_token: Token,
    peek_token: Token,
    position: Position,
}

fn parser_err(position: Position, e: ParserError) -> (r: MonkeyError)
    ensures
        r == MonkeyError::Parser(position, e),
{
    MonkeyError::Parser(position, e)
}

/// The error of a parsing step as the model states it.
pub open spec fn perr(e: MonkeyError) -> SyntaxErrV {
    match e {
        MonkeyError::Lexer(p, x) => SyntaxErrV::Lexer(p, x),
        MonkeyError::Parser(p, x) => SyntaxErrV::Parser(p, x@),
        _ => SyntaxErrV::Other,
    }
}

pub open spec fn new_outcome(r: MonkeyResult<Parser>) -> Result<ParserV, SyntaxErrV> {
    match r {
        Ok(p) => Ok(p@),
        Err(x) => Err(perr(x)),
    }
}

pub open spec fn unit_outcome(r: MonkeyResult<()>, q: ParserV) -> Result<ParserV, SyntaxErrV> {
    match r {
        Ok(()) => Ok(q),
        Err(x) => Err(perr(x)),
    }
}

pub open spec fn expr_outcome(r: MonkeyResult<NodeExpression>, q: ParserV) -> PResult<NodeExpressionV> {
    match r {
        Ok(e) => Ok((expr_view(e), q)),
        Err(x) => Err(perr(x)),
    }
}

pub open spec fn stmt_outcome(r: MonkeyResult<NodeStatement>, q: ParserV) -> PResult<NodeStatementV> {
    match r {
        Ok(st) => Ok((stmt_view(st), q)),
        Err(x) => Err(perr(x)),
    }
}

pub open spec fn stmts_outcome(r: MonkeyResult<Vec<NodeStatement>>, q: ParserV) -> PResult<
    Seq<NodeStatementV>,
> {
    match r {
        Ok(v) => Ok((stmts_view(v@), q)),
        Err(x) => Err(perr(x)),
    }
}

pub open spec fn exprs_outcome(r: MonkeyResult<Vec<NodeExpression>>, q: ParserV) -> PResult<
    Seq<NodeExpressionV>,
> {
    match r {
        Ok(v) => Ok((exprs_view(v@), q)),
        Err(x) => Err(perr(x)),
    }
}

pub open spec fn let_outcome(r: MonkeyResult<(String, NodeExpression)>, q: ParserV) -> PResult<
    (Seq<char>, NodeExpressionV),
> {
    match r {
        Ok((name, e)) => Ok(((name@, expr_view(e)), q)),
        Err(x) => Err(perr(x)),
    }
}

pub open spec fn entry_outcome(r: MonkeyResult<(NodeExpression, NodeExpression)>, q: ParserV) -> PResult<
    (NodeExpressionV, NodeExpressionV),
> {
    match r {
        Ok((a, b)) => Ok(((expr_view(a), expr_view(b)), q)),
        Err(x) => Err(perr(x)),
    }
}

pub open spec fn params_outcome(r: MonkeyResult<Vec<String>>, q: ParserV) -> PResult<Seq<Seq<char>>> {
    match r {
        Ok(v) => Ok((strings_view(v@), q)),
        Err(x) => Err(perr(x)),
    }
}

proof fn lemma_same_kind(a: Token, b: Token)
    ensures
        same_kind(a, b) == same_kind_v(a@, b@),
{
}

impl View for Parser {
    type V = ParserV;

    closed spec fn view(&self) -> ParserV {
        ParserV {
            chars: self.lexer.stream(),
            poss: self.lexer.stream_positions(),
            ls: self.lexer.state(),
            cur: self.current_token@,
            peek: self.peek_token@,
            pos: self.position,
            tokpos: self.lexer.spec_token_position(),
        }
    }
}

impl Parser {
    /// The token being looked at.
    pub closed spec fn current(&self) -> Token {
        self.current_token
    }

    /// The invariant: the lexer is sound, the token after an end of input is another end of
    /// input, and only the end of input follows a lexer that has read all its input.
    pub closed spec fn wf(&self) -> bool {
        &&& self.lexer.wf()
        &&& 0 <= self.lexer.state().index <= self.lexer.stream().len()
        &&& self.peek_token is EOF ==> self.lexer.state().index == self.lexer.stream().len()
        &&& self.current_token is EOF ==> self.peek_token is EOF
    }

    /// A measure of the input left: it never grows, and shrinks with each token read before the
    /// end of input.
    pub closed spec fn fuel(&self) -> int {
        2 * (self.lexer.stream().len() - self.lexer.state().index) + (if self.peek_token is EOF {
            0int
        } else {
            1int
        }) + (if self.current_token is EOF {
            0int
        } else {
            1int
        })
    }

    /// Creates a parser that reads the tokens of `lexer`.
    pub fn new(lexer: Lexer) -> (r: MonkeyResult<Parser>)
        requires
            lexer.wf(),
        ensures
            new_outcome(r) == start_spec(lexer.stream(), lexer.stream_positions(), lexer.state()),
            r is Ok ==> r->Ok_0.wf(),
    {
        let mut lexer = lexer;
        let current_token = match lexer.next_token() {
            Ok(v) => v,
            Err(e) => return Err(e),
        };
        let position = lexer.token_position();
        let peek_token = match lexer.next_token() {
            Ok(v) => v,
            Err(e) => return Err(e),
        };
        proof {
            lexer.lemma_wf_bounds();
        }
        Ok(Parser { lexer, current_token, peek_token, position })
    }

    /// Parses the whole program: statements until the end of input.
    pub fn parse_program(&mut self) -> (r: MonkeyResult<Vec<NodeStatement>>)
        requires
            old(self).wf(),
        ensures
            stmts_outcome(r, final(self)@) == program_loop_s(old(self)@, seq![]),
            r is Ok ==> final(self).wf() && final(self).current() is EOF && stmts_wf(
                stmts_view(r->Ok_0@),
            ),
    {
        let mut program: Vec<NodeStatement> = Vec::new();
        assert(stmts_view(program@) =~= Seq::<NodeStatementV>::empty());
        while !matches!(self.current_token, Token::EOF)
            invariant
                self.wf(),
                stmts_wf(stmts_view(program@)),
                program_loop_s(old(self)@, seq![]) == program_loop_s(self@, stmts_view(program@)),
            decreases self.fuel(),
        {
            proof {
                reveal(program_loop_s);
            }
            let statement = match self.parse_statement() {
                Ok(v) => v,
                Err(e) => return Err(e),
            };
            proof {
                lemma_stmts_push(program@, statement);
            }
            program.push(statement);
            match self.read_token() {
                Ok(_) => {},
                Err(e) => return Err(e),
            }
        }
        proof {
            reveal(program_loop_s);
        }
        Ok(program)
    }

    /// Reads a token from the lexer: the peek token becomes the current one.
    fn read_token(&mut self) -> (r: MonkeyResult<()>)
        requires
            old(self).wf(),
        ensures
            unit_outcome(r, final(self)@) == read_spec(old(self)@),
            r is Ok ==> {
                &&& final(self).wf()
                &&& final(self).fuel() <= old(self).fuel()
                &&& !(old(self).current_token is EOF) ==> final(self).fuel() < old(self).fuel()
                &&& final(self).current_token == old(self).peek_token
            },
    {
        self.position = self.lexer.token_position();
        let mut next = match self.lexer.next_token() {
            Ok(v) => v,
            Err(e) => return Err(e),
        };
        proof {
            self.lexer.lemma_wf_bounds();
        }
        std::mem::swap(&mut self.peek_token, &mut next);
        self.current_token = next;
        Ok(())
    }

    /// Reads the peek token if it is of the kind of `expected`; fails otherwise.
    fn expect_token(&mut self, expected: Token) -> (r: MonkeyResult<()>)
        requires
            old(self).wf(),
            !(expected is EOF),
        ensures
            unit_outcome(r, final(self)@) == expect_spec(old(self)@, expected@),
            r is Ok ==> {
                &&& final(self).wf()
                &&& final(self).fuel() < old(self).fuel()
                &&& same_kind(final(self).current_token, expected)
            },
    {
        if self.peek_token.same_kind_as(&expected) {
            match self.read_token() {
                Ok(_) => {},
                Err(e) => return Err(e),
            }
            Ok(())
        } else {
            let got = clone_token(&self.peek_token);
            Err(parser_err(self.position, ParserError::UnexpectedToken(expected, got)))
        }
    }

    /// Like `expect_token`, but also accepts the end of input, which it does not read.
    fn expect_token_or_eof(&mut self, expected: Token) -> (r: MonkeyResult<()>)
        requires
            old(self).wf(),
            !(expected is EOF),
        ensures
            unit_outcome(r, final(self)@) == expect_or_eof_spec(old(self)@, expected@),
            r is Ok ==> {
                &&& final(self).wf()
                &&& final(self).fuel() <= old(self).fuel()
                &&& !(old(self).current_token is EOF) ==> !(final(self).current_token is EOF)
            },
    {
        if self.peek_token.same_kind_as(&expected) {
            match self.read_token() {
                Ok(_) => {},
                Err(e) => return Err(e),
            }
            Ok(())
        } else if matches!(self.peek_token, Token::EOF) {
            Ok(())
        } else {
            let got = clone_token(&self.peek_token);
            Err(parser_err(self.position, ParserError::UnexpectedToken(expected, got)))
        }
    }

    /// Like `expect_token`, with more than one kind of token accepted.
    fn expect_token_multiple(&mut self, possibilities: Vec<Token>) -> (r: MonkeyResult<()>)
        requires
            old(self).wf(),
            forall|i: int| 0 <= i < possibilities@.len() ==> !(possibilities@[i] is EOF),
        ensures
            unit_outcome(r, final(self)@) == expect_multiple_spec(old(self)@, tokens_view(possibilities@)),
            r is Ok ==> {
                &&& final(self).wf()
                &&& final(self).fuel() < old(self).fuel()
                &&& exists|i: int|
                    0 <= i < possibilities@.len() && same_kind(
                        final(self).current_token,
                        #[trigger] possibilities@[i],
                    )
            },
    {
        let mut found = false;
        let mut i: usize = 0;
        while i < possibilities.len()
            invariant
                i <= possibilities@.len(),
                found ==> exists|k: int|
                    0 <= k < possibilities@.len() && same_kind(
                        self.peek_token,
                        #[trigger] possibilities@[k],
                    ),
                found <==> exists|k: int|
                    0 <= k < i && same_kind_v(
                        self.peek_token@,
                        #[trigger] tokens_view(possibilities@)[k],
                    ),
            decreases possibilities@.len() - i,
        {
            proof {
                lemma_same_kind(self.peek_token, possibilities@[i as int]);
                assert(tokens_view(possibilities@)[i as int] == possibilities@[i as int]@);
            }
            if self.peek_token.same_kind_as(&possibilities[i]) {
                found = true;
            }
            i = i + 1;
        }
        if !found {
            let got = clone_token(&self.peek_token);
            Err(
                parser_err(
                    self.position,
                    ParserError::UnexpectedTokenMultiple { possibilities, got },
                ),
            )
        } else {
            match self.read_token() {
                Ok(_) => {},
                Err(e) => return Err(e),
            }
            Ok(())
        }
    }

    /// Reads the peek token if it is of the kind of `expected`.
    fn consume_optional_token(&mut self, expected: Token) -> (r: MonkeyResult<()>)
        requires
            old(self).wf(),
            !(expected is EOF),
        ensures
            unit_outcome(r, final(self)@) == consume_optional_spec(old(self)@, expected@),
            r is Ok ==> {
                &&& final(self).wf()
                &&& final(self).fuel() <= old(self).fuel()
                &&& !(old(self).current_token is EOF) ==> !(final(self).current_token is EOF)
            },
    {
        if self.peek_token.same_kind_as(&expected) {
            match self.read_token() {
                Ok(_) => {},
                Err(e) => return Err(e),
            }
        }
        Ok(())
    }

    /// Parses a statement: a `let` statement, a `return` statement or an expression statement.
    #[verifier::spinoff_prover]
    fn parse_statement(&mut self) -> (r: MonkeyResult<NodeStatement>)
        requires
            old(self).wf(),
        ensures
            stmt_outcome(r, final(self)@) == statement_s(old(self)@),
            r is Ok ==> {
                &&& final(self).wf()
                &&& final(self).fuel() <= old(self).fuel()
                &&& !(final(self).current_token is EOF)
                &&& stmt_wf(stmt_view(r->Ok_0))
            },
        decreases old(self).fuel(), 6int,
    {
        proof {
            reveal(statement_s);
            reveal(let_s);
            reveal(return_s);
            reveal(expr_stmt_s);
        }
        let position = self.position;
        let statement = match self.current_token {
            Token::Let => {
                let let_st = match self.parse_let_statement() {
                    Ok(v) => v,
                    Err(e) => return Err(e),
                };
                Statement::Let(Box::new(let_st))
            },
            Token::Return => {
                let exp = match self.parse_return_statement() {
                    Ok(v) => v,
                    Err(e) => return Err(e),
                };
                Statement::Return(Box::new(exp))
            },
            _ => {
                let exp = match self.parse_expression_statement() {
                    Ok(v) => v,
                    Err(e) => return Err(e),
                };
                Statement::ExpressionStatement(Box::new(exp))
            },
        };
        Ok(NodeStatement { position, statement })
    }

    /// Parses a `let` statement: an identifier, `=` and an expression; the current token is
    /// `let`.
    #[verifier::spinoff_prover]
    fn parse_let_statement(&mut self) -> (r: MonkeyResult<(String, NodeExpression)>)
        requires
            old(self).wf(),
            old(self).current_token is Let,
        ensures
            let_outcome(r, final(self)@) == let_s(old(self)@),
            r is Ok ==> {
                &&& final(self).wf()
                &&& final(self).fuel() <= old(self).fuel()
                &&& !(final(self).current_token is EOF)
                &&& expr_wf(expr_view(r->Ok_0.1))
            },
        decreases old(self).fuel(), 5int,
    {
        proof {
            reveal(let_s);
            reveal(expression_s);
        }
        match self.read_token() {
            Ok(_) => {},
            Err(e) => return Err(e),
        }
        match &self.current_token {
            Token::Identifier(iden) => {
                let identifier = iden.clone();
                match self.expect_token(Token::Assign) {
                    Ok(_) => {},
                    Err(e) => return Err(e),
                }
                match self.read_token() {
                    Ok(_) => {},
                    Err(e) => return Err(e),
                }
                let value = match self.parse_expression(0) {
                    Ok(v) => v,
                    Err(e) => return Err(e),
                };
                match self.expect_token_or_eof(Token::Semicolon) {
                    Ok(_) => {},
                    Err(e) => return Err(e),
                }
                Ok((identifier, value))
            },
            _ => {
                let got = clone_token(&self.current_token);
                Err(
                    parser_err(
                        self.position,
                        ParserError::UnexpectedToken(Token::Identifier(String::new()), got),
                    ),
                )
            },
        }
    }

    /// Parses a `return` statement; with no expression, the value returned is `nil`. The current
    /// token is `return`.
    #[verifier::spinoff_prover]
    fn parse_return_statement(&mut self) -> (r: MonkeyResult<NodeExpression>)
        requires
            old(self).wf(),
            old(self).current_token is Return,
        ensures
            expr_outcome(r, final(self)@) == return_s(old(self)@),
            r is Ok ==> {
                &&& final(self).wf()
                &&& final(self).fuel() <= old(self).fuel()
                &&& !(final(self).current_token is EOF)
                &&& expr_wf(expr_view(r->Ok_0))
            },
        decreases old(self).fuel(), 5int,
    {
        proof {
            reveal(return_s);
            reveal(expression_s);
        }
        let return_value = if matches!(self.peek_token, Token::Semicolon) {
            NodeExpression { position: self.position, expression: Expression::Nil }
        } else {
            match self.read_token() {
                Ok(_) => {},
                Err(e) => return Err(e),
            }
            match self.parse_expression(0) {
                Ok(v) => v,
                Err(e) => return Err(e),
            }
        };
        match self.expect_token_or_eof(Token::Semicolon) {
            Ok(_) => {},
            Err(e) => return Err(e),
        }
        Ok(return_value)
    }

    /// Parses an expression statement. The semicolon after it may be left out after an `if`
    /// expression, a function literal or a block expression, and before `}` or the end of input.
    #[verifier::spinoff_prover]
    fn parse_expression_statement(&mut self) -> (r: MonkeyResult<NodeExpression>)
        requires
            old(self).wf(),
        ensures
            expr_outcome(r, final(self)@) == expr_stmt_s(old(self)@),
            r is Ok ==> {
                &&& final(self).wf()
                &&& final(self).fuel() <= old(self).fuel()
                &&& !(final(self).current_token is EOF)
                &&& expr_wf(expr_view(r->Ok_0))
            },
        decreases old(self).fuel(), 5int,
    {
        proof {
            reveal(expr_stmt_s);
            reveal(expression_s);
        }
        let exp = match self.parse_expression(0) {
            Ok(v) => v,
            Err(e) => return Err(e),
        };
        match exp.expression {
            Expression::IfExpression { .. }
            | Expression::FunctionLiteral { .. }
            | Expression::BlockExpression(_) => {
                match self.consume_optional_token(Token::Semicolon) {
                    Ok(_) => {},
                    Err(e) => return Err(e),
                }
            },
            _ => {
                if !matches!(self.peek_token, Token::CloseCurlyBrace) && !matches!(
                    self.peek_token,
                    Token::EOF,
                ) {
                    match self.expect_token(Token::Semicolon) {
                        Ok(_) => {},
                        Err(e) => return Err(e),
                    }
                }
            },
        }
        Ok(exp)
    }

    /// Parses the statements of a block up to its `}`; the current token is `{`.
    #[verifier::spinoff_prover]
    fn parse_block_statement(&mut self) -> (r: MonkeyResult<Vec<NodeStatement>>)
        requires
            old(self).wf(),
            !(old(self).current_token is EOF),
        ensures
            stmts_outcome(r, final(self)@) == block_s(old(self)@),
            r is Ok ==> {
                &&& final(self).wf()
                &&& final(self).fuel() < old(self).fuel()
                &&& final(self).current_token is CloseCurlyBrace
                &&& stmts_wf(stmts_view(r->Ok_0@))
            },
        decreases old(self).fuel(), 1int,
    {
        proof {
            reveal(block_s);
            reveal(block_loop_s);
            reveal(statement_s);
        }
        let ghost f0 = self.fuel();
        match self.read_token() {
            Ok(_) => {},
            Err(e) => return Err(e),
        }
        let mut statements: Vec<NodeStatement> = Vec::new();
        assert(stmts_view(statements@) =~= Seq::<NodeStatementV>::empty());
        while !matches!(self.current_token, Token::CloseCurlyBrace)
            invariant
                self.wf(),
                self.fuel() < f0,
                f0 == old(self).fuel(),
                stmts_wf(stmts_view(statements@)),
                block_s(old(self)@) == block_loop_s(self@, stmts_view(statements@)),
            decreases self.fuel(),
        {
            proof {
                reveal(block_loop_s);
                reveal(statement_s);
            }
            let statement = match self.parse_statement() {
                Ok(v) => v,
                Err(e) => return Err(e),
            };
            proof {
                lemma_stmts_push(statements@, statement);
            }
            statements.push(statement);
            match self.read_token() {
                Ok(_) => {},
                Err(e) => return Err(e),
            }
        }
        Ok(statements)
    }

    /// Parses an expression whose operators bind more tightly than `precedence`: a prefix part,
    /// then infix operators, calls and indexing as long as they bind more tightly.
    #[verifier::spinoff_prover]
    fn parse_expression(&mut self, precedence: u8) -> (r: MonkeyResult<NodeExpression>)
        requires
            old(self).wf(),
        ensures
            expr_outcome(r, final(self)@) == expression_s(old(self)@, precedence),
            r is Ok ==> {
                &&& final(self).wf()
                &&& final(self).fuel() <= old(self).fuel()
                &&& !(final(self).current_token is EOF)
                &&& expr_wf(expr_view(r->Ok_0))
            },
        decreases old(self).fuel(), 4int,
    {
        proof {
            reveal(expression_s);
            reveal(expr_loop_s);
            reveal(prefix_s);
            reveal(infix_s);
        }
        let ghost f0 = self.fuel();
        let mut left_expression = match self.parse_prefix() {
            Ok(v) => v,
            Err(e) => return Err(e),
        };
        while !matches!(self.peek_token, Token::Semicolon) && precedence < get_precedence(
            &self.peek_token,
        )
            invariant
                self.wf(),
                self.fuel() <= f0,
                f0 == old(self).fuel(),
                !(self.current_token is EOF),
                expr_wf(expr_view(left_expression)),
                expression_s(old(self)@, precedence) == expr_loop_s(
                    self@,
                    expr_view(left_expression),
                    precedence,
                ),
            decreases self.fuel(),
        {
            proof {
                reveal(expr_loop_s);
                reveal(infix_s);
            }
            match self.read_token() {
                Ok(_) => {},
                Err(e) => return Err(e),
            }
            left_expression = match self.parse_infix(left_expression) {
                Ok(v) => v,
                Err(e) => return Err(e),
            };
        }
        Ok(left_expression)
    }

    /// Parses the expression that starts with the current token.
    #[verifier::spinoff_prover]
    fn parse_prefix(&mut self) -> (r: MonkeyResult<NodeExpression>)
        requires
            old(self).wf(),
        ensures
            expr_outcome(r, final(self)@) == prefix_s(old(self)@),
            r is Ok ==> {
                &&& final(self).wf()
                &&& final(self).fuel() <= old(self).fuel()
                &&& !(final(self).current_token is EOF)
                &&& expr_wf(expr_view(r->Ok_0))
            },
        decreases old(self).fuel(), 3int,
    {
        proof {
            reveal(prefix_s);
            reveal(prefix_expr_s);
            reveal(grouped_s);
            reveal(block_expr_s);
            reveal(array_s);
            reveal(hash_s);
            reveal(if_s);
            reveal(function_s);
        }
        let position = self.position;
        match &self.current_token {
            Token::Identifier(s) => Ok(
                NodeExpression { position, expression: Expression::Identifier(s.clone()) },
            ),
            Token::Int(x) => Ok(NodeExpression { position, expression: Expression::IntLiteral(*x) }),
            Token::Str(s) => Ok(
                NodeExpression { position, expression: Expression::StringLiteral(s.clone()) },
            ),
            Token::Bang | Token::Minus => self.parse_prefix_expression(),
            Token::OpenParen => self.parse_grouped_expression(),
            Token::OpenCurlyBrace => self.parse_block_expression(),
            Token::OpenSquareBracket => self.parse_array_literal(),
            Token::OpenHash => self.parse_hash_literal(),
            Token::True => Ok(NodeExpression { position, expression: Expression::Boolean(true) }),
            Token::False => Ok(NodeExpression { position, expression: Expression::Boolean(false) }),
            Token::If => self.parse_if_expression(),
            Token::Function => self.parse_function_literal(),
            Token::Nil => Ok(NodeExpression { position, expression: Expression::Nil }),
            _ => {
                let t = clone_token(&self.current_token);
                Err(parser_err(position, ParserError::NoPrefixParseFn(t)))
            },
        }
    }

    /// Continues the expression `left` with the current token: an infix operator, `(` of a call
    /// or `[` of an index.
    #[verifier::spinoff_prover]
    fn parse_infix(&mut self, left: NodeExpression) -> (r: MonkeyResult<NodeExpression>)
        requires
            old(self).wf(),
            precedence_spec(old(self).current_token@) > 0,
            expr_wf(expr_view(left)),
        ensures
            expr_outcome(r, final(self)@) == infix_s(old(self)@, expr_view(left)),
            r is Ok ==> {
                &&& final(self).wf()
                &&& final(self).fuel() <= old(self).fuel()
                &&& !(final(self).current_token is EOF)
                &&& expr_wf(expr_view(r->Ok_0))
            },
        decreases old(self).fuel(), 3int,
    {
        proof {
            reveal(infix_s);
            reveal(call_s);
            reveal(index_s);
            reveal(infix_expr_s);
        }
        match self.current_token {
            Token::OpenParen => self.parse_call_expression(left),
            Token::OpenSquareBracket => self.parse_index_expression(left),
            _ => self.parse_infix_expression(left),
        }
    }

    /// Parses a prefix expression: `!` or `-` and its operand.
    #[verifier::spinoff_prover]
    fn parse_prefix_expression(&mut self) -> (r: MonkeyResult<NodeExpression>)
        requires
            old(self).wf(),
            old(self).current_token is Bang || old(self).current_token is Minus,
        ensures
            expr_outcome(r, final(self)@) == prefix_expr_s(old(self)@),
            r is Ok ==> {
                &&& final(self).wf()
                &&& final(self).fuel() <= old(self).fuel()
                &&& !(final(self).current_token is EOF)
                &&& expr_wf(expr_view(r->Ok_0))
            },
        decreases old(self).fuel(), 2int,
    {
        proof {
            reveal(prefix_expr_s);
            reveal(expression_s);
        }
        let position = self.position;
        let operator = clone_token(&self.current_token);
        match self.read_token() {
            Ok(_) => {},
            Err(e) => return Err(e),
        }
        let right_side = match self.parse_expression(PREFIX_PRECEDENCE) {
            Ok(v) => v,
            Err(e) => return Err(e),
        };
        Ok(
            NodeExpression {
                position,
                expression: Expression::PrefixExpression(operator, Box::new(right_side)),
            },
        )
    }

    /// Parses the right operand of an infix operator, the current token.
    #[verifier::spinoff_prover]
    fn parse_infix_expression(&mut self, left_side: NodeExpression) -> (r: MonkeyResult<
        NodeExpression,
    >)
        requires
            old(self).wf(),
            is_infix_operator(old(self).current_token@),
            expr_wf(expr_view(left_side)),
        ensures
            expr_outcome(r, final(self)@) == infix_expr_s(old(self)@, expr_view(left_side)),
            r is Ok ==> {
                &&& final(self).wf()
                &&& final(self).fuel() <= old(self).fuel()
                &&& !(final(self).current_token is EOF)
                &&& expr_wf(expr_view(r->Ok_0))
            },
        decreases old(self).fuel(), 2int,
    {
        proof {
            reveal(infix_expr_s);
            reveal(expression_s);
        }
        let position = self.position;
        let operator = clone_token(&self.current_token);
        let precedence = get_precedence(&operator);
        match self.read_token() {
            Ok(_) => {},
            Err(e) => return Err(e),
        }
        let right_side = match self.parse_expression(precedence) {
            Ok(v) => v,
            Err(e) => return Err(e),
        };
        Ok(
            NodeExpression {
                position,
                expression: Expression::InfixExpression(
                    Box::new(left_side),
                    operator,
                    Box::new(right_side),
                ),
            },
        )
    }

    /// Parses an `if` expression, with its optional `else` branch, which may be another `if`
    /// expression.
    #[verifier::spinoff_prover]
    #[verifier::rlimit(60)]
    fn parse_if_expression(&mut self) -> (r: MonkeyResult<NodeExpression>)
        requires
            old(self).wf(),
            old(self).current_token is If,
        ensures
            expr_outcome(r, final(self)@) == if_s(old(self)@),
            r is Ok ==> {
                &&& final(self).wf()
                &&& final(self).fuel() <= old(self).fuel()
                &&& !(final(self).current_token is EOF)
                &&& expr_wf(expr_view(r->Ok_0))
            },
        decreases old(self).fuel(), 2int,
    {
        proof {
            reveal(if_s);
            reveal(expression_s);
            reveal(block_s);
            reveal(statement_s);
        }
        let ghost f0 = self.fuel();
        let position = self.position;
        match self.read_token() {
            Ok(_) => {},
            Err(e) => return Err(e),
        }
        let condition = match self.parse_expression(0) {
            Ok(v) => v,
            Err(e) => return Err(e),
        };
        match self.expect_token(Token::OpenCurlyBrace) {
            Ok(_) => {},
            Err(e) => return Err(e),
        }
        let consequence = match self.parse_block_statement() {
            Ok(v) => v,
            Err(e) => return Err(e),
        };
        let alternative = if matches!(self.peek_token, Token::Else) {
            match self.read_token() {
                Ok(_) => {},
                Err(e) => return Err(e),
            }
            let choices = vec![Token::OpenCurlyBrace, Token::If];
            assert(tokens_view(choices@) =~= seq![TokenV::OpenCurlyBrace, TokenV::If]);
            match self.expect_token_multiple(choices) {
                Ok(_) => {},
                Err(e) => return Err(e),
            }
            if matches!(self.current_token, Token::OpenCurlyBrace) {
                match self.parse_block_statement() {
                    Ok(v) => v,
                    Err(e) => return Err(e),
                }
            } else {
                let st = match self.parse_statement() {
                    Ok(v) => v,
                    Err(e) => return Err(e),
                };
                proof {
                    lemma_stmts_push(Seq::empty(), st);
                }
                let mut v: Vec<NodeStatement> = Vec::new();
                v.push(st);
                assert(v@ =~= Seq::<NodeStatement>::empty().push(st));
                assert(stmts_wf(stmts_view(v@)));
                v
            }
        } else {
            let v: Vec<NodeStatement> = Vec::new();
            assert(stmts_view(v@) =~= Seq::<NodeStatementV>::empty());
            assert(stmts_wf(stmts_view(v@)));
            v
        };
        assert(expr_wf(expr_view(condition)));
        assert(stmts_wf(stmts_view(consequence@)));
        assert(stmts_wf(stmts_view(alternative@)));
        Ok(
            NodeExpression {
                position,
                expression: Expression::IfExpression {
                    condition: Box::new(condition),
                    consequence,
                    alternative,
                },
            },
        )
    }

    /// Parses a function literal: its parameters and its body.
    #[verifier::spinoff_prover]
    fn parse_function_literal(&mut self) -> (r: MonkeyResult<NodeExpression>)
        requires
            old(self).wf(),
            old(self).current_token is Function,
        ensures
            expr_outcome(r, final(self)@) == function_s(old(self)@),
            r is Ok ==> {
                &&& final(self).wf()
                &&& final(self).fuel() <= old(self).fuel()
                &&& !(final(self).current_token is EOF)
                &&& expr_wf(expr_view(r->Ok_0))
            },
        decreases old(self).fuel(), 2int,
    {
        proof {
            reveal(function_s);
            reveal(block_s);
        }
        let position = self.position;
        match self.expect_token(Token::OpenParen) {
            Ok(_) => {},
            Err(e) => return Err(e),
        }
        let parameters = match self.parse_function_parameters() {
            Ok(v) => v,
            Err(e) => return Err(e),
        };
        match self.expect_token(Token::OpenCurlyBrace) {
            Ok(_) => {},
            Err(e) => return Err(e),
        }
        let body = match self.parse_block_statement() {
            Ok(v) => v,
            Err(e) => return Err(e),
        };
        Ok(NodeExpression { position, expression: Expression::FunctionLiteral { parameters, body } })
    }

    /// Parses a call: the arguments after the current `(`.
    #[verifier::spinoff_prover]
    fn parse_call_expression(&mut self, function: NodeExpression) -> (r: MonkeyResult<
        NodeExpression,
    >)
        requires
            old(self).wf(),
            old(self).current_token is OpenParen,
            expr_wf(expr_view(function)),
        ensures
            expr_outcome(r, final(self)@) == call_s(old(self)@, expr_view(function)),
            r is Ok ==> {
                &&& final(self).wf()
                &&& final(self).fuel() <= old(self).fuel()
                &&& !(final(self).current_token is EOF)
                &&& expr_wf(expr_view(r->Ok_0))
            },
        decreases old(self).fuel(), 2int,
    {
        proof {
            reveal(call_s);
            reveal(list_s);
        }
        let position = self.position;
        let arguments = match self.parse_expression_list(Token::CloseParen) {
            Ok(v) => v,
            Err(e) => return Err(e),
        };
        Ok(
            NodeExpression {
                position,
                expression: Expression::CallExpression { function: Box::new(function), arguments },
            },
        )
    }

    /// Parses a parameter list: identifiers separated by commas, up to `)`; the current token
    /// is `(`.
    fn parse_function_parameters(&mut self) -> (r: MonkeyResult<Vec<String>>)
        requires
            old(self).wf(),
            !(old(self).current_token is EOF),
        ensures
            params_outcome(r, final(self)@) == params_s(old(self)@),
            r is Ok ==> {
                &&& final(self).wf()
                &&& final(self).fuel() < old(self).fuel()
                &&& !(final(self).current_token is EOF)
            },
    {
        proof {
            reveal(params_loop_s);
        }
        let mut params: Vec<String> = Vec::new();
        assert(strings_view(params@) =~= Seq::<Seq<char>>::empty());
        if matches!(self.peek_token, Token::CloseParen) {
            match self.read_token() {
                Ok(_) => {},
                Err(e) => return Err(e),
            }
            return Ok(params);
        }
        let ghost f0 = self.fuel();
        match self.expect_token(Token::Identifier(String::new())) {
            Ok(_) => {},
            Err(e) => return Err(e),
        }
        loop
            invariant
                self.wf(),
                self.fuel() < f0,
                f0 == old(self).fuel(),
                params_s(old(self)@) == params_loop_s(self@, strings_view(params@)),
            ensures
                self.wf(),
                self.fuel() < f0,
                params_s(old(self)@) == params_loop_s(self@, strings_view(params@)),
                !(self.current_token is Identifier),
            decreases self.fuel(),
        {
            proof {
                reveal(params_loop_s);
            }
            let ghost acc = strings_view(params@);
            match &self.current_token {
                Token::Identifier(iden) => {
                    params.push(iden.clone());
                    assert(strings_view(params@) =~= acc.push(iden@));
                },
                _ => {
                    break ;
                },
            }
            let choices = vec![Token::Comma, Token::CloseParen];
            assert(tokens_view(choices@) =~= seq![TokenV::Comma, TokenV::CloseParen]);
            match self.expect_token_multiple(choices) {
                Ok(_) => {},
                Err(e) => return Err(e),
            }
            if matches!(self.current_token, Token::CloseParen) {
                return Ok(params);
            }
            match self.expect_token(Token::Identifier(String::new())) {
                Ok(_) => {},
                Err(e) => return Err(e),
            }
        }
        match self.expect_token(Token::CloseParen) {
            Ok(_) => {},
            Err(e) => return Err(e),
        }
        Ok(params)
    }

    /// Parses an expression in parentheses; the current token is `(`.
    #[verifier::spinoff_prover]
    fn parse_grouped_expression(&mut self) -> (r: MonkeyResult<NodeExpression>)
        requires
            old(self).wf(),
            old(self).current_token is OpenParen,
        ensures
            expr_outcome(r, final(self)@) == grouped_s(old(self)@),
            r is Ok ==> {
                &&& final(self).wf()
                &&& final(self).fuel() <= old(self).fuel()
                &&& !(final(self).current_token is EOF)
                &&& expr_wf(expr_view(r->Ok_0))
            },
        decreases old(self).fuel(), 2int,
    {
        proof {
            reveal(grouped_s);
            reveal(expression_s);
        }
        match self.read_token() {
            Ok(()) => {},
            Err(e) => return Err(e),
        }
        let exp = match self.parse_expression(0) {
            Ok(v) => v,
            Err(e) => return Err(e),
        };
        match self.expect_token(Token::CloseParen) {
            Ok(_) => {},
            Err(e) => return Err(e),
        }
        Ok(exp)
    }

    /// Parses an array literal; the current token is `[`.
    #[verifier::spinoff_prover]
    fn parse_array_literal(&mut self) -> (r: MonkeyResult<NodeExpression>)
        requires
            old(self).wf(),
            old(self).current_token is OpenSquareBracket,
        ensures
            expr_outcome(r, final(self)@) == array_s(old(self)@),
            r is Ok ==> {
                &&& final(self).wf()
                &&& final(self).fuel() <= old(self).fuel()
                &&& !(final(self).current_token is EOF)
                &&& expr_wf(expr_view(r->Ok_0))
            },
        decreases old(self).fuel(), 2int,
    {
        proof {
            reveal(array_s);
            reveal(list_s);
        }
        let elements = match self.parse_expression_list(Token::CloseSquareBracket) {
            Ok(v) => v,
            Err(e) => return Err(e),
        };
        Ok(NodeExpression { position: self.position, expression: Expression::ArrayLiteral(elements) })
    }

    /// Parses an index after the current `[`.
    #[verifier::spinoff_prover]
    fn parse_index_expression(&mut self, left: NodeExpression) -> (r: MonkeyResult<NodeExpression>)
        requires
            old(self).wf(),
            old(self).current_token is OpenSquareBracket,
            expr_wf(expr_view(left)),
        ensures
            expr_outcome(r, final(self)@) == index_s(old(self)@, expr_view(left)),
            r is Ok ==> {
                &&& final(self).wf()
                &&& final(self).fuel() <= old(self).fuel()
                &&& !(final(self).current_token is EOF)
                &&& expr_wf(expr_view(r->Ok_0))
            },
        decreases old(self).fuel(), 2int,
    {
        proof {
            reveal(index_s);
            reveal(expression_s);
        }
        match self.read_token() {
            Ok(_) => {},
            Err(e) => return Err(e),
        }
        let index = match self.parse_expression(0) {
            Ok(v) => v,
            Err(e) => return Err(e),
        };
        match self.expect_token(Token::CloseSquareBracket) {
            Ok(_) => {},
            Err(e) => return Err(e),
        }
        Ok(
            NodeExpression {
                position: self.position,
                expression: Expression::IndexExpression(Box::new(left), Box::new(index)),
            },
        )
    }

    /// Parses a hash literal; the current token is `#{`.
    #[verifier::spinoff_prover]
    #[verifier::rlimit(60)]
    fn parse_hash_literal(&mut self) -> (r: MonkeyResult<NodeExpression>)
        requires
            old(self).wf(),
            old(self).current_token is OpenHash,
        ensures
            expr_outcome(r, final(self)@) == hash_s(old(self)@),
            r is Ok ==> {
                &&& final(self).wf()
                &&& final(self).fuel() <= old(self).fuel()
                &&& !(final(self).current_token is EOF)
                &&& expr_wf(expr_view(r->Ok_0))
            },
        decreases old(self).fuel(), 2int,
    {
        proof {
            reveal(hash_s);
            reveal(hash_entry_s);
            reveal(hash_loop_s);
        }
        let ghost f0 = self.fuel();
        let position = self.position;
        let mut entries: Vec<(NodeExpression, NodeExpression)> = Vec::new();
        if matches!(self.peek_token, Token::CloseCurlyBrace) {
            match self.read_token() {
                Ok(_) => {},
                Err(e) => return Err(e),
            }
            assert(pairs_view(entries@) =~= Seq::<(NodeExpressionV, NodeExpressionV)>::empty());
            assert(pairs_wf(pairs_view(entries@)));
            assert(expr_view(NodeExpression { position, expression: Expression::HashLiteral(entries) }).expression == ExpressionV::HashLiteral(seq![]));
            assert(!(self.current_token is EOF));
            return Ok(NodeExpression { position, expression: Expression::HashLiteral(entries) });
        }
        match self.read_token() {
            Ok(_) => {},
            Err(e) => return Err(e),
        }
        let entry = match self.parse_hash_entry() {
            Ok(v) => v,
            Err(e) => return Err(e),
        };
        proof {
            lemma_pairs_push(entries@, entry);
        }
        entries.push(entry);
        proof {
            assert(pairs_view(entries@) =~= seq![(expr_view(entry.0), expr_view(entry.1))]);
        }
        while matches!(self.peek_token, Token::Comma)
            invariant
                self.wf(),
                self.fuel() < f0,
                f0 == old(self).fuel(),
                !(self.current_token is EOF),
                pairs_wf(pairs_view(entries@)),
                position == old(self)@.pos,
                hash_s(old(self)@) == hash_finish(old(self)@, hash_loop_s(self@, pairs_view(entries@))),
            decreases self.fuel(),
        {
            proof {
                reveal(hash_loop_s);
                reveal(hash_entry_s);
            }
            match self.read_token() {
                Ok(_) => {},
                Err(e) => return Err(e),
            }
            match self.read_token() {
                Ok(_) => {},
                Err(e) => return Err(e),
            }
            let entry = match self.parse_hash_entry() {
                Ok(v) => v,
                Err(e) => return Err(e),
            };
            proof {
                lemma_pairs_push(entries@, entry);
            }
            entries.push(entry);
        }
        match self.expect_token(Token::CloseCurlyBrace) {
            Ok(_) => {},
            Err(e) => return Err(e),
        }
        Ok(NodeExpression { position, expression: Expression::HashLiteral(entries) })
    }

    /// Parses a hash entry: two expressions separated by `:`.
    #[verifier::spinoff_prover]
    fn parse_hash_entry(&mut self) -> (r: MonkeyResult<(NodeExpression, NodeExpression)>)
        requires
            old(self).wf(),
        ensures
            entry_outcome(r, final(self)@) == hash_entry_s(old(self)@),
            r is Ok ==> {
                &&& final(self).wf()
                &&& final(self).fuel() <= old(self).fuel()
                &&& !(final(self).current_token is EOF)
                &&& expr_wf(expr_view(r->Ok_0.0))
                &&& expr_wf(expr_view(r->Ok_0.1))
            },
        decreases old(self).fuel(), 5int,
    {
        proof {
            reveal(hash_entry_s);
            reveal(expression_s);
        }
        let key = match self.parse_expression(0) {
            Ok(v) => v,
            Err(e) => return Err(e),
        };
        match self.expect_token(Token::Colon) {
            Ok(_) => {},
            Err(e) => return Err(e),
        }
        match self.read_token() {
            Ok(_) => {},
            Err(e) => return Err(e),
        }
        let value = match self.parse_expression(0) {
            Ok(v) => v,
            Err(e) => return Err(e),
        };
        Ok((key, value))
    }

    /// Parses a block expression; the current token is `{`.
    #[verifier::spinoff_prover]
    #[verifier::rlimit(40)]
    fn parse_block_expression(&mut self) -> (r: MonkeyResult<NodeExpression>)
        requires
            old(self).wf(),
            old(self).current_token is OpenCurlyBrace,
        ensures
            expr_outcome(r, final(self)@) == block_expr_s(old(self)@),
            r is Ok ==> {
                &&& final(self).wf()
                &&& final(self).fuel() <= old(self).fuel()
                &&& !(final(self).current_token is EOF)
                &&& expr_wf(expr_view(r->Ok_0))
            },
        decreases old(self).fuel(), 2int,
    {
        proof {
            reveal(block_expr_s);
            reveal(block_s);
        }
        let position = self.position;
        let block = match self.parse_block_statement() {
            Ok(v) => v,
            Err(e) => return Err(e),
        };
        Ok(NodeExpression { position, expression: Expression::BlockExpression(block) })
    }

    /// Parses expressions separated by commas, up to `closing_token`; the current token is the
    /// one that opens the list.
    #[verifier::spinoff_prover]
    fn parse_expression_list(&mut self, closing_token: Token) -> (r: MonkeyResult<
        Vec<NodeExpression>,
    >)
        requires
            old(self).wf(),
            !(old(self).current_token is EOF),
            !(closing_token is EOF),
        ensures
            exprs_outcome(r, final(self)@) == list_s(old(self)@, closing_token@),
            r is Ok ==> {
                &&& final(self).wf()
                &&& final(self).fuel() < old(self).fuel()
                &&& !(final(self).current_token is EOF)
                &&& exprs_wf(exprs_view(r->Ok_0@))
            },
        decreases old(self).fuel(), 1int,
    {
        proof {
            reveal(list_s);
            reveal(list_loop_s);
            reveal(expression_s);
        }
        let ghost f0 = self.fuel();
        let mut list: Vec<NodeExpression> = Vec::new();
        if self.peek_token.same_kind_as(&closing_token) {
            match self.read_token() {
                Ok(_) => {},
                Err(e) => return Err(e),
            }
            assert(exprs_view(list@) =~= Seq::<NodeExpressionV>::empty());
            return Ok(list);
        }
        match self.read_token() {
            Ok(_) => {},
            Err(e) => return Err(e),
        }
        let first = match self.parse_expression(0) {
            Ok(v) => v,
            Err(e) => return Err(e),
        };
        proof {
            lemma_exprs_push(list@, first);
        }
        list.push(first);
        proof {
            assert(exprs_view(list@) =~= seq![expr_view(first)]);
        }
        while matches!(self.peek_token, Token::Comma)
            invariant
                self.wf(),
                self.fuel() < f0,
                f0 == old(self).fuel(),
                !(self.current_token is EOF),
                exprs_wf(exprs_view(list@)),
                list_s(old(self)@, closing_token@) == list_finish(
                    closing_token@,
                    list_loop_s(self@, exprs_view(list@)),
                ),
            decreases self.fuel(),
        {
            proof {
                reveal(list_loop_s);
                reveal(expression_s);
            }
            match self.read_token() {
                Ok(_) => {},
                Err(e) => return Err(e),
            }
            match self.read_token() {
                Ok(_) => {},
                Err(e) => return Err(e),
            }
            let e = match self.parse_expression(0) {
                Ok(v) => v,
                Err(e) => return Err(e),
            };
            proof {
                lemma_exprs_push(list@, e);
            }
            list.push(e);
        }
        match self.expect_token(closing_token) {
            Ok(_) => {},
            Err(e) => return Err(e),
        }
        Ok(list)
    }
}

/// Parses a program.
pub fn parse(input: String) -> (r: MonkeyResult<Vec<NodeStatement>>)
    ensures
        match parse_source(input@) {
            Ok(stmts) => r is Ok && stmts_view(r->Ok_0@) == stmts,
            Err(x) => r is Err && perr(r->Err_0) == x,
        },
        r is Ok ==> stmts_wf(stmts_view(r->Ok_0@)),
{
    let lex = Lexer::from_string(input);
    let mut pars = match Parser::new(lex) {
        Ok(v) => v,
        Err(e) => return Err(e),
    };
    pars.parse_program()
}

/// Law: the binding levels of the operators, from the loosest to the tightest: `==` and `!=`;
/// `<`, `<=`, `>` and `>=`; `+` and `-`; `*`, `/` and `%`; `**`; the operand of a prefix
/// operator; the `(` of a call; the `[` of an index. The operators of one level bind equally,
/// and exactly the infix operators, `(` and `[` continue an expression.
pub proof fn lemma_precedence_levels()
    ensures
        precedence_spec(TokenV::Equals) == precedence_spec(TokenV::NotEquals),
        precedence_spec(TokenV::Equals) > 0,
        precedence_spec(TokenV::LessThan) == precedence_spec(TokenV::LessEq),
        precedence_spec(TokenV::LessThan) == precedence_spec(TokenV::GreaterThan),
        precedence_spec(TokenV::LessThan) == precedence_spec(TokenV::GreaterEq),
        precedence_spec(TokenV::LessThan) > precedence_spec(TokenV::Equals),
        precedence_spec(TokenV::Plus) == precedence_spec(TokenV::Minus),
        precedence_spec(TokenV::Plus) > precedence_spec(TokenV::LessThan),
        precedence_spec(TokenV::Asterisk) == precedence_spec(TokenV::Slash),
        precedence_spec(TokenV::Asterisk) == precedence_spec(TokenV::Modulo),
        precedence_spec(TokenV::Asterisk) > precedence_spec(TokenV::Plus),
        precedence_spec(TokenV::Exponent) > precedence_spec(TokenV::Asterisk),
        PREFIX_PRECEDENCE > precedence_spec(TokenV::Exponent),
        precedence_spec(TokenV::OpenParen) > PREFIX_PRECEDENCE,
        precedence_spec(TokenV::OpenSquareBracket) > precedence_spec(TokenV::OpenParen),
        forall|t: TokenV|
            precedence_spec(t) > 0 <==> (is_infix_operator(t) || t == TokenV::OpenParen || t
                == TokenV::OpenSquareBracket),
{
}

/// Law: an expression parsed at a binding level ends before a token that does not bind more
/// tightly than that level: the operand so far is given back and the token is left unread. So
/// the right operand of `-` takes in a following `%`, `*` or `/`, but not a following `+` or
/// `-`, and operators of one level group to the left.
pub proof fn lemma_looser_operator_ends_operand(p: ParserV, left: NodeExpressionV, prec: u8)
    requires
        precedence_spec(p.peek) <= prec,
    ensures
        expr_loop_s(p, left, prec) == Ok::<(NodeExpressionV, ParserV), SyntaxErrV>((left, p)),
{
    reveal(expr_loop_s);
}

} // verus!
