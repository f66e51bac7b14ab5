//! What the parser computes: a recursive-descent parser over the tokens that the lexer gives,
//! reading one token ahead, stated on the state of the lexer and the two tokens in view.
use crate::ast::{ExpressionV, NodeExpressionV, NodeStatementV, StatementV};
use crate::error::{LexerError, ParserErrorV, Position};
use crate::lexer::{lex_step, normalized, source_positions, source_state, LexState, LexStep};
use crate::token::TokenV;
use vstd::prelude::*;

verus! {

/// The parser: the characters and positions the lexer reads, the lexer's state, the current
/// and the next token, the position of the current token and that of the next one.
pub struct ParserV {
    pub chars: Seq<char>,
    pub poss: Seq<Position>,
    pub ls: LexState,
    pub cur: TokenV,
    pub peek: TokenV,
    pub pos: Position,
    pub tokpos: Position,
}

/// A syntax error: one of the lexer or one of the parser, with its position.
pub enum SyntaxErrV {
    Lexer(Position, LexerError),
    Parser(Position, ParserErrorV),
    /// An error of any other kind, which parsing never gives.
    Other,
}

/// What a parsing step gives: a value and the parser after it, or an error.
pub type PResult<T> = Result<(T, ParserV), SyntaxErrV>;

/// The input left to read: it never grows, and shrinks with each token read before the end.
pub open spec fn measure(p: ParserV) -> nat {
    let rest = if 0 <= p.ls.index <= p.chars.len() {
        (p.chars.len() - p.ls.index) as nat
    } else {
        0nat
    };
    2 * rest + (if p.peek is EOF {
        0nat
    } else {
        1nat
    }) + (if p.cur is EOF {
        0nat
    } else {
        1nat
    })
}

/// Tokens of the same kind: equal, or of the same variant where a token carries a value.
pub open spec fn same_kind_v(a: TokenV, b: TokenV) -> bool {
    match (a, b) {
        (TokenV::Illegal(_), TokenV::Illegal(_)) => true,
        (TokenV::Identifier(_), TokenV::Identifier(_)) => true,
        (TokenV::Int(_), TokenV::Int(_)) => true,
        (TokenV::Str(_), TokenV::Str(_)) => true,
        _ => a == b,
    }
}

/// The error that ends a parse whose input did not shrink where it had to; it never arises.
pub open spec fn stuck(p: ParserV) -> SyntaxErrV {
    SyntaxErrV::Lexer(p.pos, LexerError::UnexpectedEOF)
}

/// Reads a token: the next token becomes the current one, and the lexer gives the next.
pub open spec fn read_spec(p: ParserV) -> Result<ParserV, SyntaxErrV> {
    match lex_step(p.chars, p.poss, p.ls) {
        LexStep::Token(t, s, q) => Ok(
            ParserV {
                chars: p.chars,
                poss: p.poss,
                ls: s,
                cur: p.peek,
                peek: t,
                pos: p.tokpos,
                tokpos: q,
            },
        ),
        LexStep::Error(e, q) => Err(SyntaxErrV::Lexer(q, e)),
    }
}

/// Reads the next token if it is of the kind of `expected`; fails otherwise.
pub open spec fn expect_spec(p: ParserV, expected: TokenV) -> Result<ParserV, SyntaxErrV> {
    if same_kind_v(p.peek, expected) {
        read_spec(p)
    } else {
        Err(SyntaxErrV::Parser(p.pos, ParserErrorV::UnexpectedToken(expected, p.peek)))
    }
}

/// Like `expect_spec`, but also accepts the end of input, which it does not read.
pub open spec fn expect_or_eof_spec(p: ParserV, expected: TokenV) -> Result<ParserV, SyntaxErrV> {
    if same_kind_v(p.peek, expected) {
        read_spec(p)
    } else if p.peek is EOF {
        Ok(p)
    } else {
        Err(SyntaxErrV::Parser(p.pos, ParserErrorV::UnexpectedToken(expected, p.peek)))
    }
}

/// Like `expect_spec`, with any of several kinds accepted.
pub open spec fn expect_multiple_spec(p: ParserV, possibilities: Seq<TokenV>) -> Result<
    ParserV,
    SyntaxErrV,
> {
    if exists|i: int| 0 <= i < possibilities.len() && same_kind_v(p.peek, #[trigger] possibilities[i]) {
        read_spec(p)
    } else {
        Err(
            SyntaxErrV::Parser(
                p.pos,
                ParserErrorV::UnexpectedTokenMultiple(possibilities, p.peek),
            ),
        )
    }
}

/// Reads the next token if it is of the kind of `expected`.
pub open spec fn consume_optional_spec(p: ParserV, expected: TokenV) -> Result<ParserV, SyntaxErrV> {
    if same_kind_v(p.peek, expected) {
        read_spec(p)
    } else {
        Ok(p)
    }
}

/// A statement: `let`, `return`, or an expression statement.
#[verifier::opaque]
pub open spec fn statement_s(p: ParserV) -> PResult<NodeStatementV>
    decreases measure(p), 6nat,
{
    match p.cur {
        TokenV::Let => match let_s(p) {
            Ok(((name, e), q)) => Ok(
                (NodeStatementV { position: p.pos, statement: StatementV::Let(name, Box::new(e)) }, q),
            ),
            Err(x) => Err(x),
        },
        TokenV::Return => match return_s(p) {
            Ok((e, q)) => Ok(
                (NodeStatementV { position: p.pos, statement: StatementV::Return(Box::new(e)) }, q),
            ),
            Err(x) => Err(x),
        },
        _ => match expr_stmt_s(p) {
            Ok((e, q)) => Ok(
                (
                    NodeStatementV {
                        position: p.pos,
                        statement: StatementV::ExpressionStatement(Box::new(e)),
                    },
                    q,
                ),
            ),
            Err(x) => Err(x),
        },
    }
}

/// A `let` statement after `let`: a name, `=`, an expression and an optional `;` at the end.
#[verifier::opaque]
pub open spec fn let_s(p: ParserV) -> PResult<(Seq<char>, NodeExpressionV)>
    decreases measure(p), 5nat,
{
    match read_spec(p) {
        Err(x) => Err(x),
        Ok(p1) => match p1.cur {
            TokenV::Identifier(name) => match expect_spec(p1, TokenV::Assign) {
                Err(x) => Err(x),
                Ok(p2) => match read_spec(p2) {
                    Err(x) => Err(x),
                    Ok(p3) => if measure(p3) <= measure(p) {
                        match expression_s(p3, 0) {
                            Err(x) => Err(x),
                            Ok((value, p4)) => match expect_or_eof_spec(p4, TokenV::Semicolon) {
                                Err(x) => Err(x),
                                Ok(p5) => Ok(((name, value), p5)),
                            },
                        }
                    } else {
                        Err(stuck(p))
                    },
                },
            },
            _ => Err(
                SyntaxErrV::Parser(
                    p1.pos,
                    ParserErrorV::UnexpectedToken(TokenV::Identifier(seq![]), p1.cur),
                ),
            ),
        },
    }
}

/// A `return` statement after `return`: an expression, `nil` when there is none.
#[verifier::opaque]
pub open spec fn return_s(p: ParserV) -> PResult<NodeExpressionV>
    decreases measure(p), 5nat,
{
    let first: PResult<NodeExpressionV> = if p.peek is Semicolon {
        Ok((NodeExpressionV { position: p.pos, expression: ExpressionV::Nil }, p))
    } else {
        match read_spec(p) {
            Err(x) => Err(x),
            Ok(p0) => if measure(p0) <= measure(p) {
                expression_s(p0, 0)
            } else {
                Err(stuck(p))
            },
        }
    };
    match first {
        Err(x) => Err(x),
        Ok((e, p1)) => match expect_or_eof_spec(p1, TokenV::Semicolon) {
            Err(x) => Err(x),
            Ok(p2) => Ok((e, p2)),
        },
    }
}

/// An expression statement: the `;` after it may be left out after an `if` expression, a
/// function literal or a block expression, and before `}` or the end of input.
#[verifier::opaque]
pub open spec fn expr_stmt_s(p: ParserV) -> PResult<NodeExpressionV>
    decreases measure(p), 5nat,
{
    match expression_s(p, 0) {
        Err(x) => Err(x),
        Ok((e, p1)) => {
            let after = match e.expression {
                ExpressionV::IfExpression { .. }
                | ExpressionV::FunctionLiteral { .. }
                | ExpressionV::BlockExpression(_) => consume_optional_spec(p1, TokenV::Semicolon),
                _ => if !(p1.peek is CloseCurlyBrace) && !(p1.peek is EOF) {
                    expect_spec(p1, TokenV::Semicolon)
                } else {
                    Ok(p1)
                },
            };
            match after {
                Err(x) => Err(x),
                Ok(p2) => Ok((e, p2)),
            }
        },
    }
}

/// The binding power of a token that follows an expression.
pub open spec fn precedence_v(t: TokenV) -> u8 {
    crate::parser::precedence_spec(t)
}

/// An expression whose operators bind more tightly than `prec`.
#[verifier::opaque]
pub open spec fn expression_s(p: ParserV, prec: u8) -> PResult<NodeExpressionV>
    decreases measure(p), 4nat,
{
    match prefix_s(p) {
        Err(x) => Err(x),
        Ok((left, p1)) => if measure(p1) <= measure(p) {
            expr_loop_s(p1, left, prec)
        } else {
            Err(stuck(p))
        },
    }
}

/// Continues `left` with infix operators, calls and indexing that bind more tightly than `prec`.
#[verifier::opaque]
pub open spec fn expr_loop_s(p: ParserV, left: NodeExpressionV, prec: u8) -> PResult<NodeExpressionV>
    decreases measure(p), 3nat,
{
    if !(p.peek is Semicolon) && prec < precedence_v(p.peek) {
        match read_spec(p) {
            Err(x) => Err(x),
            Ok(p1) => if measure(p1) < measure(p) {
                match infix_s(p1, left) {
                    Err(x) => Err(x),
                    Ok((e, p2)) => if measure(p2) < measure(p) {
                        expr_loop_s(p2, e, prec)
                    } else {
                        Err(stuck(p))
                    },
                }
            } else {
                Err(stuck(p))
            },
        }
    } else {
        Ok((left, p))
    }
}

/// The expression that starts with the current token.
#[verifier::opaque]
pub open spec fn prefix_s(p: ParserV) -> PResult<NodeExpressionV>
    decreases measure(p), 3nat,
{
    let pos = p.pos;
    match p.cur {
        TokenV::Identifier(s) => Ok(
            (NodeExpressionV { position: pos, expression: ExpressionV::Identifier(s) }, p),
        ),
        TokenV::Int(x) => Ok(
            (NodeExpressionV { position: pos, expression: ExpressionV::IntLiteral(x) }, p),
        ),
        TokenV::Str(s) => Ok(
            (NodeExpressionV { position: pos, expression: ExpressionV::StringLiteral(s) }, p),
        ),
        TokenV::Bang | TokenV::Minus => prefix_expr_s(p),
        TokenV::OpenParen => grouped_s(p),
        TokenV::OpenCurlyBrace => block_expr_s(p),
        TokenV::OpenSquareBracket => array_s(p),
        TokenV::OpenHash => hash_s(p),
        TokenV::True => Ok(
            (NodeExpressionV { position: pos, expression: ExpressionV::Boolean(true) }, p),
        ),
        TokenV::False => Ok(
            (NodeExpressionV { position: pos, expression: ExpressionV::Boolean(false) }, p),
        ),
        TokenV::If => if_s(p),
        TokenV::Function => function_s(p),
        TokenV::Nil => Ok((NodeExpressionV { position: pos, expression: ExpressionV::Nil }, p)),
        _ => Err(SyntaxErrV::Parser(pos, ParserErrorV::NoPrefixParseFn(p.cur))),
    }
}

/// Continues `left` with the current token: `(` of a call, `[` of an index, or an operator.
#[verifier::opaque]
pub open spec fn infix_s(p: ParserV, left: NodeExpressionV) -> PResult<NodeExpressionV>
    decreases measure(p), 3nat,
{
    match p.cur {
        TokenV::OpenParen => call_s(p, left),
        TokenV::OpenSquareBracket => index_s(p, left),
        _ => infix_expr_s(p, left),
    }
}

/// `!` or `-` and its operand.
#[verifier::opaque]
pub open spec fn prefix_expr_s(p: ParserV) -> PResult<NodeExpressionV>
    decreases measure(p), 2nat,
{
    match read_spec(p) {
        Err(x) => Err(x),
        Ok(p1) => if measure(p1) < measure(p) {
            match expression_s(p1, crate::parser::PREFIX_PRECEDENCE) {
                Err(x) => Err(x),
                Ok((right, p2)) => Ok(
                    (
                        NodeExpressionV {
                            position: p.pos,
                            expression: ExpressionV::PrefixExpression(p.cur, Box::new(right)),
                        },
                        p2,
                    ),
                ),
            }
        } else {
            Err(stuck(p))
        },
    }
}

/// The right operand of the operator that is the current token.
#[verifier::opaque]
pub open spec fn infix_expr_s(p: ParserV, left: NodeExpressionV) -> PResult<NodeExpressionV>
    decreases measure(p), 2nat,
{
    match read_spec(p) {
        Err(x) => Err(x),
        Ok(p1) => if measure(p1) < measure(p) {
            match expression_s(p1, precedence_v(p.cur)) {
                Err(x) => Err(x),
                Ok((right, p2)) => Ok(
                    (
                        NodeExpressionV {
                            position: p.pos,
                            expression: ExpressionV::InfixExpression(
                                Box::new(left),
                                p.cur,
                                Box::new(right),
                            ),
                        },
                        p2,
                    ),
                ),
            }
        } else {
            Err(stuck(p))
        },
    }
}

/// An `if` expression: the condition, the block, and an optional `else` with a block or another
/// `if` expression.
#[verifier::opaque]
pub open spec fn if_s(p: ParserV) -> PResult<NodeExpressionV>
    decreases measure(p), 2nat,
{
    match read_spec(p) {
        Err(x) => Err(x),
        Ok(p1) => if measure(p1) < measure(p) {
            match expression_s(p1, 0) {
                Err(x) => Err(x),
                Ok((condition, p2)) => match expect_spec(p2, TokenV::OpenCurlyBrace) {
                    Err(x) => Err(x),
                    Ok(p3) => if measure(p3) <= measure(p) {
                        match block_s(p3) {
                            Err(x) => Err(x),
                            Ok((consequence, p4)) => {
                                let alt: PResult<Seq<NodeStatementV>> = if p4.peek is Else {
                                    match read_spec(p4) {
                                        Err(x) => Err(x),
                                        Ok(p5) => match expect_multiple_spec(
                                            p5,
                                            seq![TokenV::OpenCurlyBrace, TokenV::If],
                                        ) {
                                            Err(x) => Err(x),
                                            Ok(p6) => if p6.cur is OpenCurlyBrace {
                                                if measure(p6) <= measure(p) {
                                                    block_s(p6)
                                                } else {
                                                    Err(stuck(p))
                                                }
                                            } else if measure(p6) < measure(p) {
                                                match statement_s(p6) {
                                                    Err(x) => Err(x),
                                                    Ok((st, p7)) => Ok((seq![st], p7)),
                                                }
                                            } else {
                                                Err(stuck(p))
                                            },
                                        },
                                    }
                                } else {
                                    Ok((seq![], p4))
                                };
                                match alt {
                                    Err(x) => Err(x),
                                    Ok((alternative, p8)) => Ok(
                                        (
                                            NodeExpressionV {
                                                position: p.pos,
                                                expression: ExpressionV::IfExpression {
                                                    condition: Box::new(condition),
                                                    consequence,
                                                    alternative,
                                                },
                                            },
                                            p8,
                                        ),
                                    ),
                                }
                            },
                        }
                    } else {
                        Err(stuck(p))
                    },
                },
            }
        } else {
            Err(stuck(p))
        },
    }
}

/// A function literal: its parameters and its body.
#[verifier::opaque]
pub open spec fn function_s(p: ParserV) -> PResult<NodeExpressionV>
    decreases measure(p), 2nat,
{
    match expect_spec(p, TokenV::OpenParen) {
        Err(x) => Err(x),
        Ok(p1) => match params_s(p1) {
            Err(x) => Err(x),
            Ok((parameters, p2)) => match expect_spec(p2, TokenV::OpenCurlyBrace) {
                Err(x) => Err(x),
                Ok(p3) => if measure(p3) <= measure(p) {
                    match block_s(p3) {
                        Err(x) => Err(x),
                        Ok((body, p4)) => Ok(
                            (
                                NodeExpressionV {
                                    position: p.pos,
                                    expression: ExpressionV::FunctionLiteral { parameters, body },
                                },
                                p4,
                            ),
                        ),
                    }
                } else {
                    Err(stuck(p))
                },
            },
        },
    }
}

/// The parameters after `(`, up to `)`, from the first identifier on; `acc` holds those read.
pub open spec fn params_loop_s(p: ParserV, acc: Seq<Seq<char>>) -> PResult<Seq<Seq<char>>>
    decreases measure(p),
{
    match p.cur {
        TokenV::Identifier(name) => {
            let acc1 = acc.push(name);
            match expect_multiple_spec(p, seq![TokenV::Comma, TokenV::CloseParen]) {
                Err(x) => Err(x),
                Ok(p1) => if p1.cur is CloseParen {
                    Ok((acc1, p1))
                } else {
                    match expect_spec(p1, TokenV::Identifier(seq![])) {
                        Err(x) => Err(x),
                        Ok(p2) => if measure(p2) < measure(p) {
                            params_loop_s(p2, acc1)
                        } else {
                            Err(stuck(p))
                        },
                    }
                },
            }
        },
        _ => match expect_spec(p, TokenV::CloseParen) {
            Err(x) => Err(x),
            Ok(p1) => Ok((acc, p1)),
        },
    }
}

/// A parameter list: identifiers separated by commas, up to `)`; the current token is `(`.
pub open spec fn params_s(p: ParserV) -> PResult<Seq<Seq<char>>> {
    if p.peek is CloseParen {
        match read_spec(p) {
            Err(x) => Err(x),
            Ok(p1) => Ok((seq![], p1)),
        }
    } else {
        match expect_spec(p, TokenV::Identifier(seq![])) {
            Err(x) => Err(x),
            Ok(p1) => params_loop_s(p1, seq![]),
        }
    }
}

/// A call: the arguments after the current `(`.
#[verifier::opaque]
pub open spec fn call_s(p: ParserV, function: NodeExpressionV) -> PResult<NodeExpressionV>
    decreases measure(p), 2nat,
{
    match list_s(p, TokenV::CloseParen) {
        Err(x) => Err(x),
        Ok((arguments, p1)) => Ok(
            (
                NodeExpressionV {
                    position: p.pos,
                    expression: ExpressionV::CallExpression { function: Box::new(function), arguments },
                },
                p1,
            ),
        ),
    }
}

/// An expression in parentheses.
#[verifier::opaque]
pub open spec fn grouped_s(p: ParserV) -> PResult<NodeExpressionV>
    decreases measure(p), 2nat,
{
    match read_spec(p) {
        Err(x) => Err(x),
        Ok(p1) => if measure(p1) < measure(p) {
            match expression_s(p1, 0) {
                Err(x) => Err(x),
                Ok((e, p2)) => match expect_spec(p2, TokenV::CloseParen) {
                    Err(x) => Err(x),
                    Ok(p3) => Ok((e, p3)),
                },
            }
        } else {
            Err(stuck(p))
        },
    }
}

/// An array literal; it takes the position of the token that ends it.
#[verifier::opaque]
pub open spec fn array_s(p: ParserV) -> PResult<NodeExpressionV>
    decreases measure(p), 2nat,
{
    match list_s(p, TokenV::CloseSquareBracket) {
        Err(x) => Err(x),
        Ok((elements, p1)) => Ok(
            (NodeExpressionV { position: p1.pos, expression: ExpressionV::ArrayLiteral(elements) }, p1),
        ),
    }
}

/// An index after the current `[`; it takes the position of the `]` that ends it.
#[verifier::opaque]
pub open spec fn index_s(p: ParserV, left: NodeExpressionV) -> PResult<NodeExpressionV>
    decreases measure(p), 2nat,
{
    match read_spec(p) {
        Err(x) => Err(x),
        Ok(p1) => if measure(p1) < measure(p) {
            match expression_s(p1, 0) {
                Err(x) => Err(x),
                Ok((index, p2)) => match expect_spec(p2, TokenV::CloseSquareBracket) {
                    Err(x) => Err(x),
                    Ok(p3) => Ok(
                        (
                            NodeExpressionV {
                                position: p3.pos,
                                expression: ExpressionV::IndexExpression(
                                    Box::new(left),
                                    Box::new(index),
                                ),
                            },
                            p3,
                        ),
                    ),
                },
            }
        } else {
            Err(stuck(p))
        },
    }
}

/// A hash literal; the current token is `#{`.
#[verifier::opaque]
pub open spec fn hash_s(p: ParserV) -> PResult<NodeExpressionV>
    decreases measure(p), 2nat,
{
    if p.peek is CloseCurlyBrace {
        match read_spec(p) {
            Err(x) => Err(x),
            Ok(p1) => Ok(
                (NodeExpressionV { position: p.pos, expression: ExpressionV::HashLiteral(seq![]) }, p1),
            ),
        }
    } else {
        match read_spec(p) {
            Err(x) => Err(x),
            Ok(p1) => if measure(p1) < measure(p) {
                match hash_entry_s(p1) {
                    Err(x) => Err(x),
                    Ok((entry, p2)) => if measure(p2) < measure(p) {
                        hash_finish(p, hash_loop_s(p2, seq![entry]))
                    } else {
                        Err(stuck(p))
                    },
                }
            } else {
                Err(stuck(p))
            },
        }
    }
}

/// Ends a hash literal with its `}`.
pub open spec fn hash_finish(p: ParserV, r: PResult<Seq<(NodeExpressionV, NodeExpressionV)>>) -> PResult<
    NodeExpressionV,
> {
    match r {
        Err(x) => Err(x),
        Ok((entries, p3)) => match expect_spec(p3, TokenV::CloseCurlyBrace) {
            Err(x) => Err(x),
            Ok(p4) => Ok(
                (NodeExpressionV { position: p.pos, expression: ExpressionV::HashLiteral(entries) }, p4),
            ),
        },
    }
}

/// The entries after the first one: `,` and another entry, as long as a comma follows.
#[verifier::opaque]
pub open spec fn hash_loop_s(p: ParserV, acc: Seq<(NodeExpressionV, NodeExpressionV)>) -> PResult<
    Seq<(NodeExpressionV, NodeExpressionV)>,
>
    decreases measure(p), 0nat,
{
    if p.peek is Comma {
        match read_spec(p) {
            Err(x) => Err(x),
            Ok(p1) => match read_spec(p1) {
                Err(x) => Err(x),
                Ok(p2) => if measure(p2) < measure(p) {
                    match hash_entry_s(p2) {
                        Err(x) => Err(x),
                        Ok((entry, p3)) => if measure(p3) < measure(p) {
                            hash_loop_s(p3, acc.push(entry))
                        } else {
                            Err(stuck(p))
                        },
                    }
                } else {
                    Err(stuck(p))
                },
            },
        }
    } else {
        Ok((acc, p))
    }
}

/// A hash entry: two expressions separated by `:`.
#[verifier::opaque]
pub open spec fn hash_entry_s(p: ParserV) -> PResult<(NodeExpressionV, NodeExpressionV)>
    decreases measure(p), 5nat,
{
    match expression_s(p, 0) {
        Err(x) => Err(x),
        Ok((key, p1)) => match expect_spec(p1, TokenV::Colon) {
            Err(x) => Err(x),
            Ok(p2) => match read_spec(p2) {
                Err(x) => Err(x),
                Ok(p3) => if measure(p3) < measure(p) {
                    match expression_s(p3, 0) {
                        Err(x) => Err(x),
                        Ok((value, p4)) => Ok(((key, value), p4)),
                    }
                } else {
                    Err(stuck(p))
                },
            },
        },
    }
}

/// A block expression.
#[verifier::opaque]
pub open spec fn block_expr_s(p: ParserV) -> PResult<NodeExpressionV>
    decreases measure(p), 2nat,
{
    match block_s(p) {
        Err(x) => Err(x),
        Ok((block, p1)) => Ok(
            (NodeExpressionV { position: p.pos, expression: ExpressionV::BlockExpression(block) }, p1),
        ),
    }
}

/// Expressions separated by commas up to `closing`; the current token opens the list.
#[verifier::opaque]
pub open spec fn list_s(p: ParserV, closing: TokenV) -> PResult<Seq<NodeExpressionV>>
    decreases measure(p), 1nat,
{
    if same_kind_v(p.peek, closing) {
        match read_spec(p) {
            Err(x) => Err(x),
            Ok(p1) => Ok((seq![], p1)),
        }
    } else {
        match read_spec(p) {
            Err(x) => Err(x),
            Ok(p1) => if measure(p1) < measure(p) {
                match expression_s(p1, 0) {
                    Err(x) => Err(x),
                    Ok((first, p2)) => if measure(p2) < measure(p) {
                        list_finish(closing, list_loop_s(p2, seq![first]))
                    } else {
                        Err(stuck(p))
                    },
                }
            } else {
                Err(stuck(p))
            },
        }
    }
}

/// Ends a list with its closing token.
pub open spec fn list_finish(closing: TokenV, r: PResult<Seq<NodeExpressionV>>) -> PResult<
    Seq<NodeExpressionV>,
> {
    match r {
        Err(x) => Err(x),
        Ok((items, p3)) => match expect_spec(p3, closing) {
            Err(x) => Err(x),
            Ok(p4) => Ok((items, p4)),
        },
    }
}

/// The items after the first one: `,` and another expression, as long as a comma follows.
#[verifier::opaque]
pub open spec fn list_loop_s(p: ParserV, acc: Seq<NodeExpressionV>) -> PResult<Seq<NodeExpressionV>>
    decreases measure(p), 0nat,
{
    if p.peek is Comma {
        match read_spec(p) {
            Err(x) => Err(x),
            Ok(p1) => match read_spec(p1) {
                Err(x) => Err(x),
                Ok(p2) => if measure(p2) < measure(p) {
                    match expression_s(p2, 0) {
                        Err(x) => Err(x),
                        Ok((e, p3)) => if measure(p3) < measure(p) {
                            list_loop_s(p3, acc.push(e))
                        } else {
                            Err(stuck(p))
                        },
                    }
                } else {
                    Err(stuck(p))
                },
            },
        }
    } else {
        Ok((acc, p))
    }
}

/// The statements of a block up to its `}`; the current token is `{`.
#[verifier::opaque]
pub open spec fn block_s(p: ParserV) -> PResult<Seq<NodeStatementV>>
    decreases measure(p), 1nat,
{
    match read_spec(p) {
        Err(x) => Err(x),
        Ok(p1) => if measure(p1) < measure(p) {
            block_loop_s(p1, seq![])
        } else {
            Err(stuck(p))
        },
    }
}

/// Statements, each followed by a read, until the current token is `}`.
#[verifier::opaque]
pub open spec fn block_loop_s(p: ParserV, acc: Seq<NodeStatementV>) -> PResult<Seq<NodeStatementV>>
    decreases measure(p), 7nat,
{
    if p.cur is CloseCurlyBrace {
        Ok((acc, p))
    } else {
        match statement_s(p) {
            Err(x) => Err(x),
            Ok((st, p1)) => match read_spec(p1) {
                Err(x) => Err(x),
                Ok(p2) => if measure(p2) < measure(p) {
                    block_loop_s(p2, acc.push(st))
                } else {
                    Err(stuck(p))
                },
            },
        }
    }
}

/// Statements, each followed by a read, until the end of input.
#[verifier::opaque]
pub open spec fn program_loop_s(p: ParserV, acc: Seq<NodeStatementV>) -> PResult<Seq<NodeStatementV>>
    decreases measure(p),
{
    if p.cur is EOF {
        Ok((acc, p))
    } else {
        match statement_s(p) {
            Err(x) => Err(x),
            Ok((st, p1)) => match read_spec(p1) {
                Err(x) => Err(x),
                Ok(p2) => if measure(p2) < measure(p) {
                    program_loop_s(p2, acc.push(st))
                } else {
                    Err(stuck(p))
                },
            },
        }
    }
}

/// A parser over a stream: it reads the first two tokens.
pub open spec fn start_spec(chars: Seq<char>, poss: Seq<Position>, ls: LexState) -> Result<
    ParserV,
    SyntaxErrV,
> {
    match lex_step(chars, poss, ls) {
        LexStep::Error(e, q) => Err(SyntaxErrV::Lexer(q, e)),
        LexStep::Token(t1, s1, q1) => match lex_step(chars, poss, s1) {
            LexStep::Error(e, q) => Err(SyntaxErrV::Lexer(q, e)),
            LexStep::Token(t2, s2, q2) => Ok(
                ParserV { chars, poss, ls: s2, cur: t1, peek: t2, pos: q1, tokpos: q2 },
            ),
        },
    }
}

/// What parsing a source text gives: its statements, or the first syntax error.
pub open spec fn parse_source(input: Seq<char>) -> Result<Seq<NodeStatementV>, SyntaxErrV> {
    let chars = normalized(input);
    match start_spec(chars, source_positions(chars), source_state(chars)) {
        Err(x) => Err(x),
        Ok(p) => match program_loop_s(p, seq![]) {
            Err(x) => Err(x),
            Ok((stmts, _)) => Ok(stmts),
        },
    }
}

} // verus!
