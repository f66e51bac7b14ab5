use crate::object::{display_key, push_key_display, HashKeyV, HashableObject, Object, ObjectV};
use crate::text::{decimal, int_text, push_decimal, push_int, push_str, string_from_chars};
use crate::token::{token_type_name, Token, TokenV};
use vstd::prelude::*;

verus! {

/// A position in the source: (line, column), both counted from 1.
pub type Position = (usize, usize);

pub type MonkeyResult<T> = Result<T, MonkeyError>;

#[derive(Debug, PartialEq)]
pub enum MonkeyError {
    Lexer(Position, LexerError),
    Parser(Position, ParserError),
    Compiler(Position, CompilerError),
    Interpreter(Position, RuntimeError),
    Vm(RuntimeError),
}

#[derive(Debug, PartialEq)]
pub enum LexerError {
    UnexpectedEOF,
    UnknownEscapeSequence(char),
    IllegalChar(char),
    /// An integer literal whose value does not fit in an `i64`.
    IntegerTooLarge,
}

#[derive(Debug, PartialEq)]
pub enum ParserError {
    UnexpectedToken(Token, Token),
    UnexpectedTokenMultiple { possibilities: Vec<Token>, got: Token },
    NoPrefixParseFn(Token),
}

#[derive(Debug, PartialEq)]
pub enum CompilerError {
    /// A `return` statement outside of a function.
    InvalidReturn,
    /// An array or hash literal with more elements than an instruction operand can count.
    LiteralTooBig,
    /// An identifier that no symbol table in scope defines.
    IdenNotFound(String),
    /// An expression that the compiler has no instructions for: a block expression, or an
    /// operator that it does not translate.
    Unsupported,
}

#[derive(Debug, PartialEq)]
pub enum RuntimeError {
    IdenNotFound(String),
    WrongNumberOfArgs(usize, usize),
    IndexTypeError(&'static str),
    IndexOutOfBounds(i64),
    HashKeyTypeError(&'static str),
    KeyError(HashableObject),
    IndexingWrongType(&'static str),
    PrefixTypeError(Token, &'static str),
    InfixTypeError(&'static str, Token, &'static str),
    NotCallable(&'static str),
    DivOrModByZero,
    NegativeExponent,
    TypeError(&'static str, &'static str),
    Custom(String),
    StackOverflow,
    StackUnderflow,
    /// The result of an integer operation does not fit in an `i64`.
    IntegerOverflow,
    /// The virtual machine met an instruction stream that the compiler cannot produce.
    InvalidBytecode,
    /// The virtual machine ran for more steps than it allows.
    StepLimitExceeded,
    /// Raised by a `return` statement and caught by the enclosing function call; one that is
    /// not caught was outside of any function.
    ReturnValue(Box<Object>),
}

// ---------------------------------------------------------------------------------------------
// Views
// ---------------------------------------------------------------------------------------------

pub enum ParserErrorV {
    UnexpectedToken(TokenV, TokenV),
    UnexpectedTokenMultiple(Seq<TokenV>, TokenV),
    NoPrefixParseFn(TokenV),
}

pub open spec fn tokens_view(s: Seq<Token>) -> Seq<TokenV> {
    s.map_values(|t: Token| t@)
}

impl View for ParserError {
    type V = ParserErrorV;

    open spec fn view(&self) -> ParserErrorV {
        match self {
            ParserError::UnexpectedToken(a, b) => ParserErrorV::UnexpectedToken(a@, b@),
            ParserError::UnexpectedTokenMultiple { possibilities, got } =>
                ParserErrorV::UnexpectedTokenMultiple(tokens_view(possibilities@), got@),
            ParserError::NoPrefixParseFn(t) => ParserErrorV::NoPrefixParseFn(t@),
        }
    }
}

pub enum RuntimeErrorV {
    IdenNotFound(Seq<char>),
    WrongNumberOfArgs(usize, usize),
    IndexTypeError(Seq<char>),
    IndexOutOfBounds(i64),
    HashKeyTypeError(Seq<char>),
    KeyError(HashKeyV),
    IndexingWrongType(Seq<char>),
    PrefixTypeError(TokenV, Seq<char>),
    InfixTypeError(Seq<char>, TokenV, Seq<char>),
    NotCallable(Seq<char>),
    DivOrModByZero,
    NegativeExponent,
    TypeError(Seq<char>, Seq<char>),
    Custom(Seq<char>),
    StackOverflow,
    StackUnderflow,
    IntegerOverflow,
    InvalidBytecode,
    StepLimitExceeded,
    ReturnValue(ObjectV),
}

impl View for RuntimeError {
    type V = RuntimeErrorV;

    open spec fn view(&self) -> RuntimeErrorV {
        match self {
            RuntimeError::IdenNotFound(s) => RuntimeErrorV::IdenNotFound(s@),
            RuntimeError::WrongNumberOfArgs(a, b) => RuntimeErrorV::WrongNumberOfArgs(*a, *b),
            RuntimeError::IndexTypeError(s) => RuntimeErrorV::IndexTypeError(s@),
            RuntimeError::IndexOutOfBounds(i) => RuntimeErrorV::IndexOutOfBounds(*i),
            RuntimeError::HashKeyTypeError(s) => RuntimeErrorV::HashKeyTypeError(s@),
            RuntimeError::KeyError(k) => RuntimeErrorV::KeyError(k@),
            RuntimeError::IndexingWrongType(s) => RuntimeErrorV::IndexingWrongType(s@),
            RuntimeError::PrefixTypeError(t, s) => RuntimeErrorV::PrefixTypeError(t@, s@),
            RuntimeError::InfixTypeError(l, t, r) => RuntimeErrorV::InfixTypeError(l@, t@, r@),
            RuntimeError::NotCallable(s) => RuntimeErrorV::NotCallable(s@),
            RuntimeError::DivOrModByZero => RuntimeErrorV::DivOrModByZero,
            RuntimeError::NegativeExponent => RuntimeErrorV::NegativeExponent,
            RuntimeError::TypeError(a, b) => RuntimeErrorV::TypeError(a@, b@),
            RuntimeError::Custom(s) => RuntimeErrorV::Custom(s@),
            RuntimeError::StackOverflow => RuntimeErrorV::StackOverflow,
            RuntimeError::StackUnderflow => RuntimeErrorV::StackUnderflow,
            RuntimeError::IntegerOverflow => RuntimeErrorV::IntegerOverflow,
            RuntimeError::InvalidBytecode => RuntimeErrorV::InvalidBytecode,
            RuntimeError::StepLimitExceeded => RuntimeErrorV::StepLimitExceeded,
            RuntimeError::ReturnValue(o) => RuntimeErrorV::ReturnValue((**o)@),
        }
    }
}

// ---------------------------------------------------------------------------------------------
// Messages
// ---------------------------------------------------------------------------------------------

/// The message of a lexer error.
pub open spec fn lexer_message(e: LexerError) -> Seq<char> {
    match e {
        LexerError::UnexpectedEOF => "Unexpected EOF"@,
        LexerError::UnknownEscapeSequence(c) => "Unknown escape sequence: \\"@ + seq![c],
        LexerError::IllegalChar(c) => "Illegal character: \\"@ + seq![c],
        LexerError::IntegerTooLarge => "Integer literal too large"@,
    }
}

/// `", "` after each of the numbers `from .. to`.
pub open spec fn numbered_prefix(from: nat, to: nat) -> Seq<char>
    decreases to - from,
{
    if from >= to {
        seq![]
    } else {
        decimal(from) + ", "@ + numbered_prefix(from + 1, to)
    }
}

/// The message of a parser error. With several possibilities, the ones before the last two are
/// listed by their index.
pub open spec fn parser_message(e: ParserErrorV) -> Seq<char> {
    match e {
        ParserErrorV::UnexpectedToken(expected, got) => "expected "@ + token_type_name(expected)
            + " token, got "@ + token_type_name(got),
        ParserErrorV::UnexpectedTokenMultiple(ps, got) => "expected "@ + numbered_prefix(
            0,
            (ps.len() - 2) as nat,
        ) + token_type_name(ps[ps.len() - 2]) + " or "@ + token_type_name(ps[ps.len() - 1])
            + " token, got "@ + token_type_name(got),
        ParserErrorV::NoPrefixParseFn(t) => "no prefix parse function found for token: "@
            + token_type_name(t),
    }
}

/// The message of a run-time error.
pub open spec fn runtime_message(e: RuntimeErrorV) -> Seq<char> {
    match e {
        RuntimeErrorV::IdenNotFound(s) => "identifier not found: '"@ + s + "'"@,
        RuntimeErrorV::WrongNumberOfArgs(expected, got) => "wrong number of arguments: expected "@
            + decimal(expected as nat) + " arguments but "@ + decimal(got as nat)
            + " were given"@,
        RuntimeErrorV::IndexTypeError(o) => "index must be integer, not '"@ + o + "'"@,
        RuntimeErrorV::IndexOutOfBounds(i) => "index out of bounds: "@ + int_text(i as int),
        RuntimeErrorV::HashKeyTypeError(o) => "hash key must be hashable type, not '"@ + o + "'"@,
        RuntimeErrorV::KeyError(k) => "hash key error: entry for "@ + display_key(k)
            + " not found"@,
        RuntimeErrorV::IndexingWrongType(o) => "'"@ + o + "' is not an array or hash object"@,
        RuntimeErrorV::PrefixTypeError(t, o) => "unsuported operand type for prefix operator "@
            + token_type_name(t) + ": '"@ + o + "'"@,
        RuntimeErrorV::InfixTypeError(l, t, r) => "unsuported operand types for infix operator "@
            + token_type_name(t) + ": '"@ + l + "' and '"@ + r + "'"@,
        RuntimeErrorV::NotCallable(o) => "'"@ + o
            + "' is not a function object or built-in function"@,
        RuntimeErrorV::DivOrModByZero => "division or modulo by zero"@,
        RuntimeErrorV::NegativeExponent => "negative exponent"@,
        RuntimeErrorV::TypeError(expected, got) => "type error: expected '"@ + expected
            + "', got '"@ + got + "'"@,
        RuntimeErrorV::Custom(msg) => msg,
        RuntimeErrorV::StackOverflow => "stack overflow"@,
        RuntimeErrorV::StackUnderflow => "stack underflow"@,
        RuntimeErrorV::IntegerOverflow => "integer overflow"@,
        RuntimeErrorV::InvalidBytecode => "invalid bytecode"@,
        RuntimeErrorV::StepLimitExceeded => "step limit exceeded"@,
        RuntimeErrorV::ReturnValue(_) => "`return` outside of function context"@,
    }
}

fn push_token_name(out: &mut Vec<char>, t: &Token)
    ensures
        final(out)@ == old(out)@ + token_type_name(t@),
{
    push_str(out, t.type_str());
}

impl LexerError {
    /// The message of this error.
    pub fn message(&self) -> (r: String)
        ensures
            r@ == lexer_message(*self),
    {
        let mut out: Vec<char> = Vec::new();
        match self {
            LexerError::UnexpectedEOF => push_str(&mut out, "Unexpected EOF"),
            LexerError::UnknownEscapeSequence(c) => {
                push_str(&mut out, "Unknown escape sequence: \\");
                out.push(*c);
            },
            LexerError::IllegalChar(c) => {
                push_str(&mut out, "Illegal character: \\");
                out.push(*c);
            },
            LexerError::IntegerTooLarge => push_str(&mut out, "Integer literal too large"),
        }
        assert(out@ =~= lexer_message(*self));
        string_from_chars(&out)
    }
}

/// The message of a compiler error.
pub open spec fn compiler_message(e: CompilerError) -> Seq<char> {
    match e {
        CompilerError::InvalidReturn => "`return` outside of function context"@,
        CompilerError::LiteralTooBig => "literal has too many elements"@,
        CompilerError::IdenNotFound(s) => "identifier not found: '"@ + s@ + "'"@,
        CompilerError::Unsupported => "expression not supported by the compiler"@,
    }
}

impl CompilerError {
    /// The message of this error.
    pub fn message(&self) -> (r: String)
        ensures
            r@ == compiler_message(*self),
    {
        let mut out: Vec<char> = Vec::new();
        match self {
            CompilerError::InvalidReturn => push_str(&mut out, "`return` outside of function context"),
            CompilerError::LiteralTooBig => push_str(&mut out, "literal has too many elements"),
            CompilerError::IdenNotFound(s) => {
                push_str(&mut out, "identifier not found: '");
                push_str(&mut out, s.as_str());
                push_str(&mut out, "'");
            },
            CompilerError::Unsupported => push_str(&mut out, "expression not supported by the compiler"),
        }
        assert(out@ =~= compiler_message(*self));
        string_from_chars(&out)
    }
}

impl ParserError {
    /// The message of this error.
    pub fn message(&self) -> (r: String)
        requires
            self matches ParserError::UnexpectedTokenMultiple { possibilities, .. }
                ==> possibilities@.len() > 1,
        ensures
            r@ == parser_message(self@),
    {
        let mut out: Vec<char> = Vec::new();
        match self {
            ParserError::UnexpectedToken(expected, got) => {
                push_str(&mut out, "expected ");
                push_token_name(&mut out, expected);
                push_str(&mut out, " token, got ");
                push_token_name(&mut out, got);
                assert(out@ =~= parser_message(self@));
            },
            ParserError::UnexpectedTokenMultiple { possibilities, got } => {
                let len = possibilities.len();
                push_str(&mut out, "expected ");
                let ghost start = out@;
                let mut i: usize = 0;
                while i < len - 2
                    invariant
                        len == possibilities@.len(),
                        len > 1,
                        i <= len - 2,
                        start + numbered_prefix(0, i as nat) + numbered_prefix(
                            i as nat,
                            (len - 2) as nat,
                        ) == start + numbered_prefix(0, (len - 2) as nat),
                        out@ == start + numbered_prefix(0, i as nat),
                    decreases len - 2 - i,
                {
                    proof {
                        lemma_numbered_prefix_split(0, i as nat, (len - 2) as nat);
                    }
                    push_decimal(&mut out, i as u64);
                    push_str(&mut out, ", ");
                    i = i + 1;
                }
                proof {
                    lemma_numbered_prefix_split(0, (len - 2) as nat, (len - 2) as nat);
                }
                push_token_name(&mut out, &possibilities[len - 2]);
                push_str(&mut out, " or ");
                push_token_name(&mut out, &possibilities[len - 1]);
                push_str(&mut out, " token, got ");
                push_token_name(&mut out, got);
                assert(out@ =~= parser_message(self@));
            },
            ParserError::NoPrefixParseFn(t) => {
                push_str(&mut out, "no prefix parse function found for token: ");
                push_token_name(&mut out, t);
                assert(out@ =~= parser_message(self@));
            },
        }
        string_from_chars(&out)
    }
}

impl RuntimeError {
    /// The message of this error.
    pub fn message(&self) -> (r: String)
        ensures
            r@ == runtime_message(self@),
    {
        let mut out: Vec<char> = Vec::new();
        match self {
            RuntimeError::IdenNotFound(s) => {
                push_str(&mut out, "identifier not found: '");
                push_str(&mut out, s.as_str());
                push_str(&mut out, "'");
            },
            RuntimeError::WrongNumberOfArgs(expected, got) => {
                push_str(&mut out, "wrong number of arguments: expected ");
                push_decimal(&mut out, *expected as u64);
                push_str(&mut out, " arguments but ");
                push_decimal(&mut out, *got as u64);
                push_str(&mut out, " were given");
            },
            RuntimeError::IndexTypeError(o) => {
                push_str(&mut out, "index must be integer, not '");
                push_str(&mut out, o);
                push_str(&mut out, "'");
            },
            RuntimeError::IndexOutOfBounds(i) => {
                push_str(&mut out, "index out of bounds: ");
                push_int(&mut out, *i);
            },
            RuntimeError::HashKeyTypeError(o) => {
                push_str(&mut out, "hash key must be hashable type, not '");
                push_str(&mut out, o);
                push_str(&mut out, "'");
            },
            RuntimeError::KeyError(k) => {
                push_str(&mut out, "hash key error: entry for ");
                push_key_display(&mut out, k);
                push_str(&mut out, " not found");
            },
            RuntimeError::IndexingWrongType(o) => {
                push_str(&mut out, "'");
                push_str(&mut out, o);
                push_str(&mut out, "' is not an array or hash object");
            },
            RuntimeError::PrefixTypeError(t, o) => {
                push_str(&mut out, "unsuported operand type for prefix operator ");
                push_token_name(&mut out, t);
                push_str(&mut out, ": '");
                push_str(&mut out, o);
                push_str(&mut out, "'");
            },
            RuntimeError::InfixTypeError(l, t, r) => {
                push_str(&mut out, "unsuported operand types for infix operator ");
                push_token_name(&mut out, t);
                push_str(&mut out, ": '");
                push_str(&mut out, l);
                push_str(&mut out, "' and '");
                push_str(&mut out, r);
                push_str(&mut out, "'");
            },
            RuntimeError::NotCallable(o) => {
                push_str(&mut out, "'");
                push_str(&mut out, o);
                push_str(&mut out, "' is not a function object or built-in function");
            },
            RuntimeError::DivOrModByZero => push_str(&mut out, "division or modulo by zero"),
            RuntimeError::NegativeExponent => push_str(&mut out, "negative exponent"),
            RuntimeError::TypeError(expected, got) => {
                push_str(&mut out, "type error: expected '");
                push_str(&mut out, expected);
                push_str(&mut out, "', got '");
                push_str(&mut out, got);
                push_str(&mut out, "'");
            },
            RuntimeError::Custom(msg) => push_str(&mut out, msg.as_str()),
            RuntimeError::StackOverflow => push_str(&mut out, "stack overflow"),
            RuntimeError::StackUnderflow => push_str(&mut out, "stack underflow"),
            RuntimeError::IntegerOverflow => push_str(&mut out, "integer overflow"),
            RuntimeError::InvalidBytecode => push_str(&mut out, "invalid bytecode"),
            RuntimeError::StepLimitExceeded => push_str(&mut out, "step limit exceeded"),
            RuntimeError::ReturnValue(_) => push_str(
                &mut out,
                "`return` outside of function context",
            ),
        }
        assert(out@ =~= runtime_message(self@));
        string_from_chars(&out)
    }
}

/// Splitting the numbered list at `mid`: the part before and the part after.
proof fn lemma_numbered_prefix_split(from: nat, mid: nat, to: nat)
    requires
        from <= mid <= to,
    ensures
        numbered_prefix(from, mid) + numbered_prefix(mid, to) == numbered_prefix(from, to),
        mid < to ==> numbered_prefix(from, mid + 1) == numbered_prefix(from, mid) + decimal(mid)
            + ", "@,
    decreases mid - from,
{
    if from < mid {
        lemma_numbered_prefix_split(from + 1, mid, to);
        assert(numbered_prefix(from, mid) + numbered_prefix(mid, to) =~= numbered_prefix(from, to));
        if mid < to {
            assert(numbered_prefix(from, mid + 1) =~= numbered_prefix(from, mid) + decimal(mid)
                + ", "@);
        }
    } else {
        assert(numbered_prefix(from, mid) + numbered_prefix(mid, to) =~= numbered_prefix(from, to));
        if mid < to {
            assert(numbered_prefix(mid + 1, mid + 1) =~= Seq::<char>::empty());
            assert(numbered_prefix(from, mid + 1) =~= numbered_prefix(from, mid) + decimal(mid)
                + ", "@);
        }
    }
}

} // verus!
