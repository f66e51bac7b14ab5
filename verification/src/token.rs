use vstd::prelude::*;

verus! {

/// A lexical token of the Monkey language.
#[derive(PartialEq, Debug, Clone)]
pub enum Token {
    Illegal(char),
    EOF,
    Identifier(String),
    Int(i64),
    Str(String),
    // Operators
    Assign,
    Bang,
    Plus,
    Minus,
    Asterisk,
    Slash,
    Exponent,
    Modulo,
    LessThan,
    GreaterThan,
    Equals,
    NotEquals,
    LessEq,
    GreaterEq,
    // Delimiters
    Comma,
    Semicolon,
    Colon,
    OpenParen,
    CloseParen,
    OpenCurlyBrace,
    CloseCurlyBrace,
    OpenSquareBracket,
    CloseSquareBracket,
    OpenHash,
    // Keywords
    Function,
    Let,
    True,
    False,
    If,
    Else,
    Return,
    Nil,
}


/// The mathematical view of a token: string payloads become character sequences.
pub enum TokenV {
    Illegal(char),
    EOF,
    Identifier(Seq<char>),
    Int(i64),
    Str(Seq<char>),
    Assign,
    Bang,
    Plus,
    Minus,
    Asterisk,
    Slash,
    Exponent,
    Modulo,
    LessThan,
    GreaterThan,
    Equals,
    NotEquals,
    LessEq,
    GreaterEq,
    Comma,
    Semicolon,
    Colon,
    OpenParen,
    CloseParen,
    OpenCurlyBrace,
    CloseCurlyBrace,
    OpenSquareBracket,
    CloseSquareBracket,
    OpenHash,
    Function,
    Let,
    True,
    False,
    If,
    Else,
    Return,
    Nil,
}

impl View for Token {
    type V = TokenV;

    open spec fn view(&self) -> TokenV {
        match self {
            Token::Illegal(c) => TokenV::Illegal(*c),
            Token::EOF => TokenV::EOF,
            Token::Identifier(s) => TokenV::Identifier(s@),
            Token::Int(i) => TokenV::Int(*i),
            Token::Str(s) => TokenV::Str(s@),
            Token::Assign => TokenV::Assign,
            Token::Bang => TokenV::Bang,
            Token::Plus => TokenV::Plus,
            Token::Minus => TokenV::Minus,
            Token::Asterisk => TokenV::Asterisk,
            Token::Slash => TokenV::Slash,
            Token::Exponent => TokenV::Exponent,
            Token::Modulo => TokenV::Modulo,
            Token::LessThan => TokenV::LessThan,
            Token::GreaterThan => TokenV::GreaterThan,
            Token::Equals => TokenV::Equals,
            Token::NotEquals => TokenV::NotEquals,
            Token::LessEq => TokenV::LessEq,
            Token::GreaterEq => TokenV::GreaterEq,
            Token::Comma => TokenV::Comma,
            Token::Semicolon => TokenV::Semicolon,
            Token::Colon => TokenV::Colon,
            Token::OpenParen => TokenV::OpenParen,
            Token::CloseParen => TokenV::CloseParen,
            Token::OpenCurlyBrace => TokenV::OpenCurlyBrace,
            Token::CloseCurlyBrace => TokenV::CloseCurlyBrace,
            Token::OpenSquareBracket => TokenV::OpenSquareBracket,
            Token::CloseSquareBracket => TokenV::CloseSquareBracket,
            Token::OpenHash => TokenV::OpenHash,
            Token::Function => TokenV::Function,
            Token::Let => TokenV::Let,
            Token::True => TokenV::True,
            Token::False => TokenV::False,
            Token::If => TokenV::If,
            Token::Else => TokenV::Else,
            Token::Return => TokenV::Return,
            Token::Nil => TokenV::Nil,
        }
    }
}

/// The name of a token's kind, as it appears in error messages.
pub open spec fn token_type_name(t: TokenV) -> Seq<char> {
    match t {
        TokenV::Identifier(_) => "identifier"@,
        TokenV::Int(_) => "integer literal"@,
        TokenV::Str(_) => "string literal"@,
        TokenV::Assign => "`=`"@,
        TokenV::Bang => "`!`"@,
        TokenV::Plus => "`+`"@,
        TokenV::Minus => "`-`"@,
        TokenV::Asterisk => "`*`"@,
        TokenV::Slash => "`/`"@,
        TokenV::Exponent => "`^`"@,
        TokenV::Modulo => "`%`"@,
        TokenV::LessThan => "`<`"@,
        TokenV::GreaterThan => "`>`"@,
        TokenV::Equals => "`==`"@,
        TokenV::NotEquals => "`!=`"@,
        TokenV::LessEq => "`<=`"@,
        TokenV::GreaterEq => "`>=`"@,
        TokenV::Comma => "`,`"@,
        TokenV::Semicolon => "`;`"@,
        TokenV::Colon => "`:`"@,
        TokenV::OpenParen => "`(`"@,
        TokenV::CloseParen => "`)`"@,
        TokenV::OpenCurlyBrace => "`{`"@,
        TokenV::CloseCurlyBrace => "`}`"@,
        TokenV::OpenSquareBracket => "`[`"@,
        TokenV::CloseSquareBracket => "`]`"@,
        TokenV::OpenHash => "`#{`"@,
        TokenV::Function => "`fn`"@,
        TokenV::Let => "`let`"@,
        TokenV::True => "boolean literal"@,
        TokenV::False => "boolean literal"@,
        TokenV::If => "`if`"@,
        TokenV::Else => "`else`"@,
        TokenV::Return => "`return`"@,
        TokenV::Illegal(_) => "illegal"@,
        TokenV::EOF => "EOF"@,
        TokenV::Nil => "`nil`"@,
    }
}

/// Two tokens are of the same kind when they are the same variant, whatever their payload.
pub open spec fn same_kind(a: Token, b: Token) -> bool {
    match (a, b) {
        (Token::Illegal(_), Token::Illegal(_)) => true,
        (Token::Identifier(_), Token::Identifier(_)) => true,
        (Token::Int(_), Token::Int(_)) => true,
        (Token::Str(_), Token::Str(_)) => true,
        _ => a == b,
    }
}

impl Token {
    /// Returns a string representing the token type, i.e., the enum variant.
    pub fn type_str(&self) -> (r: &'static str)
        ensures
            r@ == token_type_name(self@),
    {
        match self {
            Token::Identifier(_) => "identifier",
            Token::Int(_) => "integer literal",
            Token::Str(_) => "string literal",
            Token::Assign => "`=`",
            Token::Bang => "`!`",
            Token::Plus => "`+`",
            Token::Minus => "`-`",
            Token::Asterisk => "`*`",
            Token::Slash => "`/`",
            Token::Exponent => "`^`",
            Token::Modulo => "`%`",
            Token::LessThan => "`<`",
            Token::GreaterThan => "`>`",
            Token::Equals => "`==`",
            Token::NotEquals => "`!=`",
            Token::LessEq => "`<=`",
            Token::GreaterEq => "`>=`",
            Token::Comma => "`,`",
            Token::Semicolon => "`;`",
            Token::Colon => "`:`",
            Token::OpenParen => "`(`",
            Token::CloseParen => "`)`",
            Token::OpenCurlyBrace => "`{`",
            Token::CloseCurlyBrace => "`}`",
            Token::OpenSquareBracket => "`[`",
            Token::CloseSquareBracket => "`]`",
            Token::OpenHash => "`#{`",
            Token::Function => "`fn`",
            Token::Let => "`let`",
            Token::True | Token::False => "boolean literal",
            Token::If => "`if`",
            Token::Else => "`else`",
            Token::Return => "`return`",
            Token::Illegal(_) => "illegal",
            Token::EOF => "EOF",
            Token::Nil => "`nil`",
        }
    }

    /// Whether two tokens are the same variant, ignoring their payloads.
    pub fn same_kind_as(&self, other: &Token) -> (r: bool)
        ensures
            r == same_kind(*self, *other),
    {
        match (self, other) {
            (Token::Illegal(_), Token::Illegal(_)) => true,
            (Token::Identifier(_), Token::Identifier(_)) => true,
            (Token::Int(_), Token::Int(_)) => true,
            (Token::Str(_), Token::Str(_)) => true,
            (Token::EOF, Token::EOF) => true,
            (Token::Assign, Token::Assign) => true,
            (Token::Bang, Token::Bang) => true,
            (Token::Plus, Token::Plus) => true,
            (Token::Minus, Token::Minus) => true,
            (Token::Asterisk, Token::Asterisk) => true,
            (Token::Slash, Token::Slash) => true,
            (Token::Exponent, Token::Exponent) => true,
            (Token::Modulo, Token::Modulo) => true,
            (Token::LessThan, Token::LessThan) => true,
            (Token::GreaterThan, Token::GreaterThan) => true,
            (Token::Equals, Token::Equals) => true,
            (Token::NotEquals, Token::NotEquals) => true,
            (Token::LessEq, Token::LessEq) => true,
            (Token::GreaterEq, Token::GreaterEq) => true,
            (Token::Comma, Token::Comma) => true,
            (Token::Semicolon, Token::Semicolon) => true,
            (Token::Colon, Token::Colon) => true,
            (Token::OpenParen, Token::OpenParen) => true,
            (Token::CloseParen, Token::CloseParen) => true,
            (Token::OpenCurlyBrace, Token::OpenCurlyBrace) => true,
            (Token::CloseCurlyBrace, Token::CloseCurlyBrace) => true,
            (Token::OpenSquareBracket, Token::OpenSquareBracket) => true,
            (Token::CloseSquareBracket, Token::CloseSquareBracket) => true,
            (Token::OpenHash, Token::OpenHash) => true,
            (Token::Function, Token::Function) => true,
            (Token::Let, Token::Let) => true,
            (Token::True, Token::True) => true,
            (Token::False, Token::False) => true,
            (Token::If, Token::If) => true,
            (Token::Else, Token::Else) => true,
            (Token::Return, Token::Return) => true,
            (Token::Nil, Token::Nil) => true,
            _ => false,
        }
    }
}

} // verus!
