use monkey::error::{LexerError, MonkeyError};
use monkey::lexer::Lexer;
use monkey::token::Token;

fn iden(s: &str) -> Token {
    Token::Identifier(s.into())
}

fn assert_lex(input: &str, expected: &[Token]) {
    let mut lex = Lexer::from_string(input.into());
    for ex in expected {
        let got = lex.next_token().expect("Lexer error during test");
        assert_eq!(ex, &got);
    }
}

fn assert_lexer_error(input: &str, expected_error: LexerError) {
    let mut lex = Lexer::from_string(input.into());
    loop {
        match lex.next_token() {
            Ok(Token::EOF) => panic!("No lexer errors encountered"),
            Err(e) => {
                match e {
                    MonkeyError::Lexer(_, got) => assert_eq!(expected_error, got),
                    _ => panic!("Wrong error type"),
                }
                return;
            }
            _ => continue,
        }
    }
}

fn identifiers_case() {
    let input = "foo bar two_words _ _foo2 back2thefuture 3different_ones olá 統一碼 यूनिकोड";
    let expected = [
        iden("foo"),
        iden("bar"),
        iden("two_words"),
        iden("_"),
        iden("_foo2"),
        iden("back2thefuture"),
        Token::Int(3),
        iden("different_ones"),
        iden("olá"),
        iden("統一碼"),
        iden("यूनिकोड"),
        Token::EOF,
    ];
    assert_lex(input, &expected);

    let input = "fn let true false if else return nil";
    let expected = [
        Token::Function,
        Token::Let,
        Token::True,
        Token::False,
        Token::If,
        Token::Else,
        Token::Return,
        Token::Nil,
        Token::EOF,
    ];
    assert_lex(input, &expected);
}

#[test]
fn tests_test_identifiers() {
    identifiers_case();
}

#[test]
fn lexer_test_identifiers() {
    identifiers_case();
}

fn int_literals_case() {
    let input = "0 1729 808017424794 1_000_000 1___0____2 _1_000_000";
    let expected = [
        Token::Int(0),
        Token::Int(1729),
        Token::Int(808_017_424_794),
        Token::Int(1_000_000),
        Token::Int(102),
        iden("_1_000_000"),
        Token::EOF,
    ];
    assert_lex(input, &expected);
}

#[test]
fn tests_test_int_literals() {
    int_literals_case();
}

#[test]
fn lexer_test_int_literals() {
    int_literals_case();
}

#[test]
fn tests_test_strings() {
    let input = r#"
        "string"
        "escape sequences: \\ \n \t \r \" "
        "whitespace
        inside strings"
    "#;
    let expected = [
        Token::Str("string".into()),
        Token::Str("escape sequences: \\ \n \t \r \" ".into()),
        Token::Str("whitespace\n        inside strings".into()),
        Token::EOF,
    ];
    assert_lex(input, &expected);
}

#[test]
fn lexer_test_strings() {
    let input = r#"
            "string"
            "escape sequences: \\ \n \t \r \" "
            "whitespace
            inside strings"
        "#;
    let expected = [
        Token::Str("string".into()),
        Token::Str("escape sequences: \\ \n \t \r \" ".into()),
        Token::Str("whitespace\n            inside strings".into()),
        Token::EOF,
    ];
    assert_lex(input, &expected);
}

fn operators_case() {
    let input = "= ! + - * / ^ % < > == != <= >=";
    let expected = [
        Token::Assign,
        Token::Bang,
        Token::Plus,
        Token::Minus,
        Token::Asterisk,
        Token::Slash,
        Token::Exponent,
        Token::Modulo,
        Token::LessThan,
        Token::GreaterThan,
        Token::Equals,
        Token::NotEquals,
        Token::LessEq,
        Token::GreaterEq,
        Token::EOF,
    ];
    assert_lex(input, &expected);
}

#[test]
fn tests_test_operators() {
    operators_case();
}

#[test]
fn lexer_test_operators() {
    operators_case();
}

fn delimiters_case() {
    let input = ", ; : () {} [] #{}";
    let expected = [
        Token::Comma,
        Token::Semicolon,
        Token::Colon,
        Token::OpenParen,
        Token::CloseParen,
        Token::OpenCurlyBrace,
        Token::CloseCurlyBrace,
        Token::OpenSquareBracket,
        Token::CloseSquareBracket,
        Token::OpenHash,
        Token::CloseCurlyBrace,
        Token::EOF,
    ];
    assert_lex(input, &expected);
}

#[test]
fn tests_test_delimiters() {
    delimiters_case();
}

#[test]
fn lexer_test_delimiters() {
    delimiters_case();
}

fn comments_case() {
    let input = r"
        // comments
        foo // bar
        // Unicode! 中文 Português हिन्दी Français Español
        //
        baz
    ";
    let expected = [iden("foo"), iden("baz"), Token::EOF];
    assert_lex(input, &expected);
}

#[test]
fn tests_test_comments() {
    comments_case();
}

#[test]
fn lexer_test_comments() {
    comments_case();
}

fn large_program_case() {
    let input = r#"
        let fizzbuzz = fn(i) {
            let result = if i % 3 == 0 {
                "fizz"
            } else {
                ""
            };
            let result = if i % 5 == 0 {
                result + "buzz"
            } else {
                result
            };
            if result != "" {
                puts(result)
            } else {
                puts(i)
            }
        }
        map(fizzbuzz, range(1, 100));
    "#;
    let expected = [
        Token::Let, iden("fizzbuzz"), Token::Assign, Token::Function, Token::OpenParen, iden("i"), Token::CloseParen, Token::OpenCurlyBrace,
        Token::Let, iden("result"), Token::Assign, Token::If, iden("i"), Token::Modulo, Token::Int(3), Token::Equals, Token::Int(0), Token::OpenCurlyBrace,
        Token::Str("fizz".into()),
        Token::CloseCurlyBrace, Token::Else, Token::OpenCurlyBrace,
        Token::Str("".into()),
        Token::CloseCurlyBrace, Token::Semicolon,
        Token::Let, iden("result"), Token::Assign, Token::If, iden("i"), Token::Modulo, Token::Int(5), Token::Equals, Token::Int(0), Token::OpenCurlyBrace,
        iden("result"), Token::Plus, Token::Str("buzz".into()),
        Token::CloseCurlyBrace, Token::Else, Token::OpenCurlyBrace,
        iden("result"),
        Token::CloseCurlyBrace, Token::Semicolon,
        Token::If, iden("result"), Token::NotEquals, Token::Str("".into()), Token::OpenCurlyBrace,
        iden("puts"), Token::OpenParen, iden("result"), Token::CloseParen,
        Token::CloseCurlyBrace, Token::Else, Token::OpenCurlyBrace,
        iden("puts"), Token::OpenParen, iden("i"), Token::CloseParen,
        Token::CloseCurlyBrace,
        Token::CloseCurlyBrace,
        iden("map"), Token::OpenParen, iden("fizzbuzz"), Token::Comma, iden("range"), Token::OpenParen, Token::Int(1), Token::Comma,
        Token::Int(100), Token::CloseParen, Token::CloseParen, Token::Semicolon,
        Token::EOF,
    ];
    assert_lex(input, &expected);
}

#[test]
fn tests_test_large_program() {
    large_program_case();
}

#[test]
fn lexer_test_large_program() {
    large_program_case();
}

fn lexer_position_case() {
    let program = "first line\nsecond\n3";
    let expected = [
        // (token, current_position, token_position)
        (iden("first"), (1, 6), (1, 1)),
        (iden("line"), (1, 11), (1, 7)),
        (iden("second"), (2, 7), (2, 1)),
        (Token::Int(3), (3, 2), (3, 1)),
        (Token::EOF, (3, 2), (3, 2)),
    ];

    let mut lex = Lexer::from_string(program.into());
    assert_eq!((1, 1), lex.current_position());
    assert_eq!((0, 0), lex.token_position());

    for (tk, current_pos, token_pos) in &expected {
        let got = lex.next_token().unwrap();
        assert_eq!(tk, &got);
        assert_eq!(current_pos, &lex.current_position());
        assert_eq!(token_pos, &lex.token_position());
    }
}

#[test]
fn tests_test_lexer_position() {
    lexer_position_case();
}

#[test]
fn lexer_test_lexer_position() {
    lexer_position_case();
}

fn lexer_errors_case() {
    assert_lexer_error(r#" "some string that doesn't end "#, LexerError::UnexpectedEOF);
    assert_lexer_error(
        r#" "i don't know this guy: \w" "#,
        LexerError::UnknownEscapeSequence('w'),
    );
    assert_lexer_error(
        r#" "whats up with this weird symbol:" & "#,
        LexerError::IllegalChar('&'),
    );
}

#[test]
fn tests_test_lexer_errors() {
    lexer_errors_case();
}

#[test]
fn lexer_test_lexer_errors() {
    lexer_errors_case();
}

#[test]
fn integer_literal_too_large_is_an_error() {
    assert_lexer_error("99999999999999999999", LexerError::IntegerTooLarge);
    assert_lex("9223372036854775807", &[Token::Int(i64::MAX), Token::EOF]);
}

#[test]
fn crlf_line_endings_are_one_line_break() {
    let mut lex = Lexer::from_string("a\r\nb".into());
    assert_eq!(iden("a"), lex.next_token().unwrap());
    assert_eq!(iden("b"), lex.next_token().unwrap());
    assert_eq!((2, 1), lex.token_position());
}

#[test]
fn comment_on_last_line_keeps_position() {
    let mut lex = Lexer::from_string("x // tail".into());
    assert_eq!(iden("x"), lex.next_token().unwrap());
    assert_eq!(Token::EOF, lex.next_token().unwrap());
    assert_eq!((1, 3), lex.token_position());
}

#[test]
fn end_of_input_repeats() {
    let mut lex = Lexer::from_string("a // c".into());
    assert_eq!(lex.next_token(), Ok(Token::Identifier("a".into())));
    assert_eq!(lex.next_token(), Ok(Token::EOF));
    let p = lex.token_position();
    assert_eq!(lex.next_token(), Ok(Token::EOF));
    assert_eq!(lex.token_position(), p);
}
