use monkey::error::CompilerError;
use monkey::repl::validate;

#[test]
fn balanced_input_is_complete() {
    assert!(validate("let a = [1, (2 + 3)];"));
    assert!(validate(""));
    assert!(validate("let f = fn(x) { x };"));
}

#[test]
fn open_brackets_continue_the_input() {
    assert!(!validate("let f = fn(x) {"));
    assert!(!validate("[1, 2"));
    assert!(!validate("puts(\"unterminated"));
}

#[test]
fn brackets_inside_strings_and_comments_are_ignored() {
    assert!(validate("puts(\"(\")"));
    assert!(validate("1 // (["));
    assert!(!validate("{ // }"));
    assert!(validate("\"a \\\" b\""));
}

#[test]
fn unmatched_closing_bracket_is_complete() {
    assert!(validate(")"));
    assert!(validate("( ]"));
}

#[test]
fn compiler_error_messages() {
    assert_eq!(CompilerError::InvalidReturn.message(), "`return` outside of function context");
    assert_eq!(CompilerError::IdenNotFound("x".to_string()).message(), "identifier not found: 'x'");
}
