use lox::Lox;
use lox::scanner::report::{Diagnostic, ErrorKind};
use lox::scanner::token::TokenType;

fn chars(s: &str) -> Vec<char> {
    s.chars().collect()
}

fn text(v: &[char]) -> String {
    v.iter().collect()
}

#[test]
fn run_scans_and_aggregates_errors() {
    let mut lox = Lox::new();
    let (tokens, errors) = lox.run(chars("var x"));
    assert_eq!(tokens.len(), 3);
    assert!(errors.is_empty());
    assert!(!lox.had_error);

    let (tokens, errors) = lox.run(chars("\"oops"));
    assert_eq!(tokens.len(), 1);
    assert_eq!(errors.len(), 1);
    assert_eq!(errors[0].kind, ErrorKind::UnterminatedString);
    assert!(lox.had_error);
}

#[test]
fn reset_clears_the_error_flag_but_not_the_line() {
    let mut lox = Lox::new();
    lox.run(chars("@\n"));
    assert!(lox.had_error);
    assert_eq!(lox.line, 2);
    lox.reset_error();
    assert!(!lox.had_error);
    assert_eq!(lox.line, 2);
}

#[test]
fn line_numbers_are_continuous_across_runs() {
    let mut lox = Lox::new();
    lox.run(chars("a\nb\n"));
    assert_eq!(lox.line, 3);
    let (tokens, _) = lox.run(chars("c"));
    assert_eq!(tokens[0].line, 3);
    assert_eq!(tokens[0].kind, TokenType::Identifier);
}

#[test]
fn error_renders_the_diagnostic_format() {
    let mut lox = Lox::new();
    let out = lox.error(1, &chars("Unexpected character."));
    assert_eq!(text(&out), "[line 1] Error : Unexpected character.");
    assert!(lox.had_error);
}

#[test]
fn report_renders_multi_digit_lines_and_locations() {
    let mut lox = Lox::new();
    let out = lox.report(105, &chars("at 'x'"), &chars("Unterminated string."));
    assert_eq!(text(&out), "[line 105] Error at 'x': Unterminated string.");
}

#[test]
fn diagnostic_messages() {
    let cases = [
        (ErrorKind::UnexpectedCharacter, "Unexpected character."),
        (ErrorKind::UnterminatedString, "Unterminated string."),
        (ErrorKind::UnterminatedBlockComment, "Unterminated block quote"),
    ];
    for (kind, expected) in cases {
        let d = Diagnostic { line: 1, kind };
        assert_eq!(d.message(), expected);
    }
}

#[test]
fn scan_errors_render_through_the_session() {
    let mut lox = Lox::new();
    let (_, errors) = lox.run(chars("\n@"));
    assert_eq!(errors.len(), 1);
    let d = errors[0];
    let rendered = lox.error(d.line, &chars(d.message()));
    assert_eq!(text(&rendered), "[line 2] Error : Unexpected character.");
}
