use lox::scanner::Scanner;
use lox::scanner::report::ErrorKind;
use lox::scanner::token::{Literal, Token, TokenType};

fn chars(s: &str) -> Vec<char> {
    s.chars().collect()
}

fn text(v: &[char]) -> String {
    v.iter().collect()
}

fn scan(src: &str) -> Scanner {
    let mut scanner = Scanner::new(chars(src), 1);
    scanner.scan_tokens();
    scanner
}

fn kinds(tokens: &[Token]) -> Vec<TokenType> {
    tokens.iter().map(|t| t.kind).collect()
}

#[test]
fn punctuation_single_characters() {
    let s = scan("(){},.-+;*");
    assert_eq!(
        kinds(&s.tokens),
        vec![
            TokenType::LeftParen,
            TokenType::RightParen,
            TokenType::LeftBrace,
            TokenType::RightBrace,
            TokenType::Comma,
            TokenType::Dot,
            TokenType::Minus,
            TokenType::Plus,
            TokenType::SemiColon,
            TokenType::Star,
            TokenType::Eof,
        ]
    );
}

#[test]
fn operators_two_character_forms() {
    for (src, kind) in [
        ("!=", TokenType::BangEqual),
        ("==", TokenType::EqualEqual),
        ("<=", TokenType::LessEqual),
        (">=", TokenType::GreaterEqual),
    ] {
        let s = scan(src);
        assert_eq!(kinds(&s.tokens), vec![kind, TokenType::Eof], "source {src:?}");
        assert_eq!(text(&s.tokens[0].lexeme), src);
        assert!(s.errors.is_empty());
    }
}

#[test]
fn operators_single_character_forms() {
    for (src, kind) in [
        ("!", TokenType::Bang),
        ("=", TokenType::Equal),
        ("<", TokenType::Less),
        (">", TokenType::Greater),
    ] {
        let s = scan(src);
        assert_eq!(kinds(&s.tokens), vec![kind, TokenType::Eof], "source {src:?}");
        assert_eq!(text(&s.tokens[0].lexeme), src);
    }
}

#[test]
fn operators_not_extended_over_other_characters() {
    let s = scan("!<");
    assert_eq!(kinds(&s.tokens), vec![TokenType::Bang, TokenType::Less, TokenType::Eof]);
    let s = scan("=>");
    assert_eq!(kinds(&s.tokens), vec![TokenType::Equal, TokenType::Greater, TokenType::Eof]);
}

#[test]
fn number_integer() {
    let s = scan("123");
    assert_eq!(s.tokens.len(), 2);
    let tok = &s.tokens[0];
    assert_eq!(tok.kind, TokenType::Number);
    assert_eq!(text(&tok.lexeme), "123");
    match &tok.literal {
        Some(Literal::Number(d)) => {
            assert_eq!(text(d), "123");
            assert_eq!(text(d).parse::<f64>().unwrap(), 123.0);
        }
        other => panic!("expected a number literal, got {other:?}"),
    }
}

#[test]
fn number_decimal() {
    let s = scan("1.5");
    assert_eq!(s.tokens.len(), 2);
    let tok = &s.tokens[0];
    assert_eq!(tok.kind, TokenType::Number);
    match &tok.literal {
        Some(Literal::Number(d)) => {
            assert_eq!(text(d), "1.5");
            assert_eq!(text(d).parse::<f64>().unwrap(), 1.5);
        }
        other => panic!("expected a number literal, got {other:?}"),
    }
}

#[test]
fn number_trailing_dot_is_not_consumed() {
    let s = scan("1.");
    assert_eq!(kinds(&s.tokens), vec![TokenType::Number, TokenType::Dot, TokenType::Eof]);
    assert_eq!(text(&s.tokens[0].lexeme), "1");
    match &s.tokens[0].literal {
        Some(Literal::Number(d)) => {
            assert_eq!(text(d), "1");
            assert_eq!(text(d).parse::<f64>().unwrap(), 1.0);
        }
        other => panic!("expected a number literal, got {other:?}"),
    }
}

#[test]
fn number_canonical_texts() {
    let s = scan("007 1.50 10.00 0.5 000");
    let got: Vec<String> = s
        .tokens
        .iter()
        .filter_map(|t| match &t.literal {
            Some(Literal::Number(d)) => Some(text(d)),
            _ => None,
        })
        .collect();
    assert_eq!(got, vec!["7", "1.5", "10", "0.5", "0"]);
}

#[test]
fn string_literal() {
    let s = scan("\"abc\"");
    assert_eq!(kinds(&s.tokens), vec![TokenType::Str, TokenType::Eof]);
    let tok = &s.tokens[0];
    assert_eq!(text(&tok.lexeme), "\"abc\"");
    match &tok.literal {
        Some(Literal::Str(v)) => assert_eq!(text(v), "abc"),
        other => panic!("expected a string literal, got {other:?}"),
    }
    assert!(s.errors.is_empty());
    assert_eq!(s.current, 5);
}

#[test]
fn string_unterminated() {
    let s = scan("\"abc");
    assert_eq!(kinds(&s.tokens), vec![TokenType::Eof]);
    assert_eq!(s.errors.len(), 1);
    assert_eq!(s.errors[0].kind, ErrorKind::UnterminatedString);
    assert_eq!(s.errors[0].line, 1);
}

#[test]
fn string_spanning_lines_starts_at_its_opening_line() {
    let s = scan("\"a\nb\"");
    assert_eq!(kinds(&s.tokens), vec![TokenType::Str, TokenType::Eof]);
    let tok = &s.tokens[0];
    assert_eq!(tok.line, 1);
    match &tok.literal {
        Some(Literal::Str(v)) => assert_eq!(text(v), "a\nb"),
        other => panic!("expected a string literal, got {other:?}"),
    }
    assert_eq!(s.line, 2);
    assert_eq!(s.tokens[1].line, 2);
}

#[test]
fn keywords_all_sixteen() {
    for (src, kind) in [
        ("and", TokenType::And),
        ("class", TokenType::Class),
        ("else", TokenType::Else),
        ("false", TokenType::False),
        ("for", TokenType::For),
        ("fun", TokenType::Fun),
        ("if", TokenType::If),
        ("nil", TokenType::Nil),
        ("or", TokenType::Or),
        ("print", TokenType::Print),
        ("return", TokenType::Return),
        ("super", TokenType::Super),
        ("this", TokenType::This),
        ("true", TokenType::True),
        ("var", TokenType::Var),
        ("while", TokenType::While),
    ] {
        let s = scan(src);
        assert_eq!(kinds(&s.tokens), vec![kind, TokenType::Eof], "source {src:?}");
        assert_eq!(s.tokens[0].literal, None);
    }
}

#[test]
fn identifier_shaped_text_is_identifier() {
    for src in ["andy", "clazz", "_x1", "For", "iff", "classes", "x"] {
        let s = scan(src);
        assert_eq!(
            kinds(&s.tokens),
            vec![TokenType::Identifier, TokenType::Eof],
            "source {src:?}"
        );
        assert_eq!(text(&s.tokens[0].lexeme), src);
    }
}

#[test]
fn line_comment_yields_nothing() {
    let s = scan("// comment text\n");
    assert_eq!(kinds(&s.tokens), vec![TokenType::Eof]);
    assert!(s.errors.is_empty());
    assert_eq!(s.line, 2);
}

#[test]
fn line_comment_does_not_eat_the_next_line() {
    let s = scan("// comment\nvar");
    assert_eq!(kinds(&s.tokens), vec![TokenType::Var, TokenType::Eof]);
    assert_eq!(s.tokens[0].line, 2);
}

#[test]
fn block_comment_spanning_two_lines() {
    let s = scan("/* line1\nline2 */");
    assert_eq!(kinds(&s.tokens), vec![TokenType::Eof]);
    assert!(s.errors.is_empty());
    assert_eq!(s.line, 2);
}

#[test]
fn block_comment_unterminated() {
    let s = scan("/* abc");
    assert_eq!(kinds(&s.tokens), vec![TokenType::Eof]);
    assert_eq!(s.errors.len(), 1);
    assert_eq!(s.errors[0].kind, ErrorKind::UnterminatedBlockComment);
    assert_eq!(s.errors[0].line, 1);
}

#[test]
fn block_comment_reports_its_starting_line() {
    let s = scan("\n\n/* a\nb");
    assert_eq!(s.errors.len(), 1);
    assert_eq!(s.errors[0].kind, ErrorKind::UnterminatedBlockComment);
    assert_eq!(s.errors[0].line, 3);
    assert_eq!(s.line, 4);
}

#[test]
fn block_comments_do_not_nest() {
    let s = scan("/* /* */ x");
    assert_eq!(kinds(&s.tokens), vec![TokenType::Identifier, TokenType::Eof]);
    assert_eq!(text(&s.tokens[0].lexeme), "x");
    assert!(s.errors.is_empty());
}

#[test]
fn slash_alone_is_a_token() {
    let s = scan("1/2");
    assert_eq!(
        kinds(&s.tokens),
        vec![TokenType::Number, TokenType::Slash, TokenType::Number, TokenType::Eof]
    );
}

#[test]
fn unexpected_character_is_reported_and_skipped() {
    let s = scan("@x");
    assert_eq!(kinds(&s.tokens), vec![TokenType::Identifier, TokenType::Eof]);
    assert_eq!(s.errors.len(), 1);
    assert_eq!(s.errors[0].kind, ErrorKind::UnexpectedCharacter);
    assert_eq!(s.errors[0].line, 1);
}

#[test]
fn eof_is_the_unique_terminal_token() {
    for src in ["", "var x = 1;", "\"abc", "@", "/* a", "1.5 // done"] {
        let s = scan(src);
        let last = s.tokens.last().expect("a scan always yields a token");
        assert_eq!(last.kind, TokenType::Eof, "source {src:?}");
        assert!(last.lexeme.is_empty());
        assert_eq!(last.line, s.line);
        let eofs = s.tokens.iter().filter(|t| t.kind == TokenType::Eof).count();
        assert_eq!(eofs, 1, "source {src:?}");
    }
}

#[test]
fn line_counter_is_seeded_by_the_caller() {
    let mut s = Scanner::new(chars("a\nb"), 5);
    s.scan_tokens();
    assert_eq!(s.tokens[0].line, 5);
    assert_eq!(s.tokens[1].line, 6);
    assert_eq!(s.line, 6);
}

#[test]
fn whitespace_is_ignored() {
    let s = scan(" \r\t var \t x ");
    assert_eq!(kinds(&s.tokens), vec![TokenType::Var, TokenType::Identifier, TokenType::Eof]);
}

#[test]
fn mixed_statement() {
    let s = scan("var answer = 4.20;");
    assert_eq!(
        kinds(&s.tokens),
        vec![
            TokenType::Var,
            TokenType::Identifier,
            TokenType::Equal,
            TokenType::Number,
            TokenType::SemiColon,
            TokenType::Eof,
        ]
    );
    match &s.tokens[3].literal {
        Some(Literal::Number(d)) => assert_eq!(text(d), "4.2"),
        other => panic!("expected a number literal, got {other:?}"),
    }
}
