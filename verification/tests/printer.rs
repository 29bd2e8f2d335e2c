use lox::expression::{AstPrinter, Binary, Expr, Expression, Grouping, Literal, Unary};
use lox::scanner::token::{Literal as LiteralValue, Token, TokenType};

fn chars(s: &str) -> Vec<char> {
    s.chars().collect()
}

fn text(v: &[char]) -> String {
    v.iter().collect()
}

fn number(digits: &str) -> Expr {
    Expr::Literal(Literal::new(LiteralValue::Number(chars(digits))))
}

fn example_tree() -> Expr {
    Expr::Binary(Binary::new(
        Box::new(Expr::Unary(Unary::new(
            Token::new(TokenType::Minus, chars("-"), 1, None),
            Box::new(number("10.1")),
        ))),
        Token::new(TokenType::Star, chars("*"), 1, None),
        Box::new(Expr::Grouping(Grouping::new(Box::new(number("10.33"))))),
    ))
}

#[test]
fn prints_the_example_tree() {
    let printer = AstPrinter {};
    let rendered = printer.print(&example_tree());
    assert_eq!(text(&rendered), "((- 10.1) * (group 10.33))");
}

#[test]
fn printing_twice_gives_the_same_text() {
    let printer = AstPrinter {};
    let tree = example_tree();
    let first = printer.print(&tree);
    let second = printer.print(&tree);
    assert_eq!(first, second);
}

#[test]
fn accept_dispatches_to_the_printer() {
    let printer = AstPrinter {};
    let tree = example_tree();
    let through_dispatch = tree.accept(&printer);
    assert_eq!(text(&through_dispatch), "((- 10.1) * (group 10.33))");
}

#[test]
fn each_shape_accepts_directly() {
    let printer = AstPrinter {};
    let unary = Unary::new(Token::new(TokenType::Bang, chars("!"), 1, None), Box::new(number("1")));
    assert_eq!(text(&unary.accept(&printer)), "(! 1)");
    let grouping = Grouping::new(Box::new(number("2")));
    assert_eq!(text(&grouping.accept(&printer)), "(group 2)");
    let literal = Literal::new(LiteralValue::Nil);
    assert_eq!(text(&literal.accept(&printer)), "nil");
    let binary = Binary::new(
        Box::new(number("1")),
        Token::new(TokenType::Plus, chars("+"), 1, None),
        Box::new(number("2")),
    );
    assert_eq!(text(&binary.accept(&printer)), "(1 + 2)");
}

#[test]
fn prints_every_literal_form() {
    let printer = AstPrinter {};
    for (value, expected) in [
        (LiteralValue::Nil, "nil"),
        (LiteralValue::True, "true"),
        (LiteralValue::False, "false"),
        (LiteralValue::Number(chars("42")), "42"),
        (LiteralValue::Str(chars("hi there")), "hi there"),
    ] {
        let e = Expr::Literal(Literal::new(value));
        assert_eq!(text(&printer.print(&e)), expected);
    }
}

#[test]
fn nested_groupings() {
    let printer = AstPrinter {};
    let tree = Expr::Grouping(Grouping::new(Box::new(Expr::Grouping(Grouping::new(Box::new(
        number("7"),
    ))))));
    assert_eq!(text(&printer.print(&tree)), "(group (group 7))");
}
