use lox::ast::LiteralExpr;
use lox::ast_printer::AstPrinter;
use lox::interpreter::{interpret, interpret_expr, RuntimeError};
use lox::lox::Lox;
use lox::parser::{parse, ParseError};
use lox::scanner::scan;
use lox::token::TokenType;

fn evaluate(source: &str) -> Result<LiteralExpr, RuntimeError> {
    let tokens = scan(source).expect("scan failed");
    let expr = parse(tokens).expect("parse failed");
    interpret_expr(&expr)
}

fn render(source: &str) -> String {
    let tokens = scan(source).expect("scan failed");
    let expr = parse(tokens).expect("parse failed");
    AstPrinter.visit_expr(&expr)
}

#[test]
fn renders_unary_and_factor() {
    assert_eq!(render("-123 * 45.67"), "(* (- 123) 45.67)");
}

#[test]
fn factor_is_right_associative() {
    let r = render("2 * 3 * 4");
    assert_ne!(r, "(* (* 2 3) 4)");
    assert_eq!(r, "(* 2 (* 3 4))");
}

#[test]
fn rendering_is_deterministic() {
    let tokens = scan("(1 + 2) * -3").expect("scan failed");
    let expr = parse(tokens).expect("parse failed");
    assert_eq!(AstPrinter.visit_expr(&expr), AstPrinter.visit_expr(&expr));
}

#[test]
fn scanning_is_deterministic() {
    let a = scan("var x = 1.5 // note\n\"s\"").expect("scan failed");
    let b = scan("var x = 1.5 // note\n\"s\"").expect("scan failed");
    assert_eq!(a, b);
}

#[test]
fn adds_numbers() {
    match evaluate("1 + 2") {
        Ok(LiteralExpr::Number(bits)) => assert_eq!(bits, 3.0f64.to_bits()),
        other => panic!("unexpected result: {:?}", other),
    }
}

#[test]
fn concatenates_strings() {
    match evaluate("\"a\" + \"b\"") {
        Ok(LiteralExpr::Str(s)) => assert_eq!(s, "ab"),
        other => panic!("unexpected result: {:?}", other),
    }
}

#[test]
fn plus_rejects_mixed_operands() {
    match evaluate("1 + \"a\"") {
        Err(RuntimeError::InvalidOperandError(t)) => {
            assert!(matches!(t.token_type(), TokenType::Plus));
        }
        other => panic!("unexpected result: {:?}", other),
    }
}

#[test]
fn bang_follows_truthiness() {
    match evaluate("!nil") {
        Ok(LiteralExpr::Boolean(b)) => assert!(b),
        other => panic!("unexpected result: {:?}", other),
    }
    match evaluate("!false") {
        Ok(LiteralExpr::Boolean(b)) => assert!(b),
        other => panic!("unexpected result: {:?}", other),
    }
    match evaluate("!0") {
        Ok(LiteralExpr::Boolean(b)) => assert!(!b, "zero is truthy"),
        other => panic!("unexpected result: {:?}", other),
    }
}

#[test]
fn empty_string_is_truthy() {
    match evaluate("!\"\"") {
        Ok(LiteralExpr::Boolean(b)) => assert!(!b),
        other => panic!("unexpected result: {:?}", other),
    }
}

#[test]
fn grouping_changes_precedence() {
    match evaluate("(1 + 2) * 3") {
        Ok(LiteralExpr::Number(bits)) => assert_eq!(bits, 9.0f64.to_bits()),
        other => panic!("unexpected result: {:?}", other),
    }
}

#[test]
fn term_binds_looser_than_factor() {
    match evaluate("1 + 2 * 3") {
        Ok(LiteralExpr::Number(bits)) => assert_eq!(bits, 7.0f64.to_bits()),
        other => panic!("unexpected result: {:?}", other),
    }
}

#[test]
fn unterminated_string_reports_start_line() {
    let err = scan("\"abc").expect_err("scan should fail");
    assert_eq!(err.message, "unterminated string");
    assert_eq!(err.line, Some(1));
}

#[test]
fn unterminated_string_on_later_line() {
    let err = scan("1 + 2\n\"abc").expect_err("scan should fail");
    assert_eq!(err.line, Some(2));
}

#[test]
fn missing_close_paren_is_a_syntax_error() {
    let tokens = scan("(1 + 2").expect("scan failed");
    match parse(tokens) {
        Err(ParseError::ExpectedToken(k, _t)) => {
            assert!(matches!(k, TokenType::RightParen));
        }
        other => panic!(
            "unexpected result: {:?}",
            other.map(|e| AstPrinter.visit_expr(&e))
        ),
    }
}

#[test]
fn missing_close_paren_message() {
    let mut lox = Lox::new();
    let err = lox.run("(1 + 2").expect_err("run should fail");
    assert_eq!(err.message, "expected ')' after expression");
    assert!(lox.had_error);
}

#[test]
fn numeric_equality_ignores_representation() {
    match evaluate("1 == 1.0") {
        Ok(LiteralExpr::Boolean(b)) => assert!(b),
        other => panic!("unexpected result: {:?}", other),
    }
}

#[test]
fn equality_never_coerces_across_variants() {
    match evaluate("1 == \"1\"") {
        Ok(LiteralExpr::Boolean(b)) => assert!(!b),
        other => panic!("unexpected result: {:?}", other),
    }
}

#[test]
fn equality_is_exact_not_tolerant() {
    match evaluate("0.1 + 0.2 == 0.3") {
        Ok(LiteralExpr::Boolean(b)) => assert!(!b, "comparison is exact"),
        other => panic!("unexpected result: {:?}", other),
    }
}

#[test]
fn equal_sign_parses_at_the_equality_level() {
    // `=` is accepted by the grammar as an equality-level operator;
    // no evaluation rule covers it, so the defensive unknown-operator
    // error is reported rather than a panic.
    assert_eq!(render("1 = 1"), "(= 1 1)");
    match evaluate("1 = 1") {
        Err(RuntimeError::UnknownOperatorError(t)) => {
            assert!(matches!(t.token_type(), TokenType::Equal));
        }
        other => panic!("unexpected result: {:?}", other),
    }
}

#[test]
fn bang_equal_never_reaches_the_tree_from_source() {
    // The equality level accepts only `=` and `==`, so `!= 2` is
    // trailing text the parser never examines.
    match evaluate("1 != 2") {
        Ok(LiteralExpr::Number(bits)) => assert_eq!(bits, 1.0f64.to_bits()),
        other => panic!("unexpected result: {:?}", other),
    }
}

#[test]
fn bang_equal_negates_equality() {
    // Built directly, a `!=` node is the logical negation of `==`.
    let e = lox::ast::Expr::Binary(lox::ast::BinaryExpr::new(
        lox::ast::Expr::Literal(LiteralExpr::Number(1.0f64.to_bits())),
        lox::token::Token::new(TokenType::BangEqual, lox::token::Span::new(1)),
        lox::ast::Expr::Literal(LiteralExpr::Number(2.0f64.to_bits())),
    ));
    match interpret_expr(&e) {
        Ok(LiteralExpr::Boolean(b)) => assert!(b),
        other => panic!("unexpected result: {:?}", other),
    }
}

#[test]
fn comparisons_on_numbers() {
    for (src, expected) in [
        ("1 < 2", true),
        ("2 < 1", false),
        ("2 <= 2", true),
        ("3 > 2.5", true),
        ("2 >= 3", false),
    ] {
        match evaluate(src) {
            Ok(LiteralExpr::Boolean(b)) => assert_eq!(b, expected, "{}", src),
            other => panic!("unexpected result for {}: {:?}", src, other),
        }
    }
}

#[test]
fn comparison_rejects_strings() {
    match evaluate("\"a\" < \"b\"") {
        Err(RuntimeError::ExpectedNumberLiterals(op)) => assert_eq!(op, "<"),
        other => panic!("unexpected result: {:?}", other),
    }
}

#[test]
fn minus_rejects_strings_with_operator_name() {
    let mut lox = Lox::new();
    let err = lox.run("1 - \"a\"").expect_err("run should fail");
    assert_eq!(err.message, "expected number literals for operand -");
}

#[test]
fn unary_minus_rejects_non_numbers() {
    match evaluate("-\"a\"") {
        Err(RuntimeError::InvalidLiteralForUnary(t)) => {
            assert!(matches!(t.token_type(), TokenType::Minus));
        }
        other => panic!("unexpected result: {:?}", other),
    }
}

#[test]
fn unary_minus_negates() {
    match evaluate("-(1 + 2)") {
        Ok(LiteralExpr::Number(bits)) => assert_eq!(bits, (-3.0f64).to_bits()),
        other => panic!("unexpected result: {:?}", other),
    }
}

#[test]
fn division_follows_ieee754() {
    match evaluate("1 / 0") {
        Ok(LiteralExpr::Number(bits)) => assert_eq!(bits, f64::INFINITY.to_bits()),
        other => panic!("unexpected result: {:?}", other),
    }
    match evaluate("0 / 0") {
        Ok(LiteralExpr::Number(bits)) => assert!(f64::from_bits(bits).is_nan()),
        other => panic!("unexpected result: {:?}", other),
    }
}

#[test]
fn unexpected_character_is_a_lexical_error() {
    let err = scan("1 + @").expect_err("scan should fail");
    assert_eq!(err.message, "unexpected character");
    assert_eq!(err.token.as_deref(), Some("@"));
    assert_eq!(err.line, Some(1));
}

#[test]
fn comments_run_to_end_of_line() {
    match evaluate("1 + 2 // trailing note") {
        Ok(LiteralExpr::Number(bits)) => assert_eq!(bits, 3.0f64.to_bits()),
        other => panic!("unexpected result: {:?}", other),
    }
    match evaluate("// leading note\n5") {
        Ok(LiteralExpr::Number(bits)) => assert_eq!(bits, 5.0f64.to_bits()),
        other => panic!("unexpected result: {:?}", other),
    }
}

#[test]
fn keywords_are_not_identifiers() {
    let tokens = scan("var").expect("scan failed");
    assert!(matches!(tokens[0].token_type(), TokenType::Var));
    let tokens = scan("variable").expect("scan failed");
    match tokens[0].token_type() {
        TokenType::Identifier(s) => assert_eq!(s, "variable"),
        other => panic!("unexpected token: {:?}", other),
    }
}

#[test]
fn string_literals_keep_line_breaks() {
    let tokens = scan("\"a\nb\"").expect("scan failed");
    match tokens[0].token_type() {
        TokenType::Str(s) => assert_eq!(s, "a\nb"),
        other => panic!("unexpected token: {:?}", other),
    }
    // The end-of-input sentinel carries the final line.
    assert_eq!(tokens[1].span().line, 2);
}

#[test]
fn interpret_returns_display_text() {
    let tokens = scan("\"a\" + \"b\"").expect("scan failed");
    let expr = parse(tokens).expect("parse failed");
    assert_eq!(interpret(&expr).expect("interpret failed"), "\"ab\"");
}

#[test]
fn run_reports_values_and_tracks_errors() {
    let mut lox = Lox::new();
    assert!(!lox.had_error);
    match lox.run("2 * 21") {
        Ok(LiteralExpr::Number(bits)) => assert_eq!(bits, 42.0f64.to_bits()),
        other => panic!("unexpected result: {:?}", other),
    }
    assert!(!lox.had_error);
    assert!(lox.run("@").is_err());
    assert!(lox.had_error);
}

#[test]
fn error_text_includes_line_and_lexeme() {
    let mut lox = Lox::new();
    let err = lox.run("1 +\n* 2").expect_err("run should fail");
    assert_eq!(err.to_text(), "[line 2] Error at '*': expected expression");
    let err = lox.run("\"abc").expect_err("run should fail");
    assert_eq!(err.to_text(), "[line 1] Error: unterminated string");
}

#[test]
fn error_lines_beyond_one_digit() {
    let source = "\n\n\n\n\n\n\n\n\n\n\n\"open";
    let mut lox = Lox::new();
    let err = lox.run(source).expect_err("run should fail");
    assert_eq!(err.line, Some(12));
    assert_eq!(err.to_text(), "[line 12] Error: unterminated string");
}

#[test]
fn booleans_and_nil_display_forms() {
    let tokens = scan("nil").expect("scan failed");
    let expr = parse(tokens).expect("parse failed");
    assert_eq!(interpret(&expr).expect("interpret failed"), "nil");
    let tokens = scan("!!nil").expect("scan failed");
    let expr = parse(tokens).expect("parse failed");
    assert_eq!(interpret(&expr).expect("interpret failed"), "false");
}

#[test]
fn number_lexeme_in_error_text() {
    let mut lox = Lox::new();
    let err = lox.run("(1 2").expect_err("run should fail");
    assert_eq!(err.to_text(), "[line 1] Error at '2': expected ')' after expression");
}

#[test]
fn string_lexeme_is_requoted_in_error_text() {
    let mut lox = Lox::new();
    let err = lox.run("(1 \"x\"").expect_err("run should fail");
    assert_eq!(
        err.to_text(),
        "[line 1] Error at '\"x\"': expected ')' after expression"
    );
}

#[test]
fn trailing_dot_is_not_part_of_a_number() {
    let tokens = scan("1.").expect("scan failed");
    assert!(matches!(tokens[0].token_type(), TokenType::Number(b) if *b == 1.0f64.to_bits()));
    assert!(matches!(tokens[1].token_type(), TokenType::Dot));
    assert!(matches!(tokens[2].token_type(), TokenType::Eof));
}

#[test]
fn fractional_digits_extend_the_number() {
    let tokens = scan("1.25").expect("scan failed");
    assert!(matches!(tokens[0].token_type(), TokenType::Number(b) if *b == 1.25f64.to_bits()));
    assert!(matches!(tokens[1].token_type(), TokenType::Eof));
}

#[test]
fn builder_assembles_an_error_record() {
    let token = lox::token::Token::new(TokenType::Star, lox::token::Span::new(7));
    let err = lox::error::Builder::new(lox::error::ErrorType::Runtime, "unknown operator".to_owned())
        .token(&token)
        .build();
    assert!(matches!(err.error_type, lox::error::ErrorType::Runtime));
    assert_eq!(err.message, "unknown operator");
    assert_eq!(err.token.as_deref(), Some("*"));
    assert_eq!(err.line, Some(7));
}

#[test]
fn tokens_compare_by_kind_and_span() {
    let a = lox::token::Token::new(TokenType::Number(2.0f64.to_bits()), lox::token::Span::new(3));
    let b = lox::token::Token::new(TokenType::Number(2.0f64.to_bits()), lox::token::Span::new(3));
    let c = lox::token::Token::new(TokenType::Number(2.5f64.to_bits()), lox::token::Span::new(3));
    assert!(a == b);
    assert!(a != c);
    assert!(a == TokenType::Number(2.0f64.to_bits()));
}
