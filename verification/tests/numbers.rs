use lox::ast::LiteralExpr;
use lox::interpreter::interpret_expr;
use lox::parser::parse;
use lox::scanner::scan;

fn value_text(source: &str) -> String {
    let tokens = scan(source).expect("scan failed");
    let expr = parse(tokens).expect("parse failed");
    match interpret_expr(&expr) {
        Ok(v) => v.to_text(),
        Err(e) => panic!("evaluation failed: {:?}", e),
    }
}

#[test]
fn literals_render_like_native_floats() {
    for source in [
        "0", "1", "3", "123", "45.67", "0.5", "2.5", "10", "100000", "0.00001", "123456.789",
        "1000000000000000000000", "0.000000000000000000001", "123456789012345678901234567890",
        "1.7976931348623157", "0.1", "9007199254740993",
    ] {
        let expected = format!("{}", source.parse::<f64>().unwrap());
        assert_eq!(value_text(source), expected, "literal {}", source);
    }
}

#[test]
fn quotient_renders_like_native_floats() {
    assert_eq!(value_text("1 / 3"), format!("{}", 1.0f64 / 3.0f64));
    assert_eq!(value_text("10 / 4"), "2.5");
}

#[test]
fn sum_rounding_is_visible_in_text() {
    assert_eq!(value_text("0.1 + 0.2"), format!("{}", 0.1f64 + 0.2f64));
}

#[test]
fn products_of_large_numbers() {
    assert_eq!(value_text("100000 * 100000"), "10000000000");
}

#[test]
fn negative_zero_keeps_its_sign() {
    assert_eq!(value_text("(0 - 1) * 0"), "-0");
    assert_eq!(value_text("0 - 0"), "0");
}

#[test]
fn infinities_and_nan_render_as_native() {
    assert_eq!(value_text("1 / 0"), "inf");
    assert_eq!(value_text("(0 - 1) / 0"), "-inf");
    assert_eq!(value_text("0 / 0"), "NaN");
}

#[test]
fn negation_flips_only_the_sign() {
    assert_eq!(value_text("-45.67"), "-45.67");
    assert_eq!(value_text("--3"), "3");
}
