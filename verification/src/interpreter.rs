//! Tree-walking evaluation: a post-order walk that reduces a syntax
//! tree to a runtime value, applying operator semantics and type
//! checks. The first runtime error aborts the walk.
//!
//! Numeric equality is exact IEEE 754 comparison (NaN is unequal to
//! everything, the two zeros are equal); there is no tolerance, and no
//! coercion between value variants anywhere.

use vstd::prelude::*;

use crate::ast::{Expr, ExprView, LiteralExpr, ValueView, value_text};
use crate::numeric::{
    diff_bits,
    f_eq,
    f_le,
    f_lt,
    f_neg,
    num_eq,
    num_le,
    num_lt,
    num_add,
    num_div,
    num_mul,
    num_neg,
    num_sub,
    prod_bits,
    quot_bits,
    sum_bits,
};
use crate::error::{Builder, Error, ErrorType, ErrorView};
use crate::text::chars_to_string;
use crate::text::str_to_chars;
use crate::token::{lexeme_view, Token, TokenView, TokenType, TokenTypeView};

verus! {

/// A structured evaluation failure, carrying the operator it arose at.
#[derive(Debug)]
pub enum RuntimeError {
    /// An arithmetic or comparison operator was applied to a value that
    /// is not a number; the payload describes the operator.
    ExpectedNumberLiterals(String),
    /// An operator token that no evaluation rule covers reached a node.
    /// Defensive: unreachable for trees the parser builds.
    UnknownOperatorError(Token),
    /// `+` was applied to operands that are neither two numbers nor two
    /// strings.
    InvalidOperandError(Token),
    /// Unary `-` was applied to a value that is not a number.
    InvalidLiteralForUnary(Token),
}

/// Mathematical model of a runtime error.
pub enum RuntimeErrorView {
    ExpectedNumberLiterals(Seq<char>),
    UnknownOperatorError(TokenView),
    InvalidOperandError(TokenView),
    InvalidLiteralForUnary(TokenView),
}

impl View for RuntimeError {
    type V = RuntimeErrorView;

    open spec fn view(&self) -> RuntimeErrorView {
        match self {
            RuntimeError::ExpectedNumberLiterals(s) => RuntimeErrorView::ExpectedNumberLiterals(
                s@,
            ),
            RuntimeError::UnknownOperatorError(t) => RuntimeErrorView::UnknownOperatorError(t@),
            RuntimeError::InvalidOperandError(t) => RuntimeErrorView::InvalidOperandError(t@),
            RuntimeError::InvalidLiteralForUnary(t) => RuntimeErrorView::InvalidLiteralForUnary(
                t@,
            ),
        }
    }
}

/// The error record a runtime failure propagates to the driver.
pub open spec fn runtime_error_record(re: RuntimeErrorView) -> ErrorView {
    match re {
        RuntimeErrorView::ExpectedNumberLiterals(s) => ErrorView {
            error_type: ErrorType::Runtime,
            message: "expected number literals for operand "@ + s,
            token: None,
            line: None,
        },
        RuntimeErrorView::UnknownOperatorError(t) => ErrorView {
            error_type: ErrorType::Runtime,
            message: "unknown operator"@,
            token: Some(lexeme_view(t.kind)),
            line: Some(t.line),
        },
        RuntimeErrorView::InvalidOperandError(t) => ErrorView {
            error_type: ErrorType::Runtime,
            message: "invalid operands for +"@,
            token: Some(lexeme_view(t.kind)),
            line: Some(t.line),
        },
        RuntimeErrorView::InvalidLiteralForUnary(t) => ErrorView {
            error_type: ErrorType::Runtime,
            message: "expected number literal for unary operand"@,
            token: Some(lexeme_view(t.kind)),
            line: Some(t.line),
        },
    }
}

impl RuntimeError {
    /// This failure as the error record handed to the driver.
    pub fn to_error(self) -> (e: Error)
        ensures
            e@ == runtime_error_record(self@),
    {
        match self {
            RuntimeError::ExpectedNumberLiterals(s) => {
                let mut cs = str_to_chars("expected number literals for operand ");
                let more = str_to_chars(s.as_str());
                cs.extend_from_slice(more.as_slice());
                proof {
                    assert(cs@ =~= "expected number literals for operand "@ + s@);
                }
                Builder::new(ErrorType::Runtime, chars_to_string(cs)).build()
            }
            RuntimeError::UnknownOperatorError(t) => Builder::new(
                ErrorType::Runtime,
                "unknown operator".to_owned(),
            ).token(&t).build(),
            RuntimeError::InvalidOperandError(t) => Builder::new(
                ErrorType::Runtime,
                "invalid operands for +".to_owned(),
            ).token(&t).build(),
            RuntimeError::InvalidLiteralForUnary(t) => Builder::new(
                ErrorType::Runtime,
                "expected number literal for unary operand".to_owned(),
            ).token(&t).build(),
        }
    }
}

/// Truthiness: nil and false are falsy; every other value, including
/// zero and the empty string, is truthy.
pub open spec fn is_truthy_v(v: ValueView) -> bool {
    match v {
        ValueView::Nil => false,
        ValueView::Bool(b) => b,
        _ => true,
    }
}

/// Structural equality of two values: equal variants with equal
/// payloads; numbers by exact IEEE 754 comparison; any cross-variant
/// comparison is unequal.
pub open spec fn is_equal_v(a: ValueView, b: ValueView) -> bool {
    match (a, b) {
        (ValueView::Nil, ValueView::Nil) => true,
        (ValueView::Bool(x), ValueView::Bool(y)) => x == y,
        (ValueView::Num(x), ValueView::Num(y)) => f_eq(x, y),
        (ValueView::Str(x), ValueView::Str(y)) => x == y,
        _ => false,
    }
}

/// What a binary operator yields on already-evaluated operands.
pub open spec fn apply_binary(op: TokenView, l: ValueView, r: ValueView) -> Result<
    ValueView,
    RuntimeErrorView,
> {
    match op.kind {
        TokenTypeView::Plus => match (l, r) {
            (ValueView::Num(a), ValueView::Num(b)) => Ok(ValueView::Num(sum_bits(a, b))),
            (ValueView::Str(a), ValueView::Str(b)) => Ok(ValueView::Str(a + b)),
            _ => Err(RuntimeErrorView::InvalidOperandError(op)),
        },
        TokenTypeView::Minus => match (l, r) {
            (ValueView::Num(a), ValueView::Num(b)) => Ok(ValueView::Num(diff_bits(a, b))),
            _ => Err(RuntimeErrorView::ExpectedNumberLiterals(seq!['-'])),
        },
        TokenTypeView::Star => match (l, r) {
            (ValueView::Num(a), ValueView::Num(b)) => Ok(ValueView::Num(prod_bits(a, b))),
            _ => Err(RuntimeErrorView::ExpectedNumberLiterals(seq!['*'])),
        },
        TokenTypeView::Slash => match (l, r) {
            (ValueView::Num(a), ValueView::Num(b)) => Ok(ValueView::Num(quot_bits(a, b))),
            _ => Err(RuntimeErrorView::ExpectedNumberLiterals(seq!['/'])),
        },
        TokenTypeView::Greater => match (l, r) {
            (ValueView::Num(a), ValueView::Num(b)) => Ok(ValueView::Bool(f_lt(b, a))),
            _ => Err(RuntimeErrorView::ExpectedNumberLiterals(seq!['>'])),
        },
        TokenTypeView::GreaterEqual => match (l, r) {
            (ValueView::Num(a), ValueView::Num(b)) => Ok(ValueView::Bool(f_le(b, a))),
            _ => Err(RuntimeErrorView::ExpectedNumberLiterals(seq!['>', '='])),
        },
        TokenTypeView::Less => match (l, r) {
            (ValueView::Num(a), ValueView::Num(b)) => Ok(ValueView::Bool(f_lt(a, b))),
            _ => Err(RuntimeErrorView::ExpectedNumberLiterals(seq!['<'])),
        },
        TokenTypeView::LessEqual => match (l, r) {
            (ValueView::Num(a), ValueView::Num(b)) => Ok(ValueView::Bool(f_le(a, b))),
            _ => Err(RuntimeErrorView::ExpectedNumberLiterals(seq!['<', '='])),
        },
        TokenTypeView::EqualEqual => Ok(ValueView::Bool(is_equal_v(l, r))),
        TokenTypeView::BangEqual => Ok(ValueView::Bool(!is_equal_v(l, r))),
        _ => Err(RuntimeErrorView::UnknownOperatorError(op)),
    }
}

/// What a unary operator yields on its already-evaluated operand.
pub open spec fn apply_unary(op: TokenView, v: ValueView) -> Result<
    ValueView,
    RuntimeErrorView,
> {
    match op.kind {
        TokenTypeView::Minus => match v {
            ValueView::Num(n) => Ok(ValueView::Num(f_neg(n))),
            _ => Err(RuntimeErrorView::InvalidLiteralForUnary(op)),
        },
        TokenTypeView::Bang => Ok(ValueView::Bool(!is_truthy_v(v))),
        _ => Err(RuntimeErrorView::UnknownOperatorError(op)),
    }
}

/// The value of a tree: children evaluated fully before the parent
/// operator is applied, left to right, first error out.
pub open spec fn eval(e: ExprView) -> Result<ValueView, RuntimeErrorView>
    decreases e,
{
    match e {
        ExprView::Binary { op, left, right } => match eval(*left) {
            Ok(l) => match eval(*right) {
                Ok(r) => apply_binary(op, l, r),
                Err(err) => Err(err),
            },
            Err(err) => Err(err),
        },
        ExprView::Grouping(inner) => eval(*inner),
        ExprView::Literal(v) => Ok(v),
        ExprView::Unary { op, expr } => match eval(*expr) {
            Ok(v) => apply_unary(op, v),
            Err(err) => Err(err),
        },
    }
}

/// Truthiness of a value.
pub fn is_truthy(literal: &LiteralExpr) -> (r: bool)
    ensures
        r == is_truthy_v(literal@),
{
    match literal {
        LiteralExpr::Nil() => false,
        LiteralExpr::Boolean(b) => *b,
        _ => true,
    }
}

/// Structural equality of two values.
pub fn is_equal(l1: &LiteralExpr, l2: &LiteralExpr) -> (r: bool)
    ensures
        r == is_equal_v(l1@, l2@),
{
    match (l1, l2) {
        (LiteralExpr::Nil(), LiteralExpr::Nil()) => true,
        (LiteralExpr::Boolean(b1), LiteralExpr::Boolean(b2)) => b1 == b2,
        (LiteralExpr::Number(n1), LiteralExpr::Number(n2)) => num_eq(*n1, *n2),
        (LiteralExpr::Str(s1), LiteralExpr::Str(s2)) => s1.eq(s2),
        _ => false,
    }
}

/// The numeric binary operators whose operands must both be numbers.
#[derive(Clone, Copy, Debug)]
pub enum NumBinOp {
    Sub,
    Mul,
    Div,
    Gt,
    Ge,
    Lt,
    Le,
}

/// What a numeric operator yields on two number patterns.
pub open spec fn num_op_value(op: NumBinOp, a: u64, b: u64) -> ValueView {
    match op {
        NumBinOp::Sub => ValueView::Num(diff_bits(a, b)),
        NumBinOp::Mul => ValueView::Num(prod_bits(a, b)),
        NumBinOp::Div => ValueView::Num(quot_bits(a, b)),
        NumBinOp::Gt => ValueView::Bool(f_lt(b, a)),
        NumBinOp::Ge => ValueView::Bool(f_le(b, a)),
        NumBinOp::Lt => ValueView::Bool(f_lt(a, b)),
        NumBinOp::Le => ValueView::Bool(f_le(a, b)),
    }
}

/// Applies a numeric operator after checking that both operands are
/// numbers; a mismatch is an error carrying the operator description.
pub fn check_number_operands(
    operator: &str,
    left: &LiteralExpr,
    right: &LiteralExpr,
    op: NumBinOp,
) -> (r: Result<LiteralExpr, RuntimeError>)
    ensures
        match (left@, right@) {
            (ValueView::Num(a), ValueView::Num(b)) => {
                &&& r is Ok
                &&& r->Ok_0@ == num_op_value(op, a, b)
            },
            _ => {
                &&& r is Err
                &&& r->Err_0@ == RuntimeErrorView::ExpectedNumberLiterals(operator@)
            },
        },
{
    if let (LiteralExpr::Number(n1), LiteralExpr::Number(n2)) = (left, right) {
        let a = *n1;
        let b = *n2;
        Ok(
            match op {
                NumBinOp::Sub => LiteralExpr::Number(num_sub(a, b)),
                NumBinOp::Mul => LiteralExpr::Number(num_mul(a, b)),
                NumBinOp::Div => LiteralExpr::Number(num_div(a, b)),
                NumBinOp::Gt => LiteralExpr::Boolean(num_lt(b, a)),
                NumBinOp::Ge => LiteralExpr::Boolean(num_le(b, a)),
                NumBinOp::Lt => LiteralExpr::Boolean(num_lt(a, b)),
                NumBinOp::Le => LiteralExpr::Boolean(num_le(a, b)),
            },
        )
    } else {
        Err(RuntimeError::ExpectedNumberLiterals(operator.to_owned()))
    }
}

/// Concatenation of two strings, as a value.
fn concat_strings(s1: &String, s2: &String) -> (r: LiteralExpr)
    ensures
        r@ == ValueView::Str(s1@ + s2@),
{
    let mut cs = str_to_chars(s1.as_str());
    let more = str_to_chars(s2.as_str());
    cs.extend_from_slice(more.as_slice());
    proof {
        assert(cs@ =~= s1@ + s2@);
    }
    let s = chars_to_string(cs);
    LiteralExpr::Str(s)
}

/// The value of `expr`: a post-order recursive walk.
pub fn interpret_expr(expr: &Expr) -> (r: Result<LiteralExpr, RuntimeError>)
    ensures
        match r {
            Ok(v) => eval(expr@) == Ok::<ValueView, RuntimeErrorView>(v@),
            Err(e) => eval(expr@) == Err::<ValueView, RuntimeErrorView>(e@),
        },
    decreases *expr,
{
    match expr {
        Expr::Binary(b) => {
            let left = match interpret_expr(b.left()) {
                Ok(v) => v,
                Err(e) => {
                    return Err(e);
                }
            };
            let right = match interpret_expr(b.right()) {
                Ok(v) => v,
                Err(e) => {
                    return Err(e);
                }
            };
            proof {
                reveal_strlit("-");
                reveal_strlit("*");
                reveal_strlit("/");
                reveal_strlit(">");
                reveal_strlit(">=");
                reveal_strlit("<");
                reveal_strlit("<=");
                assert("-"@ =~= seq!['-']);
                assert("*"@ =~= seq!['*']);
                assert("/"@ =~= seq!['/']);
                assert(">"@ =~= seq!['>']);
                assert(">="@ =~= seq!['>', '=']);
                assert("<"@ =~= seq!['<']);
                assert("<="@ =~= seq!['<', '=']);
            }
            match b.op().token_type() {
                TokenType::Plus => match (&left, &right) {
                    (LiteralExpr::Number(n1), LiteralExpr::Number(n2)) => Ok(
                        LiteralExpr::Number(num_add(*n1, *n2)),
                    ),
                    (LiteralExpr::Str(s1), LiteralExpr::Str(s2)) => Ok(concat_strings(s1, s2)),
                    _ => Err(RuntimeError::InvalidOperandError(b.op().duplicate())),
                },
                TokenType::Minus => check_number_operands("-", &left, &right, NumBinOp::Sub),
                TokenType::Star => check_number_operands("*", &left, &right, NumBinOp::Mul),
                TokenType::Slash => check_number_operands("/", &left, &right, NumBinOp::Div),
                TokenType::Greater => check_number_operands(">", &left, &right, NumBinOp::Gt),
                TokenType::GreaterEqual => check_number_operands(
                    ">=",
                    &left,
                    &right,
                    NumBinOp::Ge,
                ),
                TokenType::Less => check_number_operands("<", &left, &right, NumBinOp::Lt),
                TokenType::LessEqual => check_number_operands("<=", &left, &right, NumBinOp::Le),
                TokenType::EqualEqual => Ok(LiteralExpr::Boolean(is_equal(&left, &right))),
                TokenType::BangEqual => Ok(LiteralExpr::Boolean(!is_equal(&left, &right))),
                _ => Err(RuntimeError::UnknownOperatorError(b.op().duplicate())),
            }
        }
        Expr::Grouping(g) => interpret_expr(g.expression()),
        Expr::Literal(l) => Ok(l.duplicate()),
        Expr::Unary(u) => {
            let right = match interpret_expr(u.expr()) {
                Ok(v) => v,
                Err(e) => {
                    return Err(e);
                }
            };
            match u.op().token_type() {
                TokenType::Minus => {
                    if let LiteralExpr::Number(n) = right {
                        Ok(LiteralExpr::Number(num_neg(n)))
                    } else {
                        Err(RuntimeError::InvalidLiteralForUnary(u.op().duplicate()))
                    }
                }
                TokenType::Bang => Ok(LiteralExpr::Boolean(!is_truthy(&right))),
                _ => Err(RuntimeError::UnknownOperatorError(u.op().duplicate())),
            }
        }
    }
}

/// Evaluates `expression` and returns the display text of its value:
/// what a driver shows on success.
pub fn interpret(expression: &Expr) -> (r: Result<String, RuntimeError>)
    ensures
        match r {
            Ok(s) => {
                &&& eval(expression@) is Ok
                &&& s@ == value_text(eval(expression@)->Ok_0)
            },
            Err(e) => eval(expression@) == Err::<ValueView, RuntimeErrorView>(e@),
        },
{
    match interpret_expr(expression) {
        Ok(literal_expr) => Ok(literal_expr.to_text()),
        Err(err) => Err(err),
    }
}

} // verus!
