//! Canonical rendering of a syntax tree: fully parenthesized prefix
//! form. A binary node renders as `(<operator> <left> <right>)`, a
//! unary node as `(<operator> <operand>)`, a grouping as
//! `(group <inner>)`, and a literal as its value's display form.
//! The rendering is a function of the tree alone.

use vstd::prelude::*;

use crate::ast::{Expr, ExprView, value_text};
use crate::text::chars_to_string;
use crate::token::{lexeme_chars, lexeme_view};

verus! {

/// The canonical rendering of a tree.
pub open spec fn render_expr(e: ExprView) -> Seq<char>
    decreases e,
{
    match e {
        ExprView::Binary { op, left, right } => seq!['('] + lexeme_view(op.kind) + seq![' ']
            + render_expr(*left) + seq![' '] + render_expr(*right) + seq![')'],
        ExprView::Grouping(inner) => seq!['(', 'g', 'r', 'o', 'u', 'p', ' '] + render_expr(*inner)
            + seq![')'],
        ExprView::Literal(v) => value_text(v),
        ExprView::Unary { op, expr } => seq!['('] + lexeme_view(op.kind) + seq![' '] + render_expr(
            *expr,
        ) + seq![')'],
    }
}

/// The canonical rendering of `expr`, as characters.
pub fn render_expr_chars(expr: &Expr) -> (out: Vec<char>)
    ensures
        out@ == render_expr(expr@),
    decreases *expr,
{
    let mut out: Vec<char> = Vec::new();
    match expr {
        Expr::Binary(b) => {
            out.push('(');
            let op = lexeme_chars(b.op().token_type());
            out.extend_from_slice(op.as_slice());
            out.push(' ');
            let l = render_expr_chars(b.left());
            out.extend_from_slice(l.as_slice());
            out.push(' ');
            let r = render_expr_chars(b.right());
            out.extend_from_slice(r.as_slice());
            out.push(')');
        }
        Expr::Grouping(g) => {
            out.extend_from_slice(&['(', 'g', 'r', 'o', 'u', 'p', ' ']);
            let i = render_expr_chars(g.expression());
            out.extend_from_slice(i.as_slice());
            out.push(')');
        }
        Expr::Literal(l) => {
            let v = l.to_chars();
            out.extend_from_slice(v.as_slice());
        }
        Expr::Unary(u) => {
            out.push('(');
            let op = lexeme_chars(u.op().token_type());
            out.extend_from_slice(op.as_slice());
            out.push(' ');
            let e = render_expr_chars(u.expr());
            out.extend_from_slice(e.as_slice());
            out.push(')');
        }
    }
    proof {
        assert(out@ =~= render_expr(expr@));
    }
    out
}

/// Renders syntax trees in their canonical textual form.
pub struct AstPrinter;

impl AstPrinter {
    /// The canonical rendering of `expr`.
    pub fn visit_expr(&self, expr: &Expr) -> (s: String)
        ensures
            s@ == render_expr(expr@),
    {
        chars_to_string(render_expr_chars(expr))
    }
}

} // verus!
