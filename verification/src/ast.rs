//! The expression grammar's node shapes: a sum type with exactly four
//! variants, built once by the parser, consumed read-only by the
//! evaluator and the renderer.

use vstd::prelude::*;

use crate::numeric::num_text;
use crate::numeric::render_number_chars;
use crate::text::chars_to_string;
use crate::text::str_to_chars;
use crate::token::{Token, TokenView};

verus! {

/// A syntax tree node. Each node exclusively owns its children; the
/// tree is acyclic and immutable after construction.
pub enum Expr {
    Binary(BinaryExpr),
    Grouping(GroupingExpr),
    Literal(LiteralExpr),
    Unary(UnaryExpr),
}

/// A binary application: `left operator right`.
pub struct BinaryExpr {
    pub left: Box<Expr>,
    pub op: Box<Token>,
    pub right: Box<Expr>,
}

/// A parenthesized inner expression.
pub struct GroupingExpr {
    pub expression: Box<Expr>,
}

/// A runtime value: the literal payload inside the tree and the
/// evaluator's result type. A number is carried as the IEEE 754
/// binary64 bit pattern of its value. No implicit coercion between
/// variants exists anywhere in the data model.
#[derive(Clone, Debug)]
pub enum LiteralExpr {
    Number(u64),
    Str(String),
    Boolean(bool),
    Nil(),
}

/// A unary application: `operator operand`.
pub struct UnaryExpr {
    pub op: Box<Token>,
    pub expr: Box<Expr>,
}

/// Mathematical model of a runtime value.
pub enum ValueView {
    Num(u64),
    Str(Seq<char>),
    Bool(bool),
    Nil,
}

impl View for LiteralExpr {
    type V = ValueView;

    open spec fn view(&self) -> ValueView {
        match self {
            LiteralExpr::Number(b) => ValueView::Num(*b),
            LiteralExpr::Str(s) => ValueView::Str(s@),
            LiteralExpr::Boolean(b) => ValueView::Bool(*b),
            LiteralExpr::Nil() => ValueView::Nil,
        }
    }
}

/// Mathematical model of a syntax tree.
pub enum ExprView {
    Binary { op: TokenView, left: Box<ExprView>, right: Box<ExprView> },
    Grouping(Box<ExprView>),
    Literal(ValueView),
    Unary { op: TokenView, expr: Box<ExprView> },
}

/// The model of a tree: tokens and values become their own models.
pub open spec fn expr_view(e: Expr) -> ExprView
    decreases e,
{
    match e {
        Expr::Binary(b) => ExprView::Binary {
            op: (*b.op)@,
            left: Box::new(expr_view(*b.left)),
            right: Box::new(expr_view(*b.right)),
        },
        Expr::Grouping(g) => ExprView::Grouping(Box::new(expr_view(*g.expression))),
        Expr::Literal(l) => ExprView::Literal(l@),
        Expr::Unary(u) => ExprView::Unary {
            op: (*u.op)@,
            expr: Box::new(expr_view(*u.expr)),
        },
    }
}

impl View for Expr {
    type V = ExprView;

    open spec fn view(&self) -> ExprView {
        expr_view(*self)
    }
}

impl BinaryExpr {
    pub fn new(left: Expr, op: Token, right: Expr) -> (r: Self)
        ensures
            r.left == left,
            r.op == op,
            r.right == right,
    {
        Self { left: Box::new(left), op: Box::new(op), right: Box::new(right) }
    }

    pub fn left(&self) -> (r: &Expr)
        ensures
            r == &*self.left,
    {
        &self.left
    }

    pub fn op(&self) -> (r: &Token)
        ensures
            r == &*self.op,
    {
        &self.op
    }

    pub fn right(&self) -> (r: &Expr)
        ensures
            r == &*self.right,
    {
        &self.right
    }
}

impl GroupingExpr {
    pub fn new(expression: Expr) -> (r: Self)
        ensures
            r.expression == expression,
    {
        Self { expression: Box::new(expression) }
    }

    pub fn expression(&self) -> (r: &Expr)
        ensures
            r == &*self.expression,
    {
        &self.expression
    }
}

impl UnaryExpr {
    pub fn new(op: Token, expr: Expr) -> (r: Self)
        ensures
            r.op == op,
            r.expr == expr,
    {
        Self { op: Box::new(op), expr: Box::new(expr) }
    }

    pub fn op(&self) -> (r: &Token)
        ensures
            r == &*self.op,
    {
        &self.op
    }

    pub fn expr(&self) -> (r: &Expr)
        ensures
            r == &*self.expr,
    {
        &self.expr
    }
}

/// The display form of a value: numbers in shortest faithful decimal,
/// strings quoted, booleans as `true`/`false`, nil as `nil`.
pub open spec fn value_text(v: ValueView) -> Seq<char> {
    match v {
        ValueView::Num(b) => num_text(b),
        ValueView::Str(s) => seq!['"'] + s + seq!['"'],
        ValueView::Bool(b) => if b {
            seq!['t', 'r', 'u', 'e']
        } else {
            seq!['f', 'a', 'l', 's', 'e']
        },
        ValueView::Nil => seq!['n', 'i', 'l'],
    }
}

impl LiteralExpr {
    /// The display form of this value, as characters.
    pub fn to_chars(&self) -> (v: Vec<char>)
        ensures
            v@ == value_text(self@),
    {
        let mut out: Vec<char> = Vec::new();
        match self {
            LiteralExpr::Number(b) => {
                let cs = render_number_chars(*b);
                out.extend_from_slice(cs.as_slice());
            }
            LiteralExpr::Str(s) => {
                out.push('"');
                let cs = str_to_chars(s.as_str());
                out.extend_from_slice(cs.as_slice());
                out.push('"');
            }
            LiteralExpr::Boolean(b) => {
                if *b {
                    out.extend_from_slice(&['t', 'r', 'u', 'e']);
                } else {
                    out.extend_from_slice(&['f', 'a', 'l', 's', 'e']);
                }
            }
            LiteralExpr::Nil() => {
                out.extend_from_slice(&['n', 'i', 'l']);
            }
        }
        proof {
            assert(out@ =~= value_text(self@));
        }
        out
    }

    /// The display form of this value.
    pub fn to_text(&self) -> (s: String)
        ensures
            s@ == value_text(self@),
    {
        chars_to_string(self.to_chars())
    }

    /// A copy of this value, with the same model.
    pub fn duplicate(&self) -> (r: LiteralExpr)
        ensures
            r@ == self@,
    {
        match self {
            LiteralExpr::Number(b) => LiteralExpr::Number(*b),
            LiteralExpr::Str(s) => LiteralExpr::Str(s.clone()),
            LiteralExpr::Boolean(b) => LiteralExpr::Boolean(*b),
            LiteralExpr::Nil() => LiteralExpr::Nil(),
        }
    }
}

} // verus!
