//! Recursive-descent parsing with explicit precedence levels, one
//! function per level, each delegating to the next tighter level first.
//! A single forward cursor, no backtracking beyond local lookahead, no
//! error recovery: the first syntax error short-circuits the parse.
//!
//! Precedence, loosest to tightest: equality (`=` and `==`, both
//! accepted as equality), comparison, term, factor, unary, primary.
//! Every binary level is left-associative and iterative except factor,
//! which recurses into itself for a single optional repetition and so
//! associates to the right; that choice is deliberate and preserved.

use vstd::prelude::*;

use crate::ast::{BinaryExpr, Expr, ExprView, GroupingExpr, LiteralExpr, UnaryExpr, ValueView};
use crate::error::{Builder, Error, ErrorType, ErrorView};
use crate::token::{lexeme_view, Span, Token, TokenType, TokenTypeView, TokenView};

verus! {

/// A structured parse failure.
#[derive(Debug)]
pub enum ParseError {
    /// A specific token kind was required and something else stood
    /// there; carries the expected kind and the offending token.
    ExpectedToken(TokenType, Token),
    /// No primary expression begins at the offending token.
    ExpectedExpression(Token),
}

/// Mathematical model of a parse failure.
pub enum ParseErrorView {
    ExpectedToken(TokenTypeView, TokenView),
    ExpectedExpression(TokenView),
}

impl View for ParseError {
    type V = ParseErrorView;

    open spec fn view(&self) -> ParseErrorView {
        match self {
            ParseError::ExpectedToken(k, t) => ParseErrorView::ExpectedToken(k@, t@),
            ParseError::ExpectedExpression(t) => ParseErrorView::ExpectedExpression(t@),
        }
    }
}

/// The error record a parse failure propagates to the driver: the
/// message for the failure, and the offending token's line and lexeme.
pub open spec fn parse_error_record(pe: ParseErrorView) -> ErrorView {
    match pe {
        ParseErrorView::ExpectedToken(k, t) => ErrorView {
            error_type: ErrorType::Parse,
            message: if k == TokenTypeView::RightParen {
                "expected ')' after expression"@
            } else {
                "expected token"@
            },
            token: Some(lexeme_view(t.kind)),
            line: Some(t.line),
        },
        ParseErrorView::ExpectedExpression(t) => ErrorView {
            error_type: ErrorType::Parse,
            message: "expected expression"@,
            token: Some(lexeme_view(t.kind)),
            line: Some(t.line),
        },
    }
}

impl ParseError {
    /// This failure as the error record handed to the driver.
    pub fn to_error(self) -> (e: Error)
        ensures
            e@ == parse_error_record(self@),
    {
        match self {
            ParseError::ExpectedToken(k, t) => {
                let msg = match k {
                    TokenType::RightParen => "expected ')' after expression".to_owned(),
                    _ => "expected token".to_owned(),
                };
                Builder::new(ErrorType::Parse, msg).token(&t).build()
            }
            ParseError::ExpectedExpression(t) => Builder::new(
                ErrorType::Parse,
                "expected expression".to_owned(),
            ).token(&t).build(),
        }
    }
}

/// The stand-in token reported when the sequence ends without an
/// end-of-input sentinel: such sequences carry no position of their own.
pub open spec fn eof_tv() -> TokenView {
    TokenView { kind: TokenTypeView::Eof, line: 1 }
}

/// The token at `j`, or the stand-in past the end.
pub open spec fn tok_at(ts: Seq<TokenView>, j: int) -> TokenView {
    if 0 <= j < ts.len() {
        ts[j]
    } else {
        eof_tv()
    }
}

/// `x` clamped into the interval from `lo` to `n`. The parser only
/// moves forward, so on every path actually taken this is `x` itself;
/// it makes the descent of the mutually recursive definitions manifest.
pub open spec fn adv(lo: int, x: int, n: int) -> int {
    if x < lo {
        lo
    } else if x > n {
        n
    } else {
        x
    }
}

/// What a parse level yields: the parsed tree and the position after
/// it, or the first syntax error.
pub type ParseStep = Result<(ExprView, int), ParseErrorView>;

/// expression: the loosest level, delegating to equality.
pub open spec fn sp_expression(ts: Seq<TokenView>, i: int) -> ParseStep
    decreases ts.len() - i, 12int,
    when 0 <= i <= ts.len()
{
    sp_equality(ts, i)
}

/// equality: comparison ((`=` | `==`) comparison)*, left-associative.
pub open spec fn sp_equality(ts: Seq<TokenView>, i: int) -> ParseStep
    decreases ts.len() - i, 11int,
    when 0 <= i <= ts.len()
{
    match sp_comparison(ts, i) {
        Ok((e0, j)) => sp_eq_tail(ts, adv(i, j, ts.len() as int), e0),
        Err(e) => Err(e),
    }
}

/// The iterated part of the equality level.
pub open spec fn sp_eq_tail(ts: Seq<TokenView>, i: int, acc: ExprView) -> ParseStep
    decreases ts.len() - i, 10int,
    when 0 <= i <= ts.len()
{
    if i < ts.len() && (ts[i].kind == TokenTypeView::Equal || ts[i].kind
        == TokenTypeView::EqualEqual) {
        match sp_comparison(ts, i + 1) {
            Ok((r, j)) => sp_eq_tail(
                ts,
                adv(i + 1, j, ts.len() as int),
                ExprView::Binary { op: ts[i], left: Box::new(acc), right: Box::new(r) },
            ),
            Err(e) => Err(e),
        }
    } else {
        Ok((acc, i))
    }
}

/// comparison: term ((`>` | `>=` | `<` | `<=`) term)*, left-associative.
pub open spec fn sp_comparison(ts: Seq<TokenView>, i: int) -> ParseStep
    decreases ts.len() - i, 9int,
    when 0 <= i <= ts.len()
{
    match sp_term(ts, i) {
        Ok((e0, j)) => sp_comp_tail(ts, adv(i, j, ts.len() as int), e0),
        Err(e) => Err(e),
    }
}

/// The iterated part of the comparison level.
pub open spec fn sp_comp_tail(ts: Seq<TokenView>, i: int, acc: ExprView) -> ParseStep
    decreases ts.len() - i, 8int,
    when 0 <= i <= ts.len()
{
    if i < ts.len() && (ts[i].kind == TokenTypeView::Greater || ts[i].kind
        == TokenTypeView::GreaterEqual || ts[i].kind == TokenTypeView::Less || ts[i].kind
        == TokenTypeView::LessEqual) {
        match sp_term(ts, i + 1) {
            Ok((r, j)) => sp_comp_tail(
                ts,
                adv(i + 1, j, ts.len() as int),
                ExprView::Binary { op: ts[i], left: Box::new(acc), right: Box::new(r) },
            ),
            Err(e) => Err(e),
        }
    } else {
        Ok((acc, i))
    }
}

/// term: factor ((`-` | `+`) factor)*, left-associative.
pub open spec fn sp_term(ts: Seq<TokenView>, i: int) -> ParseStep
    decreases ts.len() - i, 7int,
    when 0 <= i <= ts.len()
{
    match sp_factor(ts, i) {
        Ok((e0, j)) => sp_term_tail(ts, adv(i, j, ts.len() as int), e0),
        Err(e) => Err(e),
    }
}

/// The iterated part of the term level.
pub open spec fn sp_term_tail(ts: Seq<TokenView>, i: int, acc: ExprView) -> ParseStep
    decreases ts.len() - i, 6int,
    when 0 <= i <= ts.len()
{
    if i < ts.len() && (ts[i].kind == TokenTypeView::Minus || ts[i].kind
        == TokenTypeView::Plus) {
        match sp_factor(ts, i + 1) {
            Ok((r, j)) => sp_term_tail(
                ts,
                adv(i + 1, j, ts.len() as int),
                ExprView::Binary { op: ts[i], left: Box::new(acc), right: Box::new(r) },
            ),
            Err(e) => Err(e),
        }
    } else {
        Ok((acc, i))
    }
}

/// factor: unary ((`*` | `/`) factor)?, a single optional repetition
/// that recurses into factor itself, hence right-associative.
pub open spec fn sp_factor(ts: Seq<TokenView>, i: int) -> ParseStep
    decreases ts.len() - i, 5int,
    when 0 <= i <= ts.len()
{
    match sp_unary(ts, i) {
        Ok((e0, j)) => {
            if i < ts.len() && j < ts.len() && 0 <= j && (ts[j].kind == TokenTypeView::Star
                || ts[j].kind == TokenTypeView::Slash) {
                match sp_factor(ts, adv(i + 1, j + 1, ts.len() as int)) {
                    Ok((r, k)) => Ok(
                        (ExprView::Binary { op: ts[j], left: Box::new(e0), right: Box::new(r) }, k),
                    ),
                    Err(e) => Err(e),
                }
            } else {
                Ok((e0, j))
            }
        },
        Err(e) => Err(e),
    }
}

/// unary: (`!` | `-`) unary, or primary.
pub open spec fn sp_unary(ts: Seq<TokenView>, i: int) -> ParseStep
    decreases ts.len() - i, 3int,
    when 0 <= i <= ts.len()
{
    if i < ts.len() && (ts[i].kind == TokenTypeView::Bang || ts[i].kind
        == TokenTypeView::Minus) {
        match sp_unary(ts, i + 1) {
            Ok((e, j)) => Ok((ExprView::Unary { op: ts[i], expr: Box::new(e) }, j)),
            Err(e) => Err(e),
        }
    } else {
        sp_primary(ts, i)
    }
}

/// primary: `true`, `false`, `nil`, a number, a string, or a
/// parenthesized expression whose closing parenthesis is mandatory.
pub open spec fn sp_primary(ts: Seq<TokenView>, i: int) -> ParseStep
    decreases ts.len() - i, 2int,
    when 0 <= i <= ts.len()
{
    if i >= ts.len() {
        Err(ParseErrorView::ExpectedExpression(eof_tv()))
    } else {
        let t = ts[i];
        match t.kind {
            TokenTypeView::True => Ok((ExprView::Literal(ValueView::Bool(true)), i + 1)),
            TokenTypeView::False => Ok((ExprView::Literal(ValueView::Bool(false)), i + 1)),
            TokenTypeView::Nil => Ok((ExprView::Literal(ValueView::Nil), i + 1)),
            TokenTypeView::Number(b) => Ok((ExprView::Literal(ValueView::Num(b)), i + 1)),
            TokenTypeView::Str(s) => Ok((ExprView::Literal(ValueView::Str(s)), i + 1)),
            TokenTypeView::LeftParen => match sp_expression(ts, i + 1) {
                Ok((e, j)) => {
                    if 0 <= j < ts.len() && ts[j].kind == TokenTypeView::RightParen {
                        Ok((ExprView::Grouping(Box::new(e)), j + 1))
                    } else {
                        Err(
                            ParseErrorView::ExpectedToken(TokenTypeView::RightParen, tok_at(ts, j)),
                        )
                    }
                },
                Err(e) => Err(e),
            },
            _ => Err(ParseErrorView::ExpectedExpression(t)),
        }
    }
}

/// The tree of a token sequence: one expression parsed from the front;
/// tokens after it are not examined.
pub open spec fn sp_parse(ts: Seq<TokenView>) -> Result<ExprView, ParseErrorView> {
    match sp_expression(ts, 0) {
        Ok((e, _j)) => Ok(e),
        Err(e) => Err(e),
    }
}


/// The forward cursor over the token sequence.
pub struct ParseCtx<'a> {
    pub tokens: &'a Vec<Token>,
    pub pos: usize,
}

impl<'a> ParseCtx<'a> {
    /// The token models this cursor walks over.
    pub open spec fn toks(&self) -> Seq<TokenView> {
        self.tokens@.map_values(|t: Token| t@)
    }

    /// The cursor is inside the sequence.
    pub open spec fn wf(&self) -> bool {
        self.pos <= self.tokens@.len()
    }

    pub fn new(tokens: &'a Vec<Token>) -> (ctx: ParseCtx<'a>)
        ensures
            ctx.tokens == tokens,
            ctx.pos == 0,
    {
        ParseCtx { tokens, pos: 0 }
    }

    /// The next token, consumed.
    fn next(&mut self) -> (r: Option<Token>)
        requires
            old(self).wf(),
        ensures
            final(self).wf(),
            final(self).tokens == old(self).tokens,
            match r {
                Some(t) => {
                    &&& old(self).pos < old(self).toks().len()
                    &&& t@ == old(self).toks()[old(self).pos as int]
                    &&& final(self).pos == old(self).pos + 1
                },
                None => {
                    &&& old(self).pos == old(self).toks().len()
                    &&& *final(self) == *old(self)
                },
            },
    {
        if self.pos < self.tokens.len() {
            let t = self.tokens[self.pos].duplicate();
            self.pos = self.pos + 1;
            Some(t)
        } else {
            None
        }
    }

    /// The next token, not consumed.
    fn peek(&self) -> (r: Option<Token>)
        requires
            self.wf(),
        ensures
            match r {
                Some(t) => self.pos < self.toks().len() && t@ == self.toks()[self.pos as int],
                None => self.pos == self.toks().len(),
            },
    {
        if self.pos < self.tokens.len() {
            Some(self.tokens[self.pos].duplicate())
        } else {
            None
        }
    }

    /// Consume and return the next token exactly when it has the given
    /// kind.
    fn read_token_if(&mut self, token_type: &TokenType) -> (r: Option<Token>)
        requires
            old(self).wf(),
        ensures
            final(self).wf(),
            final(self).tokens == old(self).tokens,
            match r {
                Some(t) => {
                    &&& old(self).pos < old(self).toks().len()
                    &&& old(self).toks()[old(self).pos as int].kind == token_type@
                    &&& t@ == old(self).toks()[old(self).pos as int]
                    &&& final(self).pos == old(self).pos + 1
                },
                None => {
                    &&& *final(self) == *old(self)
                    &&& (old(self).pos == old(self).toks().len() || old(self).toks()[old(
                        self,
                    ).pos as int].kind != token_type@)
                },
            },
    {
        match self.peek() {
            Some(token) => {
                if token.token_type().eq(token_type) {
                    let _ = self.next();
                    Some(token)
                } else {
                    None
                }
            }
            None => None,
        }
    }

    /// Consume and return the next token exactly when its kind is one
    /// of the given kinds.
    #[verifier::loop_isolation(false)]
    fn read_token_if_any(&mut self, token_type: &[TokenType]) -> (r: Option<Token>)
        requires
            old(self).wf(),
        ensures
            final(self).wf(),
            final(self).tokens == old(self).tokens,
            match r {
                Some(t) => {
                    &&& old(self).pos < old(self).toks().len()
                    &&& t@ == old(self).toks()[old(self).pos as int]
                    &&& final(self).pos == old(self).pos + 1
                    &&& exists|k: int|
                        0 <= k < token_type@.len() && old(self).toks()[old(self).pos as int].kind
                            == (#[trigger] token_type@[k])@
                },
                None => {
                    &&& *final(self) == *old(self)
                    &&& forall|k: int|
                        0 <= k < token_type@.len() ==> old(self).pos == old(self).toks().len() || old(
                            self,
                        ).toks()[old(self).pos as int].kind != (#[trigger] token_type@[k])@
                },
            },
    {
        let mut idx: usize = 0;
        while idx < token_type.len()
            invariant
                *self == *old(self),
                forall|k: int|
                    0 <= k < idx ==> self.pos == self.toks().len() || self.toks()[self.pos as int].kind
                        != (#[trigger] token_type@[k])@,
            decreases token_type@.len() - idx,
        {
            if let Some(t) = self.read_token_if(&token_type[idx]) {
                return Some(t);
            }
            idx = idx + 1;
        }
        None
    }
}

/// The common shape of a parse level's outcome, tying the executable
/// result and final cursor to the level's specification.
pub open spec fn level_post(
    spec_r: ParseStep,
    r: Result<Expr, ParseError>,
    before: ParseCtx,
    after: ParseCtx,
) -> bool {
    &&& after.wf()
    &&& after.tokens == before.tokens
    &&& before.pos <= after.pos
    &&& match r {
        Ok(e) => spec_r == Ok::<(ExprView, int), ParseErrorView>((e@, after.pos as int))
            && before.pos < after.pos,
        Err(pe) => spec_r == Err::<(ExprView, int), ParseErrorView>(pe@),
    }
}

fn expression(ctx: &mut ParseCtx) -> (r: Result<Expr, ParseError>)
    requires
        old(ctx).wf(),
    ensures
        level_post(sp_expression(old(ctx).toks(), old(ctx).pos as int), r, *old(ctx), *final(ctx)),
    decreases ctx.tokens@.len() - ctx.pos, 12int,
{
    equality(ctx)
}

#[verifier::loop_isolation(false)]
#[verifier::rlimit(100)]
fn equality(ctx: &mut ParseCtx) -> (r: Result<Expr, ParseError>)
    requires
        old(ctx).wf(),
    ensures
        level_post(sp_equality(old(ctx).toks(), old(ctx).pos as int), r, *old(ctx), *final(ctx)),
    decreases ctx.tokens@.len() - ctx.pos, 11int,
{
    let ghost ts = old(ctx).toks();
    let ghost i0 = old(ctx).pos as int;
    let mut expr = match comparison(ctx) {
        Ok(e) => e,
        Err(pe) => {
            return Err(pe);
        }
    };
    loop
        invariant
            ctx.wf(),
            ctx.tokens == old(ctx).tokens,
            i0 < ctx.pos <= ts.len(),
            sp_eq_tail(ts, ctx.pos as int, expr@) == sp_equality(ts, i0),
        decreases ts.len() - ctx.pos,
    {
        let ghost p = ctx.pos as int;
        let ghost acc = expr@;
        let op = match ctx.read_token_if_any(&[TokenType::Equal, TokenType::EqualEqual]) {
            Some(op) => op,
            None => {
                break;
            }
        };
        proof {
            assert(ts[p].kind == TokenTypeView::Equal || ts[p].kind
                == TokenTypeView::EqualEqual);
        }
        let right = match comparison(ctx) {
            Ok(e) => e,
            Err(pe) => {
                return Err(pe);
            }
        };
        expr = Expr::Binary(BinaryExpr::new(expr, op, right));
        proof {
            assert(expr@ == (ExprView::Binary {
                op: ts[p],
                left: Box::new(acc),
                right: Box::new(right@),
            }));
            assert(sp_eq_tail(ts, p, acc) == sp_eq_tail(ts, ctx.pos as int, expr@));
        }
    }
    Ok(expr)
}

#[verifier::loop_isolation(false)]
#[verifier::rlimit(100)]
fn comparison(ctx: &mut ParseCtx) -> (r: Result<Expr, ParseError>)
    requires
        old(ctx).wf(),
    ensures
        level_post(sp_comparison(old(ctx).toks(), old(ctx).pos as int), r, *old(ctx), *final(ctx)),
    decreases ctx.tokens@.len() - ctx.pos, 9int,
{
    let ghost ts = old(ctx).toks();
    let ghost i0 = old(ctx).pos as int;
    let mut expr = match term(ctx) {
        Ok(e) => e,
        Err(pe) => {
            return Err(pe);
        }
    };
    loop
        invariant
            ctx.wf(),
            ctx.tokens == old(ctx).tokens,
            i0 < ctx.pos <= ts.len(),
            sp_comp_tail(ts, ctx.pos as int, expr@) == sp_comparison(ts, i0),
        decreases ts.len() - ctx.pos,
    {
        let ghost p = ctx.pos as int;
        let ghost acc = expr@;
        let op = match ctx.read_token_if_any(
            &[
                TokenType::Greater,
                TokenType::GreaterEqual,
                TokenType::Less,
                TokenType::LessEqual,
            ],
        ) {
            Some(op) => op,
            None => {
                break;
            }
        };
        proof {
            assert(ts[p].kind == TokenTypeView::Greater || ts[p].kind
                == TokenTypeView::GreaterEqual || ts[p].kind == TokenTypeView::Less || ts[p].kind
                == TokenTypeView::LessEqual);
        }
        let right = match term(ctx) {
            Ok(e) => e,
            Err(pe) => {
                return Err(pe);
            }
        };
        expr = Expr::Binary(BinaryExpr::new(expr, op, right));
        proof {
            assert(expr@ == (ExprView::Binary {
                op: ts[p],
                left: Box::new(acc),
                right: Box::new(right@),
            }));
            assert(sp_comp_tail(ts, p, acc) == sp_comp_tail(ts, ctx.pos as int, expr@));
        }
    }
    Ok(expr)
}

#[verifier::loop_isolation(false)]
#[verifier::rlimit(100)]
fn term(ctx: &mut ParseCtx) -> (r: Result<Expr, ParseError>)
    requires
        old(ctx).wf(),
    ensures
        level_post(sp_term(old(ctx).toks(), old(ctx).pos as int), r, *old(ctx), *final(ctx)),
    decreases ctx.tokens@.len() - ctx.pos, 7int,
{
    let ghost ts = old(ctx).toks();
    let ghost i0 = old(ctx).pos as int;
    let mut expr = match factor(ctx) {
        Ok(e) => e,
        Err(pe) => {
            return Err(pe);
        }
    };
    loop
        invariant
            ctx.wf(),
            ctx.tokens == old(ctx).tokens,
            i0 < ctx.pos <= ts.len(),
            sp_term_tail(ts, ctx.pos as int, expr@) == sp_term(ts, i0),
        decreases ts.len() - ctx.pos,
    {
        let ghost p = ctx.pos as int;
        let ghost acc = expr@;
        let op = match ctx.read_token_if_any(&[TokenType::Minus, TokenType::Plus]) {
            Some(op) => op,
            None => {
                break;
            }
        };
        proof {
            assert(ts[p].kind == TokenTypeView::Minus || ts[p].kind == TokenTypeView::Plus);
        }
        let right = match factor(ctx) {
            Ok(e) => e,
            Err(pe) => {
                return Err(pe);
            }
        };
        expr = Expr::Binary(BinaryExpr::new(expr, op, right));
        proof {
            assert(expr@ == (ExprView::Binary {
                op: ts[p],
                left: Box::new(acc),
                right: Box::new(right@),
            }));
            assert(sp_term_tail(ts, p, acc) == sp_term_tail(ts, ctx.pos as int, expr@));
        }
    }
    Ok(expr)
}

fn factor(ctx: &mut ParseCtx) -> (r: Result<Expr, ParseError>)
    requires
        old(ctx).wf(),
    ensures
        level_post(sp_factor(old(ctx).toks(), old(ctx).pos as int), r, *old(ctx), *final(ctx)),
    decreases ctx.tokens@.len() - ctx.pos, 5int,
{
    let ghost ts = old(ctx).toks();
    let mut expr = match unary(ctx) {
        Ok(e) => e,
        Err(pe) => {
            return Err(pe);
        }
    };
    let ghost j = ctx.pos as int;
    let ghost acc = expr@;
    if let Some(op) = ctx.read_token_if_any(&[TokenType::Star, TokenType::Slash]) {
        let right = match factor(ctx) {
            Ok(e) => e,
            Err(pe) => {
                return Err(pe);
            }
        };
        expr = Expr::Binary(BinaryExpr::new(expr, op, right));
        proof {
            assert(expr@ == (ExprView::Binary {
                op: ts[j],
                left: Box::new(acc),
                right: Box::new(right@),
            }));
        }
    }
    Ok(expr)
}

fn unary(ctx: &mut ParseCtx) -> (r: Result<Expr, ParseError>)
    requires
        old(ctx).wf(),
    ensures
        level_post(sp_unary(old(ctx).toks(), old(ctx).pos as int), r, *old(ctx), *final(ctx)),
    decreases ctx.tokens@.len() - ctx.pos, 3int,
{
    let ghost ts = old(ctx).toks();
    let ghost i0 = old(ctx).pos as int;
    if let Some(op) = ctx.read_token_if_any(&[TokenType::Bang, TokenType::Minus]) {
        let right = match unary(ctx) {
            Ok(e) => e,
            Err(pe) => {
                return Err(pe);
            }
        };
        let e = Expr::Unary(UnaryExpr::new(op, right));
        proof {
            assert(e@ == (ExprView::Unary { op: ts[i0], expr: Box::new(right@) }));
        }
        Ok(e)
    } else {
        primary(ctx)
    }
}

fn primary(ctx: &mut ParseCtx) -> (r: Result<Expr, ParseError>)
    requires
        old(ctx).wf(),
    ensures
        level_post(sp_primary(old(ctx).toks(), old(ctx).pos as int), r, *old(ctx), *final(ctx)),
    decreases ctx.tokens@.len() - ctx.pos, 2int,
{
    let ghost ts = old(ctx).toks();
    let token = match ctx.next() {
        Some(t) => t,
        None => {
            return Err(ParseError::ExpectedExpression(Token::new(TokenType::Eof, Span::new(1))));
        }
    };
    let kind = token.token_type().duplicate();
    match kind {
        TokenType::True => Ok(Expr::Literal(LiteralExpr::Boolean(true))),
        TokenType::False => Ok(Expr::Literal(LiteralExpr::Boolean(false))),
        TokenType::Nil => Ok(Expr::Literal(LiteralExpr::Nil())),
        TokenType::Number(n) => Ok(Expr::Literal(LiteralExpr::Number(n))),
        TokenType::Str(s) => Ok(Expr::Literal(LiteralExpr::Str(s))),
        TokenType::LeftParen => {
            let expr = match expression(ctx) {
                Ok(e) => e,
                Err(pe) => {
                    return Err(pe);
                }
            };
            if let Some(_t) = ctx.read_token_if(&TokenType::RightParen) {
                Ok(Expr::Grouping(GroupingExpr::new(expr)))
            } else {
                let offending = match ctx.peek() {
                    Some(t) => t,
                    None => Token::new(TokenType::Eof, Span::new(1)),
                };
                proof {
                    assert(offending@ == tok_at(ts, ctx.pos as int));
                }
                Err(ParseError::ExpectedToken(TokenType::RightParen, offending))
            }
        }
        _ => Err(ParseError::ExpectedExpression(token)),
    }
}

/// The syntax tree of the token sequence: exactly one expression,
/// parsed from the front, or the first syntax error. Trailing tokens
/// after the expression are not examined.
pub fn parse(tokens: Vec<Token>) -> (r: Result<Expr, ParseError>)
    ensures
        match r {
            Ok(e) => sp_parse(tokens@.map_values(|t: Token| t@)) == Ok::<ExprView, ParseErrorView>(
                e@,
            ),
            Err(pe) => sp_parse(tokens@.map_values(|t: Token| t@)) == Err::<
                ExprView,
                ParseErrorView,
            >(pe@),
        },
{
    let mut ctx = ParseCtx::new(&tokens);
    expression(&mut ctx)
}

} // verus!
