//! The front-to-back pipeline: text to tokens to tree to value, each
//! stage fail-fast, every failure returned as a structured error
//! record. Printing and the interactive loop belong to a driver; this
//! type only computes and tracks whether an error has occurred.

use vstd::prelude::*;

use crate::ast::{LiteralExpr, ValueView};
use crate::error::{Error, ErrorView};
use crate::interpreter::{eval, interpret_expr, runtime_error_record};
use crate::parser::{parse, parse_error_record, sp_parse};
use crate::scanner::{scan, spec_scan};

verus! {

/// The value of a source text, or the first error any stage reports:
/// scan, then parse, then evaluate.
pub open spec fn run_view(source: Seq<char>) -> Result<ValueView, ErrorView> {
    match spec_scan(source, 0, 1) {
        Err(e) => Err(e),
        Ok(ts) => match sp_parse(ts) {
            Err(pe) => Err(parse_error_record(pe)),
            Ok(e) => match eval(e) {
                Err(re) => Err(runtime_error_record(re)),
                Ok(v) => Ok(v),
            },
        },
    }
}

/// A session: runs sources and remembers whether any run has failed.
pub struct Lox {
    pub had_error: bool,
}

impl Lox {
    pub fn new() -> (l: Lox)
        ensures
            !l.had_error,
    {
        Lox { had_error: false }
    }

    /// Scan, parse and evaluate `source`. The first error of any stage
    /// is returned as an error record and marks the session as having
    /// erred; a success leaves the error flag as it was.
    pub fn run(&mut self, source: &str) -> (r: Result<LiteralExpr, Error>)
        requires
            source@.len() < usize::MAX,
        ensures
            final(self).had_error == (old(self).had_error || r is Err),
            match r {
                Ok(v) => run_view(source@) == Ok::<ValueView, ErrorView>(v@),
                Err(e) => run_view(source@) == Err::<ValueView, ErrorView>(e@),
            },
    {
        match scan(source) {
            Ok(tokens) => match parse(tokens) {
                Ok(expr) => match interpret_expr(&expr) {
                    Ok(v) => Ok(v),
                    Err(re) => {
                        self.had_error = true;
                        Err(re.to_error())
                    }
                },
                Err(pe) => {
                    self.had_error = true;
                    Err(pe.to_error())
                }
            },
            Err(e) => {
                self.had_error = true;
                Err(e)
            }
        }
    }
}

} // verus!
