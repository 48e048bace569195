//! The structured error record every stage reports: a kind, a message,
//! and, where applicable, the offending line and lexeme. Errors
//! propagate as values; no stage aborts the process.

use vstd::prelude::*;

use crate::text::{chars_to_string, dec_digits, str_to_chars, usize_to_chars};
use crate::token::{lexeme_chars, lexeme_view, Token};

verus! {

/// The stage an error arose in.
#[derive(Clone, Copy, Debug, PartialEq, Eq, Structural)]
pub enum ErrorType {
    Scanner,
    Parse,
    Runtime,
}

/// A structured error: kind, message, optional offending lexeme,
/// optional offending line. Never partially filled with sentinel
/// values: absent context is `None`.
#[derive(Clone, Debug)]
pub struct Error {
    pub error_type: ErrorType,
    pub message: String,
    pub token: Option<String>,
    pub line: Option<usize>,
}

/// Mathematical model of an error record.
pub struct ErrorView {
    pub error_type: ErrorType,
    pub message: Seq<char>,
    pub token: Option<Seq<char>>,
    pub line: Option<nat>,
}

impl View for Error {
    type V = ErrorView;

    open spec fn view(&self) -> ErrorView {
        ErrorView {
            error_type: self.error_type,
            message: self.message@,
            token: match &self.token {
                Some(t) => Some(t@),
                None => None,
            },
            line: match self.line {
                Some(l) => Some(l as nat),
                None => None,
            },
        }
    }
}

/// The display text of an error record:
/// `[line <N>] Error at '<lexeme>': <message>` when line and lexeme are
/// known, with the `[line <N>]` and ` at '<lexeme>'` parts dropped when
/// absent.
pub open spec fn error_text(e: ErrorView) -> Seq<char> {
    (match e.line {
        Some(l) => seq!['[', 'l', 'i', 'n', 'e', ' '] + dec_digits(l) + seq![']', ' ', 'E', 'r', 'r', 'o', 'r'],
        None => seq!['E', 'r', 'r', 'o', 'r'],
    }) + (match e.token {
        Some(t) => seq![' ', 'a', 't', ' ', '\''] + t + seq!['\'', ':', ' '],
        None => seq![':', ' '],
    }) + e.message
}

impl Error {
    /// The display text of this error.
    pub fn to_text(&self) -> (s: String)
        ensures
            s@ == error_text(self@),
    {
        let mut out: Vec<char> = Vec::new();
        match self.line {
            Some(l) => {
                out.extend_from_slice(&['[', 'l', 'i', 'n', 'e', ' ']);
                let digits = usize_to_chars(l);
                out.extend_from_slice(digits.as_slice());
                out.extend_from_slice(&[']', ' ', 'E', 'r', 'r', 'o', 'r']);
            }
            None => {
                out.extend_from_slice(&['E', 'r', 'r', 'o', 'r']);
            }
        }
        match &self.token {
            Some(t) => {
                out.extend_from_slice(&[' ', 'a', 't', ' ', '\'']);
                let cs = str_to_chars(t.as_str());
                out.extend_from_slice(cs.as_slice());
                out.extend_from_slice(&['\'', ':', ' ']);
            }
            None => {
                out.extend_from_slice(&[':', ' ']);
            }
        }
        let msg = str_to_chars(self.message.as_str());
        out.extend_from_slice(msg.as_slice());
        proof {
            assert(out@ =~= error_text(self@));
        }
        chars_to_string(out)
    }
}

/// Mathematical model of a builder in progress.
pub struct BuilderView {
    pub error_type: ErrorType,
    pub message: Seq<char>,
    pub line: Option<nat>,
    pub token: Option<Seq<char>>,
}

/// Assembles an error record step by step.
pub struct Builder {
    error_type: ErrorType,
    message: String,
    line: Option<usize>,
    token: Option<String>,
}

impl View for Builder {
    type V = BuilderView;

    closed spec fn view(&self) -> BuilderView {
        BuilderView {
            error_type: self.error_type,
            message: self.message@,
            line: match self.line {
                Some(l) => Some(l as nat),
                None => None,
            },
            token: match &self.token {
                Some(t) => Some(t@),
                None => None,
            },
        }
    }
}

impl Builder {
    pub fn new(error_type: ErrorType, message: String) -> (b: Builder)
        ensures
            b@ == (BuilderView { error_type, message: message@, line: None, token: None }),
    {
        Builder { error_type, message, line: None, token: None }
    }

    /// Record the offending token: its line, and its lexeme.
    pub fn token(self, token: &Token) -> (b: Builder)
        ensures
            b@ == (BuilderView {
                line: Some(token@.line),
                token: Some(lexeme_view(token@.kind)),
                ..self@
            }),
    {
        let lexeme = chars_to_string(lexeme_chars(token.token_type()));
        Builder { line: Some(token.span().line), token: Some(lexeme), ..self }
    }

    pub fn build(self) -> (e: Error)
        ensures
            e@ == (ErrorView {
                error_type: self@.error_type,
                message: self@.message,
                token: self@.token,
                line: self@.line,
            }),
    {
        Error {
            error_type: self.error_type,
            message: self.message,
            line: self.line,
            token: self.token,
        }
    }
}

} // verus!
