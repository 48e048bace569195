//! Lexical scanning: one left-to-right cursor over the character
//! sequence, tracking the current line. Fail-fast: the first lexical
//! error aborts scanning and is returned; on success the token sequence
//! ends with a single end-of-input sentinel.

use vstd::prelude::*;

use crate::error::{Error, ErrorType, ErrorView};
use crate::numeric::{decimal_text, digit_run, is_digit, is_digit_char, lemma_digit_run_is, num_from_text, parsed_number};
use crate::text::{chars_to_string, str_to_chars};
use crate::token::{Span, Token, TokenType, TokenTypeView, TokenView};

verus! {

/// Whether `c` begins an identifier: a letter or an underscore.
pub open spec fn is_alpha_v(c: char) -> bool {
    ('a' <= c && c <= 'z') || ('A' <= c && c <= 'Z') || c == '_'
}

/// Whether `c` continues an identifier: a letter, digit or underscore.
pub open spec fn is_alnum_v(c: char) -> bool {
    is_digit(c) || is_alpha_v(c)
}

/// Whether `c` begins an identifier.
pub fn is_alpha(c: char) -> (b: bool)
    ensures
        b == is_alpha_v(c),
{
    ('a' <= c && c <= 'z') || ('A' <= c && c <= 'Z') || c == '_'
}

/// Whether `c` continues an identifier.
pub fn is_alphanumeric(c: char) -> (b: bool)
    ensures
        b == is_alnum_v(c),
{
    is_digit_char(c) || is_alpha(c)
}

/// The number of consecutive identifier characters from position `i` on.
pub open spec fn ident_run(s: Seq<char>, i: int) -> nat
    decreases s.len() - i,
    when 0 <= i <= s.len()
{
    if i < s.len() && is_alnum_v(s[i]) {
        1 + ident_run(s, i + 1)
    } else {
        0
    }
}

/// An identifier run is exactly the distance to the first other character.
pub proof fn lemma_ident_run_is(s: Seq<char>, i: int, n: int)
    requires
        0 <= i,
        0 <= n,
        i + n <= s.len(),
        forall|k: int| i <= k < i + n ==> is_alnum_v(#[trigger] s[k]),
        i + n == s.len() || !is_alnum_v(s[i + n]),
    ensures
        ident_run(s, i) == n,
    decreases n,
{
    if n > 0 {
        lemma_ident_run_is(s, i + 1, n - 1);
    }
}

/// The number of characters before the current line ends, from `i` on.
pub open spec fn comment_run(s: Seq<char>, i: int) -> nat
    decreases s.len() - i,
    when 0 <= i <= s.len()
{
    if i < s.len() && s[i] != '\n' {
        1 + comment_run(s, i + 1)
    } else {
        0
    }
}

/// A comment run is exactly the distance to the first line break.
pub proof fn lemma_comment_run_is(s: Seq<char>, i: int, n: int)
    requires
        0 <= i,
        0 <= n,
        i + n <= s.len(),
        forall|k: int| i <= k < i + n ==> #[trigger] s[k] != '\n',
        i + n == s.len() || s[i + n] == '\n',
    ensures
        comment_run(s, i) == n,
    decreases n,
{
    if n > 0 {
        lemma_comment_run_is(s, i + 1, n - 1);
    }
}

/// The number of string-literal body characters from `i` on: everything
/// up to the closing quote or the end of input.
pub open spec fn str_run(s: Seq<char>, i: int) -> nat
    decreases s.len() - i,
    when 0 <= i <= s.len()
{
    if i < s.len() && s[i] != '"' {
        1 + str_run(s, i + 1)
    } else {
        0
    }
}

/// A string body run is exactly the distance to the first quote.
pub proof fn lemma_str_run_is(s: Seq<char>, i: int, n: int)
    requires
        0 <= i,
        0 <= n,
        i + n <= s.len(),
        forall|k: int| i <= k < i + n ==> #[trigger] s[k] != '"',
        i + n == s.len() || s[i + n] == '"',
    ensures
        str_run(s, i) == n,
    decreases n,
{
    if n > 0 {
        lemma_str_run_is(s, i + 1, n - 1);
    }
}

/// The number of line breaks in `s` between positions `a` and `b`.
pub open spec fn nl_between(s: Seq<char>, a: int, b: int) -> nat
    decreases b - a,
    when 0 <= a <= b <= s.len()
{
    if a >= b {
        0
    } else {
        nl_between(s, a, b - 1) + (if s[b - 1] == '\n' {
            1nat
        } else {
            0nat
        })
    }
}

/// `x`, capped at `n`.
pub open spec fn cap(x: int, n: int) -> int {
    if x <= n {
        x
    } else {
        n
    }
}

/// A scan error record at the given line, with an optional lexeme.
pub open spec fn scan_error(message: Seq<char>, token: Option<Seq<char>>, line: nat) -> ErrorView {
    ErrorView { error_type: ErrorType::Scanner, message, token, line: Some(line) }
}

/// The reserved-word table: the keyword kind for `t`, if `t` is one.
pub open spec fn keyword_lookup(t: Seq<char>) -> Option<TokenTypeView> {
    if t == seq!['a', 'n', 'd'] {
        Some(TokenTypeView::And)
    } else if t == seq!['c', 'l', 'a', 's', 's'] {
        Some(TokenTypeView::Class)
    } else if t == seq!['e', 'l', 's', 'e'] {
        Some(TokenTypeView::Else)
    } else if t == seq!['f', 'a', 'l', 's', 'e'] {
        Some(TokenTypeView::False)
    } else if t == seq!['f', 'u', 'n'] {
        Some(TokenTypeView::Fun)
    } else if t == seq!['f', 'o', 'r'] {
        Some(TokenTypeView::For)
    } else if t == seq!['i', 'f'] {
        Some(TokenTypeView::If)
    } else if t == seq!['n', 'i', 'l'] {
        Some(TokenTypeView::Nil)
    } else if t == seq!['o', 'r'] {
        Some(TokenTypeView::Or)
    } else if t == seq!['p', 'r', 'i', 'n', 't'] {
        Some(TokenTypeView::Print)
    } else if t == seq!['r', 'e', 't', 'u', 'r', 'n'] {
        Some(TokenTypeView::Return)
    } else if t == seq!['s', 'u', 'p', 'e', 'r'] {
        Some(TokenTypeView::Super)
    } else if t == seq!['t', 'h', 'i', 's'] {
        Some(TokenTypeView::This)
    } else if t == seq!['t', 'r', 'u', 'e'] {
        Some(TokenTypeView::True)
    } else if t == seq!['v', 'a', 'r'] {
        Some(TokenTypeView::Var)
    } else if t == seq!['w', 'h', 'i', 'l', 'e'] {
        Some(TokenTypeView::While)
    } else {
        None
    }
}

/// The kind an identifier-shaped lexeme scans to: its keyword kind, or
/// an identifier token carrying the text.
pub open spec fn ident_kind(t: Seq<char>) -> TokenTypeView {
    match keyword_lookup(t) {
        Some(k) => k,
        None => TokenTypeView::Identifier(t),
    }
}

/// Prepend one token to a scan result.
pub open spec fn cons_tok(tv: TokenView, rest: Result<Seq<TokenView>, ErrorView>) -> Result<
    Seq<TokenView>,
    ErrorView,
> {
    match rest {
        Ok(ts) => Ok(seq![tv] + ts),
        Err(e) => Err(e),
    }
}

/// The tokens of `chars` from position `i` on, starting at `line`, or
/// the first lexical error. On success the sequence ends with a single
/// end-of-input token carrying the final line.
pub open spec fn spec_scan(chars: Seq<char>, i: int, line: nat) -> Result<
    Seq<TokenView>,
    ErrorView,
>
    decreases chars.len() - i,
    when 0 <= i <= chars.len()
{
    let n = chars.len() as int;
    if i >= n {
        Ok(seq![TokenView { kind: TokenTypeView::Eof, line }])
    } else {
        let c = chars[i];
        if c == '(' {
            cons_tok(TokenView { kind: TokenTypeView::LeftParen, line }, spec_scan(chars, i + 1, line))
        } else if c == ')' {
            cons_tok(TokenView { kind: TokenTypeView::RightParen, line }, spec_scan(chars, i + 1, line))
        } else if c == '{' {
            cons_tok(TokenView { kind: TokenTypeView::LeftBrace, line }, spec_scan(chars, i + 1, line))
        } else if c == '}' {
            cons_tok(TokenView { kind: TokenTypeView::RightBrace, line }, spec_scan(chars, i + 1, line))
        } else if c == ',' {
            cons_tok(TokenView { kind: TokenTypeView::Comma, line }, spec_scan(chars, i + 1, line))
        } else if c == '.' {
            cons_tok(TokenView { kind: TokenTypeView::Dot, line }, spec_scan(chars, i + 1, line))
        } else if c == '-' {
            cons_tok(TokenView { kind: TokenTypeView::Minus, line }, spec_scan(chars, i + 1, line))
        } else if c == '+' {
            cons_tok(TokenView { kind: TokenTypeView::Plus, line }, spec_scan(chars, i + 1, line))
        } else if c == ';' {
            cons_tok(TokenView { kind: TokenTypeView::Semicolon, line }, spec_scan(chars, i + 1, line))
        } else if c == '*' {
            cons_tok(TokenView { kind: TokenTypeView::Star, line }, spec_scan(chars, i + 1, line))
        } else if c == '!' {
            if i + 1 < n && chars[i + 1] == '=' {
                cons_tok(TokenView { kind: TokenTypeView::BangEqual, line }, spec_scan(chars, i + 2, line))
            } else {
                cons_tok(TokenView { kind: TokenTypeView::Bang, line }, spec_scan(chars, i + 1, line))
            }
        } else if c == '=' {
            if i + 1 < n && chars[i + 1] == '=' {
                cons_tok(TokenView { kind: TokenTypeView::EqualEqual, line }, spec_scan(chars, i + 2, line))
            } else {
                cons_tok(TokenView { kind: TokenTypeView::Equal, line }, spec_scan(chars, i + 1, line))
            }
        } else if c == '<' {
            if i + 1 < n && chars[i + 1] == '=' {
                cons_tok(TokenView { kind: TokenTypeView::LessEqual, line }, spec_scan(chars, i + 2, line))
            } else {
                cons_tok(TokenView { kind: TokenTypeView::Less, line }, spec_scan(chars, i + 1, line))
            }
        } else if c == '>' {
            if i + 1 < n && chars[i + 1] == '=' {
                cons_tok(TokenView { kind: TokenTypeView::GreaterEqual, line }, spec_scan(chars, i + 2, line))
            } else {
                cons_tok(TokenView { kind: TokenTypeView::Greater, line }, spec_scan(chars, i + 1, line))
            }
        } else if c == '/' {
            if i + 1 < n && chars[i + 1] == '/' {
                spec_scan(chars, cap(i + 2 + comment_run(chars, i + 2), n), line)
            } else {
                cons_tok(TokenView { kind: TokenTypeView::Slash, line }, spec_scan(chars, i + 1, line))
            }
        } else if c == ' ' || c == '\r' || c == '\t' {
            spec_scan(chars, i + 1, line)
        } else if c == '\n' {
            spec_scan(chars, i + 1, (line + 1) as nat)
        } else if c == '"' {
            let body = str_run(chars, i + 1) as int;
            if i + 1 + body >= n {
                Err(scan_error("unterminated string"@, None, line))
            } else {
                cons_tok(
                    TokenView { kind: TokenTypeView::Str(chars.subrange(i + 1, i + 1 + body)), line },
                    spec_scan(chars, i + 2 + body, (line + nl_between(chars, i + 1, i + 1 + body)) as nat),
                )
            }
        } else if is_digit(c) {
            let int_end = i + digit_run(chars, i) as int;
            let end = if int_end + 1 < n && chars[int_end] == '.' && is_digit(chars[int_end + 1]) {
                int_end + 1 + digit_run(chars, int_end + 1) as int
            } else {
                int_end
            };
            let mn = cap(end, n);
            cons_tok(
                TokenView { kind: TokenTypeView::Number(parsed_number(chars.subrange(i, mn))), line },
                spec_scan(chars, mn, line),
            )
        } else if is_alpha_v(c) {
            let mn = cap(i + ident_run(chars, i) as int, n);
            cons_tok(
                TokenView { kind: ident_kind(chars.subrange(i, mn)), line },
                spec_scan(chars, mn, line),
            )
        } else {
            Err(scan_error("unexpected character"@, Some(seq![c]), line))
        }
    }
}

/// Append a pending token sequence in front of a scan result.
pub open spec fn merge(acc: Seq<TokenView>, rest: Result<Seq<TokenView>, ErrorView>) -> Result<
    Seq<TokenView>,
    ErrorView,
> {
    match rest {
        Ok(ts) => Ok(acc + ts),
        Err(e) => Err(e),
    }
}

proof fn lemma_merge_push(acc: Seq<TokenView>, tv: TokenView, rest: Result<Seq<TokenView>, ErrorView>)
    ensures
        merge(acc.push(tv), rest) == merge(acc, cons_tok(tv, rest)),
{
    match rest {
        Ok(ts) => {
            assert(acc.push(tv) + ts =~= acc + (seq![tv] + ts));
        }
        Err(_) => {}
    }
}


/// The scanning cursor: the characters, the position, the current line.
pub struct Scanner {
    pub chars: Vec<char>,
    pub pos: usize,
    pub line: usize,
}

impl Scanner {
    /// The position is inside the text and the line counter is bounded
    /// by what has been consumed, so that it can never overflow.
    pub open spec fn wf(&self) -> bool {
        &&& self.pos <= self.chars@.len()
        &&& self.chars@.len() < usize::MAX
        &&& 1 <= self.line
        &&& self.line <= 1 + self.pos
    }

    pub fn new(source: &str) -> (s: Scanner)
        requires
            source@.len() < usize::MAX,
        ensures
            s.wf(),
            s.chars@ == source@,
            s.pos == 0,
            s.line == 1,
    {
        Scanner { chars: str_to_chars(source), pos: 0, line: 1 }
    }

    /// The next character and its span, advancing the cursor; a line
    /// break increments the line counter.
    pub fn read_char(&mut self) -> (r: Option<(char, Span)>)
        requires
            old(self).wf(),
        ensures
            final(self).wf(),
            final(self).chars == old(self).chars,
            match r {
                Some(p) => {
                    &&& old(self).pos < old(self).chars@.len()
                    &&& p.0 == old(self).chars@[old(self).pos as int]
                    &&& p.1.line == old(self).line
                    &&& final(self).pos == old(self).pos + 1
                    &&& final(self).line == old(self).line + (if p.0 == '\n' {
                        1int
                    } else {
                        0int
                    })
                },
                None => {
                    &&& old(self).pos == old(self).chars@.len()
                    &&& *final(self) == *old(self)
                },
            },
    {
        if self.pos < self.chars.len() {
            let c = self.chars[self.pos];
            let span = Span::new(self.line);
            if c == '\n' {
                self.line = self.line + 1;
            }
            self.pos = self.pos + 1;
            Some((c, span))
        } else {
            None
        }
    }

    /// The next character, without advancing.
    pub fn peek_char(&self) -> (r: Option<char>)
        ensures
            match r {
                Some(c) => self.pos < self.chars@.len() && c == self.chars@[self.pos as int],
                None => self.pos >= self.chars@.len(),
            },
    {
        if self.pos < self.chars.len() {
            Some(self.chars[self.pos])
        } else {
            None
        }
    }

    /// The character after the next one, without advancing.
    pub fn peek_next_char(&self) -> (r: Option<char>)
        requires
            self.wf(),
        ensures
            match r {
                Some(c) => self.pos + 1 < self.chars@.len() && c == self.chars@[self.pos + 1],
                None => self.pos + 1 >= self.chars@.len(),
            },
    {
        if self.pos < self.chars.len() && self.pos + 1 < self.chars.len() {
            Some(self.chars[self.pos + 1])
        } else {
            None
        }
    }

    /// A string literal body, consumed verbatim up to and including the
    /// closing quote; line breaks inside count. Reaching end of input
    /// first is the unterminated-string error.
    #[verifier::loop_isolation(false)]
    pub fn string(&mut self) -> (r: Result<String, String>)
        requires
            old(self).wf(),
        ensures
            final(self).wf(),
            final(self).chars@ == old(self).chars@,
            ({
                let chars = old(self).chars@;
                let i0 = old(self).pos as int;
                let body = str_run(chars, i0) as int;
                match r {
                    Ok(s) => {
                        &&& i0 + body < chars.len()
                        &&& s@ == chars.subrange(i0, i0 + body)
                        &&& final(self).pos == i0 + body + 1
                        &&& final(self).line == old(self).line + nl_between(chars, i0, i0 + body)
                    },
                    Err(m) => {
                        &&& i0 + body == chars.len()
                        &&& m@ == "unterminated string"@
                    },
                }
            }),
    {
        let ghost chars = self.chars@;
        let ghost i0 = self.pos as int;
        let ghost line0 = self.line;
        let mut buffer: Vec<char> = Vec::new();
        loop
            invariant
                self.wf(),
                self.chars@ == chars,
                i0 <= self.pos <= chars.len(),
                buffer@ == chars.subrange(i0, self.pos as int),
                forall|k: int| i0 <= k < self.pos ==> chars[k] != '"',
                self.line == line0 + nl_between(chars, i0, self.pos as int),
            decreases chars.len() - self.pos,
        {
            let ghost j = self.pos as int;
            match self.read_char() {
                None => {
                    proof {
                        lemma_str_run_is(chars, i0, j - i0);
                    }
                    return Err("unterminated string".to_owned());
                }
                Some((c, _span)) => {
                    if c == '"' {
                        proof {
                            lemma_str_run_is(chars, i0, j - i0);
                        }
                        return Ok(chars_to_string(buffer));
                    }
                    buffer.push(c);
                    proof {
                        assert(buffer@ =~= chars.subrange(i0, self.pos as int));
                    }
                }
            }
        }
    }

    /// A numeric literal: digits, then optionally a dot followed by at
    /// least one digit (a trailing dot is not consumed); the value is
    /// the nearest binary64 pattern of the accumulated text. The first
    /// digit has already been consumed.
    #[verifier::loop_isolation(false)]
    pub fn number(&mut self, first_digit: char) -> (r: u64)
        requires
            old(self).wf(),
            old(self).pos >= 1,
            old(self).chars@[old(self).pos - 1] == first_digit,
            is_digit(first_digit),
        ensures
            final(self).wf(),
            final(self).chars@ == old(self).chars@,
            final(self).line == old(self).line,
            ({
                let chars = old(self).chars@;
                let i = old(self).pos - 1;
                let n = chars.len() as int;
                let int_end = i + digit_run(chars, i) as int;
                let end = if int_end + 1 < n && chars[int_end] == '.' && is_digit(
                    chars[int_end + 1],
                ) {
                    int_end + 1 + digit_run(chars, int_end + 1) as int
                } else {
                    int_end
                };
                &&& final(self).pos == end
                &&& r == parsed_number(chars.subrange(i, end))
            }),
    {
        let ghost chars = self.chars@;
        let ghost i: int = self.pos as int - 1;
        let mut buffer: Vec<char> = Vec::new();
        buffer.push(first_digit);
        loop
            invariant
                self.wf(),
                self.chars@ == chars,
                self.line == old(self).line,
                i + 1 <= self.pos <= chars.len(),
                buffer@ == chars.subrange(i, self.pos as int),
                forall|k: int| i <= k < self.pos ==> is_digit(#[trigger] chars[k]),
            decreases chars.len() - self.pos,
        {
            match self.peek_char() {
                Some(d) => {
                    if !is_digit_char(d) {
                        break;
                    }
                }
                None => {
                    break;
                }
            }
            match self.read_char() {
                Some((c2, _s)) => {
                    buffer.push(c2);
                    proof {
                        assert(buffer@ =~= chars.subrange(i, self.pos as int));
                    }
                }
                None => {
                    proof {
                        assert(false);
                    }
                }
            }
        }
        proof {
            lemma_digit_run_is(chars, i, self.pos as int - i);
        }
        let ghost int_end = self.pos as int;
        let mut frac = false;
        if let Some(dc) = self.peek_char() {
            if dc == '.' {
                if let Some(d2) = self.peek_next_char() {
                    if is_digit_char(d2) {
                        frac = true;
                    }
                }
            }
        }
        if frac {
            match self.read_char() {
                Some((dot, _s)) => {
                    buffer.push(dot);
                    proof {
                        assert(buffer@ =~= chars.subrange(i, self.pos as int));
                    }
                }
                None => {
                    proof {
                        assert(false);
                    }
                }
            }
            loop
                invariant
                    self.wf(),
                    self.chars@ == chars,
                    self.line == old(self).line,
                    int_end + 1 <= self.pos <= chars.len(),
                    buffer@ == chars.subrange(i, self.pos as int),
                    forall|k: int| i <= k < int_end ==> is_digit(#[trigger] chars[k]),
                    chars[int_end] == '.',
                    int_end == i + digit_run(chars, i),
                    int_end + 1 < chars.len() && is_digit(chars[int_end + 1]),
                    forall|k: int| int_end + 1 <= k < self.pos ==> is_digit(#[trigger] chars[k]),
                decreases chars.len() - self.pos,
            {
                match self.peek_char() {
                    Some(d) => {
                        if !is_digit_char(d) {
                            break;
                        }
                    }
                    None => {
                        break;
                    }
                }
                match self.read_char() {
                    Some((c2, _s)) => {
                        buffer.push(c2);
                        proof {
                            assert(buffer@ =~= chars.subrange(i, self.pos as int));
                        }
                    }
                    None => {
                        proof {
                            assert(false);
                        }
                    }
                }
            }
            proof {
                lemma_digit_run_is(chars, int_end + 1, self.pos as int - (int_end + 1));
            }
        }
        let ghost end = self.pos as int;
        let text = chars_to_string(buffer);
        proof {
            let t = text@;
            let d = (int_end - i) as int;
            assert forall|k: int| 0 <= k < d implies is_digit(#[trigger] t[k]) by {
                assert(t[k] == chars[i + k]);
            }
            if end > int_end {
                assert(t[d] == chars[int_end]);
                lemma_digit_run_is(t, 0, d);
                assert forall|k: int| d + 1 <= k < t.len() implies is_digit(#[trigger] t[k]) by {
                    assert(t[k] == chars[i + k]);
                }
                lemma_digit_run_is(t, d + 1, t.len() - d - 1);
            } else {
                lemma_digit_run_is(t, 0, d);
            }
            assert(decimal_text(t));
        }
        num_from_text(text.as_str())
    }

    /// An identifier-shaped lexeme: letters, digits and underscores.
    /// The first character has already been consumed.
    #[verifier::loop_isolation(false)]
    pub fn identifier(&mut self, first_char: char) -> (r: String)
        requires
            old(self).wf(),
            old(self).pos >= 1,
            old(self).chars@[old(self).pos - 1] == first_char,
            is_alpha_v(first_char),
        ensures
            final(self).wf(),
            final(self).chars@ == old(self).chars@,
            final(self).line == old(self).line,
            ({
                let chars = old(self).chars@;
                let i = old(self).pos - 1;
                &&& final(self).pos == i + ident_run(chars, i)
                &&& r@ == chars.subrange(i, i + ident_run(chars, i) as int)
            }),
    {
        let ghost chars = self.chars@;
        let ghost i: int = self.pos as int - 1;
        let mut buffer: Vec<char> = Vec::new();
        buffer.push(first_char);
        loop
            invariant
                self.wf(),
                self.chars@ == chars,
                self.line == old(self).line,
                i + 1 <= self.pos <= chars.len(),
                buffer@ == chars.subrange(i, self.pos as int),
                forall|k: int| i <= k < self.pos ==> is_alnum_v(#[trigger] chars[k]),
            decreases chars.len() - self.pos,
        {
            match self.peek_char() {
                Some(d) => {
                    if !is_alphanumeric(d) {
                        break;
                    }
                }
                None => {
                    break;
                }
            }
            match self.read_char() {
                Some((c2, _s)) => {
                    buffer.push(c2);
                    proof {
                        assert(buffer@ =~= chars.subrange(i, self.pos as int));
                    }
                }
                None => {
                    proof {
                        assert(false);
                    }
                }
            }
        }
        proof {
            lemma_ident_run_is(chars, i, self.pos as int - i);
        }
        chars_to_string(buffer)
    }

    /// The keyword kind for `text`, if `text` is a reserved word.
    pub fn match_keyword(text: &str) -> (r: Option<TokenType>)
        ensures
            match r {
                Some(k) => keyword_lookup(text@) == Some(k@),
                None => keyword_lookup(text@) is None,
            },
    {
        let cs = str_to_chars(text);
        if chars_eq(&cs, &['a', 'n', 'd']) {
            Some(TokenType::And)
        } else if chars_eq(&cs, &['c', 'l', 'a', 's', 's']) {
            Some(TokenType::Class)
        } else if chars_eq(&cs, &['e', 'l', 's', 'e']) {
            Some(TokenType::Else)
        } else if chars_eq(&cs, &['f', 'a', 'l', 's', 'e']) {
            Some(TokenType::False)
        } else if chars_eq(&cs, &['f', 'u', 'n']) {
            Some(TokenType::Fun)
        } else if chars_eq(&cs, &['f', 'o', 'r']) {
            Some(TokenType::For)
        } else if chars_eq(&cs, &['i', 'f']) {
            Some(TokenType::If)
        } else if chars_eq(&cs, &['n', 'i', 'l']) {
            Some(TokenType::Nil)
        } else if chars_eq(&cs, &['o', 'r']) {
            Some(TokenType::Or)
        } else if chars_eq(&cs, &['p', 'r', 'i', 'n', 't']) {
            Some(TokenType::Print)
        } else if chars_eq(&cs, &['r', 'e', 't', 'u', 'r', 'n']) {
            Some(TokenType::Return)
        } else if chars_eq(&cs, &['s', 'u', 'p', 'e', 'r']) {
            Some(TokenType::Super)
        } else if chars_eq(&cs, &['t', 'h', 'i', 's']) {
            Some(TokenType::This)
        } else if chars_eq(&cs, &['t', 'r', 'u', 'e']) {
            Some(TokenType::True)
        } else if chars_eq(&cs, &['v', 'a', 'r']) {
            Some(TokenType::Var)
        } else if chars_eq(&cs, &['w', 'h', 'i', 'l', 'e']) {
            Some(TokenType::While)
        } else {
            None
        }
    }
}

/// Whether the characters of `v` are exactly those of `w`, in order.
#[verifier::loop_isolation(false)]
fn chars_eq(v: &Vec<char>, w: &[char]) -> (r: bool)
    ensures
        r == (v@ == w@),
{
    if v.len() != w.len() {
        return false;
    }
    let mut j: usize = 0;
    while j < v.len()
        invariant
            j <= v@.len(),
            v@.len() == w@.len(),
            forall|k: int| 0 <= k < j ==> v@[k] == w@[k],
        decreases v@.len() - j,
    {
        if v[j] != w[j] {
            return false;
        }
        j = j + 1;
    }
    proof {
        assert(v@ =~= w@);
    }
    true
}


/// Push token `t`, carrying the scan correspondence forward: if the
/// tokens so far followed by the scan of the rest equal the scan of the
/// whole, the same holds after emitting one more scanned token.
fn emit(
    tokens: &mut Vec<Token>,
    t: Token,
    Ghost(chars): Ghost<Seq<char>>,
    Ghost(i): Ghost<int>,
    Ghost(line): Ghost<nat>,
    Ghost(j): Ghost<int>,
    Ghost(line2): Ghost<nat>,
)
    requires
        merge(old(tokens)@.map_values(|tk: Token| tk@), spec_scan(chars, i, line)) == spec_scan(
            chars,
            0,
            1,
        ),
        0 <= i <= chars.len(),
        0 <= j <= chars.len(),
        spec_scan(chars, i, line) == cons_tok(t@, spec_scan(chars, j, line2)),
    ensures
        merge(final(tokens)@.map_values(|tk: Token| tk@), spec_scan(chars, j, line2)) == spec_scan(
            chars,
            0,
            1,
        ),
{
    proof {
        lemma_merge_push(
            tokens@.map_values(|tk: Token| tk@),
            t@,
            spec_scan(chars, j, line2),
        );
    }
    let ghost before = tokens@;
    tokens.push(t);
    proof {
        assert(tokens@.map_values(|tk: Token| tk@) =~= before.map_values(|tk: Token| tk@).push(
            t@,
        ));
    }
}

/// The token sequence of `source`, or the first lexical error: the
/// scanner is fail-fast and produces no partial sequence beside an
/// error. The result is a function of the source text alone, so
/// re-scanning the same source yields the same outcome.
#[verifier::loop_isolation(false)]
#[verifier::rlimit(100)]
pub fn scan(source: &str) -> (r: Result<Vec<Token>, Error>)
    requires
        source@.len() < usize::MAX,
    ensures
        match r {
            Ok(v) => spec_scan(source@, 0, 1) == Ok::<Seq<TokenView>, ErrorView>(
                v@.map_values(|t: Token| t@),
            ),
            Err(e) => spec_scan(source@, 0, 1) == Err::<Seq<TokenView>, ErrorView>(e@),
        },
{
    let ghost chars = source@;
    let mut scanner = Scanner::new(source);
    let mut tokens: Vec<Token> = Vec::new();
    loop
        invariant
            scanner.wf(),
            scanner.chars@ == chars,
            merge(
                tokens@.map_values(|t: Token| t@),
                spec_scan(chars, scanner.pos as int, scanner.line as nat),
            ) == spec_scan(chars, 0, 1),
        decreases chars.len() - scanner.pos,
    {
        let ghost i = scanner.pos as int;
        let ghost line = scanner.line as nat;
        let ghost acc = tokens@.map_values(|t: Token| t@);
        let (c, span) = match scanner.read_char() {
            Some(p) => p,
            None => {
                break;
            }
        };
        if c == '(' {
            let t = Token::new(TokenType::LeftParen, span);
            emit(&mut tokens, t, Ghost(chars), Ghost(i), Ghost(line), Ghost(scanner.pos as int), Ghost(scanner.line as nat));
        } else if c == ')' {
            let t = Token::new(TokenType::RightParen, span);
            emit(&mut tokens, t, Ghost(chars), Ghost(i), Ghost(line), Ghost(scanner.pos as int), Ghost(scanner.line as nat));
        } else if c == '{' {
            let t = Token::new(TokenType::LeftBrace, span);
            emit(&mut tokens, t, Ghost(chars), Ghost(i), Ghost(line), Ghost(scanner.pos as int), Ghost(scanner.line as nat));
        } else if c == '}' {
            let t = Token::new(TokenType::RightBrace, span);
            emit(&mut tokens, t, Ghost(chars), Ghost(i), Ghost(line), Ghost(scanner.pos as int), Ghost(scanner.line as nat));
        } else if c == ',' {
            let t = Token::new(TokenType::Comma, span);
            emit(&mut tokens, t, Ghost(chars), Ghost(i), Ghost(line), Ghost(scanner.pos as int), Ghost(scanner.line as nat));
        } else if c == '.' {
            let t = Token::new(TokenType::Dot, span);
            emit(&mut tokens, t, Ghost(chars), Ghost(i), Ghost(line), Ghost(scanner.pos as int), Ghost(scanner.line as nat));
        } else if c == '-' {
            let t = Token::new(TokenType::Minus, span);
            emit(&mut tokens, t, Ghost(chars), Ghost(i), Ghost(line), Ghost(scanner.pos as int), Ghost(scanner.line as nat));
        } else if c == '+' {
            let t = Token::new(TokenType::Plus, span);
            emit(&mut tokens, t, Ghost(chars), Ghost(i), Ghost(line), Ghost(scanner.pos as int), Ghost(scanner.line as nat));
        } else if c == ';' {
            let t = Token::new(TokenType::Semicolon, span);
            emit(&mut tokens, t, Ghost(chars), Ghost(i), Ghost(line), Ghost(scanner.pos as int), Ghost(scanner.line as nat));
        } else if c == '*' {
            let t = Token::new(TokenType::Star, span);
            emit(&mut tokens, t, Ghost(chars), Ghost(i), Ghost(line), Ghost(scanner.pos as int), Ghost(scanner.line as nat));
        } else if c == '!' {
            let two = match scanner.peek_char() {
                Some(c2) => c2 == '=',
                None => false,
            };
            let t = if two {
                let _ = scanner.read_char();
                Token::new(TokenType::BangEqual, span)
            } else {
                Token::new(TokenType::Bang, span)
            };
            emit(&mut tokens, t, Ghost(chars), Ghost(i), Ghost(line), Ghost(scanner.pos as int), Ghost(scanner.line as nat));
        } else if c == '=' {
            let two = match scanner.peek_char() {
                Some(c2) => c2 == '=',
                None => false,
            };
            let t = if two {
                let _ = scanner.read_char();
                Token::new(TokenType::EqualEqual, span)
            } else {
                Token::new(TokenType::Equal, span)
            };
            emit(&mut tokens, t, Ghost(chars), Ghost(i), Ghost(line), Ghost(scanner.pos as int), Ghost(scanner.line as nat));
        } else if c == '<' {
            let two = match scanner.peek_char() {
                Some(c2) => c2 == '=',
                None => false,
            };
            let t = if two {
                let _ = scanner.read_char();
                Token::new(TokenType::LessEqual, span)
            } else {
                Token::new(TokenType::Less, span)
            };
            emit(&mut tokens, t, Ghost(chars), Ghost(i), Ghost(line), Ghost(scanner.pos as int), Ghost(scanner.line as nat));
        } else if c == '>' {
            let two = match scanner.peek_char() {
                Some(c2) => c2 == '=',
                None => false,
            };
            let t = if two {
                let _ = scanner.read_char();
                Token::new(TokenType::GreaterEqual, span)
            } else {
                Token::new(TokenType::Greater, span)
            };
            emit(&mut tokens, t, Ghost(chars), Ghost(i), Ghost(line), Ghost(scanner.pos as int), Ghost(scanner.line as nat));
        } else if c == '/' {
            let comment = match scanner.peek_char() {
                Some(c2) => c2 == '/',
                None => false,
            };
            if comment {
                let _ = scanner.read_char();
                loop
                    invariant
                        scanner.wf(),
                        scanner.chars@ == chars,
                        i + 2 <= scanner.pos <= chars.len(),
                        scanner.line as nat == line,
                        forall|k: int| i + 2 <= k < scanner.pos ==> chars[k] != '\n',
                    decreases chars.len() - scanner.pos,
                {
                    match scanner.peek_char() {
                        Some(c2) => {
                            if c2 == '\n' {
                                break;
                            }
                        }
                        None => {
                            break;
                        }
                    }
                    let _ = scanner.read_char();
                }
                proof {
                    lemma_comment_run_is(chars, i + 2, scanner.pos as int - (i + 2));
                    assert(spec_scan(chars, i, line) == spec_scan(
                        chars,
                        scanner.pos as int,
                        scanner.line as nat,
                    ));
                }
            } else {
                let t = Token::new(TokenType::Slash, span);
                emit(&mut tokens, t, Ghost(chars), Ghost(i), Ghost(line), Ghost(scanner.pos as int), Ghost(scanner.line as nat));
            }
        } else if c == ' ' || c == '\r' || c == '\t' || c == '\n' {
            proof {
                assert(spec_scan(chars, i, line) == spec_scan(
                    chars,
                    scanner.pos as int,
                    scanner.line as nat,
                ));
            }
        } else if c == '"' {
            match scanner.string() {
                Ok(s) => {
                    let t = Token::new(TokenType::Str(s), span);
                    emit(&mut tokens, t, Ghost(chars), Ghost(i), Ghost(line), Ghost(scanner.pos as int), Ghost(scanner.line as nat));
                }
                Err(msg) => {
                    let e = Error {
                        error_type: ErrorType::Scanner,
                        message: msg,
                        token: None,
                        line: Some(span.line),
                    };
                    proof {
                        assert(spec_scan(chars, i, line) == Err::<Seq<TokenView>, ErrorView>(e@));
                    }
                    return Err(e);
                }
            }
        } else if is_digit_char(c) {
            let value = scanner.number(c);
            let t = Token::new(TokenType::Number(value), span);
            emit(&mut tokens, t, Ghost(chars), Ghost(i), Ghost(line), Ghost(scanner.pos as int), Ghost(scanner.line as nat));
        } else if is_alpha(c) {
            let s = scanner.identifier(c);
            let t = match Scanner::match_keyword(s.as_str()) {
                Some(k) => Token::new(k, span),
                None => Token::new(TokenType::Identifier(s), span),
            };
            emit(&mut tokens, t, Ghost(chars), Ghost(i), Ghost(line), Ghost(scanner.pos as int), Ghost(scanner.line as nat));
        } else {
            let mut cv: Vec<char> = Vec::new();
            cv.push(c);
            let e = Error {
                error_type: ErrorType::Scanner,
                message: "unexpected character".to_owned(),
                token: Some(chars_to_string(cv)),
                line: Some(span.line),
            };
            proof {
                assert(e@.token == Some(seq![c]));
                assert(spec_scan(chars, i, line) == Err::<Seq<TokenView>, ErrorView>(e@));
            }
            return Err(e);
        }
    }
    let ghost acc = tokens@.map_values(|t: Token| t@);
    let t = Token::new(TokenType::Eof, Span::new(scanner.line));
    proof {
        assert(spec_scan(chars, scanner.pos as int, scanner.line as nat) == Ok::<
            Seq<TokenView>,
            ErrorView,
        >(seq![t@]));
    }
    tokens.push(t);
    proof {
        assert(tokens@.map_values(|tk: Token| tk@) =~= acc.push(t@));
        assert(acc + seq![t@] =~= acc.push(t@));
    }
    Ok(tokens)
}

} // verus!
