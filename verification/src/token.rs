//! Tokens: classified, positioned units of lexical text.

use vstd::prelude::*;

use crate::numeric::num_text;
use crate::numeric::render_number_chars;
use crate::text::str_to_chars;

verus! {

/// The classified kind of a token.
///
/// The three literal-bearing kinds carry their decoded payload inline:
/// identifier and string tokens carry their text, and a numeric token
/// carries the IEEE 754 binary64 bit pattern of its value.
#[derive(Clone, Debug)]
pub enum TokenType {
    // Single-character tokens.
    LeftParen,
    RightParen,
    LeftBrace,
    RightBrace,
    Comma,
    Dot,
    Minus,
    Plus,
    Semicolon,
    Slash,
    Star,
    // One or two character tokens.
    Bang,
    BangEqual,
    Equal,
    EqualEqual,
    Greater,
    GreaterEqual,
    Less,
    LessEqual,
    // Literals.
    Identifier(String),
    Str(String),
    Number(u64),
    // Keywords.
    And,
    Class,
    Else,
    False,
    Fun,
    For,
    If,
    Nil,
    Or,
    Print,
    Return,
    Super,
    This,
    True,
    Var,
    While,
    Eof,
}

/// Mathematical model of a token kind: text payloads become `Seq<char>`.
pub enum TokenTypeView {
    LeftParen,
    RightParen,
    LeftBrace,
    RightBrace,
    Comma,
    Dot,
    Minus,
    Plus,
    Semicolon,
    Slash,
    Star,
    Bang,
    BangEqual,
    Equal,
    EqualEqual,
    Greater,
    GreaterEqual,
    Less,
    LessEqual,
    Identifier(Seq<char>),
    Str(Seq<char>),
    Number(u64),
    And,
    Class,
    Else,
    False,
    Fun,
    For,
    If,
    Nil,
    Or,
    Print,
    Return,
    Super,
    This,
    True,
    Var,
    While,
    Eof,
}

impl View for TokenType {
    type V = TokenTypeView;

    open spec fn view(&self) -> TokenTypeView {
        match self {
            TokenType::LeftParen => TokenTypeView::LeftParen,
            TokenType::RightParen => TokenTypeView::RightParen,
            TokenType::LeftBrace => TokenTypeView::LeftBrace,
            TokenType::RightBrace => TokenTypeView::RightBrace,
            TokenType::Comma => TokenTypeView::Comma,
            TokenType::Dot => TokenTypeView::Dot,
            TokenType::Minus => TokenTypeView::Minus,
            TokenType::Plus => TokenTypeView::Plus,
            TokenType::Semicolon => TokenTypeView::Semicolon,
            TokenType::Slash => TokenTypeView::Slash,
            TokenType::Star => TokenTypeView::Star,
            TokenType::Bang => TokenTypeView::Bang,
            TokenType::BangEqual => TokenTypeView::BangEqual,
            TokenType::Equal => TokenTypeView::Equal,
            TokenType::EqualEqual => TokenTypeView::EqualEqual,
            TokenType::Greater => TokenTypeView::Greater,
            TokenType::GreaterEqual => TokenTypeView::GreaterEqual,
            TokenType::Less => TokenTypeView::Less,
            TokenType::LessEqual => TokenTypeView::LessEqual,
            TokenType::Identifier(s) => TokenTypeView::Identifier(s@),
            TokenType::Str(s) => TokenTypeView::Str(s@),
            TokenType::Number(n) => TokenTypeView::Number(*n),
            TokenType::And => TokenTypeView::And,
            TokenType::Class => TokenTypeView::Class,
            TokenType::Else => TokenTypeView::Else,
            TokenType::False => TokenTypeView::False,
            TokenType::Fun => TokenTypeView::Fun,
            TokenType::For => TokenTypeView::For,
            TokenType::If => TokenTypeView::If,
            TokenType::Nil => TokenTypeView::Nil,
            TokenType::Or => TokenTypeView::Or,
            TokenType::Print => TokenTypeView::Print,
            TokenType::Return => TokenTypeView::Return,
            TokenType::Super => TokenTypeView::Super,
            TokenType::This => TokenTypeView::This,
            TokenType::True => TokenTypeView::True,
            TokenType::Var => TokenTypeView::Var,
            TokenType::While => TokenTypeView::While,
            TokenType::Eof => TokenTypeView::Eof,
        }
    }
}

/// The lexeme a token kind stands for: for literal-bearing kinds, the
/// display text of the payload (string text requoted); empty for the
/// end-of-input sentinel.
pub open spec fn lexeme_view(k: TokenTypeView) -> Seq<char> {
    match k {
        TokenTypeView::LeftParen => seq!['('],
        TokenTypeView::RightParen => seq![')'],
        TokenTypeView::LeftBrace => seq!['{'],
        TokenTypeView::RightBrace => seq!['}'],
        TokenTypeView::Comma => seq![','],
        TokenTypeView::Dot => seq!['.'],
        TokenTypeView::Minus => seq!['-'],
        TokenTypeView::Plus => seq!['+'],
        TokenTypeView::Semicolon => seq![';'],
        TokenTypeView::Slash => seq!['/'],
        TokenTypeView::Star => seq!['*'],
        TokenTypeView::Bang => seq!['!'],
        TokenTypeView::BangEqual => seq!['!', '='],
        TokenTypeView::Equal => seq!['='],
        TokenTypeView::EqualEqual => seq!['=', '='],
        TokenTypeView::Greater => seq!['>'],
        TokenTypeView::GreaterEqual => seq!['>', '='],
        TokenTypeView::Less => seq!['<'],
        TokenTypeView::LessEqual => seq!['<', '='],
        TokenTypeView::Identifier(s) => s,
        TokenTypeView::Str(s) => seq!['"'] + s + seq!['"'],
        TokenTypeView::Number(b) => num_text(b),
        TokenTypeView::And => seq!['a', 'n', 'd'],
        TokenTypeView::Class => seq!['c', 'l', 'a', 's', 's'],
        TokenTypeView::Else => seq!['e', 'l', 's', 'e'],
        TokenTypeView::False => seq!['f', 'a', 'l', 's', 'e'],
        TokenTypeView::Fun => seq!['f', 'u', 'n'],
        TokenTypeView::For => seq!['f', 'o', 'r'],
        TokenTypeView::If => seq!['i', 'f'],
        TokenTypeView::Nil => seq!['n', 'i', 'l'],
        TokenTypeView::Or => seq!['o', 'r'],
        TokenTypeView::Print => seq!['p', 'r', 'i', 'n', 't'],
        TokenTypeView::Return => seq!['r', 'e', 't', 'u', 'r', 'n'],
        TokenTypeView::Super => seq!['s', 'u', 'p', 'e', 'r'],
        TokenTypeView::This => seq!['t', 'h', 'i', 's'],
        TokenTypeView::True => seq!['t', 'r', 'u', 'e'],
        TokenTypeView::Var => seq!['v', 'a', 'r'],
        TokenTypeView::While => seq!['w', 'h', 'i', 'l', 'e'],
        TokenTypeView::Eof => Seq::<char>::empty(),
    }
}

fn push_all(out: &mut Vec<char>, cs: &[char])
    ensures
        final(out)@ == old(out)@ + cs@,
{
    out.extend_from_slice(cs);
}

/// The lexeme of kind `k`, as characters.
pub fn lexeme_chars(k: &TokenType) -> (v: Vec<char>)
    ensures
        v@ == lexeme_view(k@),
{
    let mut out: Vec<char> = Vec::new();
    match k {
        TokenType::LeftParen => push_all(&mut out, &['(']),
        TokenType::RightParen => push_all(&mut out, &[')']),
        TokenType::LeftBrace => push_all(&mut out, &['{']),
        TokenType::RightBrace => push_all(&mut out, &['}']),
        TokenType::Comma => push_all(&mut out, &[',']),
        TokenType::Dot => push_all(&mut out, &['.']),
        TokenType::Minus => push_all(&mut out, &['-']),
        TokenType::Plus => push_all(&mut out, &['+']),
        TokenType::Semicolon => push_all(&mut out, &[';']),
        TokenType::Slash => push_all(&mut out, &['/']),
        TokenType::Star => push_all(&mut out, &['*']),
        TokenType::Bang => push_all(&mut out, &['!']),
        TokenType::BangEqual => push_all(&mut out, &['!', '=']),
        TokenType::Equal => push_all(&mut out, &['=']),
        TokenType::EqualEqual => push_all(&mut out, &['=', '=']),
        TokenType::Greater => push_all(&mut out, &['>']),
        TokenType::GreaterEqual => push_all(&mut out, &['>', '=']),
        TokenType::Less => push_all(&mut out, &['<']),
        TokenType::LessEqual => push_all(&mut out, &['<', '=']),
        TokenType::Identifier(s) => {
            let cs = str_to_chars(s.as_str());
            push_all(&mut out, cs.as_slice());
        }
        TokenType::Str(s) => {
            push_all(&mut out, &['"']);
            let cs = str_to_chars(s.as_str());
            push_all(&mut out, cs.as_slice());
            push_all(&mut out, &['"']);
        }
        TokenType::Number(b) => {
            let cs = render_number_chars(*b);
            push_all(&mut out, cs.as_slice());
        }
        TokenType::And => push_all(&mut out, &['a', 'n', 'd']),
        TokenType::Class => push_all(&mut out, &['c', 'l', 'a', 's', 's']),
        TokenType::Else => push_all(&mut out, &['e', 'l', 's', 'e']),
        TokenType::False => push_all(&mut out, &['f', 'a', 'l', 's', 'e']),
        TokenType::Fun => push_all(&mut out, &['f', 'u', 'n']),
        TokenType::For => push_all(&mut out, &['f', 'o', 'r']),
        TokenType::If => push_all(&mut out, &['i', 'f']),
        TokenType::Nil => push_all(&mut out, &['n', 'i', 'l']),
        TokenType::Or => push_all(&mut out, &['o', 'r']),
        TokenType::Print => push_all(&mut out, &['p', 'r', 'i', 'n', 't']),
        TokenType::Return => push_all(&mut out, &['r', 'e', 't', 'u', 'r', 'n']),
        TokenType::Super => push_all(&mut out, &['s', 'u', 'p', 'e', 'r']),
        TokenType::This => push_all(&mut out, &['t', 'h', 'i', 's']),
        TokenType::True => push_all(&mut out, &['t', 'r', 'u', 'e']),
        TokenType::Var => push_all(&mut out, &['v', 'a', 'r']),
        TokenType::While => push_all(&mut out, &['w', 'h', 'i', 'l', 'e']),
        TokenType::Eof => {}
    }
    proof {
        assert(out@ =~= lexeme_view(k@));
    }
    out
}

/// Positional metadata attached to a token: at minimum, the source line.
#[derive(Clone, Debug, PartialEq, Eq, Structural)]
pub struct Span {
    pub line: usize,
}

impl Span {
    pub fn new(line: usize) -> (s: Span)
        ensures
            s.line == line,
    {
        Span { line }
    }
}

/// Mathematical model of a token: its kind and its source line.
pub struct TokenView {
    pub kind: TokenTypeView,
    pub line: nat,
}

/// An immutable token: a kind and a span. Produced once by the scanner,
/// consumed read-only by the parser.
#[derive(Clone, Debug)]
pub struct Token {
    token_type: TokenType,
    span: Span,
}

impl View for Token {
    type V = TokenView;

    closed spec fn view(&self) -> TokenView {
        TokenView { kind: self.token_type@, line: self.span.line as nat }
    }
}

impl Token {
    pub fn new(token_type: TokenType, span: Span) -> (t: Token)
        ensures
            t@.kind == token_type@,
            t@.line == span.line as nat,
    {
        Token { token_type, span }
    }

    pub fn token_type(&self) -> (k: &TokenType)
        ensures
            k@ == self@.kind,
    {
        &self.token_type
    }

    pub fn span(&self) -> (s: &Span)
        ensures
            s.line as nat == self@.line,
    {
        &self.span
    }

    /// A copy of this token, with the same model.
    pub fn duplicate(&self) -> (t: Token)
        ensures
            t@ == self@,
    {
        Token { token_type: self.token_type.duplicate(), span: Span { line: self.span.line } }
    }
}

impl TokenType {
    /// A copy of this kind, with the same model.
    pub fn duplicate(&self) -> (k: TokenType)
        ensures
            k@ == self@,
    {
        match self {
            TokenType::LeftParen => TokenType::LeftParen,
            TokenType::RightParen => TokenType::RightParen,
            TokenType::LeftBrace => TokenType::LeftBrace,
            TokenType::RightBrace => TokenType::RightBrace,
            TokenType::Comma => TokenType::Comma,
            TokenType::Dot => TokenType::Dot,
            TokenType::Minus => TokenType::Minus,
            TokenType::Plus => TokenType::Plus,
            TokenType::Semicolon => TokenType::Semicolon,
            TokenType::Slash => TokenType::Slash,
            TokenType::Star => TokenType::Star,
            TokenType::Bang => TokenType::Bang,
            TokenType::BangEqual => TokenType::BangEqual,
            TokenType::Equal => TokenType::Equal,
            TokenType::EqualEqual => TokenType::EqualEqual,
            TokenType::Greater => TokenType::Greater,
            TokenType::GreaterEqual => TokenType::GreaterEqual,
            TokenType::Less => TokenType::Less,
            TokenType::LessEqual => TokenType::LessEqual,
            TokenType::Identifier(s) => TokenType::Identifier(s.clone()),
            TokenType::Str(s) => TokenType::Str(s.clone()),
            TokenType::Number(n) => TokenType::Number(*n),
            TokenType::And => TokenType::And,
            TokenType::Class => TokenType::Class,
            TokenType::Else => TokenType::Else,
            TokenType::False => TokenType::False,
            TokenType::Fun => TokenType::Fun,
            TokenType::For => TokenType::For,
            TokenType::If => TokenType::If,
            TokenType::Nil => TokenType::Nil,
            TokenType::Or => TokenType::Or,
            TokenType::Print => TokenType::Print,
            TokenType::Return => TokenType::Return,
            TokenType::Super => TokenType::Super,
            TokenType::This => TokenType::This,
            TokenType::True => TokenType::True,
            TokenType::Var => TokenType::Var,
            TokenType::While => TokenType::While,
            TokenType::Eof => TokenType::Eof,
        }
    }
}


impl PartialEq for TokenType {
    /// Whether two token kinds are the same, payloads included.
    fn eq(&self, other: &TokenType) -> (r: bool) {
        match (self, other) {
            (TokenType::LeftParen, TokenType::LeftParen) => true,
            (TokenType::RightParen, TokenType::RightParen) => true,
            (TokenType::LeftBrace, TokenType::LeftBrace) => true,
            (TokenType::RightBrace, TokenType::RightBrace) => true,
            (TokenType::Comma, TokenType::Comma) => true,
            (TokenType::Dot, TokenType::Dot) => true,
            (TokenType::Minus, TokenType::Minus) => true,
            (TokenType::Plus, TokenType::Plus) => true,
            (TokenType::Semicolon, TokenType::Semicolon) => true,
            (TokenType::Slash, TokenType::Slash) => true,
            (TokenType::Star, TokenType::Star) => true,
            (TokenType::Bang, TokenType::Bang) => true,
            (TokenType::BangEqual, TokenType::BangEqual) => true,
            (TokenType::Equal, TokenType::Equal) => true,
            (TokenType::EqualEqual, TokenType::EqualEqual) => true,
            (TokenType::Greater, TokenType::Greater) => true,
            (TokenType::GreaterEqual, TokenType::GreaterEqual) => true,
            (TokenType::Less, TokenType::Less) => true,
            (TokenType::LessEqual, TokenType::LessEqual) => true,
            (TokenType::Identifier(x), TokenType::Identifier(y)) => x.eq(y),
            (TokenType::Str(x), TokenType::Str(y)) => x.eq(y),
            (TokenType::Number(x), TokenType::Number(y)) => x == y,
            (TokenType::And, TokenType::And) => true,
            (TokenType::Class, TokenType::Class) => true,
            (TokenType::Else, TokenType::Else) => true,
            (TokenType::False, TokenType::False) => true,
            (TokenType::Fun, TokenType::Fun) => true,
            (TokenType::For, TokenType::For) => true,
            (TokenType::If, TokenType::If) => true,
            (TokenType::Nil, TokenType::Nil) => true,
            (TokenType::Or, TokenType::Or) => true,
            (TokenType::Print, TokenType::Print) => true,
            (TokenType::Return, TokenType::Return) => true,
            (TokenType::Super, TokenType::Super) => true,
            (TokenType::This, TokenType::This) => true,
            (TokenType::True, TokenType::True) => true,
            (TokenType::Var, TokenType::Var) => true,
            (TokenType::While, TokenType::While) => true,
            (TokenType::Eof, TokenType::Eof) => true,
            _ => false,
        }
    }
}

impl vstd::std_specs::cmp::PartialEqSpecImpl for TokenType {
    open spec fn obeys_eq_spec() -> bool {
        true
    }

    open spec fn eq_spec(&self, other: &TokenType) -> bool {
        self@ == other@
    }
}

impl PartialEq for Token {
    /// Whether two tokens agree in kind and span.
    fn eq(&self, other: &Token) -> (r: bool) {
        self.token_type.eq(&other.token_type) && self.span == other.span
    }
}

impl vstd::std_specs::cmp::PartialEqSpecImpl for Token {
    open spec fn obeys_eq_spec() -> bool {
        true
    }

    open spec fn eq_spec(&self, other: &Token) -> bool {
        self@ == other@
    }
}

impl PartialEq<TokenType> for Token {
    /// Whether this token has the given kind, payload included.
    fn eq(&self, other: &TokenType) -> (r: bool) {
        self.token_type.eq(other)
    }
}

impl vstd::std_specs::cmp::PartialEqSpecImpl<TokenType> for Token {
    open spec fn obeys_eq_spec() -> bool {
        true
    }

    open spec fn eq_spec(&self, other: &TokenType) -> bool {
        self@.kind == other@
    }
}

} // verus!
