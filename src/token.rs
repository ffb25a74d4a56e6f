use vstd::prelude::*;

use crate::span::Span;

verus! {

/// A token of the source text and where it stands.
#[derive(Clone, Copy, Debug, PartialEq, Eq, Structural)]
pub struct Token {
    pub kind: TokenKind,
    pub span: Span,
}

impl Token {
    pub fn new(kind: TokenKind, span: Span) -> (t: Self)
        ensures
            t.kind == kind,
            t.span == span,
    {
        Self { kind, span }
    }

    /// The end of input, one position wide, at `at`.
    pub fn eof(at: usize) -> (t: Self)
        requires
            at < usize::MAX,
        ensures
            t.kind == TokenKind::Eof,
            t.span == (Span { start: at, end: (at + 1) as usize }),
    {
        Self { kind: TokenKind::Eof, span: Span { start: at, end: at + 1 } }
    }

    pub fn is(&self, kind: TokenKind) -> (r: bool)
        ensures
            r == (self.kind == kind),
    {
        self.kind == kind
    }
}

#[derive(Clone, Copy, Debug, PartialEq, Eq, Structural)]
pub enum TokenKind {
    Plus,
    Minus,
    Star,
    Slash,
    ParenL,
    ParenR,
    Int,
    Eof,
}

/// How a kind of token is named in messages.
pub open spec fn kind_name(kind: TokenKind) -> Seq<char> {
    match kind {
        TokenKind::Plus => "+"@,
        TokenKind::Minus => "-"@,
        TokenKind::Star => "*"@,
        TokenKind::Slash => "/"@,
        TokenKind::ParenL => "("@,
        TokenKind::ParenR => ")"@,
        TokenKind::Int => "int"@,
        TokenKind::Eof => "eof"@,
    }
}

impl TokenKind {
    pub fn as_str(&self) -> (s: &'static str)
        ensures
            s@ == kind_name(*self),
    {
        match self {
            TokenKind::Plus => "+",
            TokenKind::Minus => "-",
            TokenKind::Star => "*",
            TokenKind::Slash => "/",
            TokenKind::ParenL => "(",
            TokenKind::ParenR => ")",
            TokenKind::Int => "int",
            TokenKind::Eof => "eof",
        }
    }
}

} // verus!
