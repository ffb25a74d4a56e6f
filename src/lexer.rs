use vstd::prelude::*;

use crate::error::Error;
use crate::span::Span;
use crate::text::{chars_of, push_range, push_str, string_of};
use crate::token::{Token, TokenKind};

verus! {

/// White space between tokens: space, tab, line feed, carriage return,
/// vertical tab and form feed.
pub open spec fn is_space(c: char) -> bool {
    c == ' ' || c == '\t' || c == '\n' || c == '\r' || c == '\x0B' || c == '\x0C'
}

/// An ASCII decimal digit.
pub open spec fn is_digit(c: char) -> bool {
    '0' <= c <= '9'
}

/// The first position from `i` on that is not white space.
pub open spec fn skip_space(s: Seq<char>, i: int) -> int
    decreases s.len() - i,
{
    if 0 <= i < s.len() && is_space(s[i]) {
        skip_space(s, i + 1)
    } else {
        i
    }
}

/// The first position from `i` on that is not a digit.
pub open spec fn digits_end(s: Seq<char>, i: int) -> int
    decreases s.len() - i,
{
    if 0 <= i < s.len() && is_digit(s[i]) {
        digits_end(s, i + 1)
    } else {
        i
    }
}

/// The token that a single character makes.
pub open spec fn single_kind(c: char) -> Option<TokenKind> {
    if c == '+' {
        Some(TokenKind::Plus)
    } else if c == '-' {
        Some(TokenKind::Minus)
    } else if c == '*' {
        Some(TokenKind::Star)
    } else if c == '/' {
        Some(TokenKind::Slash)
    } else if c == '(' {
        Some(TokenKind::ParenL)
    } else if c == ')' {
        Some(TokenKind::ParenR)
    } else {
        None
    }
}

pub open spec fn span(start: int, end: int) -> Span {
    Span { start: start as usize, end: end as usize }
}

/// The first token at or after position `pos`, white space skipped: an
/// operator or parenthesis, or a run of digits; where no text is left, an
/// `Eof` with an empty span at the end of the text. `Err` holds the span of
/// a character no token starts with.
pub open spec fn scan(s: Seq<char>, pos: int) -> Result<Token, Span> {
    let i = skip_space(s, pos);
    if i >= s.len() {
        Ok(Token { kind: TokenKind::Eof, span: span(s.len() as int, s.len() as int) })
    } else if single_kind(s[i]) is Some {
        Ok(Token { kind: single_kind(s[i])->Some_0, span: span(i, i + 1) })
    } else if is_digit(s[i]) {
        Ok(Token { kind: TokenKind::Int, span: span(i, digits_end(s, i)) })
    } else {
        Err(span(i, i + 1))
    }
}

/// The end of input that follows a token ending at `after`: one position
/// wide, right after it.
pub open spec fn eof_at(after: int) -> Token {
    Token { kind: TokenKind::Eof, span: span(after, after + 1) }
}

/// The token read from position `pos` when the token before it ended at
/// `after`: what `scan` finds, with the end of input placed right after
/// that token.
pub open spec fn next_token(s: Seq<char>, pos: int, after: int) -> Result<Token, Span> {
    match scan(s, pos) {
        Ok(t) => if t.kind == TokenKind::Eof {
            Ok(eof_at(after))
        } else {
            Ok(t)
        },
        Err(sp) => Err(sp),
    }
}

/// The value of a run of decimal digits.
pub open spec fn digits_value(d: Seq<char>) -> int
    decreases d.len(),
{
    if d.len() == 0 {
        0
    } else {
        digits_value(d.drop_last()) * 10 + ((d.last() as u32) - ('0' as u32))
    }
}

/// A run of decimal digits as an `i64`; `None` where it is too large.
pub open spec fn decimal(d: Seq<char>) -> Option<i64> {
    if digits_value(d) <= i64::MAX {
        Some(digits_value(d) as i64)
    } else {
        None
    }
}

/// The message for text that starts no token, or a token out of place.
pub open spec fn unexpected(s: Seq<char>, at: Span) -> Seq<char> {
    "unexpected token `"@ + s.subrange(at.start as int, at.end as int) + "`"@
}

proof fn lemma_skip_space(s: Seq<char>, i: int)
    requires
        0 <= i,
    ensures
        i <= skip_space(s, i),
        skip_space(s, i) < s.len() ==> !is_space(s[skip_space(s, i)]),
        i <= s.len() ==> skip_space(s, i) <= s.len(),
        i > s.len() ==> skip_space(s, i) == i,
    decreases s.len() - i,
{
    if 0 <= i < s.len() && is_space(s[i]) {
        lemma_skip_space(s, i + 1);
    }
}

proof fn lemma_digits_end(s: Seq<char>, i: int)
    requires
        0 <= i <= s.len(),
    ensures
        i <= digits_end(s, i) <= s.len(),
        forall|j: int| i <= j < digits_end(s, i) ==> is_digit(#[trigger] s[j]),
        digits_end(s, i) < s.len() ==> !is_digit(s[digits_end(s, i)]),
    decreases s.len() - i,
{
    if i < s.len() && is_digit(s[i]) {
        lemma_digits_end(s, i + 1);
    }
}

/// A scanned token lies at or after where scanning began; only the end of
/// input is empty of text, and it stands at the end.
pub proof fn lemma_scan(s: Seq<char>, pos: int)
    requires
        0 <= pos,
        s.len() + 1 < usize::MAX,
    ensures
        scan(s, pos) is Ok ==> {
            let t = scan(s, pos)->Ok_0;
            &&& pos <= s.len() ==> pos <= t.span.start
            &&& t.kind != TokenKind::Eof ==> t.span.start < t.span.end <= s.len()
            &&& t.kind == TokenKind::Eof ==> pos <= s.len() ==> t.span.start == s.len() && t.span.end == s.len()
            &&& t.kind == TokenKind::Int ==> forall|j: int| t.span.start <= j < t.span.end ==> is_digit(#[trigger] s[j])
        },
        scan(s, pos) is Err ==> {
            let sp = scan(s, pos)->Err_0;
            pos <= sp.start && sp.start + 1 == sp.end <= s.len()
        },
{
    lemma_skip_space(s, pos);
    let i = skip_space(s, pos);
    if 0 <= i < s.len() && is_digit(s[i]) {
        lemma_digits_end(s, i);
    }
}

/// Reads tokens one at a time: `current` is the next token to be used and
/// `previous` the one before it; reading goes on from `pos`.
pub struct Lexer {
    src: String,
    chars: Vec<char>,
    pos: usize,
    previous: Token,
    current: Token,
}

impl Lexer {
    /// The text, as characters.
    pub closed spec fn text(&self) -> Seq<char> {
        self.src@
    }

    pub closed spec fn current_token(&self) -> Token {
        self.current
    }

    pub closed spec fn previous_token(&self) -> Token {
        self.previous
    }

    /// Where reading goes on.
    pub closed spec fn position(&self) -> int {
        self.pos as int
    }

    pub closed spec fn wf(&self) -> bool {
        &&& self.chars@ == self.src@
        &&& self.src@.len() + 1 < usize::MAX
        &&& self.pos <= self.src@.len()
    }

    /// Starts reading `src`: an end of input at 0 is the token before the
    /// first, which becomes current.
    pub fn new(src: &str) -> (res: Result<Self, Error>)
        requires
            src@.len() + 1 < usize::MAX,
        ensures
            match next_token(src@, 0, 1) {
                Ok(t) => {
                    &&& res is Ok
                    &&& res->Ok_0.wf()
                    &&& res->Ok_0.text() == src@
                    &&& res->Ok_0.current_token() == t
                    &&& res->Ok_0.previous_token() == eof_at(0)
                    &&& t.kind != TokenKind::Eof ==> res->Ok_0.position() == t.span.end
                },
                Err(sp) => res is Err && res->Err_0.span == sp && res->Err_0.message@ == unexpected(src@, sp)
                    && res->Err_0.src@ == src@,
            },
    {
        let chars = chars_of(src);
        let src = string_of(chars.as_slice());
        let start = Token::eof(0);
        let mut lex = Lexer { src, chars, pos: 0, previous: start, current: start };
        match lex.bump() {
            Ok(()) => Ok(lex),
            Err(e) => Err(e),
        }
    }

    /// Moves on by one token; past the end of the text, the end of input
    /// stands right after the current token.
    pub fn bump(&mut self) -> (res: Result<(), Error>)
        requires
            old(self).wf(),
            old(self).current_token().span.end < usize::MAX,
        ensures
            final(self).wf(),
            final(self).text() == old(self).text(),
            match next_token(old(self).text(), old(self).position(), old(self).current_token().span.end as int) {
                Ok(t) => {
                    &&& res is Ok
                    &&& final(self).current_token() == t
                    &&& final(self).previous_token() == old(self).current_token()
                    &&& t.kind != TokenKind::Eof ==> final(self).position() == t.span.end
                },
                Err(sp) => res is Err && res->Err_0.span == sp && res->Err_0.message@ == unexpected(
                    old(self).text(),
                    sp,
                ) && res->Err_0.src@ == old(self).text(),
            },
    {
        let s = &self.chars;
        let n = s.len();
        let mut i: usize = self.pos;
        proof {
            lemma_skip_space(s@, i as int);
        }
        while i < n && is_space_char(s[i])
            invariant
                n == s@.len(),
                i <= n,
                skip_space(s@, i as int) == skip_space(s@, old(self).pos as int),
            decreases n - i,
        {
            i += 1;
        }
        proof {
            lemma_skip_space(s@, old(self).pos as int);
        }
        let token = if i >= n {
            Token::eof(self.current.span.end)
        } else {
            let c = s[i];
            if c == '+' {
                Token::new(TokenKind::Plus, Span { start: i, end: i + 1 })
            } else if c == '-' {
                Token::new(TokenKind::Minus, Span { start: i, end: i + 1 })
            } else if c == '*' {
                Token::new(TokenKind::Star, Span { start: i, end: i + 1 })
            } else if c == '/' {
                Token::new(TokenKind::Slash, Span { start: i, end: i + 1 })
            } else if c == '(' {
                Token::new(TokenKind::ParenL, Span { start: i, end: i + 1 })
            } else if c == ')' {
                Token::new(TokenKind::ParenR, Span { start: i, end: i + 1 })
            } else if '0' <= c && c <= '9' {
                let mut j: usize = i + 1;
                while j < n && '0' <= s[j] && s[j] <= '9'
                    invariant
                        n == s@.len(),
                        i < j <= n,
                        digits_end(s@, j as int) == digits_end(s@, i as int),
                    decreases n - j,
                {
                    j += 1;
                }
                Token::new(TokenKind::Int, Span { start: i, end: j })
            } else {
                let mut message: Vec<char> = Vec::new();
                push_str(&mut message, "unexpected token `");
                message.push(c);
                push_str(&mut message, "`");
                let span = Span { start: i, end: i + 1 };
                proof {
                    assert(s@.subrange(i as int, i + 1) =~= seq![c]);
                    assert(message@ =~= unexpected(s@, span));
                }
                return Err(Error::new(self.src.clone(), span, string_of(message.as_slice())));
            }
        };
        self.pos = if token.kind == TokenKind::Eof {
            i
        } else {
            token.span.end
        };
        self.previous = self.current;
        self.current = token;
        Ok(())
    }

    /// The value of the digits at `span`, as `decimal` gives it.
    pub fn int_value(&self, span: Span) -> (v: Option<i64>)
        requires
            self.wf(),
            span.start <= span.end <= self.text().len(),
            forall|j: int| span.start <= j < span.end ==> is_digit(#[trigger] self.text()[j]),
        ensures
            v == decimal(self.text().subrange(span.start as int, span.end as int)),
    {
        let s = &self.chars;
        let mut value: i64 = 0;
        let mut too_large = false;
        let mut i: usize = span.start;
        while i < span.end
            invariant
                s@ == self.text(),
                span.start <= i <= span.end <= s@.len(),
                forall|j: int| span.start <= j < span.end ==> is_digit(#[trigger] s@[j]),
                !too_large ==> value == digits_value(s@.subrange(span.start as int, i as int)),
                too_large ==> digits_value(s@.subrange(span.start as int, i as int)) > i64::MAX,
                digits_value(s@.subrange(span.start as int, i as int)) >= 0,
            decreases span.end - i,
        {
            let d = (s[i] as u32 - '0' as u32) as i64;
            proof {
                let t = s@.subrange(span.start as int, i + 1);
                assert(t.drop_last() =~= s@.subrange(span.start as int, i as int));
                assert(t.last() == s@[i as int]);
            }
            if !too_large {
                match value.checked_mul(10) {
                    Some(m) => match m.checked_add(d) {
                        Some(n) => value = n,
                        None => too_large = true,
                    },
                    None => too_large = true,
                }
            }
            i += 1;
        }
        if too_large {
            None
        } else {
            Some(value)
        }
    }

    /// Appends the text at `span` to `out`.
    pub fn push_text(&self, out: &mut Vec<char>, span: Span)
        requires
            self.wf(),
            span.start <= span.end <= self.text().len(),
        ensures
            final(out)@ == old(out)@ + self.text().subrange(span.start as int, span.end as int),
    {
        push_range(out, self.chars.as_slice(), span.start, span.end);
    }

    pub fn previous(&self) -> (t: &Token)
        ensures
            *t == self.previous_token(),
    {
        &self.previous
    }

    pub fn current(&self) -> (t: &Token)
        ensures
            *t == self.current_token(),
    {
        &self.current
    }

    pub fn src(&self) -> (s: &String)
        ensures
            s@ == self.text(),
    {
        &self.src
    }
}

fn is_space_char(c: char) -> (r: bool)
    ensures
        r == is_space(c),
{
    c == ' ' || c == '\t' || c == '\n' || c == '\r' || c == '\x0B' || c == '\x0C'
}

} // verus!
