use vstd::prelude::*;

use crate::span::Span;
use crate::text::{chars_of, push_range, push_str, string_of};

verus! {

/// Why the source text could not be parsed: a message about the text at
/// `span` in `src`.
#[derive(Debug)]
pub struct Error {
    pub src: String,
    pub span: Span,
    pub message: String,
}

/// Where the line holding position `at` starts: just after the last line
/// break before `at`, or at 0.
pub open spec fn line_start(s: Seq<char>, at: int) -> int
    decreases at,
{
    if at <= 0 {
        0
    } else if s[at - 1] == '\n' {
        at
    } else {
        line_start(s, at - 1)
    }
}

/// Where the line holding position `at` ends: at the first line break from
/// `at` on, or at the end of the text.
pub open spec fn line_end(s: Seq<char>, at: int) -> int
    decreases s.len() - at,
{
    if at >= s.len() {
        s.len() as int
    } else if s[at] == '\n' {
        at
    } else {
        line_end(s, at + 1)
    }
}

/// `n` copies of `c`.
pub open spec fn repeat(c: char, n: nat) -> Seq<char> {
    Seq::new(n, |_i: int| c)
}

/// The report of an error: the message alone for an empty span; else the
/// message, the line of the text where the span starts, and under it a run
/// of carets that marks the span up to that line's end (at least one).
pub open spec fn report_text(src: Seq<char>, span: Span, message: Seq<char>) -> Seq<char> {
    if span.start == span.end {
        message
    } else {
        let start = span.start as int;
        let ls = line_start(src, start);
        let le = line_end(src, start);
        let len = if span.end > le {
            le - start
        } else {
            span.end - start
        };
        let carets = if len >= 1 {
            len as nat
        } else {
            1
        };
        message + ":\n  "@ + src.subrange(ls, le) + "\n  "@ + repeat(' ', (start - ls) as nat) + repeat(
            '^',
            carets,
        ) + "\n"@
    }
}

proof fn lemma_line_start(s: Seq<char>, at: int)
    requires
        0 <= at <= s.len(),
    ensures
        0 <= line_start(s, at) <= at,
    decreases at,
{
    if at > 0 && s[at - 1] != '\n' {
        lemma_line_start(s, at - 1);
    }
}

proof fn lemma_line_end(s: Seq<char>, at: int)
    requires
        0 <= at <= s.len(),
    ensures
        at <= line_end(s, at) <= s.len(),
    decreases s.len() - at,
{
    if at < s.len() && s[at] != '\n' {
        lemma_line_end(s, at + 1);
    }
}

/// Appends `n` copies of `c` to `out`.
fn push_repeat(out: &mut Vec<char>, c: char, n: usize)
    ensures
        final(out)@ == old(out)@ + repeat(c, n as nat),
{
    let mut i: usize = 0;
    while i < n
        invariant
            i <= n,
            out@ == old(out)@ + repeat(c, i as nat),
        decreases n - i,
    {
        out.push(c);
        i += 1;
        proof {
            assert(repeat(c, i as nat) =~= repeat(c, (i - 1) as nat).push(c));
        }
    }
}

impl Error {
    pub fn new(src: String, span: Span, message: String) -> (e: Self)
        ensures
            e.src == src,
            e.span == span,
            e.message == message,
    {
        Error { src, span, message }
    }

    /// The message, and where the span is not empty, the line of the text
    /// it starts on with the span marked under it.
    pub fn report(&self) -> (r: String)
        requires
            self.span.start == self.span.end || (self.span.start < self.span.end && self.span.start
                <= self.src@.len()),
        ensures
            r@ == report_text(self.src@, self.span, self.message@),
    {
        let span = self.span;
        if span.start == span.end {
            return self.message.clone();
        }
        let src = chars_of(self.src.as_str());
        let ghost s = src@;
        proof {
            lemma_line_start(s, span.start as int);
            lemma_line_end(s, span.start as int);
        }
        let mut line_start: usize = span.start;
        while line_start > 0 && src[line_start - 1] != '\n'
            invariant
                s == src@,
                line_start <= span.start <= s.len(),
                crate::error::line_start(s, line_start as int) == crate::error::line_start(s, span.start as int),
            decreases line_start,
        {
            line_start -= 1;
        }
        let mut line_end: usize = span.start;
        while line_end < src.len() && src[line_end] != '\n'
            invariant
                s == src@,
                span.start <= line_end <= s.len(),
                crate::error::line_end(s, line_end as int) == crate::error::line_end(s, span.start as int),
            decreases s.len() - line_end,
        {
            line_end += 1;
        }
        let cursor_pos = span.start - line_start;
        let cursor_len = if span.end > line_end {
            line_end - span.start
        } else {
            span.end - span.start
        };
        let mut out: Vec<char> = Vec::new();
        push_str(&mut out, self.message.as_str());
        push_str(&mut out, ":\n  ");
        push_range(&mut out, src.as_slice(), line_start, line_end);
        push_str(&mut out, "\n  ");
        push_repeat(&mut out, ' ', cursor_pos);
        push_repeat(&mut out, '^', if cursor_len >= 1 { cursor_len } else { 1 });
        push_str(&mut out, "\n");
        proof {
            assert(out@ =~= report_text(s, span, self.message@));
        }
        string_of(out.as_slice())
    }
}

/// Why an evaluation failed.
#[derive(Clone, Copy, Debug, PartialEq, Eq, Structural)]
pub enum EvalError {
    /// Division by zero, or a result outside the range of `i64`.
    Arithmetic,
    /// The bytecode touched a slot or a pool entry that does not exist, or did
    /// not leave exactly one value: it was not produced by the paired compiler.
    InternalInvariant,
}

} // verus!
