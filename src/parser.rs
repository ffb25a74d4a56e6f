use vstd::prelude::*;

use crate::error::Error;
use crate::expr::{Binary, BinaryOp, Expr, Unary, UnaryOp};
use crate::lexer::{decimal, is_digit, lemma_scan, next_token, unexpected, Lexer};
use crate::span::Span;
use crate::text::{push_str, string_of};
use crate::token::{kind_name, Token, TokenKind};

verus! {

/// A parse of part of the text: the expression and the token after it, or
/// the span and message of the first error.
pub type Parsed = Result<(Expr, Token), (Span, Seq<char>)>;

/// The token after `cur`, read from where `cur` ends.
pub open spec fn advance(s: Seq<char>, cur: Token) -> Result<Token, (Span, Seq<char>)> {
    match next_token(s, cur.span.end as int, cur.span.end as int) {
        Ok(t) => Ok(t),
        Err(sp) => Err((sp, unexpected(s, sp))),
    }
}

pub open spec fn add_op(kind: TokenKind) -> Option<BinaryOp> {
    match kind {
        TokenKind::Plus => Some(BinaryOp::Add),
        TokenKind::Minus => Some(BinaryOp::Sub),
        _ => None,
    }
}

pub open spec fn mul_op(kind: TokenKind) -> Option<BinaryOp> {
    match kind {
        TokenKind::Star => Some(BinaryOp::Mul),
        TokenKind::Slash => Some(BinaryOp::Div),
        _ => None,
    }
}

pub open spec fn binary(left: Expr, op: BinaryOp, right: Expr) -> Expr {
    Expr::Binary(Box::new(Binary { left, op, right }))
}

/// Where the text does not move forward; scanned tokens always do.
pub open spec fn stuck(cur: Token) -> Parsed {
    Err((cur.span, Seq::empty()))
}

/// expr := term (('+' | '-') term)*, left-associative.
pub open spec fn grammar_expr(s: Seq<char>, cur: Token) -> Parsed
    decreases usize::MAX - cur.span.start, 5nat,
{
    match grammar_term(s, cur) {
        Ok((left, next)) => if next.span.start > cur.span.start {
            grammar_expr_rest(s, left, next)
        } else {
            stuck(cur)
        },
        Err(e) => Err(e),
    }
}

/// The `(('+' | '-') term)*` of `expr`, after `acc`.
pub open spec fn grammar_expr_rest(s: Seq<char>, acc: Expr, cur: Token) -> Parsed
    decreases usize::MAX - cur.span.start, 4nat,
{
    match add_op(cur.kind) {
        None => Ok((acc, cur)),
        Some(op) => match advance(s, cur) {
            Err(e) => Err(e),
            Ok(c1) => if c1.span.start > cur.span.start {
                match grammar_term(s, c1) {
                    Err(e) => Err(e),
                    Ok((right, c2)) => if c2.span.start > cur.span.start {
                        grammar_expr_rest(s, binary(acc, op, right), c2)
                    } else {
                        stuck(cur)
                    },
                }
            } else {
                stuck(cur)
            },
        },
    }
}

/// term := unary (('*' | '/') unary)*, left-associative.
pub open spec fn grammar_term(s: Seq<char>, cur: Token) -> Parsed
    decreases usize::MAX - cur.span.start, 3nat,
{
    match grammar_unary(s, cur) {
        Ok((left, next)) => if next.span.start > cur.span.start {
            grammar_term_rest(s, left, next)
        } else {
            stuck(cur)
        },
        Err(e) => Err(e),
    }
}

/// The `(('*' | '/') unary)*` of `term`, after `acc`.
pub open spec fn grammar_term_rest(s: Seq<char>, acc: Expr, cur: Token) -> Parsed
    decreases usize::MAX - cur.span.start, 3nat,
{
    match mul_op(cur.kind) {
        None => Ok((acc, cur)),
        Some(op) => match advance(s, cur) {
            Err(e) => Err(e),
            Ok(c1) => if c1.span.start > cur.span.start {
                match grammar_unary(s, c1) {
                    Err(e) => Err(e),
                    Ok((right, c2)) => if c2.span.start > cur.span.start {
                        grammar_term_rest(s, binary(acc, op, right), c2)
                    } else {
                        stuck(cur)
                    },
                }
            } else {
                stuck(cur)
            },
        },
    }
}

/// unary := ('+' | '-') unary | primary.
pub open spec fn grammar_unary(s: Seq<char>, cur: Token) -> Parsed
    decreases usize::MAX - cur.span.start, 2nat,
{
    let op = match cur.kind {
        TokenKind::Plus => Some(UnaryOp::Plus),
        TokenKind::Minus => Some(UnaryOp::Minus),
        _ => None,
    };
    match op {
        None => grammar_primary(s, cur),
        Some(op) => match advance(s, cur) {
            Err(e) => Err(e),
            Ok(c1) => if c1.span.start > cur.span.start {
                match grammar_unary(s, c1) {
                    Err(e) => Err(e),
                    Ok((right, c2)) => Ok((Expr::Unary(Box::new(Unary { op, right })), c2)),
                }
            } else {
                stuck(cur)
            },
        },
    }
}

/// primary := integer | '(' expr ')'.
pub open spec fn grammar_primary(s: Seq<char>, cur: Token) -> Parsed
    decreases usize::MAX - cur.span.start, 1nat,
{
    if cur.kind == TokenKind::Int {
        match advance(s, cur) {
            Err(e) => Err(e),
            Ok(c1) => match decimal(s.subrange(cur.span.start as int, cur.span.end as int)) {
                Some(v) => Ok((Expr::Int(v), c1)),
                None => Err((cur.span, "number too large to fit in target type"@)),
            },
        }
    } else if cur.kind == TokenKind::ParenL {
        match advance(s, cur) {
            Err(e) => Err(e),
            Ok(c1) => if c1.span.start > cur.span.start {
                match grammar_expr(s, c1) {
                    Err(e) => Err(e),
                    Ok((inner, c2)) => if c2.kind == TokenKind::ParenR {
                        match advance(s, c2) {
                            Err(e) => Err(e),
                            Ok(c3) => Ok((inner, c3)),
                        }
                    } else {
                        Err((c2.span, expected(TokenKind::ParenR, c2.kind)))
                    },
                }
            } else {
                stuck(cur)
            },
        }
    } else {
        Err((cur.span, "unexpected eof"@))
    }
}

pub open spec fn expected(want: TokenKind, got: TokenKind) -> Seq<char> {
    "expected `"@ + kind_name(want) + "` got `"@ + kind_name(got) + "` instead"@
}

/// The expression that the whole text `s` spells, or the first error.
/// Reading starts after an end of input at 0, so a text with no token has
/// its end of input at 1.
pub open spec fn grammar(s: Seq<char>) -> Result<Expr, (Span, Seq<char>)> {
    match next_token(s, 0, 1) {
        Err(sp) => Err((sp, unexpected(s, sp))),
        Ok(first) => match grammar_expr(s, first) {
            Err(e) => Err(e),
            Ok((e, last)) => if last.kind == TokenKind::Eof {
                Ok(e)
            } else {
                Err((last.span, unexpected(s, last.span)))
            },
        },
    }
}

/// A token as `scan` makes them.
pub open spec fn token_ok(s: Seq<char>, t: Token) -> bool {
    &&& t.kind != TokenKind::Eof ==> t.span.start < t.span.end <= s.len()
    &&& t.kind == TokenKind::Eof ==> t.span.start <= s.len() + 1 && t.span.end == t.span.start + 1
    &&& t.kind == TokenKind::Int ==> forall|j: int| t.span.start <= j < t.span.end ==> is_digit(#[trigger] s[j])
}

/// Whether a parse error carries this span and message about this text.
pub open spec fn error_is(e: Error, s: Seq<char>, fault: (Span, Seq<char>)) -> bool {
    e.src@ == s && e.span == fault.0 && e.message@ == fault.1
}

/// Whether the result of a parsing function, and the parser after it,
/// match the grammar's parse.
pub open spec fn parsed_as(res: Result<Expr, Error>, p: Parser, s: Seq<char>, spec: Parsed) -> bool {
    match spec {
        Ok((e, next)) => res == Ok::<Expr, Error>(e) && p.current_token() == next,
        Err(fault) => res is Err && error_is(res->Err_0, s, fault),
    }
}

pub struct Parser {
    lex: Lexer,
}

impl Parser {
    pub closed spec fn text(&self) -> Seq<char> {
        self.lex.text()
    }

    pub closed spec fn current_token(&self) -> Token {
        self.lex.current_token()
    }

    pub closed spec fn previous_token(&self) -> Token {
        self.lex.previous_token()
    }

    pub closed spec fn wf(&self) -> bool {
        &&& self.lex.wf()
        &&& self.text().len() + 1 < usize::MAX
        &&& token_ok(self.text(), self.current_token())
        &&& self.current_token().kind != TokenKind::Eof ==> self.lex.position() == self.current_token().span.end
    }

    fn new(src: &str) -> (res: Result<Self, Error>)
        requires
            src@.len() + 1 < usize::MAX,
        ensures
            match next_token(src@, 0, 1) {
                Ok(t) => res is Ok && res->Ok_0.wf() && res->Ok_0.text() == src@ && res->Ok_0.current_token() == t,
                Err(sp) => res is Err && error_is(res->Err_0, src@, (sp, unexpected(src@, sp))),
            },
    {
        proof {
            lemma_scan(src@, 0);
        }
        match Lexer::new(src) {
            Ok(lex) => Ok(Self { lex }),
            Err(e) => Err(e),
        }
    }

    fn at(&self, kind: TokenKind) -> (r: bool)
        ensures
            r == (self.current_token().kind == kind),
    {
        self.lex.current().is(kind)
    }

    /// Moves past the current token, which is not the end of input.
    fn bump(&mut self) -> (res: Result<(), Error>)
        requires
            old(self).wf(),
            old(self).current_token().kind != TokenKind::Eof,
        ensures
            final(self).text() == old(self).text(),
            match advance(old(self).text(), old(self).current_token()) {
                Ok(t) => {
                    &&& res is Ok
                    &&& final(self).wf()
                    &&& final(self).current_token() == t
                    &&& final(self).previous_token() == old(self).current_token()
                    &&& t.span.start > old(self).current_token().span.start
                },
                Err(fault) => res is Err && error_is(res->Err_0, old(self).text(), fault),
            },
    {
        proof {
            lemma_scan(self.text(), self.current_token().span.end as int);
        }
        self.lex.bump()
    }

    /// Moves past the current token where it is of this kind.
    fn eat(&mut self, kind: TokenKind) -> (res: Result<bool, Error>)
        requires
            old(self).wf(),
            kind != TokenKind::Eof,
        ensures
            final(self).text() == old(self).text(),
            old(self).current_token().kind != kind ==> res == Ok::<bool, Error>(false) && *final(self) == *old(
                self,
            ),
            old(self).current_token().kind == kind ==> match advance(old(self).text(), old(self).current_token()) {
                Ok(t) => {
                    &&& res == Ok::<bool, Error>(true)
                    &&& final(self).wf()
                    &&& final(self).current_token() == t
                    &&& final(self).previous_token() == old(self).current_token()
                    &&& t.span.start > old(self).current_token().span.start
                },
                Err(fault) => res is Err && error_is(res->Err_0, old(self).text(), fault),
            },
    {
        if self.at(kind) {
            match self.bump() {
                Ok(()) => Ok(true),
                Err(e) => Err(e),
            }
        } else {
            Ok(false)
        }
    }

    /// Moves past the current token, which must be of this kind.
    fn must(&mut self, kind: TokenKind) -> (res: Result<(), Error>)
        requires
            old(self).wf(),
            kind != TokenKind::Eof,
        ensures
            final(self).text() == old(self).text(),
            old(self).current_token().kind != kind ==> res is Err && error_is(
                res->Err_0,
                old(self).text(),
                (old(self).current_token().span, expected(kind, old(self).current_token().kind)),
            ) && *final(self) == *old(self),
            old(self).current_token().kind == kind ==> match advance(old(self).text(), old(self).current_token()) {
                Ok(t) => {
                    &&& res is Ok
                    &&& final(self).wf()
                    &&& final(self).current_token() == t
                    &&& final(self).previous_token() == old(self).current_token()
                    &&& t.span.start > old(self).current_token().span.start
                },
                Err(fault) => res is Err && error_is(res->Err_0, old(self).text(), fault),
            },
    {
        if !self.at(kind) {
            let mut message: Vec<char> = Vec::new();
            push_str(&mut message, "expected `");
            push_str(&mut message, kind.as_str());
            push_str(&mut message, "` got `");
            push_str(&mut message, self.lex.current().kind.as_str());
            push_str(&mut message, "` instead");
            proof {
                assert(message@ =~= expected(kind, self.current_token().kind));
            }
            return Err(Error::new(self.src(), self.lex.current().span, string_of(message.as_slice())));
        }
        self.bump()
    }

    fn end(&self) -> (r: bool)
        ensures
            r == (self.current_token().kind == TokenKind::Eof),
    {
        self.at(TokenKind::Eof)
    }

    fn previous(&self) -> (t: &Token)
        ensures
            *t == self.previous_token(),
    {
        self.lex.previous()
    }

    fn current(&self) -> (t: &Token)
        ensures
            *t == self.current_token(),
    {
        self.lex.current()
    }

    /// A copy of the text, for an error.
    fn src(&self) -> (s: String)
        ensures
            s@ == self.text(),
    {
        self.lex.src().clone()
    }
}

/// Parses `src` as an arithmetic expression: integers, `+ - * /` (`*` and
/// `/` binding tighter, all left-associative), unary `+` and `-`, and
/// parentheses, separated by any white space. On failure the error holds
/// the span and message of the first fault, in reading order.
pub fn parse(src: &str) -> (res: Result<Expr, Error>)
    requires
        src@.len() + 1 < usize::MAX,
    ensures
        match grammar(src@) {
            Ok(e) => res == Ok::<Expr, Error>(e),
            Err(fault) => res is Err && error_is(res->Err_0, src@, fault),
        },
{
    let mut p = match Parser::new(src) {
        Ok(p) => p,
        Err(e) => return Err(e),
    };
    let expr = match parse_expr(&mut p) {
        Ok(e) => e,
        Err(e) => return Err(e),
    };
    if !p.end() {
        let mut message: Vec<char> = Vec::new();
        push_str(&mut message, "unexpected token `");
        let span = p.current().span;
        p.lex.push_text(&mut message, span);
        push_str(&mut message, "`");
        proof {
            assert(message@ =~= unexpected(src@, span));
        }
        return Err(Error::new(p.src(), span, string_of(message.as_slice())));
    }
    Ok(expr)
}

fn parse_expr(p: &mut Parser) -> (res: Result<Expr, Error>)
    requires
        old(p).wf(),
    ensures
        final(p).text() == old(p).text(),
        parsed_as(res, *final(p), old(p).text(), grammar_expr(old(p).text(), old(p).current_token())),
        res is Ok ==> final(p).wf() && final(p).current_token().span.start > old(p).current_token().span.start,
    decreases usize::MAX - old(p).current_token().span.start, 5nat,
{
    parse_add_or_sub(p)
}

fn parse_add_or_sub(p: &mut Parser) -> (res: Result<Expr, Error>)
    requires
        old(p).wf(),
    ensures
        final(p).text() == old(p).text(),
        parsed_as(res, *final(p), old(p).text(), grammar_expr(old(p).text(), old(p).current_token())),
        res is Ok ==> final(p).wf() && final(p).current_token().span.start > old(p).current_token().span.start,
    decreases usize::MAX - old(p).current_token().span.start, 4nat,
{
    let ghost s = p.text();
    let ghost first = p.current_token();
    let mut left = match parse_mul_or_div(p) {
        Ok(e) => e,
        Err(e) => return Err(e),
    };
    let ghost target = grammar_expr_rest(s, left, p.current_token());
    loop
        invariant
            s == old(p).text(),
            first == old(p).current_token(),
            p.wf(),
            p.text() == s,
            p.current_token().span.start > first.span.start,
            grammar_expr(s, first) == target,
            grammar_expr_rest(s, left, p.current_token()) == target,
        decreases usize::MAX - p.current_token().span.start,
    {
        let op = match p.current().kind {
            TokenKind::Plus => BinaryOp::Add,
            TokenKind::Minus => BinaryOp::Sub,
            _ => return Ok(left),
        };
        match p.bump() {
            Ok(()) => {},
            Err(e) => return Err(e),
        }
        let right = match parse_mul_or_div(p) {
            Ok(e) => e,
            Err(e) => return Err(e),
        };
        left = Expr::Binary(Box::new(Binary { left, op, right }));
    }
}

fn parse_mul_or_div(p: &mut Parser) -> (res: Result<Expr, Error>)
    requires
        old(p).wf(),
    ensures
        final(p).text() == old(p).text(),
        parsed_as(res, *final(p), old(p).text(), grammar_term(old(p).text(), old(p).current_token())),
        res is Ok ==> final(p).wf() && final(p).current_token().span.start > old(p).current_token().span.start,
    decreases usize::MAX - old(p).current_token().span.start, 3nat,
{
    let ghost s = p.text();
    let ghost first = p.current_token();
    let mut left = match parse_unary(p) {
        Ok(e) => e,
        Err(e) => return Err(e),
    };
    let ghost target = grammar_term_rest(s, left, p.current_token());
    loop
        invariant
            s == old(p).text(),
            first == old(p).current_token(),
            p.wf(),
            p.text() == s,
            p.current_token().span.start > first.span.start,
            grammar_term(s, first) == target,
            grammar_term_rest(s, left, p.current_token()) == target,
        decreases usize::MAX - p.current_token().span.start,
    {
        let op = match p.current().kind {
            TokenKind::Star => BinaryOp::Mul,
            TokenKind::Slash => BinaryOp::Div,
            _ => return Ok(left),
        };
        match p.bump() {
            Ok(()) => {},
            Err(e) => return Err(e),
        }
        let right = match parse_unary(p) {
            Ok(e) => e,
            Err(e) => return Err(e),
        };
        left = Expr::Binary(Box::new(Binary { left, op, right }));
    }
}

fn parse_unary(p: &mut Parser) -> (res: Result<Expr, Error>)
    requires
        old(p).wf(),
    ensures
        final(p).text() == old(p).text(),
        parsed_as(res, *final(p), old(p).text(), grammar_unary(old(p).text(), old(p).current_token())),
        res is Ok ==> final(p).wf() && final(p).current_token().span.start > old(p).current_token().span.start,
    decreases usize::MAX - old(p).current_token().span.start, 2nat,
{
    let op = match p.current().kind {
        TokenKind::Plus => UnaryOp::Plus,
        TokenKind::Minus => UnaryOp::Minus,
        _ => return parse_primary(p),
    };
    match p.bump() {
        Ok(()) => {},
        Err(e) => return Err(e),
    }
    let right = match parse_unary(p) {
        Ok(e) => e,
        Err(e) => return Err(e),
    };
    Ok(Expr::Unary(Box::new(Unary { op, right })))
}

fn parse_primary(p: &mut Parser) -> (res: Result<Expr, Error>)
    requires
        old(p).wf(),
    ensures
        final(p).text() == old(p).text(),
        parsed_as(res, *final(p), old(p).text(), grammar_primary(old(p).text(), old(p).current_token())),
        res is Ok ==> final(p).wf() && final(p).current_token().span.start > old(p).current_token().span.start,
    decreases usize::MAX - old(p).current_token().span.start, 1nat,
{
    let ghost s = p.text();
    match p.eat(TokenKind::Int) {
        Ok(true) => {
            let token = *p.previous();
            return match p.lex.int_value(token.span) {
                Some(value) => Ok(Expr::Int(value)),
                None => {
                    let mut message: Vec<char> = Vec::new();
                    push_str(&mut message, "number too large to fit in target type");
                    Err(Error::new(p.src(), token.span, string_of(message.as_slice())))
                },
            };
        },
        Ok(false) => {},
        Err(e) => return Err(e),
    }
    match p.eat(TokenKind::ParenL) {
        Ok(true) => {
            let value = match parse_expr(p) {
                Ok(e) => e,
                Err(e) => return Err(e),
            };
            return match p.must(TokenKind::ParenR) {
                Ok(()) => Ok(value),
                Err(e) => Err(e),
            };
        },
        Ok(false) => {},
        Err(e) => return Err(e),
    }
    let mut message: Vec<char> = Vec::new();
    push_str(&mut message, "unexpected eof");
    Err(Error::new(p.src(), p.current().span, string_of(message.as_slice())))
}

} // verus!
