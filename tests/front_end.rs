use calc::error::Error;
use calc::lexer::Lexer;
use calc::expr::Expr;
use calc::folder::fold;
use calc::parser::parse;
use calc::span::Span;
use calc::token::{Token, TokenKind};
use calc::{alloc_exact_stack, compiler, register, stack, unsafe_register, unsafe_stack, vm};
use calc::error::EvalError;

fn parsed(src: &str) -> Expr {
    match parse(src) {
        Ok(e) => e,
        Err(e) => panic!("{}", e.report()),
    }
}

fn parse_error(src: &str) -> Error {
    match parse(src) {
        Ok(e) => panic!("parsed {e:?}"),
        Err(e) => e,
    }
}

/// The result of every backend, checked ones first.
fn every_backend(src: &str) -> Vec<Result<i64, EvalError>> {
    let e = parsed(src);
    let mut out = vec![fold(&e), vm::eval(&compiler::compile(&e))];
    let (ops, pool) = stack::compiler::compile(&e);
    out.push(stack::vm::eval(&ops, &pool));
    let (rops, rpool, size) = unsafe_register::compiler::compile(&e);
    out.push(register::vm::eval(&rops, &rpool, size));
    out.push(unsafe_stack::vm::eval(&ops, &pool));
    let (aops, apool, asize) = alloc_exact_stack::compiler::compile(&e);
    out.push(alloc_exact_stack::vm::eval(&aops, &apool, asize));
    out.push(unsafe_register::vm::eval(&rops, &rpool, size));
    out
}

fn assert_every_backend(src: &str, expected: Result<i64, EvalError>) {
    for (i, r) in every_backend(src).into_iter().enumerate() {
        assert_eq!(r, expected, "{src}: backend {i}");
    }
}

#[test]
fn non_commutative_operators_end_to_end() {
    assert_every_backend("10 - 3", Ok(7));
    assert_every_backend("20 / 4", Ok(5));
}

#[test]
fn unary_chains_end_to_end() {
    assert_every_backend("- - - 5", Ok(-5));
    assert_every_backend("+5", Ok(5));
    assert_eq!(compiler::compile(&parsed("+5")).len(), 1);
}

#[test]
fn precedence_and_associativity_end_to_end() {
    assert_every_backend("2 + 3 * 4", Ok(14));
    assert_every_backend("(2 + 3) * 4", Ok(20));
    assert_every_backend("10 - 2 - 3", Ok(5));
    assert_every_backend("100 / 10 / 5", Ok(2));
    assert_every_backend("2 * 3 + 4 * 5", Ok(26));
    assert_every_backend("-2 * -3", Ok(6));
}

#[test]
fn division_by_zero_end_to_end() {
    assert_every_backend("5 / 0", Err(EvalError::Arithmetic));
}

#[test]
fn large_literals_end_to_end() {
    assert_every_backend("32767 + 32768", Ok(65535));
    assert_every_backend("9223372036854775807", Ok(i64::MAX));
    let (_, pool) = stack::compiler::compile(&parsed("40000 * 40000"));
    assert_eq!(pool, vec![40000, 40000]);
}

#[test]
fn white_space_is_skipped() {
    assert_every_backend(" \t1\n+\r\n2 ", Ok(3));
}

#[test]
fn unknown_character_is_reported() {
    let e = parse_error("1 + $");
    assert_eq!(e.span, Span { start: 4, end: 5 });
    assert_eq!(e.message, "unexpected token `$`");
    assert_eq!(e.report(), "unexpected token `$`:\n  1 + $\n      ^\n");
}

#[test]
fn missing_parenthesis_is_reported() {
    let e = parse_error("(1 + 2");
    assert_eq!(e.message, "expected `)` got `eof` instead");
    assert_eq!(e.span, Span { start: 6, end: 7 });
    let e = parse_error("(1 2");
    assert_eq!(e.message, "expected `)` got `int` instead");
    assert_eq!(e.span, Span { start: 3, end: 4 });
}

#[test]
fn trailing_token_is_reported() {
    let e = parse_error("1 2");
    assert_eq!(e.message, "unexpected token `2`");
    assert_eq!(e.span, Span { start: 2, end: 3 });
    assert_eq!(e.report(), "unexpected token `2`:\n  1 2\n    ^\n");
    // The later unknown character is never reached.
    assert_eq!(parse_error("1 2 $").message, "unexpected token `2`");
}

#[test]
fn missing_operand_is_reported() {
    let e = parse_error("");
    assert_eq!(e.message, "unexpected eof");
    assert_eq!(e.span, Span { start: 1, end: 2 });
    let e = parse_error("   ");
    assert_eq!(e.span, Span { start: 1, end: 2 });
    // The end of input stands right after the last token, not after the
    // trailing white space.
    let e = parse_error("1 +  ");
    assert_eq!(e.message, "unexpected eof");
    assert_eq!(e.span, Span { start: 3, end: 4 });
    assert_eq!(e.report(), "unexpected eof:\n  1 +  \n     ^\n");
    assert_eq!(parse_error("1 +").message, "unexpected eof");
    assert_eq!(parse_error("*").message, "unexpected eof");
}

#[test]
fn number_too_large_is_reported() {
    let e = parse_error("9223372036854775808");
    assert_eq!(e.message, "number too large to fit in target type");
    assert_eq!(e.span, Span { start: 0, end: 19 });
}

#[test]
fn report_marks_the_span_on_its_line() {
    let e = Error::new("a\nbc + 12\nd".to_string(), Span { start: 7, end: 9 }, "oops".to_string());
    assert_eq!(e.report(), "oops:\n  bc + 12\n       ^^\n");
    let e = Error::new("abc\ndef".to_string(), Span { start: 1, end: 6 }, "long".to_string());
    assert_eq!(e.report(), "long:\n  abc\n   ^^\n");
    let e = Error::new("abc".to_string(), Span { start: 1, end: 1 }, "empty".to_string());
    assert_eq!(e.report(), "empty");
    let e = Error::new("ab".to_string(), Span { start: 9, end: 9 }, "beyond".to_string());
    assert_eq!(e.report(), "beyond");
}

#[test]
fn tokens() {
    let span = Span { start: 2, end: 3 };
    let t = Token::new(TokenKind::Plus, span);
    assert!(t.is(TokenKind::Plus));
    assert!(!t.is(TokenKind::Minus));
    assert_eq!(t.span, span);
    let eof = Token::eof(7);
    assert_eq!(eof.kind, TokenKind::Eof);
    assert_eq!(eof.span, Span { start: 7, end: 8 });
    assert_eq!(TokenKind::Plus.as_str(), "+");
    assert_eq!(TokenKind::Slash.as_str(), "/");
    assert_eq!(TokenKind::ParenR.as_str(), ")");
    assert_eq!(TokenKind::Int.as_str(), "int");
    assert_eq!(TokenKind::Eof.as_str(), "eof");
}

#[test]
fn lexer_places_end_of_input_after_the_last_token() {
    let lex = match Lexer::new("") {
        Ok(lex) => lex,
        Err(e) => panic!("{}", e.message),
    };
    assert_eq!(*lex.previous(), Token::eof(0));
    assert_eq!(*lex.current(), Token::eof(1));

    let mut lex = match Lexer::new("12 ") {
        Ok(lex) => lex,
        Err(e) => panic!("{}", e.message),
    };
    assert_eq!(*lex.previous(), Token::eof(0));
    assert_eq!(*lex.current(), Token::new(TokenKind::Int, Span { start: 0, end: 2 }));
    assert!(lex.bump().is_ok());
    assert_eq!(*lex.previous(), Token::new(TokenKind::Int, Span { start: 0, end: 2 }));
    assert_eq!(*lex.current(), Token::eof(2));

    match Lexer::new(" ?") {
        Ok(_) => panic!("lexed"),
        Err(e) => {
            assert_eq!(e.span, Span { start: 1, end: 2 });
            assert_eq!(e.message, "unexpected token `?`");
        }
    }
}
