#![allow(dead_code, unused_imports)]
use sulk_parse::ast::Path;
use sulk_parse::diagnostics::{Diag, DiagCtxt, Level};
use sulk_parse::expected::{candidate_texts, insert_sorted, ExpectedToken};
use sulk_parse::seq::{SepRecovery, SeqSep, SeqSlot};
use sulk_parse::source_map::SourceMap;
use sulk_parse::span::Span;
use sulk_parse::symbol::{Ident, Symbol, SymbolClass, SymbolTable};
use sulk_parse::token::{BinOpToken, Delimiter, Token, TokenKind, TokenLitKind};
use sulk_parse::{PResult, ParseSess, Parser};


fn reserved() -> SymbolClass {
    SymbolClass { reserved: true, yul_reserved: false, elementary_type: false }
}

/// Splits `src` at blanks into tokens whose spans are their byte ranges.
fn lex(src: &str, symbols: &mut SymbolTable) -> Vec<Token> {
    let mut tokens = Vec::new();
    let bytes = src.as_bytes();
    let mut i = 0;
    while i < bytes.len() {
        if bytes[i] == b' ' || bytes[i] == b'\n' {
            i += 1;
            continue;
        }
        let start = i;
        let kind = match bytes[i] {
            b'(' => TokenKind::OpenDelim(Delimiter::Parenthesis),
            b')' => TokenKind::CloseDelim(Delimiter::Parenthesis),
            b'{' => TokenKind::OpenDelim(Delimiter::Brace),
            b'}' => TokenKind::CloseDelim(Delimiter::Brace),
            b'[' => TokenKind::OpenDelim(Delimiter::Bracket),
            b']' => TokenKind::CloseDelim(Delimiter::Bracket),
            b',' => TokenKind::Comma,
            b'.' => TokenKind::Dot,
            b';' => TokenKind::Semi,
            b':' => TokenKind::Colon,
            b'=' => TokenKind::Eq,
            b'+' => TokenKind::BinOp(BinOpToken::Plus),
            _ => {
                while i < bytes.len() && (bytes[i].is_ascii_alphanumeric() || bytes[i] == b'_') {
                    i += 1;
                }
                assert!(i > start, "unknown character in test input");
                let word = &src[start..i];
                i -= 1;
                if bytes[start].is_ascii_digit() {
                    TokenKind::Literal(TokenLitKind::Integer, symbols.intern(word, SymbolClass::plain()))
                } else {
                    TokenKind::Ident(symbols.intern(word, SymbolClass::plain()))
                }
            }
        };
        i += 1;
        tokens.push(Token::new(kind, Span::new(start as u32, i as u32)));
    }
    tokens
}

/// A session for `src` and the tokens of `src`; `keywords` are reserved.
fn setup(src: &str, keywords: &[&str]) -> (ParseSess, Vec<Token>) {
    let mut symbols = SymbolTable::new();
    for kw in keywords {
        symbols.intern(kw, reserved());
    }
    let tokens = lex(src, &mut symbols);
    (ParseSess::new(symbols, SourceMap::from_bytes(src.as_bytes())), tokens)
}

fn ident_text(p: &mut Parser<'_>) -> PResult<String> {
    let ident = p.parse_ident()?;
    Ok(p.sess.symbols.text(ident.name).to_string())
}

fn labels(diag: &Diag) -> Vec<(Span, String)> {
    diag.labels.iter().map(|l| (l.span, l.label.clone())).collect()
}

fn children(diag: &Diag) -> Vec<(Level, Span, String)> {
    diag.children.iter().map(|c| (c.level, c.span, c.message.clone())).collect()
}

fn messages(parser: &Parser<'_>) -> Vec<String> {
    parser.dcx().emitted().iter().map(|d| d.message.clone()).collect()
}

const CLOSE_PAREN: TokenKind = TokenKind::CloseDelim(Delimiter::Parenthesis);
const CLOSE_BRACE: TokenKind = TokenKind::CloseDelim(Delimiter::Brace);

/// Parses an identifier without recovery; a failure carries a hint.
fn strict_ident(p: &mut Parser<'_>) -> PResult<String> {
    match p.parse_ident_common(false) {
        Ok(ident) => Ok(p.sess.symbols.text(ident.name).to_string()),
        Err(e) => Err(e.span_help(Span::new(70, 71), "write a name here".to_string())),
    }
}

#[test]
fn seq_sep_policies() {
    let t = TokenKind::Comma;
    assert_eq!(
        SeqSep::trailing_enforced(t),
        SeqSep { sep: Some(t), trailing_sep_allowed: true, trailing_sep_required: true }
    );
    assert_eq!(
        SeqSep::trailing_allowed(t),
        SeqSep { sep: Some(t), trailing_sep_allowed: true, trailing_sep_required: false }
    );
    assert_eq!(
        SeqSep::trailing_disallowed(t),
        SeqSep { sep: Some(t), trailing_sep_allowed: false, trailing_sep_required: false }
    );
    assert_eq!(
        SeqSep::none(),
        SeqSep { sep: None, trailing_sep_allowed: false, trailing_sep_required: false }
    );
}

#[test]
fn paren_comma_seq_round_trip() {
    let (sess, tokens) = setup("(x, y, z)", &[]);
    let mut parser = Parser::new(&sess, tokens);
    let (items, trailing) = parser.parse_paren_comma_seq(ident_text).ok().unwrap();
    assert_eq!(items, vec!["x", "y", "z"]);
    assert!(!trailing);
    assert!(parser.token.is_eof());
    assert_eq!(parser.dcx().err_count(), 0);
}

#[test]
fn empty_sequence() {
    let (sess, tokens) = setup("() x", &[]);
    let mut parser = Parser::new(&sess, tokens.clone());
    let (items, trailing) = parser.parse_paren_comma_seq(ident_text).ok().unwrap();
    assert!(items.is_empty());
    assert!(!trailing);
    assert_eq!(parser.token, tokens[2]);
}

#[test]
fn trailing_separator_allowed() {
    let (sess, tokens) = setup("(x, y,)", &[]);
    let mut parser = Parser::new(&sess, tokens);
    let (items, trailing) = parser
        .parse_delim_seq(Delimiter::Parenthesis, SeqSep::trailing_allowed(TokenKind::Comma), ident_text)
        .ok()
        .unwrap();
    assert_eq!(items, vec!["x", "y"]);
    assert!(trailing);
    assert!(parser.token.is_eof());
    assert_eq!(parser.dcx().err_count(), 0);
}

#[test]
fn trailing_separator_allowed_but_absent() {
    let (sess, tokens) = setup("(x, y)", &[]);
    let mut parser = Parser::new(&sess, tokens);
    let (items, trailing) = parser
        .parse_delim_seq(Delimiter::Parenthesis, SeqSep::trailing_allowed(TokenKind::Comma), ident_text)
        .ok()
        .unwrap();
    assert_eq!(items, vec!["x", "y"]);
    assert!(!trailing);
}

#[test]
fn trailing_separator_disallowed_is_a_hard_failure() {
    let (sess, tokens) = setup("(x, y,)", &[]);
    let mut parser = Parser::new(&sess, tokens.clone());
    let err = parser.parse_paren_comma_seq(ident_text).unwrap_err();
    assert_eq!(err.message, "expected identifier, found `)`");
    assert_eq!(err.span, Span::new(6, 7));
    assert_eq!(parser.prev_token, tokens[4]);
    assert_eq!(parser.dcx().err_count(), 0);
}

#[test]
fn missing_separator_is_recovered() {
    let (sess, tokens) = setup("(x y)", &[]);
    let mut parser = Parser::new(&sess, tokens);
    let (items, trailing) = parser.parse_paren_comma_seq(ident_text).ok().unwrap();
    assert_eq!(items, vec!["x", "y"]);
    assert!(!trailing);
    assert!(parser.token.is_eof());
    assert_eq!(messages(&parser), vec!["expected one of `)` or `,`, found `y`"]);
    let diag = &parser.dcx().emitted()[0];
    assert_eq!(diag.span, Span::new(3, 4));
    assert_eq!(labels(diag), vec![(Span::new(3, 4), "expected one of `)` or `,`".to_string())]);
    assert_eq!(children(diag), vec![(Level::Help, Span::new(2, 2), "missing `,`".to_string())]);
}

#[test]
fn several_missing_separators_are_each_reported() {
    let (sess, tokens) = setup("(a b, c d)", &[]);
    let mut parser = Parser::new(&sess, tokens);
    let (items, _) = parser.parse_paren_comma_seq(ident_text).ok().unwrap();
    assert_eq!(items, vec!["a", "b", "c", "d"]);
    assert_eq!(
        messages(&parser),
        vec![
            "expected one of `)` or `,`, found `b`",
            "expected one of `)` or `,`, found `d`"
        ]
    );
}

#[test]
fn required_separator_cannot_be_left_out() {
    let (sess, tokens) = setup("{x; y z; }", &[]);
    let mut parser = Parser::new(&sess, tokens.clone());
    let err = parser
        .parse_delim_seq(Delimiter::Brace, SeqSep::trailing_enforced(TokenKind::Semi), ident_text)
        .unwrap_err();
    assert_eq!(err.message, "expected one of `;` or `}`, found `z`");
    assert!(err.children.is_empty());
    assert_eq!(parser.token, tokens[4]);
    assert_eq!(parser.dcx().err_count(), 0);
}

#[test]
fn required_separator_behind_every_element() {
    let (sess, tokens) = setup("{x; y; }", &[]);
    let mut parser = Parser::new(&sess, tokens);
    let (items, trailing) = parser
        .parse_delim_seq(Delimiter::Brace, SeqSep::trailing_enforced(TokenKind::Semi), ident_text)
        .ok()
        .unwrap();
    assert_eq!(items, vec!["x", "y"]);
    assert!(trailing);
    assert!(parser.token.is_eof());
}

#[test]
fn failed_recovery_in_front_of_colon_is_handed_up() {
    let (sess, tokens) = setup("{x : y}", &[]);
    let mut parser = Parser::new(&sess, tokens.clone());
    let err = parser.parse_delim_comma_seq(Delimiter::Brace, strict_ident).unwrap_err();
    assert_eq!(err.message, "expected one of `,` or `}`, found `:`");
    assert_eq!(
        children(&err),
        vec![(Level::Help, Span::new(70, 71), "write a name here".to_string())]
    );
    assert_eq!(parser.token, tokens[2]);
    assert_eq!(parser.dcx().err_count(), 0);
}

#[test]
fn failed_recovery_with_sole_close_paren_is_handed_up() {
    let (sess, tokens) = setup("(x + y)", &[]);
    let mut parser = Parser::new(&sess, tokens.clone());
    let err = parser.parse_paren_comma_seq(strict_ident).unwrap_err();
    assert_eq!(err.message, "expected one of `)` or `,`, found `+`");
    assert_eq!(
        children(&err),
        vec![(Level::Help, Span::new(70, 71), "write a name here".to_string())]
    );
    assert_eq!(parser.token, tokens[2]);
    assert_eq!(parser.dcx().err_count(), 0);
}

#[test]
fn failed_recovery_elsewhere_is_emitted_and_ends_the_sequence() {
    let (sess, tokens) = setup("{x + y}", &[]);
    let mut parser = Parser::new(&sess, tokens.clone());
    parser.bump();
    let (items, trailing, recovered) = parser
        .parse_seq_to_before_end(&CLOSE_BRACE, SeqSep::trailing_disallowed(TokenKind::Comma), strict_ident)
        .ok()
        .unwrap();
    assert_eq!(items, vec!["x"]);
    assert!(!trailing);
    assert!(recovered);
    assert_eq!(parser.token, tokens[2]);
    assert_eq!(messages(&parser), vec!["expected one of `,` or `}`, found `+`"]);
    assert_eq!(
        children(&parser.dcx().emitted()[0]),
        vec![(Level::Help, Span::new(70, 71), "write a name here".to_string())]
    );
}

#[test]
fn early_end_keeps_the_terminator() {
    let (sess, tokens) = setup("{x + } ;", &[]);
    let mut parser = Parser::new(&sess, tokens.clone());
    // An element parser that reads one token and fails unless it is a name.
    let one = |p: &mut Parser<'_>| -> PResult<String> {
        let token = p.token;
        p.bump();
        match token.ident() {
            Some(ident) => Ok(p.sess.symbols.text(ident.name).to_string()),
            None => Err(Diag::error("not a name".to_string())),
        }
    };
    let (items, trailing) =
        parser.parse_delim_comma_seq(Delimiter::Brace, one).ok().unwrap();
    assert_eq!(items, vec!["x"]);
    assert!(!trailing);
    // The failed attempt read `+`; the closing brace is left for the caller.
    assert_eq!(parser.token, tokens[3]);
    assert_eq!(messages(&parser), vec!["expected one of `,` or `}`, found `+`"]);
}

#[test]
fn element_failure_is_a_hard_failure() {
    let (sess, tokens) = setup("(x, (y)", &[]);
    let mut parser = Parser::new(&sess, tokens.clone());
    let err = parser.parse_paren_comma_seq(ident_text).unwrap_err();
    assert_eq!(err.message, "expected identifier, found `(`");
    assert_eq!(parser.token, tokens[3]);
    assert_eq!(parser.dcx().err_count(), 0);
}

#[test]
fn unrelated_closing_delimiter_ends_the_sequence() {
    let (sess, tokens) = setup("(x, y]", &[]);
    let mut parser = Parser::new(&sess, tokens.clone());
    let (items, trailing) = parser.parse_paren_comma_seq(ident_text).ok().unwrap();
    assert_eq!(items, vec!["x", "y"]);
    assert!(!trailing);
    assert_eq!(parser.token, tokens[4]);
    assert_eq!(
        parser.expected_tokens(),
        &vec![ExpectedToken::Token(CLOSE_PAREN), ExpectedToken::Token(CLOSE_PAREN)]
    );
    assert_eq!(parser.dcx().err_count(), 0);
}

#[test]
fn end_of_input_ends_the_sequence() {
    let (sess, tokens) = setup("(x, y", &[]);
    let mut parser = Parser::new(&sess, tokens);
    let (items, trailing) = parser.parse_paren_comma_seq(ident_text).ok().unwrap();
    assert_eq!(items, vec!["x", "y"]);
    assert!(!trailing);
    assert!(parser.token.is_eof());
}

#[test]
fn missing_opening_delimiter_is_a_hard_failure() {
    let (sess, tokens) = setup("x, y)", &[]);
    let mut parser = Parser::new(&sess, tokens.clone());
    let err = parser.parse_paren_comma_seq(ident_text).unwrap_err();
    assert_eq!(err.message, "expected `(`, found `x`");
    assert_eq!(parser.token, tokens[0]);
    let err = parser
        .parse_unspanned_seq(
            &TokenKind::OpenDelim(Delimiter::Bracket),
            &TokenKind::CloseDelim(Delimiter::Bracket),
            SeqSep::none(),
            ident_text,
        )
        .unwrap_err();
    assert_eq!(err.message, "expected `[`, found `x`");
}

#[test]
fn sequence_without_separator() {
    let (sess, tokens) = setup("x y z ; w", &[]);
    let mut parser = Parser::new(&sess, tokens.clone());
    let (items, trailing, recovered) =
        parser.parse_seq_to_before_end(&TokenKind::Semi, SeqSep::none(), ident_text).ok().unwrap();
    assert_eq!(items, vec!["x", "y", "z"]);
    assert!(!trailing && !recovered);
    assert_eq!(parser.token, tokens[3]);
    assert_eq!(parser.dcx().err_count(), 0);
}

#[test]
fn sequence_to_end_reads_the_terminator() {
    let (sess, tokens) = setup("x y ; w", &[]);
    let mut parser = Parser::new(&sess, tokens.clone());
    let (items, trailing) =
        parser.parse_seq_to_end(&TokenKind::Semi, SeqSep::none(), ident_text).ok().unwrap();
    assert_eq!(items, vec!["x", "y"]);
    assert!(!trailing);
    assert_eq!(parser.token, tokens[3]);
}

#[test]
fn sequence_before_several_terminators() {
    let (sess, tokens) = setup("x, y : z", &[]);
    let mut parser = Parser::new(&sess, tokens.clone());
    let (items, trailing, recovered) = parser
        .parse_seq_to_before_tokens(
            &[CLOSE_PAREN, TokenKind::Colon],
            SeqSep::trailing_disallowed(TokenKind::Comma),
            ident_text,
        )
        .ok()
        .unwrap();
    assert_eq!(items, vec!["x", "y"]);
    assert!(!trailing && !recovered);
    assert_eq!(parser.token, tokens[3]);
    assert_eq!(parser.expected_tokens(), &vec![ExpectedToken::Token(CLOSE_PAREN)]);
}

#[test]
fn nodelim_comma_seq_stops_before_the_stop_token() {
    let (sess, tokens) = setup("a, b = c", &[]);
    let mut parser = Parser::new(&sess, tokens.clone());
    let (items, trailing) =
        parser.parse_nodelim_comma_seq(&TokenKind::Eq, ident_text).ok().unwrap();
    assert_eq!(items, vec!["a", "b"]);
    assert!(!trailing);
    assert_eq!(parser.token, tokens[3]);
}

#[test]
fn sequence_in_front_of_terminator_is_empty_whatever_the_element_parser() {
    let (sess, tokens) = setup("; x", &[]);
    let mut parser = Parser::new(&sess, tokens.clone());
    let r: PResult<(Vec<u8>, bool, bool)> = parser.parse_seq_to_before_tokens(
        &[TokenKind::Comma, TokenKind::Semi],
        SeqSep::none(),
        |_| Err(Diag::error("never called".to_string())),
    );
    let (items, trailing, recovered) = r.ok().unwrap();
    assert!(items.is_empty() && !trailing && !recovered);
    assert_eq!(parser.token, tokens[0]);
    assert_eq!(parser.expected_tokens(), &vec![ExpectedToken::Token(TokenKind::Comma)]);
}

#[test]
fn recover_missing_sep_decides_by_attempt_and_context() {
    let (sess, tokens) = setup("a : b", &[]);
    let gap = Span::new(1, 1);
    let sep_err = || Diag::error("sep".to_string()).span(Span::new(2, 3));
    let failed = || -> PResult<u8> {
        Err(Diag::error("inner".to_string()).span_help(Span::new(9, 9), "hint".to_string()))
    };

    let mut parser = Parser::new(&sess, tokens.clone());
    match parser.recover_missing_sep(sep_err(), &TokenKind::Comma, gap, Ok(7u8), false) {
        SepRecovery::Element(7) => {}
        other => panic!("{other:?}"),
    }
    assert_eq!(messages(&parser), vec!["sep"]);
    assert_eq!(
        children(&parser.dcx().emitted()[0]),
        vec![(Level::Help, gap, "missing `,`".to_string())]
    );

    // Not in front of a colon, several terminators: emitted, and the end.
    let mut parser = Parser::new(&sess, tokens.clone());
    match parser.recover_missing_sep(sep_err(), &TokenKind::Comma, gap, failed(), false) {
        SepRecovery::Stop => {}
        other => panic!("{other:?}"),
    }
    assert_eq!(messages(&parser), vec!["sep"]);
    assert_eq!(
        children(&parser.dcx().emitted()[0]),
        vec![(Level::Help, Span::new(9, 9), "hint".to_string())]
    );

    // A closing parenthesis as the only terminator: handed up.
    let mut parser = Parser::new(&sess, tokens.clone());
    match parser.recover_missing_sep(sep_err(), &TokenKind::Comma, gap, failed(), true) {
        SepRecovery::Fail(e) => {
            assert_eq!(e.message, "sep");
            assert_eq!(children(&e), vec![(Level::Help, Span::new(9, 9), "hint".to_string())]);
        }
        other => panic!("{other:?}"),
    }
    assert_eq!(parser.dcx().err_count(), 0);

    // In front of a colon: handed up.
    let mut parser = Parser::new(&sess, tokens);
    parser.bump();
    match parser.recover_missing_sep(sep_err(), &TokenKind::Comma, gap, failed(), false) {
        SepRecovery::Fail(e) => assert_eq!(e.message, "sep"),
        other => panic!("{other:?}"),
    }
    assert_eq!(parser.dcx().err_count(), 0);
}

#[test]
fn seq_slot_tells_what_stands_at_the_next_place() {
    let comma = SeqSep::trailing_allowed(TokenKind::Comma);
    let (sess, tokens) = setup("x , ) y }", &[]);
    let mut parser = Parser::new(&sess, tokens.clone());

    // The first element needs no separator.
    assert!(matches!(parser.seq_slot(&[CLOSE_PAREN], comma, true), SeqSlot::Element));
    assert_eq!(parser.token, tokens[0]);
    parser.bump();

    // Behind a separator that may trail, the terminator ends the sequence.
    match parser.seq_slot(&[CLOSE_PAREN], comma, false) {
        SeqSlot::End { trailing: true, recovered: false } => {}
        other => panic!("{other:?}"),
    }
    assert_eq!(parser.token, tokens[2]);

    // In front of the terminator the sequence ends.
    match parser.seq_slot(&[CLOSE_PAREN], comma, false) {
        SeqSlot::End { trailing: false, recovered: false } => {}
        other => panic!("{other:?}"),
    }
    parser.bump();

    // A missing separator is a gap behind the previous token.
    match parser.seq_slot(&[CLOSE_BRACE], comma, false) {
        SeqSlot::MissingSep(err, gap) => {
            assert_eq!(err.message, "expected one of `,` or `}`, found `y`");
            assert_eq!(gap, Span::new(5, 5));
        }
        other => panic!("{other:?}"),
    }
    assert_eq!(parser.token, tokens[3]);
    parser.bump();

    // Any closing bracket ends the sequence.
    match parser.seq_slot(&[CLOSE_PAREN], comma, false) {
        SeqSlot::End { trailing: false, recovered: false } => {}
        other => panic!("{other:?}"),
    }

    // Where the separator must stand, leaving it out is an error.
    let mut parser = Parser::new(&sess, tokens.clone());
    parser.bump();
    parser.bump();
    parser.bump();
    match parser.seq_slot(&[CLOSE_BRACE], SeqSep::trailing_enforced(TokenKind::Semi), false) {
        SeqSlot::Fail(err) => {
            assert_eq!(err.message, "expected one of `;` or `}`, found `y`")
        }
        other => panic!("{other:?}"),
    }
}

#[test]
fn without_separator_nothing_trails() {
    let (sess, tokens) = setup("x y ) z", &[]);
    let mut parser = Parser::new(&sess, tokens.clone());
    let odd = SeqSep { sep: None, trailing_sep_allowed: true, trailing_sep_required: false };
    let (items, trailing, recovered) =
        parser.parse_seq_to_before_end(&CLOSE_PAREN, odd, ident_text).ok().unwrap();
    assert_eq!(items, vec!["x", "y"]);
    assert!(!trailing && !recovered);
    assert_eq!(parser.token, tokens[2]);
}
