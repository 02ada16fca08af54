#![allow(dead_code, unused_imports)]
use sulk_parse::ast::Path;
use sulk_parse::diagnostics::{Diag, DiagCtxt, Level};
use sulk_parse::expected::{candidate_texts, insert_sorted, ExpectedToken};
use sulk_parse::seq::{SepRecovery, SeqSep};
use sulk_parse::source_map::SourceMap;
use sulk_parse::span::Span;
use sulk_parse::symbol::{Ident, Symbol, SymbolClass, SymbolTable};
use sulk_parse::token::{BinOpToken, Delimiter, Token, TokenKind, TokenLitKind};
use sulk_parse::{PResult, ParseSess, Parser};


fn reserved() -> SymbolClass {
    SymbolClass { reserved: true, yul_reserved: false, elementary_type: false }
}

/// Splits `src` at blanks into tokens whose spans are their byte ranges.
fn lex(src: &str, symbols: &mut SymbolTable) -> Vec<Token> {
    let mut tokens = Vec::new();
    let bytes = src.as_bytes();
    let mut i = 0;
    while i < bytes.len() {
        if bytes[i] == b' ' || bytes[i] == b'\n' {
            i += 1;
            continue;
        }
        let start = i;
        let kind = match bytes[i] {
            b'(' => TokenKind::OpenDelim(Delimiter::Parenthesis),
            b')' => TokenKind::CloseDelim(Delimiter::Parenthesis),
            b'{' => TokenKind::OpenDelim(Delimiter::Brace),
            b'}' => TokenKind::CloseDelim(Delimiter::Brace),
            b'[' => TokenKind::OpenDelim(Delimiter::Bracket),
            b']' => TokenKind::CloseDelim(Delimiter::Bracket),
            b',' => TokenKind::Comma,
            b'.' => TokenKind::Dot,
            b';' => TokenKind::Semi,
            b':' => TokenKind::Colon,
            b'=' => TokenKind::Eq,
            b'+' => TokenKind::BinOp(BinOpToken::Plus),
            _ => {
                while i < bytes.len() && (bytes[i].is_ascii_alphanumeric() || bytes[i] == b'_') {
                    i += 1;
                }
                assert!(i > start, "unknown character in test input");
                let word = &src[start..i];
                i -= 1;
                if bytes[start].is_ascii_digit() {
                    TokenKind::Literal(TokenLitKind::Integer, symbols.intern(word, SymbolClass::plain()))
                } else {
                    TokenKind::Ident(symbols.intern(word, SymbolClass::plain()))
                }
            }
        };
        i += 1;
        tokens.push(Token::new(kind, Span::new(start as u32, i as u32)));
    }
    tokens
}

/// A session for `src` and the tokens of `src`; `keywords` are reserved.
fn setup(src: &str, keywords: &[&str]) -> (ParseSess, Vec<Token>) {
    let mut symbols = SymbolTable::new();
    for kw in keywords {
        symbols.intern(kw, reserved());
    }
    let tokens = lex(src, &mut symbols);
    (ParseSess::new(symbols, SourceMap::from_bytes(src.as_bytes())), tokens)
}

fn ident_text(p: &mut Parser<'_>) -> PResult<String> {
    let ident = p.parse_ident()?;
    Ok(p.sess.symbols.text(ident.name).to_string())
}

fn labels(diag: &Diag) -> Vec<(Span, String)> {
    diag.labels.iter().map(|l| (l.span, l.label.clone())).collect()
}

fn children(diag: &Diag) -> Vec<(Level, Span, String)> {
    diag.children.iter().map(|c| (c.level, c.span, c.message.clone())).collect()
}

fn messages(parser: &Parser<'_>) -> Vec<String> {
    parser.dcx().emitted().iter().map(|d| d.message.clone()).collect()
}

#[test]
fn new_parser_stands_on_first_token() {
    let (sess, tokens) = setup("a b c", &[]);
    let parser = Parser::new(&sess, tokens.clone());
    assert_eq!(parser.token, tokens[0]);
    assert_eq!(parser.prev_token, Token::dummy());
    assert_eq!(parser.token(), tokens[0]);
    assert_eq!(parser.prev_token(), Token::dummy());
    assert!(parser.expected_tokens().is_empty());
    assert!(!parser.is_in_yul());
    assert!(!parser.is_in_contract());
    assert_eq!(parser.dcx().err_count(), 0);
}

#[test]
fn new_parser_on_empty_input_stands_at_eof() {
    let (sess, tokens) = setup("", &[]);
    let mut parser = Parser::new(&sess, tokens);
    assert_eq!(parser.token, Token::eof());
    assert_eq!(parser.prev_token, Token::dummy());
    parser.bump();
    assert_eq!(parser.token, Token::eof());
    assert_eq!(parser.prev_token, Token::eof());
}

#[test]
fn bump_shifts_current_to_previous() {
    let (sess, tokens) = setup("a b", &[]);
    let mut parser = Parser::new(&sess, tokens.clone());
    parser.bump();
    assert_eq!(parser.token, tokens[1]);
    assert_eq!(parser.prev_token, tokens[0]);
    parser.bump();
    // The end of the input takes the place of the last token.
    assert_eq!(parser.token, Token::new(TokenKind::Eof, tokens[1].span));
    assert_eq!(parser.prev_token, tokens[1]);
}

#[test]
fn bump_gives_a_placeless_token_the_current_place() {
    let (sess, mut tokens) = setup("a b", &[]);
    tokens[1].span = Span::dummy();
    let mut parser = Parser::new(&sess, tokens.clone());
    parser.bump();
    assert_eq!(parser.token, Token::new(tokens[1].kind, tokens[0].span));
}

#[test]
fn bump_with_does_not_read() {
    let (sess, tokens) = setup("a b", &[]);
    let mut parser = Parser::new(&sess, tokens.clone());
    let injected = Token::new(TokenKind::Semi, Span::new(40, 41));
    parser.check(&TokenKind::Comma);
    parser.bump_with(injected);
    assert_eq!(parser.token, injected);
    assert_eq!(parser.prev_token, tokens[0]);
    assert!(parser.expected_tokens().is_empty());
    assert_eq!(parser.look_ahead(1), tokens[1]);
}

#[test]
fn look_ahead_zero_is_current_and_past_the_end_is_eof() {
    let (sess, tokens) = setup("a b c", &[]);
    let mut parser = Parser::new(&sess, tokens.clone());
    assert_eq!(parser.look_ahead(0), tokens[0]);
    assert_eq!(parser.look_ahead(1), tokens[1]);
    assert_eq!(parser.look_ahead(2), tokens[2]);
    assert_eq!(parser.look_ahead(3), Token::eof());
    assert_eq!(parser.look_ahead(1000), Token::eof());
    assert_eq!(parser.look_ahead(usize::MAX), Token::eof());
    // Looking ahead changes nothing.
    assert_eq!(parser.token, tokens[0]);
    parser.bump();
    assert_eq!(parser.look_ahead(0), tokens[1]);
    assert_eq!(parser.look_ahead(1), tokens[2]);
    assert_eq!(parser.look_ahead(2), Token::eof());
}

#[test]
fn look_ahead_with_hands_the_token_to_the_closure() {
    let (sess, tokens) = setup("a , c", &[]);
    let parser = Parser::new(&sess, tokens.clone());
    assert!(parser.look_ahead_with(1, |t| t.kind == TokenKind::Comma));
    assert!(parser.look_ahead_with(0, |t| t.is_ident()));
    assert!(parser.look_ahead_with(9, |t| t.is_eof()));
}

#[test]
fn check_registers_only_misses() {
    let (sess, tokens) = setup(", a", &[]);
    let mut parser = Parser::new(&sess, tokens);
    assert!(parser.check(&TokenKind::Comma));
    assert!(parser.expected_tokens().is_empty());
    assert!(!parser.check(&TokenKind::Semi));
    assert!(!parser.check_noexpect(&TokenKind::Dot));
    assert_eq!(parser.expected_tokens(), &vec![ExpectedToken::Token(TokenKind::Semi)]);
}

#[test]
fn advance_clears_expectations() {
    let (sess, tokens) = setup(", a b", &[]);
    let mut parser = Parser::new(&sess, tokens.clone());
    assert!(!parser.check(&TokenKind::Semi));
    assert!(!parser.check_ident());
    assert!(!parser.eat(&TokenKind::Dot));
    assert_eq!(parser.expected_tokens().len(), 3);
    assert!(parser.eat(&TokenKind::Comma));
    assert!(parser.expected_tokens().is_empty());
    assert_eq!(parser.token, tokens[1]);
    assert!(!parser.check_lit());
    assert!(parser.eat_noexpect(&tokens[1].kind));
    assert!(parser.expected_tokens().is_empty());
    assert_eq!(parser.token, tokens[2]);
}

#[test]
fn eat_noexpect_registers_nothing() {
    let (sess, tokens) = setup("a", &[]);
    let mut parser = Parser::new(&sess, tokens.clone());
    assert!(!parser.eat_noexpect(&TokenKind::Comma));
    assert!(parser.expected_tokens().is_empty());
    assert_eq!(parser.token, tokens[0]);
}

#[test]
fn keyword_probes_register_only_misses() {
    let (sess, tokens) = setup("while x", &["while", "for"]);
    let kw_while = sess.symbols.lookup("while").unwrap();
    let kw_for = sess.symbols.lookup("for").unwrap();
    let mut parser = Parser::new(&sess, tokens.clone());
    assert!(!parser.eat_keyword(kw_for));
    assert_eq!(parser.expected_tokens(), &vec![ExpectedToken::Keyword(kw_for)]);
    assert!(parser.check_keyword(kw_while));
    assert_eq!(parser.expected_tokens(), &vec![ExpectedToken::Keyword(kw_for)]);
    assert!(!parser.check_keyword(kw_for));
    assert_eq!(
        parser.expected_tokens(),
        &vec![ExpectedToken::Keyword(kw_for), ExpectedToken::Keyword(kw_for)]
    );
    assert_eq!(parser.token, tokens[0]);
    assert!(parser.eat_keyword(kw_while));
    assert!(parser.expected_tokens().is_empty());
    assert_eq!(parser.token, tokens[1]);
}

#[test]
fn matching_keyword_probe_registers_nothing() {
    let (sess, tokens) = setup("while x", &["while"]);
    let kw_while = sess.symbols.lookup("while").unwrap();
    let mut parser = Parser::new(&sess, tokens.clone());
    assert!(parser.check_keyword(kw_while));
    assert!(parser.expected_tokens().is_empty());
    // With nothing registered, a failed expectation names its token alone
    // and is not recorded.
    let err = parser.expect(&TokenKind::Semi).unwrap_err();
    assert_eq!(err.message, "expected `;`, found `while`");
    assert!(!parser.at_reported_token());
}

#[test]
fn category_probes_register_their_category() {
    let mut symbols = SymbolTable::new();
    let uint = symbols.intern("uint", SymbolClass { reserved: true, yul_reserved: false, elementary_type: true });
    let s = symbols.intern("s", SymbolClass::plain());
    let sess = ParseSess::new(symbols, SourceMap::new(vec![]));
    let tokens = vec![
        Token::new(TokenKind::Ident(uint), Span::new(0, 4)),
        Token::new(TokenKind::Literal(TokenLitKind::Str, s), Span::new(5, 8)),
    ];
    let mut parser = Parser::new(&sess, tokens);
    assert!(parser.check_ident());
    assert!(parser.check_path());
    assert!(parser.check_elementary_type());
    assert!(!parser.check_any_ident());
    assert!(!parser.check_lit());
    assert!(!parser.check_str_lit());
    assert_eq!(
        parser.expected_tokens(),
        &vec![ExpectedToken::Ident, ExpectedToken::Lit, ExpectedToken::StrLit]
    );
    parser.bump();
    assert!(parser.check_lit());
    assert!(parser.check_str_lit());
    assert!(!parser.check_ident());
    assert!(!parser.check_path());
    assert!(!parser.check_elementary_type());
    assert!(parser.check_or_expected(true, ExpectedToken::VersionNumber));
    assert!(!parser.check_or_expected(false, ExpectedToken::VersionNumber));
    assert_eq!(
        parser.expected_tokens(),
        &vec![
            ExpectedToken::Ident,
            ExpectedToken::Path,
            ExpectedToken::ElementaryType,
            ExpectedToken::VersionNumber
        ]
    );
}

#[test]
fn check_any_ident_follows_the_mode() {
    let (sess, tokens) = setup("while", &["while"]);
    let mut parser = Parser::new(&sess, tokens);
    assert!(!parser.check_any_ident());
    let inside = parser.in_yul(|p| p.check_any_ident());
    assert!(inside);
}

#[test]
fn expect_any_stops_at_the_first_match() {
    let (sess, tokens) = setup(") a", &[]);
    let mut parser = Parser::new(&sess, tokens);
    let close = TokenKind::CloseDelim(Delimiter::Parenthesis);
    assert!(parser.expect_any(&[TokenKind::Semi, close, TokenKind::Comma]));
    assert_eq!(parser.expected_tokens(), &vec![ExpectedToken::Token(TokenKind::Semi)]);
    assert!(!parser.expect_any(&[TokenKind::Dot, TokenKind::Colon]));
    assert_eq!(
        parser.expected_tokens(),
        &vec![
            ExpectedToken::Token(TokenKind::Semi),
            ExpectedToken::Token(TokenKind::Dot),
            ExpectedToken::Token(TokenKind::Colon)
        ]
    );
    assert!(!parser.expect_any(&[]));
}

#[test]
fn context_toggles_are_restored_after_failure() {
    let (sess, tokens) = setup("a", &[]);
    let mut parser = Parser::new(&sess, tokens);
    let r: Result<(), ()> = parser.in_yul(|p| {
        assert!(p.is_in_yul());
        assert!(!p.is_in_contract());
        Err(())
    });
    assert!(r.is_err());
    assert!(!parser.is_in_yul());
    let r: Result<(), ()> = parser.in_contract(|p| {
        assert!(p.is_in_contract());
        Err(())
    });
    assert!(r.is_err());
    assert!(!parser.is_in_contract());
}

#[test]
fn context_toggles_nest() {
    let (sess, tokens) = setup("a", &[]);
    let mut parser = Parser::new(&sess, tokens);
    let depth = parser.in_contract(|p| {
        p.in_yul(|p| {
            let inner: Result<u8, u8> = p.in_yul(|p| {
                assert!(p.is_in_yul() && p.is_in_contract());
                p.in_contract(|_| Err(3))
            });
            // The inner scopes put back what they found: both flags set.
            assert!(p.is_in_yul() && p.is_in_contract());
            inner
        })
    });
    assert_eq!(depth, Err(3));
    assert!(!parser.is_in_yul());
    assert!(!parser.is_in_contract());
}

#[test]
fn into_dcx_hands_out_what_was_emitted() {
    let (sess, tokens) = setup("a", &[]);
    let mut parser = Parser::new(&sess, tokens);
    parser.emit(Diag::error("first".to_string()));
    parser.emit(Diag::error("second".to_string()).span(Span::new(1, 2)));
    assert_eq!(messages(&parser), vec!["first", "second"]);
    assert!(parser.dcx().has_errors());
    let dcx = parser.into_dcx();
    assert_eq!(dcx.err_count(), 2);
    assert_eq!(dcx.emitted()[1].span, Span::new(1, 2));
}
