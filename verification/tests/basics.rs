use sulk_parse::source_map::SourceMap;
use sulk_parse::span::Span;
use sulk_parse::symbol::{Symbol, SymbolClass, SymbolTable};
use sulk_parse::token::{BinOpToken, Delimiter, Token, TokenKind, TokenLitKind};

#[test]
fn span_new_orders_its_ends() {
    assert_eq!(Span::new(3, 7), Span { lo: 3, hi: 7 });
    assert_eq!(Span::new(7, 3), Span { lo: 3, hi: 7 });
}

#[test]
fn span_operations() {
    let a = Span::new(2, 5);
    let b = Span::new(9, 12);
    assert!(Span::dummy().is_dummy());
    assert!(!a.is_dummy());
    assert_eq!(a.shrink_to_lo(), Span { lo: 2, hi: 2 });
    assert_eq!(a.shrink_to_hi(), Span { lo: 5, hi: 5 });
    assert_eq!(a.until(b), Span { lo: 2, hi: 9 });
    assert_eq!(b.until(a), Span { lo: 2, hi: 9 });
    assert_eq!(a.to(b), Span { lo: 2, hi: 12 });
    assert_eq!(b.to(a), Span { lo: 2, hi: 12 });
}

#[test]
fn source_map_finds_line_starts() {
    let map = SourceMap::from_bytes(b"ab\ncd\n\nef");
    assert!(!map.is_multiline(Span::new(0, 2)));
    assert!(map.is_multiline(Span::new(0, 3)));
    assert!(map.is_multiline(Span::new(2, 3)));
    assert!(!map.is_multiline(Span::new(3, 5)));
    assert!(map.is_multiline(Span::new(5, 6)));
    assert!(map.is_multiline(Span::new(6, 7)));
    assert!(!map.is_multiline(Span::new(7, 9)));
}

#[test]
fn source_map_of_given_line_starts() {
    let map = SourceMap::new(vec![10, 20]);
    assert!(!map.is_multiline(Span::new(0, 9)));
    assert!(map.is_multiline(Span::new(9, 10)));
    assert!(!map.is_multiline(Span::new(10, 19)));
    assert!(map.is_multiline(Span::new(5, 25)));
    assert!(!map.is_multiline(Span::new(20, 20)));
}

#[test]
fn interning_twice_gives_the_same_symbol() {
    let mut table = SymbolTable::new();
    let a = table.intern("alpha", SymbolClass::plain());
    let b = table.intern("beta", SymbolClass::plain());
    let a2 = table.intern("alpha", SymbolClass { reserved: true, yul_reserved: true, elementary_type: true });
    assert_eq!(a, Symbol { index: 0 });
    assert_eq!(b, Symbol { index: 1 });
    assert_eq!(a, a2);
    assert_eq!(table.len(), 2);
    assert_eq!(table.text(a), "alpha");
    assert_eq!(table.text(b), "beta");
    assert_eq!(table.class(a), SymbolClass::plain());
    assert_eq!(table.lookup("beta"), Some(b));
    assert_eq!(table.lookup("gamma"), None);
}

#[test]
fn unknown_symbol_is_plain_and_empty() {
    let table = SymbolTable::new();
    let ghost = Symbol { index: 5 };
    assert_eq!(table.text(ghost), "");
    assert_eq!(table.class(ghost), SymbolClass::plain());
}

#[test]
fn symbol_class_reservation_depends_on_mode() {
    let class = SymbolClass { reserved: true, yul_reserved: false, elementary_type: false };
    assert!(class.is_reserved(false));
    assert!(!class.is_reserved(true));
}

#[test]
fn token_kinds_render_as_written() {
    let mut table = SymbolTable::new();
    let foo = table.intern("foo", SymbolClass::plain());
    let num = table.intern("42", SymbolClass::plain());
    let cases: Vec<(TokenKind, &str)> = vec![
        (TokenKind::Eq, "="),
        (TokenKind::Le, "<="),
        (TokenKind::AndAnd, "&&"),
        (TokenKind::OrOr, "||"),
        (TokenKind::Walrus, ":="),
        (TokenKind::BinOp(BinOpToken::Sar), ">>>"),
        (TokenKind::BinOpEq(BinOpToken::Plus), "+="),
        (TokenKind::BinOpEq(BinOpToken::Shl), "<<="),
        (TokenKind::Comma, ","),
        (TokenKind::FatArrow, "=>"),
        (TokenKind::OpenDelim(Delimiter::Brace), "{"),
        (TokenKind::CloseDelim(Delimiter::Bracket), "]"),
        (TokenKind::Ident(foo), "foo"),
        (TokenKind::Literal(TokenLitKind::Integer, num), "42"),
        (TokenKind::Literal(TokenLitKind::Str, foo), "\"foo\""),
        (TokenKind::Literal(TokenLitKind::HexStr, num), "hex\"42\""),
        (TokenKind::Literal(TokenLitKind::UnicodeStr, foo), "unicode\"foo\""),
        (TokenKind::Eof, "<eof>"),
    ];
    for (kind, text) in cases {
        assert_eq!(kind.render(&table), text);
    }
}

#[test]
fn token_predicates() {
    let mut table = SymbolTable::new();
    let foo = table.intern("foo", SymbolClass::plain());
    let kw = table.intern("while", SymbolClass { reserved: true, yul_reserved: false, elementary_type: false });
    let ty = table.intern("uint256", SymbolClass { reserved: true, yul_reserved: false, elementary_type: true });
    let span = Span::new(1, 4);
    let ident = Token::new(TokenKind::Ident(foo), span);
    let word = Token::new(TokenKind::Ident(kw), span);
    let elem = Token::new(TokenKind::Ident(ty), span);
    let lit = Token::new(TokenKind::Literal(TokenLitKind::Str, foo), span);
    let num = Token::new(TokenKind::Literal(TokenLitKind::Integer, foo), span);
    assert!(ident.is_ident() && word.is_ident() && !lit.is_ident());
    assert!(lit.is_lit() && num.is_lit() && !ident.is_lit());
    assert!(lit.is_str_lit() && !num.is_str_lit());
    assert!(Token::eof().is_eof() && !ident.is_eof());
    assert!(!Token::dummy().is_eof());
    assert!(word.is_keyword(kw) && !word.is_keyword(foo) && !lit.is_keyword(foo));
    assert_eq!(ident.ident().map(|i| (i.name, i.span)), Some((foo, span)));
    assert!(lit.ident().is_none());
    assert!(elem.is_elementary_type(&table) && !ident.is_elementary_type(&table));
    assert!(ident.is_non_reserved_ident(&table, false));
    assert!(!word.is_non_reserved_ident(&table, false));
    assert!(word.is_non_reserved_ident(&table, true));
    assert!(!lit.is_non_reserved_ident(&table, false));
    assert!(Token::new(TokenKind::CloseDelim(Delimiter::Brace), span).is_close_delim());
    assert_eq!(word.full_description(&table), "`while`");
}
