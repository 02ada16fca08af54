use sulk_parse::text::{backtick, decimal_string, or_list, str_lt};

#[test]
fn test_or_list() {
    let tests: &[(&[&str], &str)] = &[
        (&[], ""),
        (&["`<eof>`"], "`<eof>`"),
        (&["integer", "identifier"], "integer or identifier"),
        (&["path", "string literal", "`&&`"], "path, string literal, or `&&`"),
        (&["`&&`", "`||`", "`&&`", "`||`"], "`&&`, `||`, `&&`, or `||`"),
    ];
    for &(tokens, expected) in tests {
        assert_eq!(or_list(tokens), expected, "{tokens:?}");
    }
}

#[test]
fn or_list_of_three_uses_oxford_comma() {
    assert_eq!(or_list(&["a", "b", "c"]), "a, b, or c");
}

#[test]
fn decimal_string_writes_numerals() {
    assert_eq!(decimal_string(0), "0");
    assert_eq!(decimal_string(7), "7");
    assert_eq!(decimal_string(10), "10");
    assert_eq!(decimal_string(4096), "4096");
    assert_eq!(decimal_string(usize::MAX), usize::MAX.to_string());
}

#[test]
fn str_lt_is_dictionary_order() {
    assert!(str_lt("", "a"));
    assert!(!str_lt("a", ""));
    assert!(!str_lt("a", "a"));
    assert!(str_lt("a", "ab"));
    assert!(str_lt("ab", "b"));
    assert!(str_lt("`)`", "`,`"));
    assert!(!str_lt("identifier", "`,`"));
    assert!(str_lt("`,`", "identifier"));
}

#[test]
fn str_lt_agrees_with_the_standard_order() {
    let words = ["", "`", "`(`", "`)`", "a", "ab", "b", "path", "é", "z"];
    for a in words {
        for b in words {
            assert_eq!(str_lt(a, b), a < b, "{a:?} {b:?}");
        }
    }
}

#[test]
fn backtick_wraps_the_text() {
    assert_eq!(backtick(","), "`,`");
    assert_eq!(backtick(""), "``");
}
