use rustarray30::text::{
    chars_of, find_char, is_whitespace, same_text, same_text_ignore_ascii_case, text_of,
    to_ascii_lowercase, trim_bounds,
};

#[test]
fn whitespace_is_the_unicode_property() {
    for c in '\0'..='\u{3100}' {
        assert_eq!(is_whitespace(c), c.is_whitespace(), "{:?}", c);
    }
    assert!(!is_whitespace('\u{feff}'));
    assert!(!is_whitespace('\u{10ffff}'));
}

#[test]
fn trim_bounds_agree_with_trim() {
    for s in ["", " ", "a", "  a b  ", "\t\r\nx\u{3000}", "\u{a0}測 試\u{2003}", "   "] {
        let chars = chars_of(s);
        let (from, to) = trim_bounds(&chars, 0, chars.len());
        assert_eq!(text_of(&chars, from, to), s.trim());
    }
}

#[test]
fn trim_bounds_stay_inside_the_stretch() {
    let chars = chars_of("ab  cd  ef");
    assert_eq!(trim_bounds(&chars, 2, 8), (4, 6));
    assert_eq!(trim_bounds(&chars, 2, 4), (4, 4));
    assert_eq!(trim_bounds(&chars, 0, 0), (0, 0));
}

#[test]
fn find_char_gives_the_first_place_or_the_end() {
    let chars = chars_of("a=b=c");
    assert_eq!(find_char(&chars, '=', 0, 5), 1);
    assert_eq!(find_char(&chars, '=', 2, 5), 3);
    assert_eq!(find_char(&chars, '=', 4, 5), 5);
    assert_eq!(find_char(&chars, 'x', 0, 5), 5);
    assert_eq!(find_char(&chars, 'a', 0, 0), 0);
}

#[test]
fn chars_and_text_round_trip() {
    let chars = chars_of("測a試");
    assert_eq!(chars, vec!['測', 'a', '試']);
    assert_eq!(text_of(&chars, 0, 3), "測a試");
    assert_eq!(text_of(&chars, 1, 2), "a");
    assert_eq!(text_of(&chars, 2, 2), "");
}

#[test]
fn ascii_lowercase_touches_only_ascii_capitals() {
    assert_eq!(to_ascii_lowercase("Hello, WORLD [Z] @ É 測"), "hello, world [z] @ É 測");
    assert!(same_text_ignore_ascii_case("TRUE", "true"));
    assert!(same_text_ignore_ascii_case("Yes", "yES"));
    assert!(!same_text_ignore_ascii_case("yes", "yes "));
    assert!(!same_text_ignore_ascii_case("É", "é"));
}

#[test]
fn same_text_compares_exactly() {
    assert!(same_text("", ""));
    assert!(same_text("測試", "測試"));
    assert!(!same_text("a", "A"));
    assert!(!same_text("a", "ab"));
}
