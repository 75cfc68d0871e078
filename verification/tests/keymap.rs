use rustarray30::keymap::Array30Key;

#[test]
fn test_key_conversion() {
    assert_eq!(Array30Key::from_char('a'), Some(Array30Key::A));
    assert_eq!(Array30Key::from_char('A'), Some(Array30Key::A));
    assert_eq!(Array30Key::from_char('.'), Some(Array30Key::Period));
    assert_eq!(Array30Key::from_char('\''), Some(Array30Key::Slash));
    assert_eq!(Array30Key::from_char('1'), None);
}

#[test]
fn every_letter_maps_in_both_cases() {
    for (i, lower) in ('a'..='z').enumerate() {
        let upper = lower.to_ascii_uppercase();
        let key = Array30Key::from_char(lower);
        assert!(key.is_some());
        assert_eq!(key, Array30Key::from_char(upper));
        assert_eq!(key.unwrap().code_char(), lower);
        assert_eq!(key.unwrap().code_char() as usize, 'a' as usize + i);
    }
}

#[test]
fn punctuation_keys_map_to_themselves() {
    assert_eq!(Array30Key::from_char('/'), Some(Array30Key::Slash));
    assert_eq!(Array30Key::from_char(';'), Some(Array30Key::Semicolon));
    assert_eq!(Array30Key::from_char(','), Some(Array30Key::Comma));
    assert_eq!(Array30Key::Period.code_char(), '.');
    assert_eq!(Array30Key::Slash.code_char(), '/');
    assert_eq!(Array30Key::Semicolon.code_char(), ';');
    assert_eq!(Array30Key::Comma.code_char(), ',');
}

#[test]
fn typing_a_symbol_gives_its_key_back() {
    let keys = [
        Array30Key::A,
        Array30Key::M,
        Array30Key::Z,
        Array30Key::Period,
        Array30Key::Slash,
        Array30Key::Semicolon,
        Array30Key::Comma,
    ];
    for key in keys {
        assert_eq!(Array30Key::from_char(key.code_char()), Some(key));
    }
}

#[test]
fn other_characters_are_not_keys() {
    for c in ['0', '9', ' ', '\n', '\x08', '\x1b', '-', '=', '[', '`', '@', '{', '測', 'é'] {
        assert_eq!(Array30Key::from_char(c), None);
    }
}
