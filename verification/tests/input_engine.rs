use rustarray30::dict::Dictionary;
use rustarray30::input_engine::{InputEngine, KeyResult};
use rustarray30::state::InputMode;

fn create_test_dict() -> Dictionary {
    let mut dict = Dictionary::new();
    dict.insert_char("abc", "測");
    dict.insert_phrase("abcd", "測試");
    dict
}

fn numbered_dict(code: &str, count: usize) -> Dictionary {
    let mut dict = Dictionary::new();
    for i in 0..count {
        dict.insert_char(code, &format!("c{}", i));
    }
    dict
}

fn texts(engine: &InputEngine) -> Vec<String> {
    engine.candidates().iter().map(|c| c.text.clone()).collect()
}

fn page_texts(engine: &InputEngine) -> Vec<String> {
    engine.current_page_candidates().iter().map(|c| c.text.clone()).collect()
}

#[test]
fn test_engine_creation() {
    let dict = create_test_dict();
    let engine = InputEngine::new(dict);
    assert!(engine.state().current_code.is_empty());
    assert!(engine.candidates().is_empty());
}

#[test]
fn test_handle_key() {
    let dict = create_test_dict();
    let mut engine = InputEngine::new(dict);

    let result = engine.handle_key('a');
    assert_eq!(result, KeyResult::NeedUpdate);
    assert_eq!(engine.state().current_code, "a");

    engine.handle_key('b');
    assert_eq!(engine.state().current_code, "ab");

    engine.handle_key('c');
    assert_eq!(engine.state().current_code, "abc");
}

#[test]
fn input_engine_test_backspace() {
    let dict = create_test_dict();
    let mut engine = InputEngine::new(dict);

    engine.handle_key('a');
    engine.handle_key('b');
    engine.handle_key('\x08');
    assert_eq!(engine.state().current_code, "a");
}

#[test]
fn code_is_capped_at_four_symbols() {
    let mut engine = InputEngine::new(create_test_dict());
    for key in ['a', 'b', 'c', 'd', 'e', 'f', '.', ';'] {
        assert_eq!(engine.handle_key(key), KeyResult::NeedUpdate);
        assert!(engine.state().current_code.chars().count() <= 4);
    }
    assert_eq!(engine.state().current_code, "abcd");
    assert_eq!(engine.state().raw_keys, "abcdef.;");
}

#[test]
fn space_commits_the_first_candidate() {
    let mut engine = InputEngine::new(create_test_dict());
    engine.handle_key('a');
    engine.handle_key('b');
    engine.handle_key('c');
    assert_eq!(engine.state().current_code, "abc");
    assert_eq!(texts(&engine), vec!["測".to_string()]);
    assert_eq!(engine.candidates()[0].code, "abc");
    assert!(!engine.candidates()[0].is_phrase);
    assert_eq!(engine.handle_key(' '), KeyResult::NeedUpdate);
    assert_eq!(engine.state().output, "測");
    assert_eq!(engine.state().current_code, "");
    assert!(engine.state().raw_keys.is_empty());
    assert!(engine.state().composing.is_empty());
    assert!(engine.candidates().is_empty());
    assert_eq!(engine.get_output_text(), "測");
}

#[test]
fn phrase_mode_looks_phrases_up_first() {
    let mut engine = InputEngine::new(create_test_dict());
    engine.handle_key('a');
    assert_eq!(engine.handle_key('\''), KeyResult::NeedUpdate);
    assert_eq!(engine.state().mode, InputMode::PhraseInput);
    assert!(engine.state().has_phrase_marker);
    engine.handle_key('b');
    engine.handle_key('c');
    engine.handle_key('d');
    assert_eq!(engine.state().current_code, "abcd");
    assert_eq!(engine.state().raw_keys, "a'bcd");
    assert_eq!(texts(&engine), vec!["測試".to_string()]);
    assert!(engine.candidates()[0].is_phrase);
    assert_eq!(engine.candidates()[0].code, "abcd");
}

#[test]
fn phrases_are_never_mixed_with_characters() {
    let mut dict = Dictionary::new();
    dict.insert_char("ab", "甲");
    dict.insert_char("ab", "乙");
    dict.insert_phrase("ab", "甲乙");
    let mut engine = InputEngine::new(dict);
    engine.handle_key('a');
    engine.handle_key('b');
    assert_eq!(texts(&engine), vec!["甲".to_string(), "乙".to_string()]);
    engine.handle_key('\'');
    assert_eq!(texts(&engine), vec!["甲乙".to_string()]);
    assert!(engine.candidates()[0].is_phrase);
}

#[test]
fn phrase_mode_falls_back_to_characters() {
    let mut engine = InputEngine::new(create_test_dict());
    engine.handle_key('a');
    engine.handle_key('\'');
    engine.handle_key('b');
    engine.handle_key('c');
    assert_eq!(engine.state().mode, InputMode::PhraseInput);
    assert_eq!(texts(&engine), vec!["測".to_string()]);
    assert!(!engine.candidates()[0].is_phrase);
}

#[test]
fn unknown_code_has_no_candidates() {
    let mut engine = InputEngine::new(create_test_dict());
    engine.handle_key('z');
    assert!(engine.candidates().is_empty());
    assert!(engine.current_page_candidates().is_empty());
}

#[test]
fn marker_on_empty_code_is_ignored() {
    let mut engine = InputEngine::new(create_test_dict());
    assert_eq!(engine.handle_key('\''), KeyResult::NeedUpdate);
    assert_eq!(engine.state().mode, InputMode::Normal);
    assert!(engine.state().raw_keys.is_empty());
    assert!(engine.state().current_code.is_empty());
}

#[test]
fn marker_twice_logs_one_marker() {
    let mut engine = InputEngine::new(create_test_dict());
    engine.handle_key('a');
    engine.handle_key('\'');
    engine.handle_key('\'');
    assert_eq!(engine.state().raw_keys, "a'");
    assert_eq!(engine.state().mode, InputMode::PhraseInput);
}

#[test]
fn paging_over_twelve_candidates() {
    let mut engine = InputEngine::new(numbered_dict("a", 12));
    engine.handle_key('a');
    assert_eq!(engine.candidates().len(), 12);
    assert_eq!(
        page_texts(&engine),
        vec!["c0", "c1", "c2", "c3", "c4", "c5", "c6", "c7", "c8"]
    );
    assert!(!engine.prev_page());
    assert!(engine.next_page());
    assert_eq!(page_texts(&engine), vec!["c9", "c10", "c11"]);
    assert!(!engine.next_page());
    assert_eq!(page_texts(&engine), vec!["c9", "c10", "c11"]);
    assert!(engine.prev_page());
    assert_eq!(page_texts(&engine).len(), 9);
    assert_eq!(engine.candidates().len(), 12);
}

#[test]
fn paging_with_exactly_one_full_page() {
    let mut engine = InputEngine::new(numbered_dict("a", 9));
    engine.handle_key('a');
    assert_eq!(page_texts(&engine).len(), 9);
    assert!(!engine.next_page());
    assert!(!engine.prev_page());
}

#[test]
fn paging_without_candidates() {
    let mut engine = InputEngine::new(Dictionary::new());
    assert!(!engine.next_page());
    assert!(!engine.prev_page());
    assert!(engine.current_page_candidates().is_empty());
}

#[test]
fn digit_selects_on_the_shown_page() {
    let mut engine = InputEngine::new(numbered_dict("a", 12));
    engine.handle_key('a');
    assert!(engine.next_page());
    assert_eq!(engine.handle_key('2'), KeyResult::Committed);
    assert_eq!(engine.state().output, "c10");
    assert!(engine.candidates().is_empty());
    assert!(engine.state().current_code.is_empty());
    assert!(!engine.prev_page());
}

#[test]
fn digit_out_of_range_asks_for_a_redraw_only() {
    let mut engine = InputEngine::new(numbered_dict("a", 12));
    engine.handle_key('a');
    engine.next_page();
    assert_eq!(engine.handle_key('4'), KeyResult::NeedUpdate);
    assert!(engine.state().output.is_empty());
    assert_eq!(engine.state().current_code, "a");
    assert_eq!(engine.candidates().len(), 12);
    assert_eq!(page_texts(&engine), vec!["c9", "c10", "c11"]);
}

#[test]
fn zero_selects_the_tenth_place() {
    let mut engine = InputEngine::new(numbered_dict("a", 12));
    engine.handle_key('a');
    assert_eq!(engine.handle_key('0'), KeyResult::Committed);
    assert_eq!(engine.state().output, "c9");
}

#[test]
fn zero_without_a_tenth_place_asks_for_a_redraw_only() {
    let mut engine = InputEngine::new(numbered_dict("a", 3));
    engine.handle_key('a');
    assert_eq!(engine.handle_key('0'), KeyResult::NeedUpdate);
    assert!(engine.state().output.is_empty());
    assert_eq!(engine.candidates().len(), 3);
}

#[test]
fn digit_without_candidates_is_text() {
    let mut engine = InputEngine::new(create_test_dict());
    assert_eq!(engine.handle_key('5'), KeyResult::Committed);
    assert_eq!(engine.state().output, "5");
    assert!(engine.state().current_code.is_empty());
    assert_eq!(engine.handle_key('0'), KeyResult::Committed);
    assert_eq!(engine.state().output, "50");
}

#[test]
fn select_candidate_out_of_range_is_a_no_op() {
    let mut engine = InputEngine::new(create_test_dict());
    engine.handle_key('a');
    engine.handle_key('b');
    engine.handle_key('c');
    assert!(!engine.select_candidate(1));
    assert!(!engine.select_candidate(usize::MAX));
    assert_eq!(engine.state().current_code, "abc");
    assert_eq!(engine.state().raw_keys, "abc");
    assert!(engine.state().output.is_empty());
    assert_eq!(engine.candidates().len(), 1);
    assert!(engine.select_candidate(0));
    assert_eq!(engine.state().output, "測");
}

#[test]
fn select_candidate_appends_to_earlier_output() {
    let mut engine = InputEngine::new(create_test_dict());
    engine.handle_key('!');
    for key in ['a', 'b', 'c'] {
        engine.handle_key(key);
    }
    assert!(engine.select_candidate(0));
    assert_eq!(engine.state().output, "!測");
    assert_eq!(engine.state().mode, InputMode::Normal);
}

#[test]
fn backspace_looks_the_shorter_code_up() {
    let mut dict = create_test_dict();
    dict.insert_char("ab", "乙");
    let mut engine = InputEngine::new(dict);
    for key in ['a', 'b', 'c'] {
        engine.handle_key(key);
    }
    assert_eq!(texts(&engine), vec!["測".to_string()]);
    assert_eq!(engine.handle_key('\x7f'), KeyResult::NeedUpdate);
    assert_eq!(engine.state().current_code, "ab");
    assert_eq!(engine.state().raw_keys, "ab");
    assert_eq!(texts(&engine), vec!["乙".to_string()]);
}

#[test]
fn backspace_on_empty_code_changes_no_buffer() {
    let mut engine = InputEngine::new(create_test_dict());
    engine.handle_key('7');
    assert_eq!(engine.handle_key('\x08'), KeyResult::NeedUpdate);
    assert_eq!(engine.state().output, "7");
    assert!(engine.state().raw_keys.is_empty());
    assert!(engine.state().current_code.is_empty());
}

#[test]
fn backspace_over_the_marker_returns_to_normal_mode() {
    let mut engine = InputEngine::new(create_test_dict());
    engine.handle_key('a');
    engine.handle_key('\'');
    assert_eq!(engine.state().mode, InputMode::PhraseInput);
    engine.handle_key('\x08');
    assert_eq!(engine.state().mode, InputMode::Normal);
    assert!(engine.state().current_code.is_empty());
    assert_eq!(engine.state().raw_keys, "a");
}

#[test]
fn escape_abandons_the_entry_but_not_the_output() {
    let mut engine = InputEngine::new(create_test_dict());
    engine.handle_key('5');
    for key in ['a', 'b', 'c'] {
        engine.handle_key(key);
    }
    assert_eq!(engine.handle_key('\x1b'), KeyResult::NeedUpdate);
    assert!(engine.state().current_code.is_empty());
    assert!(engine.state().raw_keys.is_empty());
    assert!(engine.candidates().is_empty());
    assert_eq!(engine.state().output, "5");
}

#[test]
fn commit_key_results() {
    let mut engine = InputEngine::new(create_test_dict());
    assert_eq!(engine.handle_key(' '), KeyResult::NoChange);
    assert_eq!(engine.handle_key('\n'), KeyResult::NoChange);
    engine.handle_key('z');
    assert_eq!(engine.handle_key('\r'), KeyResult::NeedUpdate);
    assert_eq!(engine.state().current_code, "z");
    assert!(engine.state().output.is_empty());
}

#[test]
fn other_character_discards_the_code_and_is_committed() {
    let mut engine = InputEngine::new(create_test_dict());
    engine.handle_key('a');
    engine.handle_key('b');
    assert_eq!(engine.handle_key('!'), KeyResult::Committed);
    assert_eq!(engine.state().output, "!");
    assert!(engine.state().current_code.is_empty());
    assert!(engine.state().raw_keys.is_empty());
    assert_eq!(engine.handle_key('好'), KeyResult::Committed);
    assert_eq!(engine.state().output, "!好");
}

#[test]
fn upper_case_keys_enter_the_code_as_typed() {
    let mut dict = Dictionary::new();
    dict.insert_char("a", "小");
    dict.insert_char("A", "大");
    let mut engine = InputEngine::new(dict);
    engine.handle_key('A');
    assert_eq!(engine.state().current_code, "A");
    assert_eq!(texts(&engine), vec!["大".to_string()]);
}

#[test]
fn clear_output_empties_every_buffer() {
    let mut engine = InputEngine::new(create_test_dict());
    engine.handle_key('5');
    engine.handle_key('a');
    engine.clear_output();
    assert!(engine.state().output.is_empty());
    assert!(engine.state().raw_keys.is_empty());
    assert!(engine.state().current_code.is_empty());
    assert_eq!(engine.get_output_text(), "");
}

#[test]
fn load_dict_replaces_the_dictionary() {
    let mut engine = InputEngine::new(Dictionary::new());
    engine.handle_key('a');
    assert!(engine.candidates().is_empty());
    let mut dict = Dictionary::new();
    dict.insert_char("ab", "乙");
    engine.load_dict(dict);
    assert_eq!(engine.state().current_code, "a");
    engine.handle_key('b');
    assert_eq!(texts(&engine), vec!["乙".to_string()]);
}

#[test]
fn update_candidates_returns_to_page_zero() {
    let mut engine = InputEngine::new(numbered_dict("a", 12));
    engine.handle_key('a');
    engine.next_page();
    engine.update_candidates();
    assert_eq!(engine.candidates().len(), 12);
    assert_eq!(page_texts(&engine).len(), 9);
    assert_eq!(page_texts(&engine)[0], "c0");
}

#[test]
fn engine_and_state_are_found_at_the_root() {
    let mut engine = rustarray30::InputEngine::new(create_test_dict());
    engine.handle_key('a');
    let state: &rustarray30::InputState = engine.state();
    assert_eq!(state.raw_keys, "a");
}

#[test]
fn held_candidate_never_stays_behind() {
    let mut engine = InputEngine::new(numbered_dict("a", 3));
    for key in ['a', '2', 'a', ' ', 'a', '\'', 'a', '\x08', '!', 'a', '\x1b', '9'] {
        engine.handle_key(key);
        assert!(engine.state().composing.is_empty());
        assert!(engine.state().current_code.len() <= engine.state().raw_keys.len());
    }
    assert_eq!(engine.state().output, "c1c0!9");
}

#[test]
fn stale_candidates_survive_another_character() {
    let mut engine = InputEngine::new(create_test_dict());
    for key in ['a', 'b', 'c'] {
        engine.handle_key(key);
    }
    assert_eq!(engine.handle_key('!'), KeyResult::Committed);
    assert_eq!(engine.candidates().len(), 1);
    assert_eq!(engine.handle_key('1'), KeyResult::Committed);
    assert_eq!(engine.state().output, "!測");
}
