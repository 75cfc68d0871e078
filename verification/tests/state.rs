use rustarray30::state::{Candidate, InputMode, InputState};

#[test]
fn test_state_initialization() {
    let state = InputState::new();
    assert!(state.raw_keys.is_empty());
    assert!(state.composing.is_empty());
    assert!(state.output.is_empty());
    assert_eq!(state.mode, InputMode::Normal);
}

#[test]
fn test_add_key() {
    let mut state = InputState::new();
    state.add_key('a');
    state.add_key('b');
    assert_eq!(state.raw_keys, "ab");
}

#[test]
fn state_test_backspace() {
    let mut state = InputState::new();
    state.raw_keys = "abc".to_string();
    state.current_code = "abc".to_string();
    assert!(state.backspace());
    assert_eq!(state.raw_keys, "ab");
    assert_eq!(state.current_code, "ab");
}

#[test]
fn test_commit() {
    let mut state = InputState::new();
    state.composing = "台灣".to_string();
    state.commit_composing();
    assert_eq!(state.output, "台灣");
    assert!(state.composing.is_empty());
}

#[test]
fn default_state_is_fresh() {
    let state = InputState::default();
    assert!(state.raw_keys.is_empty());
    assert!(state.current_code.is_empty());
    assert!(state.composing.is_empty());
    assert!(state.output.is_empty());
    assert_eq!(state.mode, InputMode::Normal);
    assert!(!state.has_phrase_marker);
}

#[test]
fn add_key_leaves_the_code_alone() {
    let mut state = InputState::new();
    state.add_key('x');
    assert_eq!(state.raw_keys, "x");
    assert!(state.current_code.is_empty());
    assert!(state.output.is_empty());
}

#[test]
fn backspace_on_empty_code_changes_nothing() {
    let mut state = InputState::new();
    state.raw_keys = "abc".to_string();
    state.output = "字".to_string();
    assert!(!state.backspace());
    assert_eq!(state.raw_keys, "abc");
    assert!(state.current_code.is_empty());
    assert_eq!(state.output, "字");
    assert_eq!(state.mode, InputMode::Normal);
}

#[test]
fn backspace_with_empty_key_log_changes_nothing() {
    let mut state = InputState::new();
    state.update_code("ab".to_string());
    assert!(!state.backspace());
    assert_eq!(state.current_code, "ab");
    assert!(state.raw_keys.is_empty());
}

#[test]
fn backspace_removes_one_symbol_each() {
    let mut state = InputState::new();
    state.raw_keys = "abcde".to_string();
    state.current_code = "abcd".to_string();
    assert!(state.backspace());
    assert_eq!(state.raw_keys, "abcd");
    assert_eq!(state.current_code, "abc");
}

#[test]
fn backspace_over_the_marker_leaves_phrase_mode() {
    let mut state = InputState::new();
    state.add_key('a');
    state.update_code("a".to_string());
    state.set_phrase_mode();
    assert_eq!(state.mode, InputMode::PhraseInput);
    assert!(state.has_phrase_marker);
    assert_eq!(state.raw_keys, "a'");
    assert!(state.backspace());
    assert_eq!(state.mode, InputMode::Normal);
    assert!(!state.has_phrase_marker);
    assert_eq!(state.raw_keys, "a");
    assert!(state.current_code.is_empty());
}

#[test]
fn backspace_over_another_key_keeps_phrase_mode() {
    let mut state = InputState::new();
    state.add_key('a');
    state.set_phrase_mode();
    state.add_key('b');
    state.update_code("ab".to_string());
    assert!(state.backspace());
    assert_eq!(state.mode, InputMode::PhraseInput);
    assert!(state.has_phrase_marker);
    assert_eq!(state.raw_keys, "a'");
    assert_eq!(state.current_code, "a");
}

#[test]
fn set_phrase_mode_twice_logs_one_marker() {
    let mut state = InputState::new();
    state.set_phrase_mode();
    state.set_phrase_mode();
    assert_eq!(state.mode, InputMode::PhraseInput);
    assert!(state.has_phrase_marker);
    assert_eq!(state.raw_keys, "'");
}

#[test]
fn clear_composing_keeps_the_output() {
    let mut state = InputState::new();
    state.commit_direct("好");
    state.add_key('a');
    state.update_code("a".to_string());
    state.set_phrase_mode();
    state.composing = "字".to_string();
    state.clear_composing();
    assert!(state.raw_keys.is_empty());
    assert!(state.current_code.is_empty());
    assert!(state.composing.is_empty());
    assert_eq!(state.mode, InputMode::Normal);
    assert!(!state.has_phrase_marker);
    assert_eq!(state.output, "好");
}

#[test]
fn clear_all_empties_the_output_too() {
    let mut state = InputState::new();
    state.commit_direct("好");
    state.add_key('a');
    state.clear_all();
    assert!(state.raw_keys.is_empty());
    assert!(state.output.is_empty());
}

#[test]
fn commit_composing_appends_and_abandons_the_entry() {
    let mut state = InputState::new();
    state.commit_direct("一");
    state.add_key('a');
    state.update_code("a".to_string());
    state.composing = "二".to_string();
    state.commit_composing();
    assert_eq!(state.output, "一二");
    assert!(state.raw_keys.is_empty());
    assert!(state.current_code.is_empty());
    assert!(state.composing.is_empty());
}

#[test]
fn commit_composing_without_candidate_is_a_no_op() {
    let mut state = InputState::new();
    state.add_key('a');
    state.update_code("a".to_string());
    state.commit_composing();
    assert_eq!(state.raw_keys, "a");
    assert_eq!(state.current_code, "a");
    assert!(state.output.is_empty());
}

#[test]
fn commit_direct_touches_only_the_output() {
    let mut state = InputState::new();
    state.add_key('a');
    state.update_code("a".to_string());
    state.commit_direct("5");
    state.commit_direct("！");
    assert_eq!(state.output, "5！");
    assert_eq!(state.raw_keys, "a");
    assert_eq!(state.current_code, "a");
}

#[test]
fn hint_depends_on_the_mode() {
    let mut state = InputState::new();
    assert_eq!(
        state.get_hint(),
        "提示：按 ' 進入詞彙輸入；空白鍵上第一候選；數字鍵選字；Esc 清空"
    );
    state.set_phrase_mode();
    assert_eq!(state.get_hint(), "詞彙模式：輸入四碼後會自動查找詞庫");
}

#[test]
fn candidate_constructors_set_the_table_flag() {
    let c = Candidate::char("測".to_string(), "abc".to_string());
    assert_eq!(c.text, "測");
    assert_eq!(c.code, "abc");
    assert!(!c.is_phrase);
    let p = Candidate::phrase("測試".to_string(), "abcd".to_string());
    assert_eq!(p.text, "測試");
    assert_eq!(p.code, "abcd");
    assert!(p.is_phrase);
    let n = Candidate::new("x".to_string(), "y".to_string(), true);
    assert!(n.is_phrase);
}
