//! The text buffers of one editing session and the operations that edit them.

use crate::keymap::{is_code_key, PHRASE_MARKER};
use vstd::prelude::*;
use vstd::string::StringExecFns;

verus! {

/// The longest code, in symbols.
pub const MAX_CODE_LEN: usize = 4;

/// Which table a code is looked up in first.
#[derive(Debug, Clone, Copy, PartialEq, Eq, Structural)]
pub enum InputMode {
    /// Single characters.
    Normal,
    /// Phrases; entered with the phrase marker.
    PhraseInput,
}

/// The buffers of one editing session.
#[derive(Debug, Clone)]
pub struct InputState {
    /// Every key typed since the buffers were last cleared, the phrase marker included.
    pub raw_keys: String,
    /// A resolved candidate that waits to be committed.
    pub composing: String,
    /// All committed text.
    pub output: String,
    /// The current lookup mode.
    pub mode: InputMode,
    /// The code typed so far.
    pub current_code: String,
    /// Whether a phrase marker is recorded in `raw_keys`.
    pub has_phrase_marker: bool,
}

/// The buffers as sequences of characters.
#[verifier::ext_equal]
pub struct InputStateView {
    pub raw_keys: Seq<char>,
    pub composing: Seq<char>,
    pub output: Seq<char>,
    pub mode: InputMode,
    pub current_code: Seq<char>,
    pub has_phrase_marker: bool,
}

impl View for InputState {
    type V = InputStateView;

    open spec fn view(&self) -> InputStateView {
        InputStateView {
            raw_keys: self.raw_keys@,
            composing: self.composing@,
            output: self.output@,
            mode: self.mode,
            current_code: self.current_code@,
            has_phrase_marker: self.has_phrase_marker,
        }
    }
}

impl InputStateView {
    /// The state of a fresh session: every buffer empty, normal mode.
    pub open spec fn initial() -> Self {
        InputStateView {
            raw_keys: Seq::empty(),
            composing: Seq::empty(),
            output: Seq::empty(),
            mode: InputMode::Normal,
            current_code: Seq::empty(),
            has_phrase_marker: false,
        }
    }

    /// What holds of a session that is edited by key strokes: the code has at
    /// most `MAX_CODE_LEN` symbols, each of them a code key, and is no longer
    /// than the key log; the marker flag is set exactly in phrase mode; and in
    /// phrase mode the key log still holds a marker.
    pub open spec fn wf(self) -> bool {
        &&& self.current_code.len() <= MAX_CODE_LEN
        &&& self.current_code.len() <= self.raw_keys.len()
        &&& forall|i: int|
            0 <= i < self.current_code.len() ==> is_code_key(#[trigger] self.current_code[i])
        &&& self.has_phrase_marker <==> self.mode == InputMode::PhraseInput
        &&& self.mode == InputMode::PhraseInput ==> self.raw_keys.contains(PHRASE_MARKER)
    }

    /// The state with `text` as the held candidate.
    pub open spec fn hold(self, text: Seq<char>) -> Self {
        InputStateView { composing: text, ..self }
    }

    /// The state after `key` was added to the code, which happens only while
    /// the code is shorter than `MAX_CODE_LEN`.
    pub open spec fn extend_code(self, key: char) -> Self {
        if self.current_code.len() < MAX_CODE_LEN {
            InputStateView { current_code: self.current_code.push(key), ..self }
        } else {
            self
        }
    }

    /// The state after `key` was logged.
    pub open spec fn add_key(self, key: char) -> Self {
        InputStateView { raw_keys: self.raw_keys.push(key), ..self }
    }

    /// The state after phrase mode was requested: from normal mode the marker
    /// is logged and the mode changes; in phrase mode nothing happens.
    pub open spec fn set_phrase_mode(self) -> Self {
        if self.mode == InputMode::PhraseInput {
            self
        } else {
            InputStateView {
                raw_keys: self.raw_keys.push(PHRASE_MARKER),
                mode: InputMode::PhraseInput,
                has_phrase_marker: true,
                ..self
            }
        }
    }

    /// The state with `code` as the current code.
    pub open spec fn update_code(self, code: Seq<char>) -> Self {
        InputStateView { current_code: code, ..self }
    }

    /// The state after the current entry was abandoned; `output` stays.
    pub open spec fn clear_composing(self) -> Self {
        InputStateView { output: self.output, ..Self::initial() }
    }

    /// The state after the held candidate, if any, was committed.
    pub open spec fn commit_composing(self) -> Self {
        if self.composing.len() > 0 {
            InputStateView { output: self.output + self.composing, ..Self::initial() }
        } else {
            self
        }
    }

    /// The state after `text` was appended to the output.
    pub open spec fn commit_direct(self, text: Seq<char>) -> Self {
        InputStateView { output: self.output + text, ..self }
    }

    /// Whether a back step removes anything: both the code and the key log
    /// must have a last symbol.
    pub open spec fn can_backspace(self) -> bool {
        self.current_code.len() > 0 && self.raw_keys.len() > 0
    }

    /// The state after one back step: the last symbol of the code and the
    /// last logged key leave together, and when that key was the phrase
    /// marker the mode returns to normal. Where there is nothing to remove
    /// the state stays as it is.
    pub open spec fn backspace(self) -> Self {
        if self.can_backspace() {
            let leaves_phrase_mode = self.raw_keys.last() == PHRASE_MARKER;
            InputStateView {
                raw_keys: self.raw_keys.drop_last(),
                current_code: self.current_code.drop_last(),
                mode: if leaves_phrase_mode {
                    InputMode::Normal
                } else {
                    self.mode
                },
                has_phrase_marker: if leaves_phrase_mode {
                    false
                } else {
                    self.has_phrase_marker
                },
                ..self
            }
        } else {
            self
        }
    }
}

/// The guidance shown in each mode.
pub open spec fn hint_text(mode: InputMode) -> Seq<char> {
    match mode {
        InputMode::Normal => "提示：按 ' 進入詞彙輸入；空白鍵上第一候選；數字鍵選字；Esc 清空"@,
        InputMode::PhraseInput => "詞彙模式：輸入四碼後會自動查找詞庫"@,
    }
}

impl InputState {
    /// A fresh session.
    pub fn new() -> (s: Self)
        ensures
            s@ == InputStateView::initial(),
    {
        InputState {
            raw_keys: String::new(),
            composing: String::new(),
            output: String::new(),
            mode: InputMode::Normal,
            current_code: String::new(),
            has_phrase_marker: false,
        }
    }

    /// Abandons the current entry: the key log, the code and the held
    /// candidate are emptied and the mode is normal again. The output stays.
    pub fn clear_composing(&mut self)
        ensures
            final(self)@ == old(self)@.clear_composing(),
    {
        self.raw_keys = String::new();
        self.composing = String::new();
        self.current_code = String::new();
        self.has_phrase_marker = false;
        self.mode = InputMode::Normal;
    }

    /// Empties every buffer, the output too.
    pub fn clear_all(&mut self)
        ensures
            final(self)@ == InputStateView::initial(),
    {
        self.clear_composing();
        self.output = String::new();
    }

    /// Logs one key. The code is not touched.
    pub fn add_key(&mut self, key: char)
        ensures
            final(self)@ == old(self)@.add_key(key),
    {
        self.raw_keys.push(key);
    }

    /// Enters phrase mode and logs the marker. In phrase mode it does nothing.
    pub fn set_phrase_mode(&mut self)
        ensures
            final(self)@ == old(self)@.set_phrase_mode(),
    {
        if self.mode == InputMode::Normal {
            self.mode = InputMode::PhraseInput;
            self.has_phrase_marker = true;
            self.add_key(PHRASE_MARKER);
        }
    }

    /// Replaces the current code.
    pub fn update_code(&mut self, code: String)
        ensures
            final(self)@ == old(self)@.update_code(code@),
    {
        self.current_code = code;
    }

    /// Moves the held candidate to the output and abandons the rest of the
    /// entry. With no candidate held it does nothing.
    pub fn commit_composing(&mut self)
        ensures
            final(self)@ == old(self)@.commit_composing(),
    {
        if !self.composing.as_str().is_empty() {
            let text = self.composing.clone();
            self.output.append(text.as_str());
            self.clear_composing();
        }
    }

    /// Appends `text` to the output; nothing else changes.
    pub fn commit_direct(&mut self, text: &str)
        ensures
            final(self)@ == old(self)@.commit_direct(text@),
    {
        self.output.append(text);
    }

    /// Takes back the last key: removes the last symbol of the code together
    /// with the last logged key, and leaves phrase mode when that key was the
    /// marker. Returns whether anything was removed.
    pub fn backspace(&mut self) -> (removed: bool)
        ensures
            removed == old(self)@.can_backspace(),
            final(self)@ == old(self)@.backspace(),
    {
        if self.current_code.as_str().is_empty() || self.raw_keys.as_str().is_empty() {
            return false;
        }
        self.current_code.pop();
        match self.raw_keys.pop() {
            Some(c) => {
                if c == PHRASE_MARKER {
                    self.mode = InputMode::Normal;
                    self.has_phrase_marker = false;
                }
            },
            None => {},
        }
        true
    }

    /// The guidance for the current mode.
    pub fn get_hint(&self) -> (hint: String)
        ensures
            hint@ == hint_text(self.mode),
    {
        match self.mode {
            InputMode::Normal => "提示：按 ' 進入詞彙輸入；空白鍵上第一候選；數字鍵選字；Esc 清空".to_owned(),
            InputMode::PhraseInput => "詞彙模式：輸入四碼後會自動查找詞庫".to_owned(),
        }
    }
}

/// One text that the current code stands for.
#[derive(Debug, Clone)]
pub struct Candidate {
    /// The character or phrase.
    pub text: String,
    /// The code that produced it.
    pub code: String,
    /// Whether it came from the phrase table.
    pub is_phrase: bool,
}

/// A candidate as sequences of characters.
#[verifier::ext_equal]
pub struct CandidateView {
    pub text: Seq<char>,
    pub code: Seq<char>,
    pub is_phrase: bool,
}

impl View for Candidate {
    type V = CandidateView;

    open spec fn view(&self) -> CandidateView {
        CandidateView { text: self.text@, code: self.code@, is_phrase: self.is_phrase }
    }
}

/// The views of a list of candidates, in order.
pub open spec fn candidate_views(list: Seq<Candidate>) -> Seq<CandidateView> {
    list.map_values(|c: Candidate| c@)
}

impl Candidate {
    /// A candidate with the given parts.
    pub fn new(text: String, code: String, is_phrase: bool) -> (c: Self)
        ensures
            c@ == (CandidateView { text: text@, code: code@, is_phrase }),
    {
        Candidate { text, code, is_phrase }
    }

    /// A candidate from the character table.
    pub fn char(text: String, code: String) -> (c: Self)
        ensures
            c@ == (CandidateView { text: text@, code: code@, is_phrase: false }),
    {
        Self::new(text, code, false)
    }

    /// A candidate from the phrase table.
    pub fn phrase(text: String, code: String) -> (c: Self)
        ensures
            c@ == (CandidateView { text: text@, code: code@, is_phrase: true }),
    {
        Self::new(text, code, true)
    }
}

/// A back step takes the last symbol of the code and the last logged key
/// together or takes nothing: on an empty code, or an empty key log, the
/// state is unchanged; otherwise both lose exactly their last element. The
/// output and the held candidate are never touched.
pub proof fn lemma_backspace_in_step(s: InputStateView)
    ensures
        !s.can_backspace() ==> s.backspace() == s,
        s.current_code.len() == 0 ==> !s.can_backspace(),
        s.can_backspace() ==> s.backspace().current_code == s.current_code.drop_last()
            && s.backspace().raw_keys == s.raw_keys.drop_last(),
        s.current_code.len() - s.backspace().current_code.len() == s.raw_keys.len()
            - s.backspace().raw_keys.len(),
        s.current_code.len() - s.backspace().current_code.len() <= 1,
        s.backspace().output == s.output,
        s.backspace().composing == s.composing,
{
}

/// In a well-formed state a back step removes something exactly when the
/// code is not empty: the key log then has a key to give up with it.
pub proof fn lemma_backspace_needs_only_a_code(s: InputStateView)
    requires
        s.wf(),
    ensures
        s.can_backspace() <==> s.current_code.len() > 0,
{
}

/// Every operation on the buffers keeps a well-formed state well formed.
/// Adding a key to the code does so for a code key that was logged just
/// before, and replacing the code does so when the new code is made of code
/// keys and no longer than `MAX_CODE_LEN` and the key log.
pub proof fn lemma_operations_keep_wf(s: InputStateView, key: char, text: Seq<char>)
    requires
        s.wf(),
    ensures
        InputStateView::initial().wf(),
        s.add_key(key).wf(),
        s.set_phrase_mode().wf(),
        s.clear_composing().wf(),
        s.hold(text).wf(),
        s.commit_composing().wf(),
        s.commit_direct(text).wf(),
        s.backspace().wf(),
        is_code_key(key) ==> s.add_key(key).extend_code(key).wf(),
        text.len() <= MAX_CODE_LEN && text.len() <= s.raw_keys.len() && (forall|i: int|
            0 <= i < text.len() ==> is_code_key(#[trigger] text[i])) ==> s.update_code(text).wf(),
{
    let marked = s.raw_keys.push(PHRASE_MARKER);
    assert(marked[marked.len() - 1] == PHRASE_MARKER);
    if s.mode == InputMode::PhraseInput {
        let i = choose|i: int| 0 <= i < s.raw_keys.len() && s.raw_keys[i] == PHRASE_MARKER;
        assert(s.raw_keys.push(key)[i] == PHRASE_MARKER);
        if s.can_backspace() && s.raw_keys.last() != PHRASE_MARKER {
            assert(s.raw_keys.drop_last()[i] == PHRASE_MARKER);
        }
    }
}

impl Default for InputState {
    fn default() -> (s: Self)
        ensures
            s@ == InputStateView::initial(),
    {
        Self::new()
    }
}

} // verus!
