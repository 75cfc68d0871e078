//! The engine: it feeds key strokes to the buffers, looks the code up in the
//! dictionary, and pages through and commits the candidates.

use crate::dict::{entry_of, texts, Dictionary, DictionaryView};
use crate::keymap::{is_code_key, Array30Key, PHRASE_MARKER};
use crate::state::{
    candidate_views, lemma_operations_keep_wf, Candidate, CandidateView, InputMode, InputState,
    InputStateView, MAX_CODE_LEN,
};
use vstd::prelude::*;
use vstd::string::StrSliceExecFns;

verus! {

/// How many candidates one page shows.
pub const PAGE_SIZE: usize = 9;

/// What a key stroke did, as far as the caller has to react to it.
#[derive(Debug, Clone, Copy, PartialEq, Eq, Structural)]
pub enum KeyResult {
    /// Nothing changed.
    NoChange,
    /// The display has to be redrawn.
    NeedUpdate,
    /// Text reached the output.
    Committed,
}

/// The candidates that the texts of one dictionary entry give for `code`.
pub open spec fn candidates_from(entry: Seq<Seq<char>>, code: Seq<char>, is_phrase: bool) -> Seq<
    CandidateView,
> {
    entry.map_values(|text: Seq<char>| CandidateView { text, code, is_phrase })
}

/// The candidate list of a code. An empty code has none. In phrase mode the
/// phrases of the code are the list, if there are any; in every other case
/// the list is the characters of the code. The tables are never mixed and
/// their order is kept.
pub open spec fn resolve(dict: DictionaryView, mode: InputMode, code: Seq<char>) -> Seq<
    CandidateView,
> {
    if code.len() == 0 {
        Seq::empty()
    } else if mode == InputMode::PhraseInput && entry_of(dict.phrases, code).len() > 0 {
        candidates_from(entry_of(dict.phrases, code), code, true)
    } else {
        candidates_from(entry_of(dict.chars, code), code, false)
    }
}

/// The kinds of key stroke that the engine tells apart.
pub enum KeyKind {
    /// The phrase marker.
    Marker,
    /// Backspace or delete.
    Backspace,
    /// Escape.
    Escape,
    /// Enter, carriage return or space.
    Commit,
    /// A digit, with the place on the page that it selects.
    Digit(nat),
    /// A key of the layout.
    Code,
    /// Anything else.
    Literal,
}

/// The kind of a typed character. A digit `1` to `9` selects the places 0 to
/// 8 of a page, and `0` the place 9.
pub open spec fn key_kind(key: char) -> KeyKind {
    if key == PHRASE_MARKER {
        KeyKind::Marker
    } else if key == '\x08' || key == '\x7f' {
        KeyKind::Backspace
    } else if key == '\x1b' {
        KeyKind::Escape
    } else if key == '\n' || key == '\r' || key == ' ' {
        KeyKind::Commit
    } else if '1' <= key <= '9' {
        KeyKind::Digit((key as int - '1' as int) as nat)
    } else if key == '0' {
        KeyKind::Digit(9)
    } else if is_code_key(key) {
        KeyKind::Code
    } else {
        KeyKind::Literal
    }
}

/// What the engine holds: the dictionary, the buffers, the candidate list
/// and the page that is shown.
#[verifier::ext_equal]
pub struct EngineView {
    pub dict: DictionaryView,
    pub state: InputStateView,
    pub candidates: Seq<CandidateView>,
    pub page_index: nat,
}

impl EngineView {
    /// A fresh engine over `dict`.
    pub open spec fn initial(dict: DictionaryView) -> Self {
        EngineView { dict, state: InputStateView::initial(), candidates: Seq::empty(), page_index: 0 }
    }

    /// What holds of every engine: dictionary and buffers are well formed,
    /// no candidate is held back from the output, no candidate has an empty
    /// text, and the shown page starts inside the candidate list, or is
    /// page 0.
    pub open spec fn wf(self) -> bool {
        &&& self.dict.wf()
        &&& self.state.wf()
        &&& self.state.composing.len() == 0
        &&& forall|i: int|
            0 <= i < self.candidates.len() ==> (#[trigger] self.candidates[i]).text.len() > 0
        &&& (self.page_index == 0 || self.page_index * PAGE_SIZE < self.candidates.len())
    }

    /// The place in the candidate list at which the shown page starts.
    pub open spec fn page_start(self) -> nat {
        self.page_index * (PAGE_SIZE as nat)
    }

    /// The number of pages: the candidates divided by the page size, rounded up.
    pub open spec fn page_count(self) -> nat {
        (self.candidates.len() + PAGE_SIZE - 1) as nat / (PAGE_SIZE as nat)
    }

    /// The candidates on the shown page.
    pub open spec fn current_page(self) -> Seq<CandidateView> {
        let start = self.page_start() as int;
        let end = if start + PAGE_SIZE <= self.candidates.len() {
            start + PAGE_SIZE
        } else {
            self.candidates.len() as int
        };
        self.candidates.subrange(start, end)
    }

    /// The engine without candidates, on page 0.
    pub open spec fn without_candidates(self) -> Self {
        EngineView { candidates: Seq::empty(), page_index: 0, ..self }
    }

    /// The engine after the candidates were looked up again for the current
    /// code and mode.
    pub open spec fn refresh(self) -> Self {
        EngineView {
            candidates: resolve(self.dict, self.state.mode, self.state.current_code),
            page_index: 0,
            ..self
        }
    }

    /// The place in the candidate list of the place `index` of the shown page.
    pub open spec fn absolute(self, index: nat) -> int {
        (self.page_start() + index) as int
    }

    /// Whether the place `index` of the shown page holds a candidate.
    pub open spec fn can_select(self, index: nat) -> bool {
        self.absolute(index) < self.candidates.len()
    }

    /// The engine after the candidate at place `index` of the shown page was
    /// chosen: its text is held and committed at once, and the candidate list
    /// is dropped. Where the place holds no candidate nothing changes.
    pub open spec fn select(self, index: nat) -> Self {
        if self.can_select(index) {
            let chosen = self.candidates[self.absolute(index)];
            EngineView {
                state: self.state.hold(chosen.text).commit_composing(),
                candidates: Seq::empty(),
                page_index: 0,
                ..self
            }
        } else {
            self
        }
    }

    /// Whether a page follows the shown one.
    pub open spec fn has_next_page(self) -> bool {
        self.page_index + 1 < self.page_count()
    }

    /// The engine one page further, if there is a further page.
    pub open spec fn next_page(self) -> Self {
        if self.has_next_page() {
            EngineView { page_index: self.page_index + 1, ..self }
        } else {
            self
        }
    }

    /// The engine one page back, if it is not on page 0.
    pub open spec fn prev_page(self) -> Self {
        if self.page_index > 0 {
            EngineView { page_index: (self.page_index - 1) as nat, ..self }
        } else {
            self
        }
    }

    /// The engine after one key stroke.
    pub open spec fn on_key(self, key: char) -> Self {
        match key_kind(key) {
            KeyKind::Marker => {
                if 1 <= self.state.current_code.len() <= MAX_CODE_LEN {
                    EngineView { state: self.state.set_phrase_mode(), ..self }.refresh()
                } else {
                    self
                }
            },
            KeyKind::Backspace => {
                let cleared = self.without_candidates();
                if self.state.can_backspace() {
                    EngineView { state: self.state.backspace(), ..cleared }.refresh()
                } else {
                    cleared
                }
            },
            KeyKind::Escape => {
                EngineView { state: self.state.clear_composing(), ..self.without_candidates() }
            },
            KeyKind::Commit => {
                if self.candidates.len() > 0 {
                    self.select(0)
                } else {
                    self
                }
            },
            KeyKind::Digit(place) => {
                if self.candidates.len() > 0 {
                    self.select(place)
                } else {
                    EngineView { state: self.state.commit_direct(seq![key]), ..self }
                }
            },
            KeyKind::Code => {
                EngineView {
                    state: self.state.add_key(key).extend_code(key),
                    ..self.without_candidates()
                }.refresh()
            },
            KeyKind::Literal => {
                let state = if self.state.current_code.len() > 0 {
                    self.state.clear_composing()
                } else {
                    self.state
                };
                EngineView { state: state.commit_direct(seq![key]), ..self }
            },
        }
    }

    /// What the key stroke reports to the caller.
    pub open spec fn key_result(self, key: char) -> KeyResult {
        match key_kind(key) {
            KeyKind::Marker | KeyKind::Backspace | KeyKind::Escape | KeyKind::Code => {
                KeyResult::NeedUpdate
            },
            KeyKind::Commit => {
                if self.candidates.len() > 0 || self.state.current_code.len() > 0 {
                    KeyResult::NeedUpdate
                } else {
                    KeyResult::NoChange
                }
            },
            KeyKind::Digit(place) => {
                if self.candidates.len() > 0 && !self.can_select(place) {
                    KeyResult::NeedUpdate
                } else {
                    KeyResult::Committed
                }
            },
            KeyKind::Literal => KeyResult::Committed,
        }
    }

    /// The engine after the key strokes `keys`, first to last.
    pub open spec fn on_keys(self, keys: Seq<char>) -> Self
        decreases keys.len(),
    {
        if keys.len() == 0 {
            self
        } else {
            self.on_keys(keys.drop_last()).on_key(keys.last())
        }
    }
}

/// Every candidate that a well-formed dictionary gives has a text.
pub proof fn lemma_resolved_have_text(dict: DictionaryView, mode: InputMode, code: Seq<char>)
    requires
        dict.wf(),
    ensures
        forall|i: int|
            0 <= i < resolve(dict, mode, code).len() ==> (#[trigger] resolve(
                dict,
                mode,
                code,
            )[i]).text.len() > 0,
{
    let list = resolve(dict, mode, code);
    assert forall|i: int| 0 <= i < list.len() implies (#[trigger] list[i]).text.len() > 0 by {
        if mode == InputMode::PhraseInput && entry_of(dict.phrases, code).len() > 0 {
            assert(dict.phrases.contains_key(code));
            assert(list[i].text == dict.phrases[code][i]);
        } else {
            assert(dict.chars.contains_key(code));
            assert(list[i].text == dict.chars[code][i]);
        }
    }
}

/// The texts of a candidate list, in order.
pub open spec fn candidate_texts(list: Seq<CandidateView>) -> Seq<Seq<char>> {
    list.map_values(|c: CandidateView| c.text)
}

/// After a fresh lookup in phrase mode, a code with phrases has exactly
/// those phrases as its candidates, in their order, whatever the character
/// table holds.
pub proof fn lemma_phrases_take_precedence(v: EngineView)
    requires
        v.dict.wf(),
        v.state.mode == InputMode::PhraseInput,
        v.dict.phrases.contains_key(v.state.current_code),
        v.dict.phrases[v.state.current_code].len() > 0,
    ensures
        candidate_texts(v.refresh().candidates) == v.dict.phrases[v.state.current_code],
        forall|i: int|
            0 <= i < v.refresh().candidates.len() ==> (#[trigger] v.refresh().candidates[i]).is_phrase,
{
    let code = v.state.current_code;
    assert(code.len() > 0);
    assert(candidate_texts(v.refresh().candidates) =~= v.dict.phrases[code]);
}

/// After a fresh lookup in normal mode, or in phrase mode for a code without
/// phrases, the candidates are exactly the characters of the code, in their
/// order, and there are none where the character table lacks the code.
pub proof fn lemma_characters_otherwise(v: EngineView)
    requires
        v.dict.wf(),
        v.state.mode == InputMode::Normal || !v.dict.phrases.contains_key(v.state.current_code),
    ensures
        v.dict.chars.contains_key(v.state.current_code) ==> candidate_texts(v.refresh().candidates)
            == v.dict.chars[v.state.current_code],
        !v.dict.chars.contains_key(v.state.current_code) ==> v.refresh().candidates.len() == 0,
        forall|i: int|
            0 <= i < v.refresh().candidates.len() ==> !(#[trigger] v.refresh().candidates[i]).is_phrase,
{
    let code = v.state.current_code;
    if v.dict.chars.contains_key(code) {
        assert(code.len() > 0);
        assert(candidate_texts(v.refresh().candidates) =~= v.dict.chars[code]);
    }
}

/// A fresh lookup changes neither the buffers nor the dictionary, shows
/// page 0, and gives every candidate the current code.
pub proof fn lemma_refresh(v: EngineView)
    ensures
        v.refresh().state == v.state,
        v.refresh().dict == v.dict,
        v.refresh().page_index == 0,
        forall|i: int|
            0 <= i < v.refresh().candidates.len() ==> (#[trigger] v.refresh().candidates[i]).code
                == v.state.current_code,
{
}

/// Choosing a place that holds no candidate changes nothing.
pub proof fn lemma_select_out_of_range(v: EngineView, index: nat)
    requires
        v.absolute(index) >= v.candidates.len(),
    ensures
        !v.can_select(index),
        v.select(index) == v,
{
}

/// Choosing a candidate appends its text to the output as it stands and
/// empties the code, the key log, the held candidate and the candidate list.
pub proof fn lemma_select_commits(v: EngineView, index: nat)
    requires
        v.wf(),
        v.can_select(index),
    ensures
        v.select(index).state.output == v.state.output + v.candidates[v.absolute(index)].text,
        v.select(index).state.current_code.len() == 0,
        v.select(index).state.raw_keys.len() == 0,
        v.select(index).state.composing.len() == 0,
        v.select(index).state.mode == InputMode::Normal,
        v.select(index).candidates.len() == 0,
        v.select(index).page_index == 0,
        v.select(index).wf(),
{
    let chosen = v.candidates[v.absolute(index)];
    assert(chosen.text.len() > 0);
    lemma_operations_keep_wf(v.state, ' ', chosen.text);
    lemma_operations_keep_wf(v.state.hold(chosen.text), ' ', chosen.text);
}

/// A key stroke keeps a well-formed engine well formed.
pub proof fn lemma_on_key_keeps_wf(v: EngineView, key: char)
    requires
        v.wf(),
    ensures
        v.on_key(key).wf(),
{
    lemma_operations_keep_wf(v.state, key, seq![key]);
    lemma_operations_keep_wf(v.state.add_key(key), key, seq![key]);
    lemma_operations_keep_wf(v.state.clear_composing(), key, seq![key]);
    let next = v.on_key(key);
    lemma_resolved_have_text(next.dict, next.state.mode, next.state.current_code);
    match key_kind(key) {
        KeyKind::Commit => {
            if v.candidates.len() > 0 {
                lemma_select_commits(v, 0);
            }
        },
        KeyKind::Digit(place) => {
            if v.candidates.len() > 0 && v.can_select(place) {
                lemma_select_commits(v, place);
            }
        },
        _ => {},
    }
}

/// A key stroke never takes committed text back: the output before it is
/// the start of the output after it.
pub proof fn lemma_output_only_grows(v: EngineView, key: char)
    requires
        v.wf(),
    ensures
        v.state.output.is_prefix_of(v.on_key(key).state.output),
{
    match key_kind(key) {
        KeyKind::Commit => {
            if v.candidates.len() > 0 {
                lemma_select_commits(v, 0);
            }
        },
        KeyKind::Digit(place) => {
            if v.candidates.len() > 0 && v.can_select(place) {
                lemma_select_commits(v, place);
            }
        },
        _ => {},
    }
    let after = v.on_key(key).state.output;
    assert(after.subrange(0, v.state.output.len() as int) =~= v.state.output);
}

/// Whatever keys are typed, in whatever order, the engine stays well formed:
/// in particular the code never has more than `MAX_CODE_LEN` symbols.
pub proof fn lemma_code_stays_bounded(v: EngineView, keys: Seq<char>)
    requires
        v.wf(),
    ensures
        v.on_keys(keys).wf(),
        v.on_keys(keys).state.current_code.len() <= MAX_CODE_LEN,
    decreases keys.len(),
{
    if keys.len() > 0 {
        lemma_code_stays_bounded(v, keys.drop_last());
        lemma_on_key_keeps_wf(v.on_keys(keys.drop_last()), keys.last());
    }
}

/// A page shows at most `PAGE_SIZE` candidates, and the candidate at place
/// `i` of the page is the one that choosing place `i` commits.
pub proof fn lemma_page_places(v: EngineView, i: nat)
    requires
        v.wf(),
    ensures
        v.current_page().len() <= PAGE_SIZE,
        v.candidates.len() > 0 ==> v.current_page().len() > 0,
        i < v.current_page().len() ==> v.can_select(i) && v.current_page()[i as int]
            == v.candidates[v.absolute(i)],
{
}

/// Turning pages only changes which page is shown: the candidates, the
/// buffers and the dictionary stay, and the engine stays well formed. A page
/// follows exactly when candidates are left behind the shown one, and
/// turning on and back shows the same page again.
pub proof fn lemma_paging_is_a_view(v: EngineView)
    requires
        v.wf(),
    ensures
        v.next_page().wf() && v.prev_page().wf(),
        v.next_page() == (EngineView { page_index: v.next_page().page_index, ..v }),
        v.prev_page() == (EngineView { page_index: v.prev_page().page_index, ..v }),
        v.has_next_page() <==> v.page_start() + PAGE_SIZE < v.candidates.len(),
        v.has_next_page() ==> v.next_page().prev_page() == v,
{
}

/// Appends to `list` the candidates that `entry` gives for `code`.
fn push_candidates(list: &mut Vec<Candidate>, entry: &[String], code: &String, is_phrase: bool)
    ensures
        candidate_views(final(list)@) == candidate_views(old(list)@) + candidates_from(
            texts(entry@),
            code@,
            is_phrase,
        ),
{
    let n = entry.len();
    let mut i: usize = 0;
    assert(candidate_views(list@) =~= candidate_views(old(list)@) + candidates_from(
        texts(entry@),
        code@,
        is_phrase,
    ).subrange(0, 0));
    while i < n
        invariant
            n == entry@.len(),
            i <= n,
            candidate_views(list@) == candidate_views(old(list)@) + candidates_from(
                texts(entry@),
                code@,
                is_phrase,
            ).subrange(0, i as int),
        decreases n - i,
    {
        let ghost before = list@;
        let candidate = Candidate::new(entry[i].clone(), code.clone(), is_phrase);
        list.push(candidate);
        assert(candidate_views(list@) =~= candidate_views(before).push(candidate@));
        i += 1;
        assert(candidate_views(list@) =~= candidate_views(old(list)@) + candidates_from(
            texts(entry@),
            code@,
            is_phrase,
        ).subrange(0, i as int));
    }
    assert(candidates_from(texts(entry@), code@, is_phrase).subrange(0, n as int)
        =~= candidates_from(texts(entry@), code@, is_phrase));
}

/// The text made of the one character `c`.
fn char_text(c: char) -> (text: String)
    ensures
        text@ == seq![c],
{
    let mut text = String::new();
    text.push(c);
    assert(text@ =~= seq![c]);
    text
}

/// The input engine. It owns the dictionary, the buffers and the candidate
/// list; callers feed it one key at a time and read the buffers and the shown
/// page back.
pub struct InputEngine {
    dict: Dictionary,
    state: InputState,
    candidates: Vec<Candidate>,
    page_index: usize,
}

impl View for InputEngine {
    type V = EngineView;

    closed spec fn view(&self) -> EngineView {
        EngineView {
            dict: self.dict@,
            state: self.state@,
            candidates: candidate_views(self.candidates@),
            page_index: self.page_index as nat,
        }
    }
}

impl InputEngine {
    /// Holds of every engine at every moment.
    #[verifier::type_invariant]
    pub open spec fn well_formed(&self) -> bool {
        self@.wf()
    }

    /// A fresh engine over `dict`.
    pub fn new(dict: Dictionary) -> (engine: Self)
        ensures
            engine@ == EngineView::initial(dict@),
            engine@.wf(),
    {
        proof {
            use_type_invariant(&dict);
            dict.lemma_well_formed();
        }
        let engine = InputEngine {
            dict,
            state: InputState::new(),
            candidates: Vec::new(),
            page_index: 0,
        };
        assert(engine@.candidates =~= Seq::empty());
        engine
    }

    /// Replaces the dictionary. The buffers and the candidate list stay.
    pub fn load_dict(&mut self, dict: Dictionary)
        ensures
            final(self)@ == (EngineView { dict: dict@, ..old(self)@ }),
            final(self)@.wf(),
    {
        proof {
            use_type_invariant(&*self);
            use_type_invariant(&dict);
            dict.lemma_well_formed();
        }
        self.dict = dict;
    }

    /// The buffers.
    pub fn state(&self) -> (state: &InputState)
        ensures
            state@ == self@.state,
            self@.wf(),
    {
        proof {
            use_type_invariant(self);
        }
        &self.state
    }

    /// The whole candidate list.
    pub fn candidates(&self) -> (list: &[Candidate])
        ensures
            candidate_views(list@) == self@.candidates,
            self@.wf(),
    {
        proof {
            use_type_invariant(self);
        }
        self.candidates.as_slice()
    }

    /// Empties every buffer, the output too. The candidate list stays.
    pub fn clear_output(&mut self)
        ensures
            final(self)@ == (EngineView { state: InputStateView::initial(), ..old(self)@ }),
            final(self)@.wf(),
    {
        proof {
            use_type_invariant(&*self);
        }
        self.state = InputState::new();
    }

    /// Takes the buffers out for editing and leaves fresh ones in their place.
    fn take_state(&mut self) -> (state: InputState)
        ensures
            state@ == old(self)@.state,
            final(self)@ == (EngineView { state: InputStateView::initial(), ..old(self)@ }),
            final(self).well_formed(),
    {
        proof {
            use_type_invariant(&*self);
        }
        let mut state = InputState::new();
        std::mem::swap(&mut state, &mut self.state);
        state
    }

    /// Drops the candidate list and shows page 0.
    fn drop_candidates(&mut self)
        ensures
            final(self)@ == old(self)@.without_candidates(),
            final(self).well_formed(),
    {
        proof {
            use_type_invariant(&*self);
        }
        self.page_index = 0;
        self.candidates = Vec::new();
        assert(candidate_views(self.candidates@) =~= Seq::<CandidateView>::empty());
    }

    /// Handles one key stroke.
    ///
    /// - The phrase marker, with a code of one to `MAX_CODE_LEN` symbols,
    ///   enters phrase mode and looks the candidates up again; with any other
    ///   code it is ignored.
    /// - Backspace and delete drop the candidate list and take back the last
    ///   key; if a key was taken back the candidates are looked up again.
    /// - Escape abandons the entry and the candidate list; the output stays.
    /// - Enter, carriage return and space choose the first candidate of the
    ///   shown page, if there are candidates.
    /// - A digit chooses a place of the shown page if there are candidates,
    ///   and is committed as text if there are none.
    /// - A key of the layout is logged and, while the code is shorter than
    ///   `MAX_CODE_LEN`, added to the code; the candidates are looked up again.
    /// - Any other character abandons a pending code and is committed as text.
    ///
    /// The result is `Committed` when text reached the output (a digit that
    /// chose a candidate or was committed itself, or another character),
    /// `NoChange` for a commit key with neither candidates nor a code, and
    /// `NeedUpdate` otherwise.
    pub fn handle_key(&mut self, key: char) -> (result: KeyResult)
        ensures
            final(self)@ == old(self)@.on_key(key),
            result == old(self)@.key_result(key),
            final(self)@.wf(),
    {
        proof {
            use_type_invariant(&*self);
            lemma_operations_keep_wf(self@.state, key, seq![key]);
            lemma_operations_keep_wf(self@.state.add_key(key), key, seq![key]);
            lemma_operations_keep_wf(self@.state.clear_composing(), key, seq![key]);
            assert(self@.candidates.len() == self.candidates@.len());
        }
        match key {
            '\'' => {
                let n = self.state.current_code.as_str().unicode_len();
                if 1 <= n && n <= MAX_CODE_LEN {
                    let mut state = self.take_state();
                    state.set_phrase_mode();
                    self.state = state;
                    self.update_candidates();
                }
                KeyResult::NeedUpdate
            },
            '\x08' | '\x7f' => {
                self.drop_candidates();
                let mut state = self.take_state();
                let removed = state.backspace();
                self.state = state;
                if removed {
                    self.update_candidates();
                }
                KeyResult::NeedUpdate
            },
            '\x1b' => {
                self.drop_candidates();
                let mut state = self.take_state();
                state.clear_composing();
                self.state = state;
                KeyResult::NeedUpdate
            },
            '\n' | '\r' | ' ' => {
                if !self.candidates.is_empty() {
                    self.select_candidate(0);
                    KeyResult::NeedUpdate
                } else if !self.state.current_code.as_str().is_empty() {
                    KeyResult::NeedUpdate
                } else {
                    KeyResult::NoChange
                }
            },
            '0'..='9' => {
                if !self.candidates.is_empty() {
                    let place: usize = if key == '0' {
                        9
                    } else {
                        (key as usize) - ('1' as usize)
                    };
                    if self.select_candidate(place) {
                        KeyResult::Committed
                    } else {
                        KeyResult::NeedUpdate
                    }
                } else {
                    let text = char_text(key);
                    let mut state = self.take_state();
                    state.commit_direct(text.as_str());
                    self.state = state;
                    KeyResult::Committed
                }
            },
            c if Array30Key::from_char(c).is_some() => {
                self.drop_candidates();
                let mut state = self.take_state();
                state.add_key(c);
                if state.current_code.as_str().unicode_len() < MAX_CODE_LEN {
                    state.current_code.push(c);
                }
                self.state = state;
                self.update_candidates();
                KeyResult::NeedUpdate
            },
            _ => {
                let text = char_text(key);
                let mut state = self.take_state();
                if !state.current_code.as_str().is_empty() {
                    state.clear_composing();
                }
                state.commit_direct(text.as_str());
                self.state = state;
                KeyResult::Committed
            },
        }
    }

    /// Looks the candidates up again for the current code and mode, and
    /// shows page 0. In phrase mode the phrases of the code are the list if
    /// the phrase table has the code; otherwise, and in normal mode, the list
    /// is the characters of the code, or empty if the character table lacks
    /// it. An empty code has no candidates.
    pub fn update_candidates(&mut self)
        ensures
            final(self)@ == old(self)@.refresh(),
            final(self)@.wf(),
    {
        proof {
            use_type_invariant(&*self);
            lemma_resolved_have_text(self@.dict, self@.state.mode, self@.state.current_code);
        }
        self.page_index = 0;
        let mut list: Vec<Candidate> = Vec::new();
        assert(candidate_views(list@) =~= Seq::<CandidateView>::empty());
        if !self.state.current_code.as_str().is_empty() {
            if self.state.mode == InputMode::PhraseInput {
                match self.dict.lookup_phrases(self.state.current_code.as_str()) {
                    Some(entry) => {
                        push_candidates(&mut list, entry, &self.state.current_code, true);
                    },
                    None => {},
                }
            }
            if list.is_empty() {
                match self.dict.lookup_chars(self.state.current_code.as_str()) {
                    Some(entry) => {
                        push_candidates(&mut list, entry, &self.state.current_code, false);
                    },
                    None => {},
                }
            }
        }
        assert(candidate_views(list@) =~= old(self)@.refresh().candidates);
        self.candidates = list;
    }

    /// Chooses the candidate at place `index` of the shown page. If the
    /// place holds a candidate, its text goes to the output, the code, the
    /// key log and the candidate list are emptied, and `true` is returned;
    /// otherwise nothing changes and `false` is returned.
    pub fn select_candidate(&mut self, index: usize) -> (chosen: bool)
        ensures
            chosen == old(self)@.can_select(index as nat),
            final(self)@ == old(self)@.select(index as nat),
            final(self)@.wf(),
    {
        proof {
            use_type_invariant(&*self);
            assert(self@.candidates.len() == self.candidates@.len());
        }
        let len = self.candidates.len();
        let start = self.page_index * PAGE_SIZE;
        if index < len - start {
            let text = self.candidates[start + index].text.clone();
            proof {
                assert(text@ == self@.candidates[start + index].text);
                lemma_operations_keep_wf(self@.state, ' ', text@);
                lemma_operations_keep_wf(self@.state.hold(text@), ' ', text@);
            }
            self.drop_candidates();
            let mut state = self.take_state();
            state.composing = text;
            state.commit_composing();
            self.state = state;
            true
        } else {
            false
        }
    }

    /// The candidates on the shown page: up to `PAGE_SIZE` of them, from the
    /// start of the page on.
    pub fn current_page_candidates(&self) -> (page: &[Candidate])
        ensures
            candidate_views(page@) == self@.current_page(),
            self@.wf(),
    {
        proof {
            use_type_invariant(self);
            assert(self@.candidates.len() == self.candidates@.len());
        }
        let len = self.candidates.len();
        let start = self.page_index * PAGE_SIZE;
        let end = if len - start >= PAGE_SIZE {
            start + PAGE_SIZE
        } else {
            len
        };
        let page = vstd::slice::slice_subrange(self.candidates.as_slice(), start, end);
        assert(candidate_views(page@) =~= self@.current_page());
        page
    }

    /// Shows the next page, if there is one, and says whether it did. The
    /// candidate list is not looked up again.
    pub fn next_page(&mut self) -> (moved: bool)
        ensures
            moved == old(self)@.has_next_page(),
            final(self)@ == old(self)@.next_page(),
            final(self)@.wf(),
    {
        proof {
            use_type_invariant(&*self);
            assert(self@.candidates.len() == self.candidates@.len());
        }
        let len = self.candidates.len();
        let start = self.page_index * PAGE_SIZE;
        if len - start > PAGE_SIZE {
            self.page_index = self.page_index + 1;
            true
        } else {
            false
        }
    }

    /// Shows the page before, unless page 0 is shown, and says whether it did.
    pub fn prev_page(&mut self) -> (moved: bool)
        ensures
            moved == (old(self)@.page_index > 0),
            final(self)@ == old(self)@.prev_page(),
            final(self)@.wf(),
    {
        proof {
            use_type_invariant(&*self);
        }
        if self.page_index > 0 {
            self.page_index = self.page_index - 1;
            true
        } else {
            false
        }
    }

    /// A copy of the committed text.
    pub fn get_output_text(&self) -> (text: String)
        ensures
            text@ == self@.state.output,
    {
        self.state.output.clone()
    }
}

} // verus!
