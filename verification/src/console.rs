//! The console front end without its terminal: which action a key of the
//! terminal stands for, and the session that carries the actions out.

use crate::dict::Dictionary;
use crate::input_engine::{lemma_page_places, EngineView, InputEngine, PAGE_SIZE};
use crate::state::{candidate_views, hint_text, Candidate, CandidateView};
use vstd::prelude::*;
use vstd::string::StringExecFns;

verus! {

/// A key of the terminal, as far as the front end tells keys apart.
#[derive(Debug, Clone, Copy, PartialEq, Eq, Structural)]
pub enum ConsoleKey {
    /// A key that types a character.
    Char(char),
    Backspace,
    Enter,
    Esc,
    Tab,
    PageDown,
    PageUp,
    /// Any other key.
    Other,
}

/// A key press with the modifiers that were held.
#[derive(Debug, Clone, Copy, PartialEq, Eq, Structural)]
pub struct ConsoleKeyEvent {
    pub key: ConsoleKey,
    pub control: bool,
    pub shift: bool,
}

/// What a key press asks for.
#[derive(Debug, Clone, Copy, PartialEq, Eq, Structural)]
pub enum ConsoleAction {
    /// Leave the program.
    Quit,
    /// Hand this character to the engine.
    Key(char),
    /// Show the next page of candidates.
    NextPage,
    /// Show the page before.
    PrevPage,
    /// Nothing.
    Ignore,
}

/// The action of a key press. Control with `c` or `q` quits. Backspace,
/// enter and escape reach the engine as the control characters that stand
/// for them, and every typed character as itself. Page down and tab turn to
/// the next page; page up turns back only with shift held.
pub open spec fn action_of(event: ConsoleKeyEvent) -> ConsoleAction {
    match event.key {
        ConsoleKey::Char(c) => if (c == 'c' || c == 'q') && event.control {
            ConsoleAction::Quit
        } else {
            ConsoleAction::Key(c)
        },
        ConsoleKey::Backspace => ConsoleAction::Key('\x08'),
        ConsoleKey::Enter => ConsoleAction::Key('\n'),
        ConsoleKey::Esc => ConsoleAction::Key('\x1b'),
        ConsoleKey::Tab | ConsoleKey::PageDown => ConsoleAction::NextPage,
        ConsoleKey::PageUp => if event.shift {
            ConsoleAction::PrevPage
        } else {
            ConsoleAction::Ignore
        },
        ConsoleKey::Other => ConsoleAction::Ignore,
    }
}

/// The engine after `action` was carried out; quitting leaves it as it is.
pub open spec fn engine_after(engine: EngineView, action: ConsoleAction) -> EngineView {
    match action {
        ConsoleAction::Key(c) => engine.on_key(c),
        ConsoleAction::NextPage => engine.next_page(),
        ConsoleAction::PrevPage => engine.prev_page(),
        ConsoleAction::Quit | ConsoleAction::Ignore => engine,
    }
}

/// Whether `c` is a visible ASCII character: an ASCII character that is no
/// control character. The space counts as visible.
pub open spec fn is_visible_ascii(c: char) -> bool {
    0x20 <= c as u32 <= 0x7e
}

/// Whether typed text that holds `c` hands it to the engine: only visible
/// ASCII characters are handed on.
pub fn accepts_text_char(c: char) -> (accepted: bool)
    ensures
        accepted == is_visible_ascii(c),
{
    ' ' <= c && c <= '~'
}

/// Finds the action of a key press.
pub fn console_action(event: ConsoleKeyEvent) -> (action: ConsoleAction)
    ensures
        action == action_of(event),
{
    match event.key {
        ConsoleKey::Char(c) => {
            if (c == 'c' || c == 'q') && event.control {
                ConsoleAction::Quit
            } else {
                ConsoleAction::Key(c)
            }
        },
        ConsoleKey::Backspace => ConsoleAction::Key('\x08'),
        ConsoleKey::Enter => ConsoleAction::Key('\n'),
        ConsoleKey::Esc => ConsoleAction::Key('\x1b'),
        ConsoleKey::Tab | ConsoleKey::PageDown => ConsoleAction::NextPage,
        ConsoleKey::PageUp => {
            if event.shift {
                ConsoleAction::PrevPage
            } else {
                ConsoleAction::Ignore
            }
        },
        ConsoleKey::Other => ConsoleAction::Ignore,
    }
}

/// Carries out a key press on `engine` and says whether it asked to quit.
pub fn handle_console_key_event(engine: &mut InputEngine, event: ConsoleKeyEvent) -> (quit: bool)
    ensures
        quit == (action_of(event) == ConsoleAction::Quit),
        final(engine)@ == engine_after(old(engine)@, action_of(event)),
{
    match console_action(event) {
        ConsoleAction::Quit => true,
        ConsoleAction::Key(c) => {
            engine.handle_key(c);
            false
        },
        ConsoleAction::NextPage => {
            engine.next_page();
            false
        },
        ConsoleAction::PrevPage => {
            engine.prev_page();
            false
        },
        ConsoleAction::Ignore => false,
    }
}

/// The decimal digit for `n`, which is below ten.
pub open spec fn digit_char(n: int) -> char {
    ('0' as u8 + n) as char
}

/// The candidates of a page up to place `count`, each as its number in
/// square brackets, its text and a space. Numbers start at 1.
pub open spec fn numbered(page: Seq<CandidateView>, count: nat) -> Seq<char>
    decreases count,
{
    if count == 0 {
        Seq::empty()
    } else {
        numbered(page, (count - 1) as nat) + seq!['[', digit_char(count as int), ']'] + page[count
            - 1].text + seq![' ']
    }
}

/// The lines that show the editing area: the code and the candidates of
/// the page, or a note that there are none, or a note that no code is typed.
pub open spec fn editing_lines(engine: EngineView) -> Seq<Seq<char>> {
    if engine.state.current_code.len() == 0 {
        seq!["編輯區：（空）"@]
    } else if engine.current_page().len() == 0 {
        seq!["編輯區：碼 = "@ + engine.state.current_code, "編輯區：無候選字"@]
    } else {
        seq![
            "編輯區：碼 = "@ + engine.state.current_code,
            "候選："@ + numbered(engine.current_page(), engine.current_page().len()),
        ]
    }
}

/// The text of the output area: the committed text, or a note that there is none.
pub open spec fn output_line(engine: EngineView) -> Seq<char> {
    "輸出區："@ + if engine.state.output.len() == 0 {
        "（空）"@
    } else {
        engine.state.output
    }
}

/// The whole screen, line by line: the title, the typed keys, the editing
/// area, the output, the hint for the mode, and how to leave; blank lines
/// part them.
pub open spec fn screen_of(engine: EngineView) -> Seq<Seq<char>> {
    seq![
        "行列 30 輸入法 - 終端機模式"@,
        Seq::empty(),
        "鍵盤輸入："@ + engine.state.raw_keys,
        Seq::empty(),
    ] + editing_lines(engine) + seq![
        Seq::empty(),
        output_line(engine),
        Seq::empty(),
        "提示："@ + hint_text(engine.state.mode),
        Seq::empty(),
        "按 Ctrl+C 或 Ctrl+Q 離開"@,
    ]
}

/// The texts of a list of lines.
pub open spec fn line_texts(lines: Seq<String>) -> Seq<Seq<char>> {
    lines.map_values(|line: String| line@)
}

/// `label` followed by `text`.
fn labelled(label: &str, text: &str) -> (line: String)
    ensures
        line@ == label@ + text@,
{
    let mut line = label.to_owned();
    line.append(text);
    line
}

/// The candidates of a page, numbered from 1.
fn numbered_line(page: &[Candidate]) -> (line: String)
    requires
        page@.len() <= PAGE_SIZE,
    ensures
        line@ == numbered(candidate_views(page@), page@.len()),
{
    let mut line = String::new();
    let mut i: usize = 0;
    while i < page.len()
        invariant
            i <= page@.len() <= PAGE_SIZE,
            line@ == numbered(candidate_views(page@), i as nat),
        decreases page@.len() - i,
    {
        let digit = (('0' as u8) + ((i + 1) as u8)) as char;
        line.push('[');
        line.push(digit);
        line.push(']');
        line.append(page[i].text.as_str());
        line.push(' ');
        i += 1;
        assert(line@ =~= numbered(candidate_views(page@), i as nat));
    }
    line
}

/// Composes the screen for the state of `engine`, line by line.
pub fn render_screen(engine: &InputEngine) -> (lines: Vec<String>)
    ensures
        line_texts(lines@) == screen_of(engine@),
{
    let state = engine.state();
    let page = engine.current_page_candidates();
    proof {
        lemma_page_places(engine@, 0);
        assert(candidate_views(page@).len() == page@.len());
    }
    let mut lines: Vec<String> = Vec::new();
    lines.push("行列 30 輸入法 - 終端機模式".to_owned());
    lines.push(String::new());
    lines.push(labelled("鍵盤輸入：", state.raw_keys.as_str()));
    lines.push(String::new());
    if state.current_code.as_str().is_empty() {
        lines.push("編輯區：（空）".to_owned());
    } else {
        lines.push(labelled("編輯區：碼 = ", state.current_code.as_str()));
        if page.is_empty() {
            lines.push("編輯區：無候選字".to_owned());
        } else {
            let list = numbered_line(page);
            lines.push(labelled("候選：", list.as_str()));
        }
    }
    lines.push(String::new());
    if state.output.as_str().is_empty() {
        lines.push(labelled("輸出區：", "（空）"));
    } else {
        lines.push(labelled("輸出區：", state.output.as_str()));
    }
    lines.push(String::new());
    let hint = state.get_hint();
    lines.push(labelled("提示：", hint.as_str()));
    lines.push(String::new());
    lines.push("按 Ctrl+C 或 Ctrl+Q 離開".to_owned());
    assert(line_texts(lines@) =~= screen_of(engine@));
    lines
}

/// A console session: the engine, and whether the user asked to quit.
pub struct ConsoleApp {
    engine: InputEngine,
    should_quit: bool,
}

impl ConsoleApp {
    /// The engine of the session.
    pub closed spec fn engine_view(&self) -> EngineView {
        self.engine@
    }

    /// Whether the user asked to quit.
    pub closed spec fn quit_requested(&self) -> bool {
        self.should_quit
    }

    /// A session over `dict` that has seen no key.
    pub fn new(dict: Dictionary) -> (app: Self)
        ensures
            app.engine_view() == EngineView::initial(dict@),
            !app.quit_requested(),
    {
        ConsoleApp { engine: InputEngine::new(dict), should_quit: false }
    }

    /// The engine, for display.
    pub fn engine(&self) -> (engine: &InputEngine)
        ensures
            engine@ == self.engine_view(),
    {
        &self.engine
    }

    /// Whether the user asked to quit.
    pub fn should_quit(&self) -> (quit: bool)
        ensures
            quit == self.quit_requested(),
    {
        self.should_quit
    }

    /// Carries out a key press. A request to quit is remembered; it is
    /// never taken back by a later key.
    pub fn handle_key_event(&mut self, event: ConsoleKeyEvent)
        ensures
            final(self).engine_view() == engine_after(old(self).engine_view(), action_of(event)),
            final(self).quit_requested() == (old(self).quit_requested() || action_of(event)
                == ConsoleAction::Quit),
    {
        if handle_console_key_event(&mut self.engine, event) {
            self.should_quit = true;
        }
    }
}

} // verus!
