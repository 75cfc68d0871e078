//! The code dictionary: two tables from a code to the texts entered with it.

use crate::text::{
    chars_of, find_char, same_text, split_once, text_of, trim, trim_bounds,
};
use vstd::hash_map::StringHashMap;
use vstd::prelude::*;

verus! {

/// A table from a code to its texts, in the order in which they were added.
pub type Table = Map<Seq<char>, Seq<Seq<char>>>;

/// The two tables of a dictionary.
#[verifier::ext_equal]
pub struct DictionaryView {
    /// Single characters by code.
    pub chars: Table,
    /// Phrases by code.
    pub phrases: Table,
}

/// The texts of a stored entry.
pub open spec fn texts(entry: Seq<String>) -> Seq<Seq<char>> {
    entry.map_values(|s: String| s@)
}

/// The entry of `code` in `table`; empty where the table has none.
pub open spec fn entry_of(table: Table, code: Seq<char>) -> Seq<Seq<char>> {
    if table.contains_key(code) {
        table[code]
    } else {
        Seq::empty()
    }
}

/// `table` with `text` added at the end of the entry of `code`. Nothing is
/// added where the code or the text is empty.
pub open spec fn with_text(table: Table, code: Seq<char>, text: Seq<char>) -> Table {
    if code.len() > 0 && text.len() > 0 {
        table.insert(code, entry_of(table, code).push(text))
    } else {
        table
    }
}

/// Whether `table` has only non-empty codes, each with at least one text,
/// and no empty text.
pub open spec fn table_wf(table: Table) -> bool {
    forall|code: Seq<char>| #[trigger]
        table.contains_key(code) ==> {
            &&& code.len() > 0
            &&& table[code].len() > 0
            &&& forall|i: int| 0 <= i < table[code].len() ==> (#[trigger] table[code][i]).len() > 0
        }
}

/// The entry that a line of a table file holds: a code and a text with a tab
/// between them, each taken without the white space around it. A line that
/// is blank, starts with `#`, has no tab, or lacks the code or the text holds
/// no entry.
pub open spec fn entry_in(line: Seq<char>) -> Option<(Seq<char>, Seq<char>)> {
    let content = trim(line);
    if content.len() == 0 || content.first() == '#' {
        None
    } else {
        match split_once(content, '\t') {
            Some((code, text)) => if trim(code).len() > 0 && trim(text).len() > 0 {
                Some((trim(code), trim(text)))
            } else {
                None
            },
            None => None,
        }
    }
}

/// The line that opens the character definitions of a character table file.
pub open spec fn chardef_begin() -> Seq<char> {
    "%chardef begin"@
}

/// The line that closes the character definitions of a character table file.
pub open spec fn chardef_end() -> Seq<char> {
    "%chardef end"@
}

impl DictionaryView {
    /// The dictionary without any code.
    pub open spec fn empty() -> Self {
        DictionaryView { chars: Map::empty(), phrases: Map::empty() }
    }

    /// What holds of every dictionary: both tables are well formed.
    pub open spec fn wf(self) -> bool {
        table_wf(self.chars) && table_wf(self.phrases)
    }

    /// The dictionary with one more character under `code`.
    pub open spec fn with_char(self, code: Seq<char>, text: Seq<char>) -> Self {
        DictionaryView { chars: with_text(self.chars, code, text), ..self }
    }

    /// The dictionary with one more phrase under `code`.
    pub open spec fn with_phrase(self, code: Seq<char>, text: Seq<char>) -> Self {
        DictionaryView { phrases: with_text(self.phrases, code, text), ..self }
    }

    /// The dictionary after one line of a phrase file: the entry of the
    /// line, if it holds one, is added to the phrases.
    pub open spec fn with_phrase_line(self, line: Seq<char>) -> Self {
        match entry_in(line) {
            Some((code, text)) => self.with_phrase(code, text),
            None => self,
        }
    }

    /// The dictionary after one line of a character table file, read inside
    /// the character definitions or outside of them: only inside, and only
    /// if the line is neither of the two marks, its entry is added to the
    /// characters.
    pub open spec fn with_cin2_line(self, line: Seq<char>, in_chardef: bool) -> Self {
        if in_chardef && trim(line) != chardef_begin() && trim(line) != chardef_end() {
            match entry_in(line) {
                Some((code, text)) => self.with_char(code, text),
                None => self,
            }
        } else {
            self
        }
    }
}

/// Whether the line after `line` of a character table file stands inside
/// the character definitions: the opening mark enters them, the closing mark
/// leaves them, every other line changes nothing.
pub open spec fn in_chardef_after(line: Seq<char>, in_chardef: bool) -> bool {
    if trim(line) == chardef_begin() {
        true
    } else if trim(line) == chardef_end() {
        false
    } else {
        in_chardef
    }
}

/// Reads one line of a table file as an entry: the code and the text.
pub fn parse_entry(line: &str) -> (entry: Option<(String, String)>)
    ensures
        match entry {
            Some((code, text)) => entry_in(line@) == Some((code@, text@)),
            None => entry_in(line@).is_none(),
        },
{
    let chars = chars_of(line);
    let (from, to) = trim_bounds(&chars, 0, chars.len());
    assert(chars@.subrange(0, chars@.len() as int) =~= line@);
    if from == to || chars[from] == '#' {
        return None;
    }
    let ghost content = chars@.subrange(from as int, to as int);
    let tab = find_char(&chars, '\t', from, to);
    if tab == to {
        return None;
    }
    let (code_from, code_to) = trim_bounds(&chars, from, tab);
    let (text_from, text_to) = trim_bounds(&chars, tab + 1, to);
    proof {
        assert(content.subrange(0, tab - from) =~= chars@.subrange(from as int, tab as int));
        assert(content.subrange(tab - from + 1, content.len() as int) =~= chars@.subrange(
            tab + 1,
            to as int,
        ));
    }
    if code_from == code_to || text_from == text_to {
        return None;
    }
    Some((text_of(&chars, code_from, code_to), text_of(&chars, text_from, text_to)))
}

/// `line` without the white space at its two ends.
fn trimmed(line: &str) -> (content: String)
    ensures
        content@ == trim(line@),
{
    let chars = chars_of(line);
    let (from, to) = trim_bounds(&chars, 0, chars.len());
    assert(chars@.subrange(0, chars@.len() as int) =~= line@);
    text_of(&chars, from, to)
}

/// One stored table: the entries in the order in which their codes came,
/// and for every code the place of its entry.
struct CodeTable {
    index: StringHashMap<usize>,
    entries: Vec<Vec<String>>,
}

impl CodeTable {
    /// Every code points at an entry, and no two codes at the same one.
    spec fn wf(&self) -> bool {
        &&& forall|code: Seq<char>| #[trigger]
            self.index@.contains_key(code) ==> self.index@[code] < self.entries@.len()
        &&& forall|a: Seq<char>, b: Seq<char>|
            #![trigger self.index@[a], self.index@[b]]
            self.index@.contains_key(a) && self.index@.contains_key(b) && a != b ==> self.index@[a]
                != self.index@[b]
    }

    /// The table that is stored.
    spec fn table(&self) -> Table {
        Map::new(
            |code: Seq<char>| self.index@.contains_key(code),
            |code: Seq<char>| texts(self.entries@[self.index@[code] as int]@),
        )
    }

    fn new() -> (stored: Self)
        ensures
            stored.wf(),
            stored.table() == Map::<Seq<char>, Seq<Seq<char>>>::empty(),
    {
        let stored = CodeTable { index: StringHashMap::new(), entries: Vec::new() };
        assert(stored.table() =~= Map::<Seq<char>, Seq<Seq<char>>>::empty());
        stored
    }

    fn get(&self, code: &str) -> (r: Option<&[String]>)
        requires
            self.wf(),
        ensures
            match r {
                Some(entry) => self.table().contains_key(code@) && texts(entry@) == self.table()[code@],
                None => !self.table().contains_key(code@),
            },
    {
        match self.index.get(code) {
            Some(at) => Some(self.entries[*at].as_slice()),
            None => None,
        }
    }

    fn contains(&self, code: &str) -> (r: bool)
        ensures
            r == self.table().contains_key(code@),
    {
        self.index.contains_key(code)
    }

    fn len(&self) -> (n: usize)
        ensures
            n == self.table().len(),
    {
        assert(self.table().dom() =~= self.index@.dom());
        self.index.len()
    }

    /// Adds `text` at the end of the entry of `code`, which is created if
    /// absent. An empty code or text is not stored.
    fn push_text(&mut self, code: &str, text: &str)
        requires
            old(self).wf(),
        ensures
            final(self).wf(),
            final(self).table() == with_text(old(self).table(), code@, text@),
    {
        if code.is_empty() || text.is_empty() {
            return ;
        }
        let found = match self.index.get(code) {
            Some(at) => Some(*at),
            None => None,
        };
        match found {
            Some(at) => {
                let ghost before = self.entries@[at as int]@;
                self.entries[at].push(text.to_owned());
                assert(texts(self.entries@[at as int]@) =~= texts(before).push(text@));
            },
            None => {
                let mut entry: Vec<String> = Vec::new();
                entry.push(text.to_owned());
                assert(texts(entry@) =~= Seq::<Seq<char>>::empty().push(text@));
                let at = self.entries.len();
                self.entries.push(entry);
                self.index.insert(code.to_owned(), at);
            },
        }
        assert(self.table() =~= with_text(old(self).table(), code@, text@));
    }
}

/// A code dictionary. Lookup is by the exact code.
pub struct Dictionary {
    char_table: CodeTable,
    phrase_table: CodeTable,
}

impl View for Dictionary {
    type V = DictionaryView;

    closed spec fn view(&self) -> DictionaryView {
        DictionaryView { chars: self.char_table.table(), phrases: self.phrase_table.table() }
    }
}

impl Dictionary {
    /// Holds of every dictionary at every moment.
    #[verifier::type_invariant]
    pub closed spec fn well_formed(&self) -> bool {
        self.char_table.wf() && self.phrase_table.wf() && self@.wf()
    }

    /// An empty dictionary.
    pub fn new() -> (d: Self)
        ensures
            d@ == DictionaryView::empty(),
    {
        Dictionary { char_table: CodeTable::new(), phrase_table: CodeTable::new() }
    }

    /// Adds a character under `code`, after those already there. An empty
    /// code or text is not stored.
    pub fn insert_char(&mut self, code: &str, text: &str)
        ensures
            final(self)@ == old(self)@.with_char(code@, text@),
            final(self)@.wf(),
    {
        proof {
            use_type_invariant(&*self);
            lemma_with_text_keeps_wf(self@.chars, code@, text@);
        }
        let mut table = CodeTable::new();
        std::mem::swap(&mut table, &mut self.char_table);
        table.push_text(code, text);
        self.char_table = table;
    }

    /// Adds a phrase under `code`, after those already there. An empty code
    /// or text is not stored.
    pub fn insert_phrase(&mut self, code: &str, text: &str)
        ensures
            final(self)@ == old(self)@.with_phrase(code@, text@),
            final(self)@.wf(),
    {
        proof {
            use_type_invariant(&*self);
            lemma_with_text_keeps_wf(self@.phrases, code@, text@);
        }
        let mut table = CodeTable::new();
        std::mem::swap(&mut table, &mut self.phrase_table);
        table.push_text(code, text);
        self.phrase_table = table;
    }

    /// Takes in one line of a phrase file. A line with a code and a phrase,
    /// separated by a tab, adds the phrase under the code; blank lines,
    /// lines that start with `#` and lines without both parts are skipped.
    pub fn load_phrase_line(&mut self, line: &str)
        ensures
            final(self)@ == old(self)@.with_phrase_line(line@),
            final(self)@.wf(),
    {
        proof {
            use_type_invariant(&*self);
        }
        match parse_entry(line) {
            Some((code, text)) => {
                self.insert_phrase(code.as_str(), text.as_str());
            },
            None => {},
        }
    }

    /// Takes in one line of a character table file. `in_chardef` says
    /// whether the line stands inside the character definitions; the result
    /// says so for the next line. Inside them a line with a code and a
    /// character, separated by a tab, adds the character under the code.
    /// Everything outside them is skipped, and so are blank lines, lines that
    /// start with `#` and lines without both parts.
    pub fn load_cin2_line(&mut self, line: &str, in_chardef: bool) -> (next: bool)
        ensures
            final(self)@ == old(self)@.with_cin2_line(line@, in_chardef),
            final(self)@.wf(),
            next == in_chardef_after(line@, in_chardef),
    {
        proof {
            use_type_invariant(&*self);
        }
        let content = trimmed(line);
        if same_text(content.as_str(), "%chardef begin") {
            return true;
        }
        if same_text(content.as_str(), "%chardef end") {
            return false;
        }
        if !in_chardef {
            return false;
        }
        match parse_entry(line) {
            Some((code, text)) => {
                self.insert_char(code.as_str(), text.as_str());
            },
            None => {},
        }
        true
    }

    /// The characters entered with exactly `code`, if the table has the code.
    pub fn lookup_chars(&self, code: &str) -> (r: Option<&[String]>)
        ensures
            self@.wf(),
            match r {
                Some(entry) => self@.chars.contains_key(code@) && texts(entry@) == self@.chars[code@],
                None => !self@.chars.contains_key(code@),
            },
    {
        proof {
            use_type_invariant(self);
        }
        self.char_table.get(code)
    }

    /// The phrases entered with exactly `code`, if the table has the code.
    pub fn lookup_phrases(&self, code: &str) -> (r: Option<&[String]>)
        ensures
            self@.wf(),
            match r {
                Some(entry) => self@.phrases.contains_key(code@) && texts(entry@)
                    == self@.phrases[code@],
                None => !self@.phrases.contains_key(code@),
            },
    {
        proof {
            use_type_invariant(self);
        }
        self.phrase_table.get(code)
    }

    /// Whether either table has `code`.
    pub fn has_code(&self, code: &str) -> (r: bool)
        ensures
            r == (self@.chars.contains_key(code@) || self@.phrases.contains_key(code@)),
    {
        self.char_table.contains(code) || self.phrase_table.contains(code)
    }

    /// How many codes the character table and the phrase table hold.
    pub fn stats(&self) -> (r: (usize, usize))
        ensures
            r.0 == self@.chars.len(),
            r.1 == self@.phrases.len(),
    {
        (self.char_table.len(), self.phrase_table.len())
    }

    /// The tables of a dictionary are well formed.
    pub proof fn lemma_well_formed(&self)
        requires
            self.well_formed(),
        ensures
            self@.wf(),
    {
    }
}

impl Default for Dictionary {
    fn default() -> (d: Self)
        ensures
            d@ == DictionaryView::empty(),
    {
        Self::new()
    }
}

/// Adding a text keeps a table well formed.
pub proof fn lemma_with_text_keeps_wf(table: Table, code: Seq<char>, text: Seq<char>)
    requires
        table_wf(table),
    ensures
        table_wf(with_text(table, code, text)),
{
    let after = with_text(table, code, text);
    assert forall|c: Seq<char>| #[trigger] after.contains_key(c) implies {
        &&& c.len() > 0
        &&& after[c].len() > 0
        &&& forall|i: int| 0 <= i < after[c].len() ==> (#[trigger] after[c][i]).len() > 0
    } by {
        if c != code {
            assert(table.contains_key(c));
        }
    }
}

} // verus!
