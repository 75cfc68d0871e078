//! Settings and fonts: the settings file, line by line, with the values that
//! its settings take, and the list of font files that the user chooses from.

use crate::text::{
    chars_of, eq_ignore_ascii_case, find_char, lowercase, same_text, same_text_ignore_ascii_case,
    split_once, text_of, to_lowercase, trim, trim_bounds,
};
use vstd::prelude::*;
use vstd::utf8::{decode_utf8, encode_utf8, is_char_boundary};

verus! {

/// Where the table of key roots is shown.
#[derive(Debug, Clone, Copy, PartialEq, Eq, Structural)]
pub enum RootTablePosition {
    Up,
    Down,
    Left,
    Right,
}

/// The position that a lower-case name stands for.
pub open spec fn position_named(name: Seq<char>) -> Option<RootTablePosition> {
    if name == "up"@ {
        Some(RootTablePosition::Up)
    } else if name == "down"@ {
        Some(RootTablePosition::Down)
    } else if name == "left"@ {
        Some(RootTablePosition::Left)
    } else if name == "right"@ {
        Some(RootTablePosition::Right)
    } else {
        None
    }
}

impl RootTablePosition {
    /// The name of the position in the settings file.
    pub open spec fn name(self) -> Seq<char> {
        match self {
            RootTablePosition::Up => "up"@,
            RootTablePosition::Down => "down"@,
            RootTablePosition::Left => "left"@,
            RootTablePosition::Right => "right"@,
        }
    }

    /// The name of the position as shown to the user.
    pub open spec fn shown_name(self) -> Seq<char> {
        match self {
            RootTablePosition::Up => "上方"@,
            RootTablePosition::Down => "下方"@,
            RootTablePosition::Left => "左側"@,
            RootTablePosition::Right => "右側"@,
        }
    }

    /// The name of the position in the settings file.
    pub fn as_str(&self) -> (name: &'static str)
        ensures
            name@ == self.name(),
    {
        match self {
            RootTablePosition::Up => "up",
            RootTablePosition::Down => "down",
            RootTablePosition::Left => "left",
            RootTablePosition::Right => "right",
        }
    }

    /// The name of the position as shown to the user.
    pub fn display_name(&self) -> (name: &'static str)
        ensures
            name@ == self.shown_name(),
    {
        match self {
            RootTablePosition::Up => "上方",
            RootTablePosition::Down => "下方",
            RootTablePosition::Left => "左側",
            RootTablePosition::Right => "右側",
        }
    }

    /// The position with the lower-case name `name`, if it names one.
    pub fn from_lowercase(name: &str) -> (position: Option<Self>)
        ensures
            position == position_named(name@),
    {
        if same_text(name, "up") {
            Some(RootTablePosition::Up)
        } else if same_text(name, "down") {
            Some(RootTablePosition::Down)
        } else if same_text(name, "left") {
            Some(RootTablePosition::Left)
        } else if same_text(name, "right") {
            Some(RootTablePosition::Right)
        } else {
            None
        }
    }

    /// The position that `s` names, whatever the case of its letters.
    pub fn from_str(s: &str) -> (position: Option<Self>)
        ensures
            position == position_named(lowercase(s@)),
    {
        let lower = to_lowercase(s);
        Self::from_lowercase(lower.as_str())
    }
}

/// Every position is found again by its name.
pub proof fn lemma_name_names_position(position: RootTablePosition)
    ensures
        position_named(position.name()) == Some(position),
{
    reveal_strlit("up");
    reveal_strlit("down");
    reveal_strlit("left");
    reveal_strlit("right");
    assert("up"@.len() == 2 && "down"@.len() == 4 && "left"@.len() == 4 && "right"@.len() == 5);
    assert("down"@[0] == 'd' && "left"@[0] == 'l');
}

/// One setting read from a line of the settings file. The settings that
/// hold a number carry it as written.
#[derive(Debug, Clone)]
pub enum Setting {
    /// The path of the font file.
    FontPath(String),
    /// The font size, as written.
    FontSize(String),
    /// Whether the table of key roots is shown.
    ShowRootTable(bool),
    /// The scale of the table of key roots, as written.
    RootTableScale(String),
    /// The width of the window, as written.
    WindowWidth(String),
    /// The height of the window, as written.
    WindowHeight(String),
    /// Where the table of key roots is shown.
    RootTablePosition(RootTablePosition),
}

/// A setting with its texts as sequences of characters.
pub enum SettingView {
    FontPath(Seq<char>),
    FontSize(Seq<char>),
    ShowRootTable(bool),
    RootTableScale(Seq<char>),
    WindowWidth(Seq<char>),
    WindowHeight(Seq<char>),
    RootTablePosition(RootTablePosition),
}

impl View for Setting {
    type V = SettingView;

    open spec fn view(&self) -> SettingView {
        match self {
            Setting::FontPath(v) => SettingView::FontPath(v@),
            Setting::FontSize(v) => SettingView::FontSize(v@),
            Setting::ShowRootTable(v) => SettingView::ShowRootTable(*v),
            Setting::RootTableScale(v) => SettingView::RootTableScale(v@),
            Setting::WindowWidth(v) => SettingView::WindowWidth(v@),
            Setting::WindowHeight(v) => SettingView::WindowHeight(v@),
            Setting::RootTablePosition(v) => SettingView::RootTablePosition(*v),
        }
    }
}

/// The key and the value that a line of the settings file holds: what
/// stands before and after its first `=`, each without the white space
/// around it. Blank lines, lines that start with `#` or `;`, and lines
/// without `=` hold none.
pub open spec fn pair_in(line: Seq<char>) -> Option<(Seq<char>, Seq<char>)> {
    let content = trim(line);
    if content.len() == 0 || content.first() == '#' || content.first() == ';' {
        None
    } else {
        match split_once(content, '=') {
            Some((key, value)) => Some((trim(key), trim(value))),
            None => None,
        }
    }
}

/// Whether a value switches a setting on: `true` or `yes` in any case of
/// its letters, or `1`.
pub open spec fn is_on(value: Seq<char>) -> bool {
    eq_ignore_ascii_case(value, "true"@) || value == "1"@ || eq_ignore_ascii_case(value, "yes"@)
}

/// The setting that a key and its value make. An unknown key makes none,
/// and neither does a position that is not one of the four names.
pub open spec fn setting_of(key: Seq<char>, value: Seq<char>) -> Option<SettingView> {
    if key == "font_path"@ {
        Some(SettingView::FontPath(value))
    } else if key == "font_size"@ {
        Some(SettingView::FontSize(value))
    } else if key == "show_root_table"@ {
        Some(SettingView::ShowRootTable(is_on(value)))
    } else if key == "root_table_scale"@ {
        Some(SettingView::RootTableScale(value))
    } else if key == "window_width"@ {
        Some(SettingView::WindowWidth(value))
    } else if key == "window_height"@ {
        Some(SettingView::WindowHeight(value))
    } else if key == "root_table_position"@ {
        match position_named(lowercase(value)) {
            Some(position) => Some(SettingView::RootTablePosition(position)),
            None => None,
        }
    } else {
        None
    }
}

/// The setting that a line of the settings file holds, if any.
pub open spec fn setting_in(line: Seq<char>) -> Option<SettingView> {
    match pair_in(line) {
        Some((key, value)) => setting_of(key, value),
        None => None,
    }
}

/// Reads the key and the value of a line of the settings file.
pub fn parse_pair(line: &str) -> (pair: Option<(String, String)>)
    ensures
        match pair {
            Some((key, value)) => pair_in(line@) == Some((key@, value@)),
            None => pair_in(line@).is_none(),
        },
{
    let chars = chars_of(line);
    let (from, to) = trim_bounds(&chars, 0, chars.len());
    assert(chars@.subrange(0, chars@.len() as int) =~= line@);
    if from == to || chars[from] == '#' || chars[from] == ';' {
        return None;
    }
    let ghost content = chars@.subrange(from as int, to as int);
    let at = find_char(&chars, '=', from, to);
    if at == to {
        return None;
    }
    let (key_from, key_to) = trim_bounds(&chars, from, at);
    let (value_from, value_to) = trim_bounds(&chars, at + 1, to);
    proof {
        assert(content.subrange(0, at - from) =~= chars@.subrange(from as int, at as int));
        assert(content.subrange(at - from + 1, content.len() as int) =~= chars@.subrange(
            at + 1,
            to as int,
        ));
    }
    Some((text_of(&chars, key_from, key_to), text_of(&chars, value_from, value_to)))
}

/// Makes the setting of a key and its value.
pub fn make_setting(key: &str, value: String) -> (setting: Option<Setting>)
    ensures
        match setting {
            Some(s) => setting_of(key@, value@) == Some(s@),
            None => setting_of(key@, value@).is_none(),
        },
{
    if same_text(key, "font_path") {
        Some(Setting::FontPath(value))
    } else if same_text(key, "font_size") {
        Some(Setting::FontSize(value))
    } else if same_text(key, "show_root_table") {
        let on = same_text_ignore_ascii_case(value.as_str(), "true") || same_text(
            value.as_str(),
            "1",
        ) || same_text_ignore_ascii_case(value.as_str(), "yes");
        Some(Setting::ShowRootTable(on))
    } else if same_text(key, "root_table_scale") {
        Some(Setting::RootTableScale(value))
    } else if same_text(key, "window_width") {
        Some(Setting::WindowWidth(value))
    } else if same_text(key, "window_height") {
        Some(Setting::WindowHeight(value))
    } else if same_text(key, "root_table_position") {
        match RootTablePosition::from_str(value.as_str()) {
            Some(position) => Some(Setting::RootTablePosition(position)),
            None => None,
        }
    } else {
        None
    }
}

/// Reads the setting of a line of the settings file. Lines that hold no
/// setting give `None`.
pub fn parse_setting(line: &str) -> (setting: Option<Setting>)
    ensures
        match setting {
            Some(s) => setting_in(line@) == Some(s@),
            None => setting_in(line@).is_none(),
        },
{
    match parse_pair(line) {
        Some((key, value)) => make_setting(key.as_str(), value),
        None => None,
    }
}

/// A font file of the system.
#[derive(Debug, Clone)]
pub struct FontInfo {
    /// The name shown to the user.
    pub name: String,
    /// The name of the file.
    pub file_name: String,
    /// The path of the file.
    pub path: String,
}

/// A font as sequences of characters.
#[verifier::ext_equal]
pub struct FontInfoView {
    pub name: Seq<char>,
    pub file_name: Seq<char>,
    pub path: Seq<char>,
}

impl View for FontInfo {
    type V = FontInfoView;

    open spec fn view(&self) -> FontInfoView {
        FontInfoView { name: self.name@, file_name: self.file_name@, path: self.path@ }
    }
}

/// The rank of a font file by its lower-case name: the higher, the earlier
/// it is listed. Files that are not named here have rank 0.
pub open spec fn priority_named(lower: Seq<char>) -> int {
    if lower == "msjh.ttc"@ {
        100
    } else if lower == "msjh.ttf"@ {
        99
    } else if lower == "msjhbd.ttc"@ {
        98
    } else if lower == "msjhbd.ttf"@ {
        97
    } else if lower == "msyh.ttc"@ {
        90
    } else if lower == "msyh.ttf"@ {
        89
    } else if lower == "kaiu.ttf"@ {
        80
    } else if lower == "mingliu.ttc"@ {
        70
    } else if lower == "mingliu.ttf"@ {
        69
    } else {
        0
    }
}

/// The name under which a well-known font file is shown, by its lower-case
/// file name.
pub open spec fn known_font(lower: Seq<char>) -> Option<Seq<char>> {
    if lower == "msjh.ttc"@ || lower == "msjh.ttf"@ || lower == "msjhbd.ttc"@ || lower
        == "msjhbd.ttf"@ {
        Some("Microsoft JhengHei (微軟正黑體)"@)
    } else if lower == "msyh.ttc"@ || lower == "msyh.ttf"@ || lower == "msyhbd.ttc"@ || lower
        == "msyhbd.ttf"@ {
        Some("Microsoft YaHei (微軟雅黑)"@)
    } else if lower == "kaiu.ttf"@ {
        Some("DFKai-SB (標楷體)"@)
    } else if lower == "mingliu.ttc"@ || lower == "mingliu.ttf"@ {
        Some("PMingLiU (新細明體)"@)
    } else if lower == "simhei.ttf"@ {
        Some("SimHei (黑體)"@)
    } else if lower == "simsun.ttc"@ {
        Some("SimSun (宋體)"@)
    } else {
        None
    }
}

/// How many bytes of a file name are left when the four bytes of an
/// extension are cut off its end; none are left of a shorter name.
pub open spec fn stem_len(file_name: Seq<char>) -> int {
    let len = encode_utf8(file_name).len();
    if len >= 4 {
        len - 4
    } else {
        0
    }
}

/// Whether the file name can be cut four bytes before its end: no
/// character straddles that place.
pub open spec fn can_cut(file_name: Seq<char>) -> bool {
    is_char_boundary(encode_utf8(file_name), stem_len(file_name))
}

/// The file name without the four bytes of its extension.
pub open spec fn stem(file_name: Seq<char>) -> Seq<char> {
    decode_utf8(encode_utf8(file_name).subrange(0, stem_len(file_name)))
}

/// The name under which a font file is shown, from its file name and the
/// lower-case form of that name: the name of the font if the file is a
/// well-known one, else the file name without its extension. A file that
/// is not well known and whose name cannot be cut has no such name.
pub open spec fn shown_font_name(lower: Seq<char>, file_name: Seq<char>) -> Option<Seq<char>> {
    match known_font(lower) {
        Some(name) => Some(name),
        None => if can_cut(file_name) {
            Some(stem(file_name))
        } else {
            None
        },
    }
}

/// The rank of the font file with the lower-case name `lower`.
pub fn font_priority_of(lower: &str) -> (priority: i32)
    ensures
        priority == priority_named(lower@),
{
    if same_text(lower, "msjh.ttc") {
        100
    } else if same_text(lower, "msjh.ttf") {
        99
    } else if same_text(lower, "msjhbd.ttc") {
        98
    } else if same_text(lower, "msjhbd.ttf") {
        97
    } else if same_text(lower, "msyh.ttc") {
        90
    } else if same_text(lower, "msyh.ttf") {
        89
    } else if same_text(lower, "kaiu.ttf") {
        80
    } else if same_text(lower, "mingliu.ttc") {
        70
    } else if same_text(lower, "mingliu.ttf") {
        69
    } else {
        0
    }
}

/// The rank of a font file, whatever the case of the letters of its name.
pub fn get_font_priority(filename: &str) -> (priority: i32)
    ensures
        priority == priority_named(lowercase(filename@)),
{
    let lower = to_lowercase(filename);
    font_priority_of(lower.as_str())
}

/// The name of a well-known font file, by its lower-case file name.
fn known_font_name(lower: &str) -> (name: Option<&'static str>)
    ensures
        match name {
            Some(n) => known_font(lower@) == Some(n@),
            None => known_font(lower@).is_none(),
        },
{
    if same_text(lower, "msjh.ttc") || same_text(lower, "msjh.ttf") || same_text(
        lower,
        "msjhbd.ttc",
    ) || same_text(lower, "msjhbd.ttf") {
        Some("Microsoft JhengHei (微軟正黑體)")
    } else if same_text(lower, "msyh.ttc") || same_text(lower, "msyh.ttf") || same_text(
        lower,
        "msyhbd.ttc",
    ) || same_text(lower, "msyhbd.ttf") {
        Some("Microsoft YaHei (微軟雅黑)")
    } else if same_text(lower, "kaiu.ttf") {
        Some("DFKai-SB (標楷體)")
    } else if same_text(lower, "mingliu.ttc") || same_text(lower, "mingliu.ttf") {
        Some("PMingLiU (新細明體)")
    } else if same_text(lower, "simhei.ttf") {
        Some("SimHei (黑體)")
    } else if same_text(lower, "simsun.ttc") {
        Some("SimSun (宋體)")
    } else {
        None
    }
}

/// The name under which a font file is shown, from its file name and the
/// lower-case form of that name. `None` if the file is not a well-known one
/// and its name cannot be cut four bytes before its end.
pub fn font_display_name(lower: &str, filename: &str) -> (name: Option<String>)
    ensures
        match name {
            Some(n) => shown_font_name(lower@, filename@) == Some(n@),
            None => shown_font_name(lower@, filename@).is_none(),
        },
{
    match known_font_name(lower) {
        Some(name) => Some(name.to_owned()),
        None => {
            let len = filename.as_bytes().len();
            let end = if len >= 4 {
                len - 4
            } else {
                0
            };
            if !filename.is_char_boundary(end) {
                return None;
            }
            let (stem, _) = filename.split_at(end);
            proof {
                vstd::utf8::encode_utf8_decode_utf8(stem@);
            }
            Some(stem.to_owned())
        },
    }
}

/// The name under which a font file is shown: the name of the font for a
/// well-known file, whatever the case of the letters of its name, and else
/// the file name without the four bytes of its extension. `None` if the
/// name would have to be cut inside a character.
pub fn format_font_name(filename: &str) -> (name: Option<String>)
    ensures
        match name {
            Some(n) => shown_font_name(lowercase(filename@), filename@) == Some(n@),
            None => shown_font_name(lowercase(filename@), filename@).is_none(),
        },
{
    let lower = to_lowercase(filename);
    font_display_name(lower.as_str(), filename)
}

/// A file found where the system keeps its fonts.
#[derive(Debug, Clone)]
pub struct FontFile {
    /// The name of the file.
    pub file_name: String,
    /// The extension of the file, if it has one.
    pub extension: Option<String>,
    /// The path of the file.
    pub path: String,
}

/// A file as sequences of characters.
pub struct FontFileView {
    pub file_name: Seq<char>,
    pub extension: Option<Seq<char>>,
    pub path: Seq<char>,
}

impl View for FontFile {
    type V = FontFileView;

    open spec fn view(&self) -> FontFileView {
        FontFileView {
            file_name: self.file_name@,
            extension: match self.extension {
                Some(e) => Some(e@),
                None => None,
            },
            path: self.path@,
        }
    }
}

/// The views of a list of files, in order.
pub open spec fn file_views(files: Seq<FontFile>) -> Seq<FontFileView> {
    files.map_values(|f: FontFile| f@)
}

/// The views of a list of fonts, in order.
pub open spec fn font_views(fonts: Seq<FontInfo>) -> Seq<FontInfoView> {
    fonts.map_values(|f: FontInfo| f@)
}

/// Whether a lower-case extension is that of a font file.
pub open spec fn is_font_extension(lower: Seq<char>) -> bool {
    lower == "ttf"@ || lower == "ttc"@ || lower == "otf"@
}

/// Whether a file is a font file: its extension is one of a font file,
/// whatever the case of its letters.
pub open spec fn is_font_file(file: FontFileView) -> bool {
    match file.extension {
        Some(e) => is_font_extension(lowercase(e)),
        None => false,
    }
}

/// The font that a font file holds, if the file can be given a name.
pub open spec fn font_of(file: FontFileView) -> Option<FontInfoView> {
    match shown_font_name(lowercase(file.file_name), file.file_name) {
        Some(name) => Some(FontInfoView { name, file_name: file.file_name, path: file.path }),
        None => None,
    }
}

/// The fonts among `files`, in the order of the files. `None` if one of
/// the font files cannot be given a name.
pub open spec fn fonts_in(files: Seq<FontFileView>) -> Option<Seq<FontInfoView>>
    decreases files.len(),
{
    if files.len() == 0 {
        Some(Seq::empty())
    } else {
        match fonts_in(files.drop_last()) {
            Some(fonts) => if is_font_file(files.last()) {
                match font_of(files.last()) {
                    Some(font) => Some(fonts.push(font)),
                    None => None,
                }
            } else {
                Some(fonts)
            },
            None => None,
        }
    }
}

/// The fonts among the files are listed exactly when every font file can
/// be given a name, and the list then holds the font of each font file and
/// of no other file, in the order of the files.
pub proof fn lemma_fonts_in(files: Seq<FontFileView>)
    ensures
        fonts_in(files).is_some() <==> (forall|i: int|
            0 <= i < files.len() && is_font_file(#[trigger] files[i]) ==> font_of(files[i]).is_some()),
        fonts_in(files) matches Some(fonts) ==> fonts == files.filter(
            |f: FontFileView| is_font_file(f),
        ).map_values(|f: FontFileView| font_of(f).unwrap()),
    decreases files.len(),
{
    reveal(Seq::filter);
    let font_file = |f: FontFileView| is_font_file(f);
    let font = |f: FontFileView| font_of(f).unwrap();
    if files.len() > 0 {
        let before = files.drop_last();
        lemma_fonts_in(before);
        assert forall|i: int| 0 <= i < before.len() implies before[i] == files[i] by {}
        if fonts_in(files).is_some() {
            assert forall|i: int| 0 <= i < files.len() && is_font_file(#[trigger] files[i]) implies font_of(
                files[i],
            ).is_some() by {
                if i < before.len() {
                    assert(before[i] == files[i]);
                }
            }
            let fonts = fonts_in(files).unwrap();
            assert(fonts =~= files.filter(font_file).map_values(font));
        } else if fonts_in(before).is_some() {
            assert(is_font_file(files[files.len() - 1]));
        } else {
            let i = choose|i: int|
                0 <= i < before.len() && is_font_file(#[trigger] before[i]) && !font_of(before[i]).is_some();
            assert(before[i] == files[i]);
        }
    } else {
        assert(files.filter(font_file).map_values(font) =~= Seq::<FontInfoView>::empty());
    }
}

/// The rank of a font.
pub open spec fn font_priority(font: FontInfoView) -> int {
    priority_named(lowercase(font.file_name))
}

/// `list` with `font` put behind the last font whose rank is not below its own.
pub open spec fn insert_by_priority(list: Seq<FontInfoView>, font: FontInfoView) -> Seq<
    FontInfoView,
>
    decreases list.len(),
{
    if list.len() == 0 || font_priority(list.last()) >= font_priority(font) {
        list.push(font)
    } else {
        insert_by_priority(list.drop_last(), font).push(list.last())
    }
}

/// `fonts` in the order of their ranks, highest first; fonts of one rank
/// keep the order they had.
pub open spec fn by_priority(fonts: Seq<FontInfoView>) -> Seq<FontInfoView>
    decreases fonts.len(),
{
    if fonts.len() == 0 {
        Seq::empty()
    } else {
        insert_by_priority(by_priority(fonts.drop_last()), fonts.last())
    }
}

/// Whether the ranks of `list` never rise.
pub open spec fn ranks_fall(list: Seq<FontInfoView>) -> bool {
    forall|i: int, j: int| 0 <= i < j < list.len() ==> font_priority(list[i]) >= font_priority(list[j])
}

/// Putting a font into a list whose ranks never rise gives such a list
/// again, one longer; the fonts of every rank stand in it as before, with
/// the new font last among those of its own rank.
pub proof fn lemma_insert_by_priority(list: Seq<FontInfoView>, font: FontInfoView, rank: int)
    requires
        ranks_fall(list),
    ensures
        ranks_fall(insert_by_priority(list, font)),
        insert_by_priority(list, font).len() == list.len() + 1,
        insert_by_priority(list, font).filter(|f: FontInfoView| font_priority(f) == rank) == if rank
            == font_priority(font) {
            list.filter(|f: FontInfoView| font_priority(f) == rank).push(font)
        } else {
            list.filter(|f: FontInfoView| font_priority(f) == rank)
        },
        forall|i: int| 0 <= i < list.len() + 1 ==> #[trigger] insert_by_priority(list, font)[i] == font
            || list.contains(insert_by_priority(list, font)[i]),
    decreases list.len(),
{
    let of_rank = |f: FontInfoView| font_priority(f) == rank;
    let after = insert_by_priority(list, font);
    reveal(Seq::filter);
    if list.len() == 0 || font_priority(list.last()) >= font_priority(font) {
        assert(after.drop_last() =~= list);
        assert forall|i: int| 0 <= i < list.len() + 1 implies #[trigger] after[i] == font
            || list.contains(after[i]) by {
            if i < list.len() {
                assert(list[i] == after[i]);
            }
        }
    } else {
        let shorter = list.drop_last();
        assert forall|i: int, j: int| 0 <= i < j < shorter.len() implies font_priority(shorter[i])
            >= font_priority(shorter[j]) by {
            assert(shorter[i] == list[i] && shorter[j] == list[j]);
        }
        lemma_insert_by_priority(shorter, font, rank);
        let inner = insert_by_priority(shorter, font);
        assert(after.drop_last() =~= inner);
        assert forall|i: int| 0 <= i < list.len() + 1 implies #[trigger] after[i] == font
            || list.contains(after[i]) by {
            if i < inner.len() {
                assert(after[i] == inner[i]);
                if inner[i] != font {
                    let k = choose|k: int| 0 <= k < shorter.len() && shorter[k] == inner[i];
                    assert(list[k] == inner[i]);
                }
            } else {
                assert(after[i] == list[list.len() - 1]);
            }
        }
        assert forall|i: int, j: int| 0 <= i < j < after.len() implies font_priority(after[i])
            >= font_priority(after[j]) by {
            if j < inner.len() {
                assert(after[i] == inner[i] && after[j] == inner[j]);
            } else {
                assert(after[j] == list.last());
                assert(after[i] == inner[i]);
                if inner[i] != font {
                    let k = choose|k: int| 0 <= k < shorter.len() && shorter[k] == inner[i];
                    assert(list[k] == inner[i]);
                }
            }
        }
    }
}

/// Ordering by rank gives a list whose ranks never rise, as long as the
/// one it was given, in which the fonts of every rank are those of the
/// given list in their given order.
pub proof fn lemma_by_priority(fonts: Seq<FontInfoView>, rank: int)
    ensures
        ranks_fall(by_priority(fonts)),
        by_priority(fonts).len() == fonts.len(),
        by_priority(fonts).filter(|f: FontInfoView| font_priority(f) == rank) == fonts.filter(
            |f: FontInfoView| font_priority(f) == rank,
        ),
    decreases fonts.len(),
{
    reveal(Seq::filter);
    if fonts.len() > 0 {
        lemma_by_priority(fonts.drop_last(), rank);
        lemma_insert_by_priority(by_priority(fonts.drop_last()), fonts.last(), rank);
    }
}

/// Puts `font`, whose rank is `rank`, at its place in `list`.
fn insert_font(list: &mut Vec<FontInfo>, ranks: &mut Vec<i32>, font: FontInfo, rank: i32)
    requires
        old(ranks)@.len() == old(list)@.len(),
        forall|i: int|
            0 <= i < old(list)@.len() ==> old(ranks)@[i] == font_priority(
                #[trigger] old(list)@[i]@,
            ),
        rank == font_priority(font@),
    ensures
        font_views(final(list)@) == insert_by_priority(font_views(old(list)@), font@),
        final(ranks)@.len() == final(list)@.len(),
        forall|i: int|
            0 <= i < final(list)@.len() ==> final(ranks)@[i] == font_priority(
                #[trigger] final(list)@[i]@,
            ),
{
    let ghost before = font_views(list@);
    let mut at = list.len();
    assert(before.subrange(0, at as int) =~= before);
    assert(before.subrange(at as int, before.len() as int) =~= Seq::<FontInfoView>::empty());
    while at > 0 && ranks[at - 1] < rank
        invariant
            at <= list@.len(),
            list@ == old(list)@,
            ranks@ == old(ranks)@,
            ranks@.len() == list@.len(),
            before == font_views(list@),
            rank == font_priority(font@),
            forall|i: int| 0 <= i < list@.len() ==> ranks@[i] == font_priority(#[trigger] list@[i]@),
            insert_by_priority(before, font@) == insert_by_priority(
                before.subrange(0, at as int),
                font@,
            ) + before.subrange(at as int, before.len() as int),
        decreases at,
    {
        proof {
            let head = before.subrange(0, at as int);
            assert(head.last() == list@[at - 1]@);
            assert(head.drop_last() =~= before.subrange(0, at - 1));
            assert(insert_by_priority(head, font@) == insert_by_priority(
                before.subrange(0, at - 1),
                font@,
            ).push(head.last()));
            assert(insert_by_priority(before.subrange(0, at - 1), font@).push(head.last())
                + before.subrange(at as int, before.len() as int) =~= insert_by_priority(
                before.subrange(0, at - 1),
                font@,
            ) + before.subrange(at - 1, before.len() as int));
        }
        at -= 1;
    }
    proof {
        let head = before.subrange(0, at as int);
        if at > 0 {
            assert(head.last() == list@[at - 1]@);
        }
        assert(insert_by_priority(head, font@) == head.push(font@));
        assert(head.push(font@) + before.subrange(at as int, before.len() as int) =~= before.insert(
            at as int,
            font@,
        ));
    }
    list.insert(at, font);
    ranks.insert(at, rank);
    assert(font_views(list@) =~= before.insert(at as int, font@));
}

/// Whether the lower-case extension `lower` is that of a font file.
pub fn is_font_extension_name(lower: &str) -> (font: bool)
    ensures
        font == is_font_extension(lower@),
{
    same_text(lower, "ttf") || same_text(lower, "ttc") || same_text(lower, "otf")
}

/// Whether `extension` is that of a font file, whatever the case of its letters.
fn has_font_extension(extension: &Option<String>) -> (font: bool)
    ensures
        font == match extension {
            Some(e) => is_font_extension(lowercase(e@)),
            None => false,
        },
{
    match extension {
        Some(e) => {
            let lower = to_lowercase(e.as_str());
            is_font_extension_name(lower.as_str())
        },
        None => false,
    }
}

/// Lists the fonts among the files of the font directory: the files with
/// the extension `ttf`, `ttc` or `otf`, each under the name it is shown by,
/// the well-known fonts first in the order of their ranks, the others
/// behind them in the order of the files. `None` if one of the font files
/// cannot be given a name.
pub fn list_system_fonts(files: &[FontFile]) -> (fonts: Option<Vec<FontInfo>>)
    ensures
        match fonts {
            Some(list) => fonts_in(file_views(files@)) matches Some(found) && font_views(list@)
                == by_priority(found),
            None => fonts_in(file_views(files@)).is_none(),
        },
{
    let mut list: Vec<FontInfo> = Vec::new();
    let mut ranks: Vec<i32> = Vec::new();
    let mut i: usize = 0;
    assert(file_views(files@).subrange(0, 0) =~= Seq::<FontFileView>::empty());
    assert(font_views(list@) =~= Seq::<FontInfoView>::empty());
    while i < files.len()
        invariant
            i <= files@.len(),
            ranks@.len() == list@.len(),
            forall|k: int| 0 <= k < list@.len() ==> ranks@[k] == font_priority(#[trigger] list@[k]@),
            fonts_in(file_views(files@).subrange(0, i as int)) matches Some(found) && font_views(list@)
                == by_priority(found),
        decreases files@.len() - i,
    {
        let file = &files[i];
        let ghost seen = file_views(files@).subrange(0, i as int);
        let ghost next = file_views(files@).subrange(0, i + 1);
        proof {
            assert(next.drop_last() =~= seen);
            assert(next.last() == file@);
        }
        if has_font_extension(&file.extension) {
            let lower = to_lowercase(file.file_name.as_str());
            match font_display_name(lower.as_str(), file.file_name.as_str()) {
                Some(name) => {
                    let rank = font_priority_of(lower.as_str());
                    let font = FontInfo {
                        name,
                        file_name: file.file_name.clone(),
                        path: file.path.clone(),
                    };
                    proof {
                        let found = fonts_in(seen).unwrap();
                        assert(found.push(font@).drop_last() =~= found);
                    }
                    insert_font(&mut list, &mut ranks, font, rank);
                },
                None => {
                    proof {
                        lemma_fonts_in_stays_none(file_views(files@), i + 1);
                    }
                    return None;
                },
            }
        }
        i += 1;
    }
    assert(file_views(files@).subrange(0, i as int) =~= file_views(files@));
    Some(list)
}

/// Once a font file without a name is among the files, no longer list of
/// files has fonts to show.
proof fn lemma_fonts_in_stays_none(files: Seq<FontFileView>, upto: int)
    requires
        0 <= upto <= files.len(),
        fonts_in(files.subrange(0, upto)).is_none(),
    ensures
        fonts_in(files).is_none(),
    decreases files.len() - upto,
{
    if upto < files.len() {
        assert(files.subrange(0, upto + 1).drop_last() =~= files.subrange(0, upto));
        lemma_fonts_in_stays_none(files, upto + 1);
    } else {
        assert(files.subrange(0, upto) =~= files);
    }
}

/// Whether some font of the list has the path `path`.
pub open spec fn has_font_at(fonts: Seq<FontInfoView>, path: Seq<char>) -> bool {
    exists|i: int| 0 <= i < fonts.len() && (#[trigger] fonts[i]).path == path
}

/// Finds the font that is in use by its path: the place of the first font
/// with that path, or 0 if there is none.
pub fn selected_font_index(fonts: &[FontInfo], path: &str) -> (index: usize)
    ensures
        has_font_at(font_views(fonts@), path@) ==> index < fonts@.len() && fonts@[index as int].path@
            == path@,
        forall|k: int| 0 <= k < index ==> (#[trigger] fonts@[k]).path@ != path@,
        !has_font_at(font_views(fonts@), path@) ==> index == 0,
{
    let mut i: usize = 0;
    while i < fonts.len()
        invariant
            i <= fonts@.len(),
            forall|k: int| 0 <= k < i ==> (#[trigger] fonts@[k]).path@ != path@,
        decreases fonts@.len() - i,
    {
        if same_text(fonts[i].path.as_str(), path) {
            assert(font_views(fonts@)[i as int].path == path@);
            return i;
        }
        i += 1;
    }
    proof {
        if has_font_at(font_views(fonts@), path@) {
            let k = choose|k: int|
                0 <= k < fonts@.len() && (#[trigger] font_views(fonts@)[k]).path == path@;
            assert(fonts@[k].path@ == path@);
        }
    }
    0
}

} // verus!
