//! The thirty keys of the Array30 layout and the characters that name them.

use crate::text::ascii_lower;
use vstd::prelude::*;

verus! {

/// One of the thirty keys of the layout: the letters and four punctuation keys.
#[derive(Debug, Clone, Copy, PartialEq, Eq, Hash, Structural)]
pub enum Array30Key {
    A,
    B,
    C,
    D,
    E,
    F,
    G,
    H,
    I,
    J,
    K,
    L,
    M,
    N,
    O,
    P,
    Q,
    R,
    S,
    T,
    U,
    V,
    W,
    X,
    Y,
    Z,
    Period,
    Slash,
    Semicolon,
    Comma,
}

/// The key stroke that switches the engine to phrase lookup.
pub const PHRASE_MARKER: char = '\'';

/// The code symbol that a typed character stands for: letters count without
/// their case, and the phrase marker shares the symbol of the slash key.
pub open spec fn typed_symbol(c: char) -> char {
    if c == PHRASE_MARKER {
        '/'
    } else {
        ascii_lower(c)
    }
}

/// Whether some key of the layout is written with `s`.
pub open spec fn is_code_symbol(s: char) -> bool {
    exists|k: Array30Key| #[trigger] k.symbol() == s
}

/// The key that a typed character selects, if any: the one key whose symbol
/// is the character's `typed_symbol`.
pub open spec fn key_of(c: char) -> Option<Array30Key> {
    if is_code_symbol(typed_symbol(c)) {
        Some(choose|k: Array30Key| #[trigger] k.symbol() == typed_symbol(c))
    } else {
        None
    }
}

/// Whether a typed character selects a key of the layout.
pub open spec fn is_mapped(c: char) -> bool {
    key_of(c) is Some
}

/// Whether a typed character can stand in a code: it selects a key and is
/// not the phrase marker.
pub open spec fn is_code_key(c: char) -> bool {
    is_mapped(c) && c != PHRASE_MARKER
}

impl Array30Key {
    /// The character with which this key is written in a code.
    pub open spec fn symbol(self) -> char {
        match self {
            Array30Key::A => 'a',
            Array30Key::B => 'b',
            Array30Key::C => 'c',
            Array30Key::D => 'd',
            Array30Key::E => 'e',
            Array30Key::F => 'f',
            Array30Key::G => 'g',
            Array30Key::H => 'h',
            Array30Key::I => 'i',
            Array30Key::J => 'j',
            Array30Key::K => 'k',
            Array30Key::L => 'l',
            Array30Key::M => 'm',
            Array30Key::N => 'n',
            Array30Key::O => 'o',
            Array30Key::P => 'p',
            Array30Key::Q => 'q',
            Array30Key::R => 'r',
            Array30Key::S => 's',
            Array30Key::T => 't',
            Array30Key::U => 'u',
            Array30Key::V => 'v',
            Array30Key::W => 'w',
            Array30Key::X => 'x',
            Array30Key::Y => 'y',
            Array30Key::Z => 'z',
            Array30Key::Period => '.',
            Array30Key::Slash => '/',
            Array30Key::Semicolon => ';',
            Array30Key::Comma => ',',
        }
    }

    /// Looks up the key that a typed character selects.
    pub fn from_char(c: char) -> (r: Option<Self>)
        ensures
            r == key_of(c),
    {
        let r = match c {
            'a' | 'A' => Some(Array30Key::A),
            'b' | 'B' => Some(Array30Key::B),
            'c' | 'C' => Some(Array30Key::C),
            'd' | 'D' => Some(Array30Key::D),
            'e' | 'E' => Some(Array30Key::E),
            'f' | 'F' => Some(Array30Key::F),
            'g' | 'G' => Some(Array30Key::G),
            'h' | 'H' => Some(Array30Key::H),
            'i' | 'I' => Some(Array30Key::I),
            'j' | 'J' => Some(Array30Key::J),
            'k' | 'K' => Some(Array30Key::K),
            'l' | 'L' => Some(Array30Key::L),
            'm' | 'M' => Some(Array30Key::M),
            'n' | 'N' => Some(Array30Key::N),
            'o' | 'O' => Some(Array30Key::O),
            'p' | 'P' => Some(Array30Key::P),
            'q' | 'Q' => Some(Array30Key::Q),
            'r' | 'R' => Some(Array30Key::R),
            's' | 'S' => Some(Array30Key::S),
            't' | 'T' => Some(Array30Key::T),
            'u' | 'U' => Some(Array30Key::U),
            'v' | 'V' => Some(Array30Key::V),
            'w' | 'W' => Some(Array30Key::W),
            'x' | 'X' => Some(Array30Key::X),
            'y' | 'Y' => Some(Array30Key::Y),
            'z' | 'Z' => Some(Array30Key::Z),
            '.' => Some(Array30Key::Period),
            '/' => Some(Array30Key::Slash),
            ';' => Some(Array30Key::Semicolon),
            ',' => Some(Array30Key::Comma),
            '\'' => Some(Array30Key::Slash),
            _ => None,
        };
        proof {
            match r {
                Some(k) => {
                    assert(k.symbol() == typed_symbol(c));
                    lemma_symbols_differ(
                        k,
                        choose|j: Array30Key| #[trigger] j.symbol() == typed_symbol(c),
                    );
                },
                None => {
                    assert forall|k: Array30Key| #[trigger] k.symbol() != typed_symbol(c) by {}
                },
            }
        }
        r
    }

    /// The character with which this key is written in a code.
    pub fn code_char(&self) -> (c: char)
        ensures
            c == self.symbol(),
    {
        match self {
            Array30Key::A => 'a',
            Array30Key::B => 'b',
            Array30Key::C => 'c',
            Array30Key::D => 'd',
            Array30Key::E => 'e',
            Array30Key::F => 'f',
            Array30Key::G => 'g',
            Array30Key::H => 'h',
            Array30Key::I => 'i',
            Array30Key::J => 'j',
            Array30Key::K => 'k',
            Array30Key::L => 'l',
            Array30Key::M => 'm',
            Array30Key::N => 'n',
            Array30Key::O => 'o',
            Array30Key::P => 'p',
            Array30Key::Q => 'q',
            Array30Key::R => 'r',
            Array30Key::S => 's',
            Array30Key::T => 't',
            Array30Key::U => 'u',
            Array30Key::V => 'v',
            Array30Key::W => 'w',
            Array30Key::X => 'x',
            Array30Key::Y => 'y',
            Array30Key::Z => 'z',
            Array30Key::Period => '.',
            Array30Key::Slash => '/',
            Array30Key::Semicolon => ';',
            Array30Key::Comma => ',',
        }
    }
}

/// No two keys are written with the same symbol.
pub proof fn lemma_symbols_differ(j: Array30Key, k: Array30Key)
    ensures
        j.symbol() == k.symbol() <==> j == k,
{
}

/// Typing a key's own symbol selects that key.
pub proof fn lemma_symbol_selects_key(k: Array30Key)
    ensures
        key_of(k.symbol()) == Some(k),
{
    let s = typed_symbol(k.symbol());
    assert(s == k.symbol());
    lemma_symbols_differ(k, choose|j: Array30Key| #[trigger] j.symbol() == s);
}

/// The typed characters that select a key are the ASCII letters in either
/// case, the four punctuation keys, and the phrase marker.
pub proof fn lemma_mapped_characters(c: char)
    ensures
        is_mapped(c) <==> ('a' <= c <= 'z' || 'A' <= c <= 'Z' || c == '.' || c == '/' || c == ';'
            || c == ',' || c == PHRASE_MARKER),
{
    let s = typed_symbol(c);
    if 'a' <= s <= 'z' || s == '.' || s == '/' || s == ';' || s == ',' {
        let k = letter_witness(s);
        assert(k.symbol() == s);
    } else {
        assert forall|k: Array30Key| #[trigger] k.symbol() != s by {}
    }
}

/// A key written with `s`, for each symbol of the layout.
spec fn letter_witness(s: char) -> Array30Key {
    if s == 'a' { Array30Key::A }
    else if s == 'b' { Array30Key::B }
    else if s == 'c' { Array30Key::C }
    else if s == 'd' { Array30Key::D }
    else if s == 'e' { Array30Key::E }
    else if s == 'f' { Array30Key::F }
    else if s == 'g' { Array30Key::G }
    else if s == 'h' { Array30Key::H }
    else if s == 'i' { Array30Key::I }
    else if s == 'j' { Array30Key::J }
    else if s == 'k' { Array30Key::K }
    else if s == 'l' { Array30Key::L }
    else if s == 'm' { Array30Key::M }
    else if s == 'n' { Array30Key::N }
    else if s == 'o' { Array30Key::O }
    else if s == 'p' { Array30Key::P }
    else if s == 'q' { Array30Key::Q }
    else if s == 'r' { Array30Key::R }
    else if s == 's' { Array30Key::S }
    else if s == 't' { Array30Key::T }
    else if s == 'u' { Array30Key::U }
    else if s == 'v' { Array30Key::V }
    else if s == 'w' { Array30Key::W }
    else if s == 'x' { Array30Key::X }
    else if s == 'y' { Array30Key::Y }
    else if s == 'z' { Array30Key::Z }
    else if s == '.' { Array30Key::Period }
    else if s == '/' { Array30Key::Slash }
    else if s == ';' { Array30Key::Semicolon }
    else { Array30Key::Comma }
}

} // verus!
