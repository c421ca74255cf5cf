//! Translation of keyboard keys into typed text (US layout, best effort).

use vstd::prelude::*;

verus! {

/// A keyboard key, named by its position on a US keyboard.
#[derive(Debug, Eq, PartialEq, Hash, Clone, Copy, Structural)]
#[allow(missing_docs)]
pub enum Keycode {
    Key0,
    Key1,
    Key2,
    Key3,
    Key4,
    Key5,
    Key6,
    Key7,
    Key8,
    Key9,
    A,
    B,
    C,
    D,
    E,
    F,
    G,
    H,
    I,
    J,
    K,
    L,
    M,
    N,
    O,
    P,
    Q,
    R,
    S,
    T,
    U,
    V,
    W,
    X,
    Y,
    Z,
    F1,
    F2,
    F3,
    F4,
    F5,
    F6,
    F7,
    F8,
    F9,
    F10,
    F11,
    F12,
    F13,
    F14,
    F15,
    F16,
    F17,
    F18,
    F19,
    F20,
    Escape,
    Space,
    LControl,
    RControl,
    LShift,
    RShift,
    LAlt,
    RAlt,
    Command,
    RCommand,
    LOption,
    ROption,
    LMeta,
    RMeta,
    Enter,
    Up,
    Down,
    Left,
    Right,
    Backspace,
    CapsLock,
    Tab,
    Home,
    End,
    PageUp,
    PageDown,
    Insert,
    Delete,
    Numpad0,
    Numpad1,
    Numpad2,
    Numpad3,
    Numpad4,
    Numpad5,
    Numpad6,
    Numpad7,
    Numpad8,
    Numpad9,
    NumpadSubtract,
    NumpadAdd,
    NumpadDivide,
    NumpadMultiply,
    NumpadEquals,
    NumpadEnter,
    NumpadDecimal,
    Grave,
    Minus,
    Equal,
    LeftBracket,
    RightBracket,
    BackSlash,
    Semicolon,
    Apostrophe,
    Comma,
    Dot,
    Slash,
}

/// Token produced by a key.
pub enum KeyToken {
    /// Text to append to the buffer.
    Insert(String),
    /// Erases the last character.
    Backspace,
}

/// The lower-case letter of a letter key.
pub open spec fn letter_spec(key: Keycode) -> Option<char> {
    match key {
        Keycode::A => Some('a'),
        Keycode::B => Some('b'),
        Keycode::C => Some('c'),
        Keycode::D => Some('d'),
        Keycode::E => Some('e'),
        Keycode::F => Some('f'),
        Keycode::G => Some('g'),
        Keycode::H => Some('h'),
        Keycode::I => Some('i'),
        Keycode::J => Some('j'),
        Keycode::K => Some('k'),
        Keycode::L => Some('l'),
        Keycode::M => Some('m'),
        Keycode::N => Some('n'),
        Keycode::O => Some('o'),
        Keycode::P => Some('p'),
        Keycode::Q => Some('q'),
        Keycode::R => Some('r'),
        Keycode::S => Some('s'),
        Keycode::T => Some('t'),
        Keycode::U => Some('u'),
        Keycode::V => Some('v'),
        Keycode::W => Some('w'),
        Keycode::X => Some('x'),
        Keycode::Y => Some('y'),
        Keycode::Z => Some('z'),
        _ => None,
    }
}

/// Upper case of an ASCII lower-case letter.
pub open spec fn ascii_upper(c: char) -> char {
    ((c as int) - 32) as char
}

/// The text that a non-letter key types, by the state of Shift; `None`
/// for keys that type nothing.
pub open spec fn symbol_text(key: Keycode, shift: bool) -> Option<Seq<char>> {
    match (key, shift) {
        (Keycode::Key1, false) => Some("1"@),
        (Keycode::Key1, true) => Some("!"@),
        (Keycode::Key2, false) => Some("2"@),
        (Keycode::Key2, true) => Some("@"@),
        (Keycode::Key3, false) => Some("3"@),
        (Keycode::Key3, true) => Some("#"@),
        (Keycode::Key4, false) => Some("4"@),
        (Keycode::Key4, true) => Some("$"@),
        (Keycode::Key5, false) => Some("5"@),
        (Keycode::Key5, true) => Some("%"@),
        (Keycode::Key6, false) => Some("6"@),
        (Keycode::Key6, true) => Some("^"@),
        (Keycode::Key7, false) => Some("7"@),
        (Keycode::Key7, true) => Some("&"@),
        (Keycode::Key8, false) => Some("8"@),
        (Keycode::Key8, true) => Some("*"@),
        (Keycode::Key9, false) => Some("9"@),
        (Keycode::Key9, true) => Some("("@),
        (Keycode::Key0, false) => Some("0"@),
        (Keycode::Key0, true) => Some(")"@),
        (Keycode::Numpad0, _) => Some("0"@),
        (Keycode::Numpad1, _) => Some("1"@),
        (Keycode::Numpad2, _) => Some("2"@),
        (Keycode::Numpad3, _) => Some("3"@),
        (Keycode::Numpad4, _) => Some("4"@),
        (Keycode::Numpad5, _) => Some("5"@),
        (Keycode::Numpad6, _) => Some("6"@),
        (Keycode::Numpad7, _) => Some("7"@),
        (Keycode::Numpad8, _) => Some("8"@),
        (Keycode::Numpad9, _) => Some("9"@),
        (Keycode::NumpadAdd, _) => Some("+"@),
        (Keycode::NumpadSubtract, _) => Some("-"@),
        (Keycode::NumpadMultiply, _) => Some("*"@),
        (Keycode::NumpadDivide, _) => Some("/"@),
        (Keycode::NumpadDecimal, _) => Some("."@),
        (Keycode::Space, _) => Some(" "@),
        (Keycode::Enter | Keycode::NumpadEnter, _) => Some("\n"@),
        (Keycode::Tab, _) => Some("\t"@),
        (Keycode::Minus, false) => Some("-"@),
        (Keycode::Minus, true) => Some("_"@),
        (Keycode::Equal, false) => Some("="@),
        (Keycode::Equal, true) => Some("+"@),
        (Keycode::LeftBracket, false) => Some("["@),
        (Keycode::LeftBracket, true) => Some("{"@),
        (Keycode::RightBracket, false) => Some("]"@),
        (Keycode::RightBracket, true) => Some("}"@),
        (Keycode::BackSlash, false) => Some("\\"@),
        (Keycode::BackSlash, true) => Some("|"@),
        (Keycode::Semicolon, false) => Some(";"@),
        (Keycode::Semicolon, true) => Some(":"@),
        (Keycode::Apostrophe, false) => Some("'"@),
        (Keycode::Apostrophe, true) => Some("\""@),
        (Keycode::Comma, false) => Some(","@),
        (Keycode::Comma, true) => Some("<"@),
        (Keycode::Dot, false) => Some("."@),
        (Keycode::Dot, true) => Some(">"@),
        (Keycode::Slash, false) => Some("/"@),
        (Keycode::Slash, true) => Some("?"@),
        (Keycode::Grave, false) => Some("`"@),
        (Keycode::Grave, true) => Some("~"@),
        _ => None,
    }
}

/// The text that a key types, by the state of Shift: a letter in the case
/// that Shift selects, or the key's symbol; `None` for keys without text.
pub open spec fn key_text(key: Keycode, shift: bool) -> Option<Seq<char>> {
    match letter_spec(key) {
        Some(c) => Some(seq![if shift { ascii_upper(c) } else { c }]),
        None => symbol_text(key, shift),
    }
}

/// Converts a key into a text token according to the state of Shift.
///
/// Returns `None` for keys without a textual representation (arrows,
/// function keys, modifiers, etc.).
pub fn key_to_token(key: &Keycode, shift: bool) -> (r: Option<KeyToken>)
    ensures
        key_text(*key, shift) matches Some(t) ==> (r matches Some(KeyToken::Insert(s)) && s@ == t),
        key_text(*key, shift) is None && *key == Keycode::Backspace ==> r matches Some(
            KeyToken::Backspace,
        ),
        key_text(*key, shift) is None && *key != Keycode::Backspace ==> r is None,
{
    // Letters: case by Shift.
    if let Some(c) = letter(key) {
        let u: char = if shift { to_ascii_upper(c) } else { c };
        let mut s = String::new();
        crate::strings::push_char(&mut s, u);
        assert(s@ =~= seq![u]);
        return Some(KeyToken::Insert(s));
    }
    let text: &str = match (*key, shift) {
        (Keycode::Key1, false) => "1",
        (Keycode::Key1, true) => "!",
        (Keycode::Key2, false) => "2",
        (Keycode::Key2, true) => "@",
        (Keycode::Key3, false) => "3",
        (Keycode::Key3, true) => "#",
        (Keycode::Key4, false) => "4",
        (Keycode::Key4, true) => "$",
        (Keycode::Key5, false) => "5",
        (Keycode::Key5, true) => "%",
        (Keycode::Key6, false) => "6",
        (Keycode::Key6, true) => "^",
        (Keycode::Key7, false) => "7",
        (Keycode::Key7, true) => "&",
        (Keycode::Key8, false) => "8",
        (Keycode::Key8, true) => "*",
        (Keycode::Key9, false) => "9",
        (Keycode::Key9, true) => "(",
        (Keycode::Key0, false) => "0",
        (Keycode::Key0, true) => ")",
        (Keycode::Numpad0, _) => "0",
        (Keycode::Numpad1, _) => "1",
        (Keycode::Numpad2, _) => "2",
        (Keycode::Numpad3, _) => "3",
        (Keycode::Numpad4, _) => "4",
        (Keycode::Numpad5, _) => "5",
        (Keycode::Numpad6, _) => "6",
        (Keycode::Numpad7, _) => "7",
        (Keycode::Numpad8, _) => "8",
        (Keycode::Numpad9, _) => "9",
        (Keycode::NumpadAdd, _) => "+",
        (Keycode::NumpadSubtract, _) => "-",
        (Keycode::NumpadMultiply, _) => "*",
        (Keycode::NumpadDivide, _) => "/",
        (Keycode::NumpadDecimal, _) => ".",
        (Keycode::Space, _) => " ",
        (Keycode::Enter | Keycode::NumpadEnter, _) => "\n",
        (Keycode::Tab, _) => "\t",
        (Keycode::Minus, false) => "-",
        (Keycode::Minus, true) => "_",
        (Keycode::Equal, false) => "=",
        (Keycode::Equal, true) => "+",
        (Keycode::LeftBracket, false) => "[",
        (Keycode::LeftBracket, true) => "{",
        (Keycode::RightBracket, false) => "]",
        (Keycode::RightBracket, true) => "}",
        (Keycode::BackSlash, false) => "\\",
        (Keycode::BackSlash, true) => "|",
        (Keycode::Semicolon, false) => ";",
        (Keycode::Semicolon, true) => ":",
        (Keycode::Apostrophe, false) => "'",
        (Keycode::Apostrophe, true) => "\"",
        (Keycode::Comma, false) => ",",
        (Keycode::Comma, true) => "<",
        (Keycode::Dot, false) => ".",
        (Keycode::Dot, true) => ">",
        (Keycode::Slash, false) => "/",
        (Keycode::Slash, true) => "?",
        (Keycode::Grave, false) => "`",
        (Keycode::Grave, true) => "~",
        (Keycode::Backspace, _) => return Some(KeyToken::Backspace),
        _ => return None,
    };
    Some(KeyToken::Insert(String::from_str(text)))
}

/// Upper case of an ASCII lower-case letter.
fn to_ascii_upper(c: char) -> (r: char)
    requires
        'a' <= c <= 'z',
    ensures
        r == ascii_upper(c),
{
    let b: u8 = (c as u8) - 32;
    b as char
}

/// Returns `true` if the key is a Shift key (left or right).
pub fn is_shift(key: &Keycode) -> (r: bool)
    ensures
        r == (*key == Keycode::LShift || *key == Keycode::RShift),
{
    matches!(key, Keycode::LShift | Keycode::RShift)
}

fn letter(key: &Keycode) -> (r: Option<char>)
    ensures
        r == letter_spec(*key),
        r matches Some(c) ==> 'a' <= c <= 'z',
{
    match key {
        Keycode::A => Some('a'),
        Keycode::B => Some('b'),
        Keycode::C => Some('c'),
        Keycode::D => Some('d'),
        Keycode::E => Some('e'),
        Keycode::F => Some('f'),
        Keycode::G => Some('g'),
        Keycode::H => Some('h'),
        Keycode::I => Some('i'),
        Keycode::J => Some('j'),
        Keycode::K => Some('k'),
        Keycode::L => Some('l'),
        Keycode::M => Some('m'),
        Keycode::N => Some('n'),
        Keycode::O => Some('o'),
        Keycode::P => Some('p'),
        Keycode::Q => Some('q'),
        Keycode::R => Some('r'),
        Keycode::S => Some('s'),
        Keycode::T => Some('t'),
        Keycode::U => Some('u'),
        Keycode::V => Some('v'),
        Keycode::W => Some('w'),
        Keycode::X => Some('x'),
        Keycode::Y => Some('y'),
        Keycode::Z => Some('z'),
        _ => None,
    }
}

/// The main-keyboard key whose legend a numpad key bears, with the state
/// of Shift in which that key types it; `None` for the other keys.
pub open spec fn numpad_twin(key: Keycode) -> Option<(Keycode, bool)> {
    match key {
        Keycode::Numpad0 => Some((Keycode::Key0, false)),
        Keycode::Numpad1 => Some((Keycode::Key1, false)),
        Keycode::Numpad2 => Some((Keycode::Key2, false)),
        Keycode::Numpad3 => Some((Keycode::Key3, false)),
        Keycode::Numpad4 => Some((Keycode::Key4, false)),
        Keycode::Numpad5 => Some((Keycode::Key5, false)),
        Keycode::Numpad6 => Some((Keycode::Key6, false)),
        Keycode::Numpad7 => Some((Keycode::Key7, false)),
        Keycode::Numpad8 => Some((Keycode::Key8, false)),
        Keycode::Numpad9 => Some((Keycode::Key9, false)),
        Keycode::NumpadDecimal => Some((Keycode::Dot, false)),
        Keycode::NumpadSubtract => Some((Keycode::Minus, false)),
        Keycode::NumpadDivide => Some((Keycode::Slash, false)),
        Keycode::NumpadAdd => Some((Keycode::Equal, true)),
        Keycode::NumpadMultiply => Some((Keycode::Key8, true)),
        Keycode::NumpadEnter => Some((Keycode::Enter, false)),
        _ => None,
    }
}

/// A numpad key types what the main-keyboard key with the same legend
/// types, whatever the state of Shift.
pub proof fn lemma_numpad_types_as_its_twin(key: Keycode, shift: bool)
    ensures
        numpad_twin(key) matches Some((twin, twin_shift)) ==> key_text(key, shift) == key_text(
            twin,
            twin_shift,
        ),
{
}

/// Each key of the main keyboard types its own text: two keys (outside the
/// numpad) that type the same text, in any states of Shift, are the same
/// key; and each key types a single character.
pub proof fn lemma_keys_type_distinct_text(k1: Keycode, s1: bool, k2: Keycode, s2: bool)
    ensures
        key_text(k1, s1) matches Some(t) ==> t.len() == 1,
        numpad_twin(k1) is None && numpad_twin(k2) is None && key_text(k1, s1) is Some
            && key_text(k1, s1) == key_text(k2, s2) ==> k1 == k2,
{
    reveal_strlit(" ");
    reveal_strlit("!");
    reveal_strlit("#");
    reveal_strlit("$");
    reveal_strlit("%");
    reveal_strlit("&");
    reveal_strlit("'");
    reveal_strlit("(");
    reveal_strlit(")");
    reveal_strlit("*");
    reveal_strlit("+");
    reveal_strlit(",");
    reveal_strlit("-");
    reveal_strlit(".");
    reveal_strlit("/");
    reveal_strlit("0");
    reveal_strlit("1");
    reveal_strlit("2");
    reveal_strlit("3");
    reveal_strlit("4");
    reveal_strlit("5");
    reveal_strlit("6");
    reveal_strlit("7");
    reveal_strlit("8");
    reveal_strlit("9");
    reveal_strlit(":");
    reveal_strlit(";");
    reveal_strlit("<");
    reveal_strlit("=");
    reveal_strlit(">");
    reveal_strlit("?");
    reveal_strlit("@");
    reveal_strlit("[");
    reveal_strlit("\"");
    reveal_strlit("\\");
    reveal_strlit("\n");
    reveal_strlit("\t");
    reveal_strlit("]");
    reveal_strlit("^");
    reveal_strlit("_");
    reveal_strlit("`");
    reveal_strlit("{");
    reveal_strlit("|");
    reveal_strlit("}");
    reveal_strlit("~");
    if numpad_twin(k1) is None && numpad_twin(k2) is None && key_text(k1, s1) is Some && key_text(
        k1,
        s1,
    ) == key_text(k2, s2) {
        let c = key_text(k1, s1).unwrap()[0];
        assert(key_text(k2, s2).unwrap()[0] == c);
    }
}

/// The main keyboard types every printable ASCII character: for each one,
/// a key outside the numpad types it in some state of Shift.
pub proof fn lemma_every_printable_char_is_typed(c: char)
    requires
        ' ' <= c <= '~',
    ensures
        exists|key: Keycode, shift: bool|
            numpad_twin(key) is None && #[trigger] key_text(key, shift) == Some(seq![c]),
{
    reveal_strlit("\"");
    reveal_strlit("\\");
    reveal_strlit(" ");
    reveal_strlit("!");
    reveal_strlit("#");
    reveal_strlit("$");
    reveal_strlit("%");
    reveal_strlit("&");
    reveal_strlit("'");
    reveal_strlit("(");
    reveal_strlit(")");
    reveal_strlit("*");
    reveal_strlit("+");
    reveal_strlit(",");
    reveal_strlit("-");
    reveal_strlit(".");
    reveal_strlit("/");
    reveal_strlit("0");
    reveal_strlit("1");
    reveal_strlit("2");
    reveal_strlit("3");
    reveal_strlit("4");
    reveal_strlit("5");
    reveal_strlit("6");
    reveal_strlit("7");
    reveal_strlit("8");
    reveal_strlit("9");
    reveal_strlit(":");
    reveal_strlit(";");
    reveal_strlit("<");
    reveal_strlit("=");
    reveal_strlit(">");
    reveal_strlit("?");
    reveal_strlit("@");
    reveal_strlit("[");
    reveal_strlit("]");
    reveal_strlit("^");
    reveal_strlit("_");
    reveal_strlit("`");
    reveal_strlit("{");
    reveal_strlit("|");
    reveal_strlit("}");
    reveal_strlit("~");
    if c == ' ' {
        assert(key_text(Keycode::Space, false) =~= Some(seq![c]));
        assert(numpad_twin(Keycode::Space) is None);
    } else if c == '!' {
        assert(key_text(Keycode::Key1, true) =~= Some(seq![c]));
        assert(numpad_twin(Keycode::Key1) is None);
    } else if c == '"' {
        assert(key_text(Keycode::Apostrophe, true) =~= Some(seq![c]));
        assert(numpad_twin(Keycode::Apostrophe) is None);
    } else if c == '#' {
        assert(key_text(Keycode::Key3, true) =~= Some(seq![c]));
        assert(numpad_twin(Keycode::Key3) is None);
    } else if c == '$' {
        assert(key_text(Keycode::Key4, true) =~= Some(seq![c]));
        assert(numpad_twin(Keycode::Key4) is None);
    } else if c == '%' {
        assert(key_text(Keycode::Key5, true) =~= Some(seq![c]));
        assert(numpad_twin(Keycode::Key5) is None);
    } else if c == '&' {
        assert(key_text(Keycode::Key7, true) =~= Some(seq![c]));
        assert(numpad_twin(Keycode::Key7) is None);
    } else if c == '\'' {
        assert(key_text(Keycode::Apostrophe, false) =~= Some(seq![c]));
        assert(numpad_twin(Keycode::Apostrophe) is None);
    } else if c == '(' {
        assert(key_text(Keycode::Key9, true) =~= Some(seq![c]));
        assert(numpad_twin(Keycode::Key9) is None);
    } else if c == ')' {
        assert(key_text(Keycode::Key0, true) =~= Some(seq![c]));
        assert(numpad_twin(Keycode::Key0) is None);
    } else if c == '*' {
        assert(key_text(Keycode::Key8, true) =~= Some(seq![c]));
        assert(numpad_twin(Keycode::Key8) is None);
    } else if c == '+' {
        assert(key_text(Keycode::Equal, true) =~= Some(seq![c]));
        assert(numpad_twin(Keycode::Equal) is None);
    } else if c == ',' {
        assert(key_text(Keycode::Comma, false) =~= Some(seq![c]));
        assert(numpad_twin(Keycode::Comma) is None);
    } else if c == '-' {
        assert(key_text(Keycode::Minus, false) =~= Some(seq![c]));
        assert(numpad_twin(Keycode::Minus) is None);
    } else if c == '.' {
        assert(key_text(Keycode::Dot, false) =~= Some(seq![c]));
        assert(numpad_twin(Keycode::Dot) is None);
    } else if c == '/' {
        assert(key_text(Keycode::Slash, false) =~= Some(seq![c]));
        assert(numpad_twin(Keycode::Slash) is None);
    } else if c == '0' {
        assert(key_text(Keycode::Key0, false) =~= Some(seq![c]));
        assert(numpad_twin(Keycode::Key0) is None);
    } else if c == '1' {
        assert(key_text(Keycode::Key1, false) =~= Some(seq![c]));
        assert(numpad_twin(Keycode::Key1) is None);
    } else if c == '2' {
        assert(key_text(Keycode::Key2, false) =~= Some(seq![c]));
        assert(numpad_twin(Keycode::Key2) is None);
    } else if c == '3' {
        assert(key_text(Keycode::Key3, false) =~= Some(seq![c]));
        assert(numpad_twin(Keycode::Key3) is None);
    } else if c == '4' {
        assert(key_text(Keycode::Key4, false) =~= Some(seq![c]));
        assert(numpad_twin(Keycode::Key4) is None);
    } else if c == '5' {
        assert(key_text(Keycode::Key5, false) =~= Some(seq![c]));
        assert(numpad_twin(Keycode::Key5) is None);
    } else if c == '6' {
        assert(key_text(Keycode::Key6, false) =~= Some(seq![c]));
        assert(numpad_twin(Keycode::Key6) is None);
    } else if c == '7' {
        assert(key_text(Keycode::Key7, false) =~= Some(seq![c]));
        assert(numpad_twin(Keycode::Key7) is None);
    } else if c == '8' {
        assert(key_text(Keycode::Key8, false) =~= Some(seq![c]));
        assert(numpad_twin(Keycode::Key8) is None);
    } else if c == '9' {
        assert(key_text(Keycode::Key9, false) =~= Some(seq![c]));
        assert(numpad_twin(Keycode::Key9) is None);
    } else if c == ':' {
        assert(key_text(Keycode::Semicolon, true) =~= Some(seq![c]));
        assert(numpad_twin(Keycode::Semicolon) is None);
    } else if c == ';' {
        assert(key_text(Keycode::Semicolon, false) =~= Some(seq![c]));
        assert(numpad_twin(Keycode::Semicolon) is None);
    } else if c == '<' {
        assert(key_text(Keycode::Comma, true) =~= Some(seq![c]));
        assert(numpad_twin(Keycode::Comma) is None);
    } else if c == '=' {
        assert(key_text(Keycode::Equal, false) =~= Some(seq![c]));
        assert(numpad_twin(Keycode::Equal) is None);
    } else if c == '>' {
        assert(key_text(Keycode::Dot, true) =~= Some(seq![c]));
        assert(numpad_twin(Keycode::Dot) is None);
    } else if c == '?' {
        assert(key_text(Keycode::Slash, true) =~= Some(seq![c]));
        assert(numpad_twin(Keycode::Slash) is None);
    } else if c == '@' {
        assert(key_text(Keycode::Key2, true) =~= Some(seq![c]));
        assert(numpad_twin(Keycode::Key2) is None);
    } else if c == 'A' {
        assert(key_text(Keycode::A, true) =~= Some(seq![c]));
        assert(numpad_twin(Keycode::A) is None);
    } else if c == 'B' {
        assert(key_text(Keycode::B, true) =~= Some(seq![c]));
        assert(numpad_twin(Keycode::B) is None);
    } else if c == 'C' {
        assert(key_text(Keycode::C, true) =~= Some(seq![c]));
        assert(numpad_twin(Keycode::C) is None);
    } else if c == 'D' {
        assert(key_text(Keycode::D, true) =~= Some(seq![c]));
        assert(numpad_twin(Keycode::D) is None);
    } else if c == 'E' {
        assert(key_text(Keycode::E, true) =~= Some(seq![c]));
        assert(numpad_twin(Keycode::E) is None);
    } else if c == 'F' {
        assert(key_text(Keycode::F, true) =~= Some(seq![c]));
        assert(numpad_twin(Keycode::F) is None);
    } else if c == 'G' {
        assert(key_text(Keycode::G, true) =~= Some(seq![c]));
        assert(numpad_twin(Keycode::G) is None);
    } else if c == 'H' {
        assert(key_text(Keycode::H, true) =~= Some(seq![c]));
        assert(numpad_twin(Keycode::H) is None);
    } else if c == 'I' {
        assert(key_text(Keycode::I, true) =~= Some(seq![c]));
        assert(numpad_twin(Keycode::I) is None);
    } else if c == 'J' {
        assert(key_text(Keycode::J, true) =~= Some(seq![c]));
        assert(numpad_twin(Keycode::J) is None);
    } else if c == 'K' {
        assert(key_text(Keycode::K, true) =~= Some(seq![c]));
        assert(numpad_twin(Keycode::K) is None);
    } else if c == 'L' {
        assert(key_text(Keycode::L, true) =~= Some(seq![c]));
        assert(numpad_twin(Keycode::L) is None);
    } else if c == 'M' {
        assert(key_text(Keycode::M, true) =~= Some(seq![c]));
        assert(numpad_twin(Keycode::M) is None);
    } else if c == 'N' {
        assert(key_text(Keycode::N, true) =~= Some(seq![c]));
        assert(numpad_twin(Keycode::N) is None);
    } else if c == 'O' {
        assert(key_text(Keycode::O, true) =~= Some(seq![c]));
        assert(numpad_twin(Keycode::O) is None);
    } else if c == 'P' {
        assert(key_text(Keycode::P, true) =~= Some(seq![c]));
        assert(numpad_twin(Keycode::P) is None);
    } else if c == 'Q' {
        assert(key_text(Keycode::Q, true) =~= Some(seq![c]));
        assert(numpad_twin(Keycode::Q) is None);
    } else if c == 'R' {
        assert(key_text(Keycode::R, true) =~= Some(seq![c]));
        assert(numpad_twin(Keycode::R) is None);
    } else if c == 'S' {
        assert(key_text(Keycode::S, true) =~= Some(seq![c]));
        assert(numpad_twin(Keycode::S) is None);
    } else if c == 'T' {
        assert(key_text(Keycode::T, true) =~= Some(seq![c]));
        assert(numpad_twin(Keycode::T) is None);
    } else if c == 'U' {
        assert(key_text(Keycode::U, true) =~= Some(seq![c]));
        assert(numpad_twin(Keycode::U) is None);
    } else if c == 'V' {
        assert(key_text(Keycode::V, true) =~= Some(seq![c]));
        assert(numpad_twin(Keycode::V) is None);
    } else if c == 'W' {
        assert(key_text(Keycode::W, true) =~= Some(seq![c]));
        assert(numpad_twin(Keycode::W) is None);
    } else if c == 'X' {
        assert(key_text(Keycode::X, true) =~= Some(seq![c]));
        assert(numpad_twin(Keycode::X) is None);
    } else if c == 'Y' {
        assert(key_text(Keycode::Y, true) =~= Some(seq![c]));
        assert(numpad_twin(Keycode::Y) is None);
    } else if c == 'Z' {
        assert(key_text(Keycode::Z, true) =~= Some(seq![c]));
        assert(numpad_twin(Keycode::Z) is None);
    } else if c == '[' {
        assert(key_text(Keycode::LeftBracket, false) =~= Some(seq![c]));
        assert(numpad_twin(Keycode::LeftBracket) is None);
    } else if c == '\\' {
        assert(key_text(Keycode::BackSlash, false) =~= Some(seq![c]));
        assert(numpad_twin(Keycode::BackSlash) is None);
    } else if c == ']' {
        assert(key_text(Keycode::RightBracket, false) =~= Some(seq![c]));
        assert(numpad_twin(Keycode::RightBracket) is None);
    } else if c == '^' {
        assert(key_text(Keycode::Key6, true) =~= Some(seq![c]));
        assert(numpad_twin(Keycode::Key6) is None);
    } else if c == '_' {
        assert(key_text(Keycode::Minus, true) =~= Some(seq![c]));
        assert(numpad_twin(Keycode::Minus) is None);
    } else if c == '`' {
        assert(key_text(Keycode::Grave, false) =~= Some(seq![c]));
        assert(numpad_twin(Keycode::Grave) is None);
    } else if c == 'a' {
        assert(key_text(Keycode::A, false) =~= Some(seq![c]));
        assert(numpad_twin(Keycode::A) is None);
    } else if c == 'b' {
        assert(key_text(Keycode::B, false) =~= Some(seq![c]));
        assert(numpad_twin(Keycode::B) is None);
    } else if c == 'c' {
        assert(key_text(Keycode::C, false) =~= Some(seq![c]));
        assert(numpad_twin(Keycode::C) is None);
    } else if c == 'd' {
        assert(key_text(Keycode::D, false) =~= Some(seq![c]));
        assert(numpad_twin(Keycode::D) is None);
    } else if c == 'e' {
        assert(key_text(Keycode::E, false) =~= Some(seq![c]));
        assert(numpad_twin(Keycode::E) is None);
    } else if c == 'f' {
        assert(key_text(Keycode::F, false) =~= Some(seq![c]));
        assert(numpad_twin(Keycode::F) is None);
    } else if c == 'g' {
        assert(key_text(Keycode::G, false) =~= Some(seq![c]));
        assert(numpad_twin(Keycode::G) is None);
    } else if c == 'h' {
        assert(key_text(Keycode::H, false) =~= Some(seq![c]));
        assert(numpad_twin(Keycode::H) is None);
    } else if c == 'i' {
        assert(key_text(Keycode::I, false) =~= Some(seq![c]));
        assert(numpad_twin(Keycode::I) is None);
    } else if c == 'j' {
        assert(key_text(Keycode::J, false) =~= Some(seq![c]));
        assert(numpad_twin(Keycode::J) is None);
    } else if c == 'k' {
        assert(key_text(Keycode::K, false) =~= Some(seq![c]));
        assert(numpad_twin(Keycode::K) is None);
    } else if c == 'l' {
        assert(key_text(Keycode::L, false) =~= Some(seq![c]));
        assert(numpad_twin(Keycode::L) is None);
    } else if c == 'm' {
        assert(key_text(Keycode::M, false) =~= Some(seq![c]));
        assert(numpad_twin(Keycode::M) is None);
    } else if c == 'n' {
        assert(key_text(Keycode::N, false) =~= Some(seq![c]));
        assert(numpad_twin(Keycode::N) is None);
    } else if c == 'o' {
        assert(key_text(Keycode::O, false) =~= Some(seq![c]));
        assert(numpad_twin(Keycode::O) is None);
    } else if c == 'p' {
        assert(key_text(Keycode::P, false) =~= Some(seq![c]));
        assert(numpad_twin(Keycode::P) is None);
    } else if c == 'q' {
        assert(key_text(Keycode::Q, false) =~= Some(seq![c]));
        assert(numpad_twin(Keycode::Q) is None);
    } else if c == 'r' {
        assert(key_text(Keycode::R, false) =~= Some(seq![c]));
        assert(numpad_twin(Keycode::R) is None);
    } else if c == 's' {
        assert(key_text(Keycode::S, false) =~= Some(seq![c]));
        assert(numpad_twin(Keycode::S) is None);
    } else if c == 't' {
        assert(key_text(Keycode::T, false) =~= Some(seq![c]));
        assert(numpad_twin(Keycode::T) is None);
    } else if c == 'u' {
        assert(key_text(Keycode::U, false) =~= Some(seq![c]));
        assert(numpad_twin(Keycode::U) is None);
    } else if c == 'v' {
        assert(key_text(Keycode::V, false) =~= Some(seq![c]));
        assert(numpad_twin(Keycode::V) is None);
    } else if c == 'w' {
        assert(key_text(Keycode::W, false) =~= Some(seq![c]));
        assert(numpad_twin(Keycode::W) is None);
    } else if c == 'x' {
        assert(key_text(Keycode::X, false) =~= Some(seq![c]));
        assert(numpad_twin(Keycode::X) is None);
    } else if c == 'y' {
        assert(key_text(Keycode::Y, false) =~= Some(seq![c]));
        assert(numpad_twin(Keycode::Y) is None);
    } else if c == 'z' {
        assert(key_text(Keycode::Z, false) =~= Some(seq![c]));
        assert(numpad_twin(Keycode::Z) is None);
    } else if c == '{' {
        assert(key_text(Keycode::LeftBracket, true) =~= Some(seq![c]));
        assert(numpad_twin(Keycode::LeftBracket) is None);
    } else if c == '|' {
        assert(key_text(Keycode::BackSlash, true) =~= Some(seq![c]));
        assert(numpad_twin(Keycode::BackSlash) is None);
    } else if c == '}' {
        assert(key_text(Keycode::RightBracket, true) =~= Some(seq![c]));
        assert(numpad_twin(Keycode::RightBracket) is None);
    } else if c == '~' {
        assert(key_text(Keycode::Grave, true) =~= Some(seq![c]));
        assert(numpad_twin(Keycode::Grave) is None);
    }
}

} // verus!
