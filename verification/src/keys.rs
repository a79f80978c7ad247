//! Logical keys and fingers: the identity of a key press (its key code), the
//! symbol pair a physical key produces with and without shift, and the hands
//! and fingers that the ergonomic model assigns costs to.

use vstd::prelude::*;

verus! {

/// Which hand a finger belongs to.
#[derive(Clone, Copy, Debug, PartialEq, Eq, Structural, Hash)]
pub enum Hand {
    Left,
    Right,
}

/// Which finger of a hand.
#[derive(Clone, Copy, Debug, PartialEq, Eq, Structural, Hash)]
pub enum FingerKind {
    Pinky,
    Ring,
    Middle,
    Index,
    Thumb,
}

/// A concrete finger: a hand and a finger kind.
#[derive(Clone, Copy, Debug, PartialEq, Eq, Structural, Hash)]
pub struct Finger {
    pub hand: Hand,
    pub finger: FingerKind,
}

impl Finger {
    /// Every finger, left hand first, pinky to thumb within each hand.
    pub fn all() -> (fingers: Vec<Finger>)
        ensures
            fingers@ =~= Self::all_spec(),
    {
        let mut fingers: Vec<Finger> = Vec::new();
        fingers.push(Finger { hand: Hand::Left, finger: FingerKind::Pinky });
        fingers.push(Finger { hand: Hand::Left, finger: FingerKind::Ring });
        fingers.push(Finger { hand: Hand::Left, finger: FingerKind::Middle });
        fingers.push(Finger { hand: Hand::Left, finger: FingerKind::Index });
        fingers.push(Finger { hand: Hand::Left, finger: FingerKind::Thumb });
        fingers.push(Finger { hand: Hand::Right, finger: FingerKind::Pinky });
        fingers.push(Finger { hand: Hand::Right, finger: FingerKind::Ring });
        fingers.push(Finger { hand: Hand::Right, finger: FingerKind::Middle });
        fingers.push(Finger { hand: Hand::Right, finger: FingerKind::Index });
        fingers.push(Finger { hand: Hand::Right, finger: FingerKind::Thumb });
        fingers
    }

    /// The sequence `all` returns.
    pub open spec fn all_spec() -> Seq<Finger> {
        seq![
            Finger { hand: Hand::Left, finger: FingerKind::Pinky },
            Finger { hand: Hand::Left, finger: FingerKind::Ring },
            Finger { hand: Hand::Left, finger: FingerKind::Middle },
            Finger { hand: Hand::Left, finger: FingerKind::Index },
            Finger { hand: Hand::Left, finger: FingerKind::Thumb },
            Finger { hand: Hand::Right, finger: FingerKind::Pinky },
            Finger { hand: Hand::Right, finger: FingerKind::Ring },
            Finger { hand: Hand::Right, finger: FingerKind::Middle },
            Finger { hand: Hand::Right, finger: FingerKind::Index },
            Finger { hand: Hand::Right, finger: FingerKind::Thumb },
        ]
    }
}

/// The identity of a physical key press, as reported by the key logger and
/// used to index the frequency tables.  A closed enumeration of every key the
/// optimizer knows about.
#[derive(Clone, Copy, Debug, PartialEq, Eq, Structural, Hash)]
pub enum KeyCode {
    A,
    B,
    C,
    D,
    E,
    F,
    G,
    H,
    I,
    J,
    K,
    L,
    M,
    N,
    O,
    P,
    Q,
    R,
    S,
    T,
    U,
    V,
    W,
    X,
    Y,
    Z,
    Key0,
    Key1,
    Key2,
    Key3,
    Key4,
    Key5,
    Key6,
    Key7,
    Key8,
    Key9,
    Minus,
    Equal,
    LeftBracket,
    RightBracket,
    BackSlash,
    Semicolon,
    Apostrophe,
    Comma,
    Dot,
    Slash,
    Grave,
    Space,
    Backspace,
    Tab,
    Enter,
    CapsLock,
    LShift,
    RShift,
    LControl,
    RControl,
    LAlt,
    RAlt,
    LMeta,
    RMeta,
    Escape,
    Home,
    End,
    PageUp,
    PageDown,
    Left,
    Right,
    Up,
    Down,
    Delete,
}

/// The key code that typing a character requires, or `None` for characters no
/// key of the supported set produces.
pub open spec fn char_code(c: char) -> Option<KeyCode> {
    match c {
        'a' | 'A' => Some(KeyCode::A),
        'b' | 'B' => Some(KeyCode::B),
        'c' | 'C' => Some(KeyCode::C),
        'd' | 'D' => Some(KeyCode::D),
        'e' | 'E' => Some(KeyCode::E),
        'f' | 'F' => Some(KeyCode::F),
        'g' | 'G' => Some(KeyCode::G),
        'h' | 'H' => Some(KeyCode::H),
        'i' | 'I' => Some(KeyCode::I),
        'j' | 'J' => Some(KeyCode::J),
        'k' | 'K' => Some(KeyCode::K),
        'l' | 'L' => Some(KeyCode::L),
        'm' | 'M' => Some(KeyCode::M),
        'n' | 'N' => Some(KeyCode::N),
        'o' | 'O' => Some(KeyCode::O),
        'p' | 'P' => Some(KeyCode::P),
        'q' | 'Q' => Some(KeyCode::Q),
        'r' | 'R' => Some(KeyCode::R),
        's' | 'S' => Some(KeyCode::S),
        't' | 'T' => Some(KeyCode::T),
        'u' | 'U' => Some(KeyCode::U),
        'v' | 'V' => Some(KeyCode::V),
        'w' | 'W' => Some(KeyCode::W),
        'x' | 'X' => Some(KeyCode::X),
        'y' | 'Y' => Some(KeyCode::Y),
        'z' | 'Z' => Some(KeyCode::Z),
        '0' | ')' => Some(KeyCode::Key0),
        '1' | '!' => Some(KeyCode::Key1),
        '2' | '@' => Some(KeyCode::Key2),
        '3' | '#' => Some(KeyCode::Key3),
        '4' | '$' => Some(KeyCode::Key4),
        '5' | '%' => Some(KeyCode::Key5),
        '6' | '^' => Some(KeyCode::Key6),
        '7' | '&' => Some(KeyCode::Key7),
        '8' | '*' => Some(KeyCode::Key8),
        '9' | '(' => Some(KeyCode::Key9),
        '-' | '_' => Some(KeyCode::Minus),
        '=' | '+' => Some(KeyCode::Equal),
        '[' | '{' => Some(KeyCode::LeftBracket),
        ']' | '}' => Some(KeyCode::RightBracket),
        '\\' | '|' => Some(KeyCode::BackSlash),
        ';' | ':' => Some(KeyCode::Semicolon),
        '\'' | '"' => Some(KeyCode::Apostrophe),
        ',' | '<' => Some(KeyCode::Comma),
        '.' | '>' => Some(KeyCode::Dot),
        '/' | '?' => Some(KeyCode::Slash),
        '`' | '~' => Some(KeyCode::Grave),
        ' ' => Some(KeyCode::Space),
        _ => None,
    }
}

/// The unshifted character a printable key code produces, or `None` for
/// function keys.
pub open spec fn code_char(code: KeyCode) -> Option<char> {
    match code {
        KeyCode::A => Some('a'),
        KeyCode::B => Some('b'),
        KeyCode::C => Some('c'),
        KeyCode::D => Some('d'),
        KeyCode::E => Some('e'),
        KeyCode::F => Some('f'),
        KeyCode::G => Some('g'),
        KeyCode::H => Some('h'),
        KeyCode::I => Some('i'),
        KeyCode::J => Some('j'),
        KeyCode::K => Some('k'),
        KeyCode::L => Some('l'),
        KeyCode::M => Some('m'),
        KeyCode::N => Some('n'),
        KeyCode::O => Some('o'),
        KeyCode::P => Some('p'),
        KeyCode::Q => Some('q'),
        KeyCode::R => Some('r'),
        KeyCode::S => Some('s'),
        KeyCode::T => Some('t'),
        KeyCode::U => Some('u'),
        KeyCode::V => Some('v'),
        KeyCode::W => Some('w'),
        KeyCode::X => Some('x'),
        KeyCode::Y => Some('y'),
        KeyCode::Z => Some('z'),
        KeyCode::Key0 => Some('0'),
        KeyCode::Key1 => Some('1'),
        KeyCode::Key2 => Some('2'),
        KeyCode::Key3 => Some('3'),
        KeyCode::Key4 => Some('4'),
        KeyCode::Key5 => Some('5'),
        KeyCode::Key6 => Some('6'),
        KeyCode::Key7 => Some('7'),
        KeyCode::Key8 => Some('8'),
        KeyCode::Key9 => Some('9'),
        KeyCode::Minus => Some('-'),
        KeyCode::Equal => Some('='),
        KeyCode::LeftBracket => Some('['),
        KeyCode::RightBracket => Some(']'),
        KeyCode::BackSlash => Some('\\'),
        KeyCode::Semicolon => Some(';'),
        KeyCode::Apostrophe => Some('\''),
        KeyCode::Comma => Some(','),
        KeyCode::Dot => Some('.'),
        KeyCode::Slash => Some('/'),
        KeyCode::Grave => Some('`'),
        KeyCode::Space => Some(' '),
        _ => None,
    }
}

/// The character produced when shift is held while typing the key whose
/// unshifted character is `c`, under the fixed US-style shift convention,
/// or `None` if `c` is not an unshifted character of the supported set.
pub open spec fn shifted_char(c: char) -> Option<char> {
    match c {
        'a' => Some('A'),
        'b' => Some('B'),
        'c' => Some('C'),
        'd' => Some('D'),
        'e' => Some('E'),
        'f' => Some('F'),
        'g' => Some('G'),
        'h' => Some('H'),
        'i' => Some('I'),
        'j' => Some('J'),
        'k' => Some('K'),
        'l' => Some('L'),
        'm' => Some('M'),
        'n' => Some('N'),
        'o' => Some('O'),
        'p' => Some('P'),
        'q' => Some('Q'),
        'r' => Some('R'),
        's' => Some('S'),
        't' => Some('T'),
        'u' => Some('U'),
        'v' => Some('V'),
        'w' => Some('W'),
        'x' => Some('X'),
        'y' => Some('Y'),
        'z' => Some('Z'),
        '0' => Some(')'),
        '1' => Some('!'),
        '2' => Some('@'),
        '3' => Some('#'),
        '4' => Some('$'),
        '5' => Some('%'),
        '6' => Some('^'),
        '7' => Some('&'),
        '8' => Some('*'),
        '9' => Some('('),
        '-' => Some('_'),
        '=' => Some('+'),
        '[' => Some('{'),
        ']' => Some('}'),
        '\\' => Some('|'),
        ';' => Some(':'),
        '\'' => Some('"'),
        ',' => Some('<'),
        '.' => Some('>'),
        '/' => Some('?'),
        '`' => Some('~'),
        _ => None,
    }
}

/// The key code that typing `c` requires.  Characters outside the supported
/// set are excluded by the precondition.
pub fn char_to_keycode(c: char) -> (code: KeyCode)
    requires
        char_code(c) is Some,
    ensures
        Some(code) == char_code(c),
{
    match c {
        'a' | 'A' => KeyCode::A,
        'b' | 'B' => KeyCode::B,
        'c' | 'C' => KeyCode::C,
        'd' | 'D' => KeyCode::D,
        'e' | 'E' => KeyCode::E,
        'f' | 'F' => KeyCode::F,
        'g' | 'G' => KeyCode::G,
        'h' | 'H' => KeyCode::H,
        'i' | 'I' => KeyCode::I,
        'j' | 'J' => KeyCode::J,
        'k' | 'K' => KeyCode::K,
        'l' | 'L' => KeyCode::L,
        'm' | 'M' => KeyCode::M,
        'n' | 'N' => KeyCode::N,
        'o' | 'O' => KeyCode::O,
        'p' | 'P' => KeyCode::P,
        'q' | 'Q' => KeyCode::Q,
        'r' | 'R' => KeyCode::R,
        's' | 'S' => KeyCode::S,
        't' | 'T' => KeyCode::T,
        'u' | 'U' => KeyCode::U,
        'v' | 'V' => KeyCode::V,
        'w' | 'W' => KeyCode::W,
        'x' | 'X' => KeyCode::X,
        'y' | 'Y' => KeyCode::Y,
        'z' | 'Z' => KeyCode::Z,
        '0' | ')' => KeyCode::Key0,
        '1' | '!' => KeyCode::Key1,
        '2' | '@' => KeyCode::Key2,
        '3' | '#' => KeyCode::Key3,
        '4' | '$' => KeyCode::Key4,
        '5' | '%' => KeyCode::Key5,
        '6' | '^' => KeyCode::Key6,
        '7' | '&' => KeyCode::Key7,
        '8' | '*' => KeyCode::Key8,
        '9' | '(' => KeyCode::Key9,
        '-' | '_' => KeyCode::Minus,
        '=' | '+' => KeyCode::Equal,
        '[' | '{' => KeyCode::LeftBracket,
        ']' | '}' => KeyCode::RightBracket,
        '\\' | '|' => KeyCode::BackSlash,
        ';' | ':' => KeyCode::Semicolon,
        '\'' | '"' => KeyCode::Apostrophe,
        ',' | '<' => KeyCode::Comma,
        '.' | '>' => KeyCode::Dot,
        '/' | '?' => KeyCode::Slash,
        '`' | '~' => KeyCode::Grave,
        _ => KeyCode::Space,
    }
}

/// The unshifted character of a printable key code.  Function keys are
/// excluded by the precondition.
pub fn keycode_to_char(code: KeyCode) -> (c: char)
    requires
        code_char(code) is Some,
    ensures
        Some(c) == code_char(code),
{
    match code {
        KeyCode::A => 'a',
        KeyCode::B => 'b',
        KeyCode::C => 'c',
        KeyCode::D => 'd',
        KeyCode::E => 'e',
        KeyCode::F => 'f',
        KeyCode::G => 'g',
        KeyCode::H => 'h',
        KeyCode::I => 'i',
        KeyCode::J => 'j',
        KeyCode::K => 'k',
        KeyCode::L => 'l',
        KeyCode::M => 'm',
        KeyCode::N => 'n',
        KeyCode::O => 'o',
        KeyCode::P => 'p',
        KeyCode::Q => 'q',
        KeyCode::R => 'r',
        KeyCode::S => 's',
        KeyCode::T => 't',
        KeyCode::U => 'u',
        KeyCode::V => 'v',
        KeyCode::W => 'w',
        KeyCode::X => 'x',
        KeyCode::Y => 'y',
        KeyCode::Z => 'z',
        KeyCode::Key0 => '0',
        KeyCode::Key1 => '1',
        KeyCode::Key2 => '2',
        KeyCode::Key3 => '3',
        KeyCode::Key4 => '4',
        KeyCode::Key5 => '5',
        KeyCode::Key6 => '6',
        KeyCode::Key7 => '7',
        KeyCode::Key8 => '8',
        KeyCode::Key9 => '9',
        KeyCode::Minus => '-',
        KeyCode::Equal => '=',
        KeyCode::LeftBracket => '[',
        KeyCode::RightBracket => ']',
        KeyCode::BackSlash => '\\',
        KeyCode::Semicolon => ';',
        KeyCode::Apostrophe => '\'',
        KeyCode::Comma => ',',
        KeyCode::Dot => '.',
        KeyCode::Slash => '/',
        KeyCode::Grave => '`',
        _ => ' ',
    }
}

/// The character shift turns `c` into.  Characters with no shifted form in
/// the supported set are excluded by the precondition.
pub fn default_shifted(c: char) -> (s: char)
    requires
        shifted_char(c) is Some,
    ensures
        Some(s) == shifted_char(c),
{
    match c {
        'a' => 'A',
        'b' => 'B',
        'c' => 'C',
        'd' => 'D',
        'e' => 'E',
        'f' => 'F',
        'g' => 'G',
        'h' => 'H',
        'i' => 'I',
        'j' => 'J',
        'k' => 'K',
        'l' => 'L',
        'm' => 'M',
        'n' => 'N',
        'o' => 'O',
        'p' => 'P',
        'q' => 'Q',
        'r' => 'R',
        's' => 'S',
        't' => 'T',
        'u' => 'U',
        'v' => 'V',
        'w' => 'W',
        'x' => 'X',
        'y' => 'Y',
        'z' => 'Z',
        '0' => ')',
        '1' => '!',
        '2' => '@',
        '3' => '#',
        '4' => '$',
        '5' => '%',
        '6' => '^',
        '7' => '&',
        '8' => '*',
        '9' => '(',
        '-' => '_',
        '=' => '+',
        '[' => '{',
        ']' => '}',
        '\\' => '|',
        ';' => ':',
        '\'' => '"',
        ',' => '<',
        '.' => '>',
        '/' => '?',
        _ => '~',
    }
}

/// A logical key of a candidate layout: either a printable key carrying its
/// unshifted and shifted characters, or one of the fixed function keys.
#[derive(Clone, Copy, Debug, PartialEq, Eq, Structural, Hash)]
pub enum Key {
    Normal { normal: char, shifted: char },
    Backspace,
    Tab,
    Enter,
    CapsLock,
    LShift,
    RShift,
    LCtrl,
    RCtrl,
    LAlt,
    RAlt,
    LMeta,
    RMeta,
    Space,
    Escape,
    Home,
    End,
    PageUp,
    PageDown,
    Left,
    Right,
    Up,
    Down,
    Delete,
}

impl Key {
    /// A printable key only carries characters the key-code table covers.
    pub open spec fn wf(self) -> bool {
        match self {
            Key::Normal { normal, shifted } => char_code(normal) is Some && char_code(
                shifted,
            ) is Some,
            _ => true,
        }
    }

    /// The key code this key sends, with or without shift held.
    pub open spec fn spec_keycode(self, shift: bool) -> KeyCode {
        match self {
            Key::Normal { normal, shifted } => if shift {
                char_code(shifted)->Some_0
            } else {
                char_code(normal)->Some_0
            },
            Key::Backspace => KeyCode::Backspace,
            Key::Tab => KeyCode::Tab,
            Key::Enter => KeyCode::Enter,
            Key::CapsLock => KeyCode::CapsLock,
            Key::LShift => KeyCode::LShift,
            Key::RShift => KeyCode::RShift,
            Key::LCtrl => KeyCode::LControl,
            Key::RCtrl => KeyCode::RControl,
            Key::LAlt => KeyCode::LAlt,
            Key::RAlt => KeyCode::RAlt,
            Key::LMeta => KeyCode::LMeta,
            Key::RMeta => KeyCode::RMeta,
            Key::Space => KeyCode::Space,
            Key::Escape => KeyCode::Escape,
            Key::Home => KeyCode::Home,
            Key::End => KeyCode::End,
            Key::PageUp => KeyCode::PageUp,
            Key::PageDown => KeyCode::PageDown,
            Key::Left => KeyCode::Left,
            Key::Right => KeyCode::Right,
            Key::Up => KeyCode::Up,
            Key::Down => KeyCode::Down,
            Key::Delete => KeyCode::Delete,
        }
    }

    /// Build a printable key from its unshifted character under the fixed
    /// shift convention.
    pub fn from_char_default_shifted(c: char) -> (key: Key)
        requires
            shifted_char(c) is Some,
        ensures
            key == (Key::Normal { normal: c, shifted: shifted_char(c)->Some_0 }),
            key.wf(),
    {
        proof {
            lemma_shifted_chars_have_codes(c);
        }
        Key::Normal { normal: c, shifted: default_shifted(c) }
    }

    /// The key code this key sends, with or without shift held.
    pub fn keycode(&self, shift: bool) -> (code: KeyCode)
        requires
            self.wf(),
        ensures
            code == self.spec_keycode(shift),
    {
        match self {
            Key::Normal { normal, shifted } => {
                if shift {
                    char_to_keycode(*shifted)
                } else {
                    char_to_keycode(*normal)
                }
            },
            Key::Backspace => KeyCode::Backspace,
            Key::Tab => KeyCode::Tab,
            Key::Enter => KeyCode::Enter,
            Key::CapsLock => KeyCode::CapsLock,
            Key::LShift => KeyCode::LShift,
            Key::RShift => KeyCode::RShift,
            Key::LCtrl => KeyCode::LControl,
            Key::RCtrl => KeyCode::RControl,
            Key::LAlt => KeyCode::LAlt,
            Key::RAlt => KeyCode::RAlt,
            Key::LMeta => KeyCode::LMeta,
            Key::RMeta => KeyCode::RMeta,
            Key::Space => KeyCode::Space,
            Key::Escape => KeyCode::Escape,
            Key::Home => KeyCode::Home,
            Key::End => KeyCode::End,
            Key::PageUp => KeyCode::PageUp,
            Key::PageDown => KeyCode::PageDown,
            Key::Left => KeyCode::Left,
            Key::Right => KeyCode::Right,
            Key::Up => KeyCode::Up,
            Key::Down => KeyCode::Down,
            Key::Delete => KeyCode::Delete,
        }
    }
}

/// Every character with a shifted form has a key code, and so does the
/// shifted form itself.
pub proof fn lemma_shifted_chars_have_codes(c: char)
    requires
        shifted_char(c) is Some,
    ensures
        char_code(c) is Some,
        char_code(shifted_char(c)->Some_0) is Some,
{
}

/// Every unshifted character of a printable key code has a key code of its
/// own and, except for the space bar, a shifted form.
pub proof fn lemma_code_chars_are_typable(code: KeyCode)
    requires
        code_char(code) is Some,
        code != KeyCode::Space,
    ensures
        char_code(code_char(code)->Some_0) is Some,
        shifted_char(code_char(code)->Some_0) is Some,
{
}

/// Taking the unshifted character of a printable key code and looking its
/// key code up again returns the same code.
pub proof fn lemma_code_char_roundtrip(code: KeyCode)
    requires
        code_char(code) is Some,
    ensures
        char_code(code_char(code)->Some_0) == Some(code),
{
}

/// The relative dexterity of one finger, as a percentage in `0..=100`:
/// a fully dexterous finger scores 100.
#[derive(Clone, Copy, Debug, PartialEq, Eq, Structural, Hash)]
pub struct FingerConfig {
    pub finger: Finger,
    pub score: u32,
}

impl FingerConfig {
    /// A dexterity percentage never exceeds 100.
    pub open spec fn wf(self) -> bool {
        self.score <= 100
    }
}

} // verus!
