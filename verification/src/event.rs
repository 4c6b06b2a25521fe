//! Keys, and the decisions an editor makes from key presses and mouse gestures.

use vstd::prelude::*;

verus! {

/// A key the editor reacts to. A character key carries its character and, where
/// it has one, the character it gives with shift held.
#[derive(Debug, Clone, Copy, PartialEq, Eq, Structural)]
pub enum Key {
    Char(char, Option<char>),
    Escape,
    Return,
    Left,
    Up,
    Right,
    Down,
    Tab,
    Backspace,
}

/// The first character of the uppercase mapping of `c`, as
/// `char::to_uppercase(c).next()` gives it.
pub uninterp spec fn uppercase_first(c: char) -> Option<char>;

/// `true` for `a` to `z`.
pub open spec fn is_ascii_lowercase_letter(c: char) -> bool {
    'a' <= c && c <= 'z'
}

/// `char::to_uppercase(c).next()`. Its documentation says the iterator yields one
/// or more characters, the character itself where it has no uppercase mapping.
/// Besides naming the result, the contract states the ASCII part of the Unicode
/// mapping: `a` to `z` map to `A` to `Z`, every other ASCII character to itself.
#[verifier::external_body]
fn first_uppercase(c: char) -> (r: Option<char>)
    ensures
        r == uppercase_first(c),
        r is Some,
        is_ascii_lowercase_letter(c) ==> r == Some(((c as u32) - 32) as char),
        (c as u32) < 128 && !is_ascii_lowercase_letter(c) ==> r == Some(c),
{
    c.to_uppercase().next()
}

/// The character a US keyboard gives with shift on a key whose character has no
/// uppercase form.
pub open spec fn shifted_symbol(c: char) -> Option<char> {
    if c == '\\' {
        Some('|')
    } else if c == '\'' {
        Some('"')
    } else if c == ';' {
        Some(':')
    } else if c == ',' {
        Some('<')
    } else if c == '`' {
        Some('~')
    } else if c == '[' {
        Some('{')
    } else if c == '-' {
        Some('_')
    } else if c == '.' {
        Some('>')
    } else if c == ']' {
        Some('}')
    } else if c == '/' {
        Some('?')
    } else if c == '=' {
        Some('+')
    } else if c == '0' {
        Some(')')
    } else if c == '1' {
        Some('!')
    } else if c == '2' {
        Some('@')
    } else if c == '3' {
        Some('#')
    } else if c == '4' {
        Some('$')
    } else if c == '5' {
        Some('%')
    } else if c == '6' {
        Some('^')
    } else if c == '7' {
        Some('&')
    } else if c == '8' {
        Some('*')
    } else if c == '9' {
        Some('(')
    } else {
        None
    }
}

/// The shifted character of `c`: its uppercase form where that differs from it,
/// else its keyboard symbol.
pub open spec fn shifted_char(c: char) -> Option<char> {
    match uppercase_first(c) {
        None => None,
        Some(u) => if u != c {
            Some(u)
        } else {
            shifted_symbol(c)
        },
    }
}

/// With shift, the symbol keys type what a US keyboard types: `\` gives `|`,
/// `'` gives `"`, `;` gives `:`, `,` gives `<`, `` ` `` gives `~`, `[` gives `{`,
/// `-` gives `_`, `.` gives `>`, `]` gives `}`, `/` gives `?`, `=` gives `+`, and
/// the digits `0` to `9` give `)!@#$%^&*(`; no other character has a shifted symbol.
pub proof fn law_symbols_shift_as_on_a_us_keyboard(c: char)
    ensures
        shifted_symbol('\\') == Some('|'),
        shifted_symbol('\'') == Some('"'),
        shifted_symbol(';') == Some(':'),
        shifted_symbol(',') == Some('<'),
        shifted_symbol('`') == Some('~'),
        shifted_symbol('[') == Some('{'),
        shifted_symbol('-') == Some('_'),
        shifted_symbol('.') == Some('>'),
        shifted_symbol(']') == Some('}'),
        shifted_symbol('/') == Some('?'),
        shifted_symbol('=') == Some('+'),
        shifted_symbol('0') == Some(')'),
        shifted_symbol('1') == Some('!'),
        shifted_symbol('2') == Some('@'),
        shifted_symbol('3') == Some('#'),
        shifted_symbol('4') == Some('$'),
        shifted_symbol('5') == Some('%'),
        shifted_symbol('6') == Some('^'),
        shifted_symbol('7') == Some('&'),
        shifted_symbol('8') == Some('*'),
        shifted_symbol('9') == Some('('),
        shifted_symbol(c) is Some ==> (c == '\\' || c == '\'' || c == ';' || c == ',' || c == '`' || c == '[' || c == '-' || c == '.' || c == ']' || c == '/' || c == '=' || c == '0' || c == '1' || c == '2' || c == '3' || c == '4' || c == '5' || c == '6' || c == '7' || c == '8' || c == '9'),
{
}

impl Key {
    /// The key for the character `c`, with its shifted character.
    pub fn char(c: char) -> (r: Self)
        ensures
            r == Key::Char(c, shifted_char(c)),
            is_ascii_lowercase_letter(c) ==> r == Key::Char(c, Some(((c as u32) - 32) as char)),
            (c as u32) < 128 && !is_ascii_lowercase_letter(c) ==> r == Key::Char(c, shifted_symbol(c)),
    {
        let uppercase = first_uppercase(c);
        if uppercase.is_none() {
            return Key::Char(c, None);
        }
        let uppercase = uppercase.unwrap();
        if uppercase != c {
            Key::Char(c, Some(uppercase))
        } else {
            let shifted = match c {
                '\\' => Some('|'),
                '\'' => Some('"'),
                ';' => Some(':'),
                ',' => Some('<'),
                '`' => Some('~'),
                '[' => Some('{'),
                '-' => Some('_'),
                '.' => Some('>'),
                ']' => Some('}'),
                '/' => Some('?'),
                '=' => Some('+'),
                '0' => Some(')'),
                '1' => Some('!'),
                '2' => Some('@'),
                '3' => Some('#'),
                '4' => Some('$'),
                '5' => Some('%'),
                '6' => Some('^'),
                '7' => Some('&'),
                '8' => Some('*'),
                '9' => Some('('),
                _ => None,
            };
            Key::Char(c, shifted)
        }
    }
}

/// The character of the key with code index `index` among the digit keys
/// `1`..`9`, `0` (indices 0 to 9) and the letter keys `a`..`z` (indices 10 to 35).
pub open spec fn code_index_char(index: u8) -> char {
    if index < 10 {
        ((48 + (index + 1) % 10) as u8) as char
    } else {
        ((87 + index) as u8) as char
    }
}

/// The key of a digit or letter key code, by its index in the key code list
/// (digits `1`..`9`, `0`, then `a`..`z`); `None` for the indices past them.
pub fn key_for_code_index(index: u8) -> (r: Option<Key>)
    ensures
        index < 36 ==> r == Some(Key::Char(code_index_char(index), shifted_char(code_index_char(index)))),
        index >= 36 ==> r is None,
        index < 10 ==> r == Some(Key::Char(code_index_char(index), shifted_symbol(code_index_char(index)))),
        10 <= index < 36 ==> r == Some(
            Key::Char(code_index_char(index), Some(((code_index_char(index) as u32) - 32) as char)),
        ),
{
    if index < 10 {
        let c = (48 + (index + 1) % 10) as u8;
        Some(Key::char(c as char))
    } else if index < 36 {
        let c = (87 + index) as u8;
        Some(Key::char(c as char))
    } else {
        None
    }
}

/// The modifier keys held during an event.
#[derive(Debug, Clone, Copy, PartialEq, Eq, Structural)]
pub struct Modifiers {
    pub shift: bool,
    pub ctrl: bool,
    pub alt: bool,
    pub logo: bool,
}

} // verus!

verus! {

/// A mouse button.
#[derive(Debug, Clone, Copy, PartialEq, Eq, Structural)]
pub enum MouseButton {
    Left,
    Right,
    Middle,
    Other(u16),
}

/// The mouse buttons held down, one bit per button: left 1, right 2, middle 4.
#[derive(Debug, Clone, Copy, PartialEq, Eq, Structural)]
pub struct MouseState {
    pub bits: u32,
}

/// The bit of a button; other buttons have none.
pub open spec fn button_bit(b: MouseButton) -> u32 {
    match b {
        MouseButton::Left => 1,
        MouseButton::Right => 2,
        MouseButton::Middle => 4,
        MouseButton::Other(_) => 0,
    }
}

impl MouseState {
    /// No button held.
    pub fn empty() -> (r: Self)
        ensures
            r.bits == 0,
    {
        MouseState { bits: 0 }
    }

    /// The state with only the given button held.
    pub fn from_button(button: &MouseButton) -> (r: Self)
        ensures
            r.bits == button_bit(*button),
    {
        match button {
            MouseButton::Left => MouseState { bits: 1 },
            MouseButton::Right => MouseState { bits: 2 },
            MouseButton::Middle => MouseState { bits: 4 },
            MouseButton::Other(_) => MouseState { bits: 0 },
        }
    }

    /// Whether the button is held.
    pub fn holds(&self, button: &MouseButton) -> (r: bool)
        ensures
            r == (button_bit(*button) != 0 && self.bits & button_bit(*button) != 0),
    {
        let bit = MouseState::from_button(button).bits;
        bit != 0 && self.bits & bit != 0
    }

    /// The button is pressed: its bit is added.
    pub fn press(&mut self, button: &MouseButton)
        ensures
            final(self).bits == old(self).bits | button_bit(*button),
    {
        self.bits = self.bits | MouseState::from_button(button).bits;
    }

    /// The button is released: its bit is removed, the others stay.
    pub fn release(&mut self, button: &MouseButton)
        ensures
            final(self).bits == old(self).bits & !button_bit(*button),
    {
        self.bits = self.bits & !MouseState::from_button(button).bits;
    }
}

impl Default for MouseState {
    fn default() -> (r: Self)
        ensures
            r.bits == 0,
    {
        MouseState::empty()
    }
}

/// Pressing a button and releasing it leaves the other buttons as they were and
/// the button itself up.
pub proof fn law_press_release(bits: u32, button: MouseButton)
    ensures
        ((bits | button_bit(button)) & !button_bit(button)) == bits & !button_bit(button),
        button_bit(button) != 0 ==> ((bits | button_bit(button)) & button_bit(button)) != 0,
{
    let b = button_bit(button);
    assert(((bits | b) & !b) == bits & !b) by (bit_vector);
    assert(b != 0 ==> ((bits | b) & b) != 0) by (bit_vector);
}

} // verus!

verus! {

/// A keyboard key code: a digit or letter key by its position among them
/// (digits `1`..`9`, `0`, then `a`..`z`), or a named key.
#[derive(Debug, Clone, Copy, PartialEq, Eq, Structural)]
pub enum KeyCode {
    Indexed(u8),
    Escape,
    Return,
    Left,
    Up,
    Right,
    Down,
    Tab,
    Back,
    Space,
    Caret,
    Apostrophe,
    Asterisk,
    At,
    Backslash,
    Colon,
    Comma,
    Equals,
    Grave,
    LBracket,
    Minus,
    Period,
    Plus,
    RBracket,
    Semicolon,
    Slash,
    /// Any key the editor does not react to.
    Other,
}

/// The character a named character key types.
pub open spec fn key_code_char(code: KeyCode) -> Option<char> {
    match code {
        KeyCode::Space => Some(' '),
        KeyCode::Caret => Some('^'),
        KeyCode::Apostrophe => Some('\''),
        KeyCode::Asterisk => Some('*'),
        KeyCode::At => Some('@'),
        KeyCode::Backslash => Some('\\'),
        KeyCode::Colon => Some(':'),
        KeyCode::Comma => Some(','),
        KeyCode::Equals => Some('='),
        KeyCode::Grave => Some('`'),
        KeyCode::LBracket => Some('['),
        KeyCode::Minus => Some('-'),
        KeyCode::Period => Some('.'),
        KeyCode::Plus => Some('+'),
        KeyCode::RBracket => Some(']'),
        KeyCode::Semicolon => Some(';'),
        KeyCode::Slash => Some('/'),
        _ => None,
    }
}

/// The key a key code stands for: digit and letter keys and named character
/// keys give character keys, the editing and arrow keys give their keys, other
/// codes give none.
pub open spec fn key_of_code(code: KeyCode) -> Option<Key> {
    match code {
        KeyCode::Indexed(i) => if i < 36 {
            Some(Key::Char(code_index_char(i), shifted_char(code_index_char(i))))
        } else {
            None
        },
        KeyCode::Escape => Some(Key::Escape),
        KeyCode::Return => Some(Key::Return),
        KeyCode::Left => Some(Key::Left),
        KeyCode::Up => Some(Key::Up),
        KeyCode::Right => Some(Key::Right),
        KeyCode::Down => Some(Key::Down),
        KeyCode::Tab => Some(Key::Tab),
        KeyCode::Back => Some(Key::Backspace),
        KeyCode::Other => None,
        _ => match key_code_char(code) {
            Some(c) => Some(Key::Char(c, shifted_char(c))),
            None => None,
        },
    }
}

/// The key a key code stands for, if the editor reacts to it.
pub fn key_for_code(code: &KeyCode) -> (r: Option<Key>)
    ensures
        r == key_of_code(*code),
{
    match code {
        KeyCode::Indexed(i) => key_for_code_index(*i),
        KeyCode::Escape => Some(Key::Escape),
        KeyCode::Return => Some(Key::Return),
        KeyCode::Left => Some(Key::Left),
        KeyCode::Up => Some(Key::Up),
        KeyCode::Right => Some(Key::Right),
        KeyCode::Down => Some(Key::Down),
        KeyCode::Tab => Some(Key::Tab),
        KeyCode::Back => Some(Key::Backspace),
        KeyCode::Space => Some(Key::char(' ')),
        KeyCode::Caret => Some(Key::char('^')),
        KeyCode::Apostrophe => Some(Key::char('\'')),
        KeyCode::Asterisk => Some(Key::char('*')),
        KeyCode::At => Some(Key::char('@')),
        KeyCode::Backslash => Some(Key::char('\\')),
        KeyCode::Colon => Some(Key::char(':')),
        KeyCode::Comma => Some(Key::char(',')),
        KeyCode::Equals => Some(Key::char('=')),
        KeyCode::Grave => Some(Key::char('`')),
        KeyCode::LBracket => Some(Key::char('[')),
        KeyCode::Minus => Some(Key::char('-')),
        KeyCode::Period => Some(Key::char('.')),
        KeyCode::Plus => Some(Key::char('+')),
        KeyCode::RBracket => Some(Key::char(']')),
        KeyCode::Semicolon => Some(Key::char(';')),
        KeyCode::Slash => Some(Key::char('/')),
        KeyCode::Other => None,
    }
}

} // verus!
