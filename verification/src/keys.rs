//! Key presses as the terminal reports them.
use vstd::prelude::*;
use vstd::std_specs::cmp::PartialEqSpecImpl;

verus! {

/// Which key was pressed.
#[derive(Clone, Copy, Debug, PartialEq, Eq, Structural)]
pub enum KeyCode {
    Backspace,
    Enter,
    Left,
    Right,
    Up,
    Down,
    Home,
    End,
    PageUp,
    PageDown,
    Tab,
    BackTab,
    Delete,
    Insert,
    F(u8),
    Char(char),
    Null,
    Esc,
}

/// Modifier keys held down with a key.
#[derive(Clone, Copy, Debug, PartialEq, Eq, Structural)]
pub struct KeyModifiers {
    pub shift: bool,
    pub control: bool,
    pub alt: bool,
    /// Super, hyper or meta, which no binding asks for.
    pub other: bool,
}

/// A key press.
#[derive(Clone, Copy, Debug, Eq)]
pub struct KeyEvent {
    pub code: KeyCode,
    pub modifiers: KeyModifiers,
}

pub open spec fn is_ascii_upper(c: char) -> bool {
    0x41 <= c as u32 <= 0x5a
}

pub open spec fn is_ascii_lower(c: char) -> bool {
    0x61 <= c as u32 <= 0x7a
}

pub open spec fn ascii_upper(c: char) -> char {
    if is_ascii_lower(c) {
        (c as u8 - 0x20) as u8 as char
    } else {
        c
    }
}

pub open spec fn ascii_lower(c: char) -> char {
    if is_ascii_upper(c) {
        (c as u8 + 0x20) as u8 as char
    } else {
        c
    }
}

/// The uppercase form of an ASCII letter; any other character as it is.
pub fn to_ascii_upper(c: char) -> (r: char)
    ensures
        r == ascii_upper(c),
{
    let n: u32 = c as u32;
    if 0x61 <= n && n <= 0x7a {
        ((c as u8) - 0x20) as char
    } else {
        c
    }
}

/// The lowercase form of an ASCII letter; any other character as it is.
pub fn to_ascii_lower(c: char) -> (r: char)
    ensures
        r == ascii_lower(c),
{
    let n: u32 = c as u32;
    if 0x41 <= n && n <= 0x5a {
        ((c as u8) + 0x20) as char
    } else {
        c
    }
}

impl KeyModifiers {
    /// No modifier held.
    pub fn none() -> (r: KeyModifiers)
        ensures
            r == (KeyModifiers { shift: false, control: false, alt: false, other: false }),
    {
        KeyModifiers { shift: false, control: false, alt: false, other: false }
    }

    /// Shift alone.
    pub fn shift() -> (r: KeyModifiers)
        ensures
            r == (KeyModifiers { shift: true, control: false, alt: false, other: false }),
    {
        KeyModifiers { shift: true, control: false, alt: false, other: false }
    }

    /// Control alone.
    pub fn control() -> (r: KeyModifiers)
        ensures
            r == (KeyModifiers { shift: false, control: true, alt: false, other: false }),
    {
        KeyModifiers { shift: false, control: true, alt: false, other: false }
    }

    /// Alt alone.
    pub fn alt() -> (r: KeyModifiers)
        ensures
            r == (KeyModifiers { shift: false, control: false, alt: true, other: false }),
    {
        KeyModifiers { shift: false, control: false, alt: true, other: false }
    }
}

impl KeyEvent {
    /// A press of `code` with `modifiers` held.
    pub fn new(code: KeyCode, modifiers: KeyModifiers) -> (r: KeyEvent)
        ensures
            r == (KeyEvent { code, modifiers }),
    {
        KeyEvent { code, modifiers }
    }

    /// The press in the form in which presses are compared: an uppercase
    /// letter carries shift, and a shifted letter is uppercase.
    pub open spec fn normal(self) -> KeyEvent {
        match self.code {
            KeyCode::Char(c) => if is_ascii_upper(c) {
                KeyEvent {
                    code: self.code,
                    modifiers: KeyModifiers { shift: true, ..self.modifiers },
                }
            } else if self.modifiers.shift {
                KeyEvent { code: KeyCode::Char(ascii_upper(c)), modifiers: self.modifiers }
            } else {
                self
            },
            _ => self,
        }
    }

    /// Whether two presses are the same key: letter case and shift agree.
    pub open spec fn same_as(self, other: KeyEvent) -> bool {
        self.normal() == other.normal()
    }

    fn normalized(&self) -> (r: KeyEvent)
        ensures
            r == self.normal(),
    {
        match self.code {
            KeyCode::Char(c) => {
                let n: u32 = c as u32;
                if 0x41 <= n && n <= 0x5a {
                    KeyEvent {
                        code: self.code,
                        modifiers: KeyModifiers {
                            shift: true,
                            control: self.modifiers.control,
                            alt: self.modifiers.alt,
                            other: self.modifiers.other,
                        },
                    }
                } else if self.modifiers.shift {
                    KeyEvent { code: KeyCode::Char(to_ascii_upper(c)), modifiers: self.modifiers }
                } else {
                    *self
                }
            },
            _ => *self,
        }
    }
}

impl PartialEq for KeyEvent {
    fn eq(&self, other: &KeyEvent) -> (r: bool) {
        let a: KeyEvent = self.normalized();
        let b: KeyEvent = other.normalized();
        a.code == b.code && a.modifiers == b.modifiers
    }
}

impl PartialEqSpecImpl for KeyEvent {
    open spec fn obeys_eq_spec() -> bool {
        true
    }

    open spec fn eq_spec(&self, other: &KeyEvent) -> bool {
        self.same_as(*other)
    }
}

/// A press with super, hyper or meta held is never the press without them.
pub proof fn other_modifiers_tell_presses_apart(a: KeyEvent, b: KeyEvent)
    requires
        a.modifiers.other != b.modifiers.other,
    ensures
        !a.same_as(b),
{
}

/// A shifted lowercase letter and its uppercase form are the same key.
pub proof fn shifted_letter_is_uppercase_letter(c: char, m: KeyModifiers)
    requires
        is_ascii_lower(c),
        m.shift,
    ensures
        (KeyEvent { code: KeyCode::Char(c), modifiers: m }).same_as(
            KeyEvent { code: KeyCode::Char(ascii_upper(c)), modifiers: m },
        ),
{
}

}
