use vstd::prelude::*;

verus! {

/// A key on the keyboard. Media and modifier keys are told apart by their position in the
/// terminal's list of them.
#[derive(PartialEq, Eq, Structural, Clone, Copy, Debug)]
pub enum KeyCode {
    Backspace,
    Enter,
    Left,
    Right,
    Up,
    Down,
    Home,
    End,
    PageUp,
    PageDown,
    Tab,
    BackTab,
    Delete,
    Insert,
    F(u8),
    Char(char),
    Null,
    Esc,
    CapsLock,
    ScrollLock,
    NumLock,
    PrintScreen,
    Pause,
    Menu,
    KeypadBegin,
    Media(u8),
    Modifier(u8),
}

/// The modifier keys held during a key event, one bit each.
#[derive(PartialEq, Eq, Structural, Clone, Copy, Debug)]
pub struct KeyModifiers {
    pub bits: u8,
}

impl KeyModifiers {
    pub fn none() -> (m: KeyModifiers)
        ensures
            m.bits == 0,
    {
        KeyModifiers { bits: 0 }
    }

    pub fn shift() -> (m: KeyModifiers)
        ensures
            m.bits == 1,
    {
        KeyModifiers { bits: 1 }
    }

    pub fn control() -> (m: KeyModifiers)
        ensures
            m.bits == 2,
    {
        KeyModifiers { bits: 2 }
    }

    pub fn alt() -> (m: KeyModifiers)
        ensures
            m.bits == 4,
    {
        KeyModifiers { bits: 4 }
    }

    pub fn super_key() -> (m: KeyModifiers)
        ensures
            m.bits == 8,
    {
        KeyModifiers { bits: 8 }
    }

    pub fn hyper() -> (m: KeyModifiers)
        ensures
            m.bits == 16,
    {
        KeyModifiers { bits: 16 }
    }

    pub fn meta() -> (m: KeyModifiers)
        ensures
            m.bits == 32,
    {
        KeyModifiers { bits: 32 }
    }

    /// Whether every modifier of `other` is held in `self`.
    pub fn contains(&self, other: KeyModifiers) -> (b: bool)
        ensures
            b == (self.bits & other.bits == other.bits),
    {
        self.bits & other.bits == other.bits
    }
}

/// Whether a key went down, is auto-repeating, or came up.
#[derive(PartialEq, Eq, Structural, Clone, Copy, Debug)]
pub enum KeyEventKind {
    Press,
    Repeat,
    Release,
}

/// A key event: the key, the modifiers held, the kind of event and the keyboard state bits.
#[derive(PartialEq, Eq, Structural, Clone, Copy, Debug)]
pub struct KeyEvent {
    pub code: KeyCode,
    pub modifiers: KeyModifiers,
    pub kind: KeyEventKind,
    pub state: u8,
}

impl KeyEvent {
    /// A key press of `code` with `modifiers` held.
    pub fn new(code: KeyCode, modifiers: KeyModifiers) -> (e: KeyEvent)
        ensures
            e.code == code,
            e.modifiers == modifiers,
            e.kind == KeyEventKind::Press,
            e.state == 0,
    {
        KeyEvent { code, modifiers, kind: KeyEventKind::Press, state: 0 }
    }

    pub fn is_press(&self) -> (b: bool)
        ensures
            b == (self.kind == KeyEventKind::Press),
    {
        match self.kind {
            KeyEventKind::Press => true,
            _ => false,
        }
    }

    pub fn is_release(&self) -> (b: bool)
        ensures
            b == (self.kind == KeyEventKind::Release),
    {
        match self.kind {
            KeyEventKind::Release => true,
            _ => false,
        }
    }

    pub fn is_repeat(&self) -> (b: bool)
        ensures
            b == (self.kind == KeyEventKind::Repeat),
    {
        match self.kind {
            KeyEventKind::Repeat => true,
            _ => false,
        }
    }
}

/// Whether every modifier of `modifier` is held during `event`.
pub fn contains_modifier(event: KeyEvent, modifier: KeyModifiers) -> (b: bool)
    ensures
        b == (event.modifiers.bits & modifier.bits == modifier.bits),
{
    event.modifiers.contains(modifier)
}

/// Whether `event` is about the key `key`.
pub fn is_key(event: KeyEvent, key: KeyCode) -> (b: bool)
    ensures
        b == (event.code == key),
{
    event.code == key
}

/// Whether the control modifier is held in `m`.
pub open spec fn holds_control(m: KeyModifiers) -> bool {
    m.bits & 2 == 2
}

/// Whether `key` is Ctrl+C: the key `c` with the control modifier held (others may be held
/// too).
pub fn is_ctrl_c(key: &KeyEvent) -> (b: bool)
    ensures
        b == (holds_control(key.modifiers) && key.code == KeyCode::Char('c')),
{
    contains_modifier(*key, KeyModifiers::control()) && is_key(*key, KeyCode::Char('c'))
}

} // verus!

verus! {

/// A mouse button.
#[derive(PartialEq, Eq, Structural, Clone, Copy, Debug)]
pub enum MouseButton {
    Left,
    Right,
    Middle,
}

/// What a mouse event reports.
#[derive(PartialEq, Eq, Structural, Clone, Copy, Debug)]
pub enum MouseEventKind {
    Down(MouseButton),
    Up(MouseButton),
    Drag(MouseButton),
    Moved,
    ScrollDown,
    ScrollUp,
    ScrollLeft,
    ScrollRight,
}

impl MouseEventKind {
    /// Whether a button went down.
    pub fn is_down(&self) -> (b: bool)
        ensures
            b == (*self is Down),
    {
        match self {
            MouseEventKind::Down(_) => true,
            _ => false,
        }
    }
}

/// A mouse event: what happened, at which terminal cell, with which modifiers held.
#[derive(PartialEq, Eq, Structural, Clone, Copy, Debug)]
pub struct MouseEvent {
    pub kind: MouseEventKind,
    pub column: u16,
    pub row: u16,
    pub modifiers: KeyModifiers,
}

} // verus!
