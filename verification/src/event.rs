//! Keys and mouse events, and the bytes by which a terminal reports them to a program.

use crate::pane::grid::push_decimal;
use crate::pane::state;
use vstd::prelude::*;
use vstd::utf8;

verus! {

/// A key of the keyboard.
#[derive(Clone, Copy, PartialEq, Eq, Structural, Debug)]
pub enum KeyCode {
    Char(char),
    Enter,
    Backspace,
    Tab,
    BackTab,
    Esc,
    Up,
    Down,
    Left,
    Right,
    Home,
    End,
    Delete,
    Insert,
    PageUp,
    PageDown,
    F(u8),
    /// Any other key.
    Other,
}

/// The modifier keys that are held down.
#[derive(Clone, Copy, PartialEq, Eq, Structural, Debug)]
pub struct KeyModifiers {
    pub shift: bool,
    pub control: bool,
    pub alt: bool,
}

/// A key press.
#[derive(Clone, Copy, PartialEq, Eq, Structural, Debug)]
pub struct KeyEvent {
    pub code: KeyCode,
    pub modifiers: KeyModifiers,
}

/// A mouse button.
#[derive(Clone, Copy, PartialEq, Eq, Structural, Debug)]
pub enum MouseButton {
    Left,
    Right,
    Middle,
}

/// What the mouse did.
#[derive(Clone, Copy, PartialEq, Eq, Structural, Debug)]
pub enum MouseEventKind {
    Down(MouseButton),
    Up(MouseButton),
    Drag(MouseButton),
    Moved,
    ScrollDown,
    ScrollUp,
    ScrollLeft,
    ScrollRight,
}

/// What the mouse did, and in which cell, counted from zero.
#[derive(Clone, Copy, PartialEq, Eq, Structural, Debug)]
pub struct MouseEvent {
    pub kind: MouseEventKind,
    pub column: u16,
    pub row: u16,
    pub modifiers: KeyModifiers,
}

/// The bytes of a key without the prefix for Alt; none for a key that is not reported.
pub open spec fn code_bytes(code: KeyCode, modifiers: KeyModifiers) -> Seq<u8> {
    match code {
        KeyCode::Char(c) => if modifiers.control && (c as u32) < 128 {
            seq![(c as u32 % 32) as u8]
        } else {
            utf8::encode_utf8(seq![c])
        },
        KeyCode::Enter => seq![13u8],
        KeyCode::Backspace => seq![127u8],
        KeyCode::Tab => if modifiers.shift {
            seq![27u8, 91u8, 90u8]
        } else {
            seq![9u8]
        },
        KeyCode::Esc => seq![27u8],
        KeyCode::Up => seq![27u8, 91u8, 65u8],
        KeyCode::Down => seq![27u8, 91u8, 66u8],
        KeyCode::Right => seq![27u8, 91u8, 67u8],
        KeyCode::Left => seq![27u8, 91u8, 68u8],
        KeyCode::Home => seq![27u8, 91u8, 72u8],
        KeyCode::End => seq![27u8, 91u8, 70u8],
        KeyCode::Delete => seq![27u8, 91u8, 51u8, 126u8],
        KeyCode::Insert => seq![27u8, 91u8, 50u8, 126u8],
        KeyCode::PageUp => seq![27u8, 91u8, 53u8, 126u8],
        KeyCode::PageDown => seq![27u8, 91u8, 54u8, 126u8],
        KeyCode::F(1u8) => seq![27u8, 79u8, 80u8],
        KeyCode::F(2u8) => seq![27u8, 79u8, 81u8],
        KeyCode::F(3u8) => seq![27u8, 79u8, 82u8],
        KeyCode::F(4u8) => seq![27u8, 79u8, 83u8],
        KeyCode::F(5u8) => seq![27u8, 91u8, 49u8, 53u8, 126u8],
        KeyCode::F(6u8) => seq![27u8, 91u8, 49u8, 55u8, 126u8],
        KeyCode::F(7u8) => seq![27u8, 91u8, 49u8, 56u8, 126u8],
        KeyCode::F(8u8) => seq![27u8, 91u8, 49u8, 57u8, 126u8],
        KeyCode::F(9u8) => seq![27u8, 91u8, 50u8, 48u8, 126u8],
        KeyCode::F(10u8) => seq![27u8, 91u8, 50u8, 49u8, 126u8],
        KeyCode::F(11u8) => seq![27u8, 91u8, 50u8, 51u8, 126u8],
        KeyCode::F(12u8) => seq![27u8, 91u8, 50u8, 52u8, 126u8],
        _ => seq![],
    }
}

/// The bytes of a key. Alt puts an escape in front.
pub open spec fn key_bytes(key: KeyEvent) -> Seq<u8> {
    let bytes = code_bytes(key.code, key.modifiers);
    if key.modifiers.alt && bytes.len() > 0 {
        seq![27u8] + bytes
    } else {
        bytes
    }
}

/// The UTF-8 form of a character.
fn utf8_of(c: char) -> (bytes: Vec<u8>)
    ensures
        bytes@ == utf8::encode_utf8(seq![c]),
{
    let mut s = String::new();
    s.push(c);
    assert(s@ =~= seq![c]);
    vstd::slice::slice_to_vec(s.as_str().as_bytes())
}

/// The bytes of a key without the prefix for Alt.
fn encode_code(code: KeyCode, modifiers: KeyModifiers) -> (bytes: Vec<u8>)
    ensures
        bytes@ == code_bytes(code, modifiers),
{
    match code {
        KeyCode::Char(c) => if modifiers.control && (c as u32) < 128 {
            vec![(c as u32 % 32) as u8]
        } else {
            utf8_of(c)
        },
        KeyCode::Enter => vec![13u8],
        KeyCode::Backspace => vec![127u8],
        KeyCode::Tab => if modifiers.shift {
            vec![27u8, 91u8, 90u8]
        } else {
            vec![9u8]
        },
        KeyCode::Esc => vec![27u8],
        KeyCode::Up => vec![27u8, 91u8, 65u8],
        KeyCode::Down => vec![27u8, 91u8, 66u8],
        KeyCode::Right => vec![27u8, 91u8, 67u8],
        KeyCode::Left => vec![27u8, 91u8, 68u8],
        KeyCode::Home => vec![27u8, 91u8, 72u8],
        KeyCode::End => vec![27u8, 91u8, 70u8],
        KeyCode::Delete => vec![27u8, 91u8, 51u8, 126u8],
        KeyCode::Insert => vec![27u8, 91u8, 50u8, 126u8],
        KeyCode::PageUp => vec![27u8, 91u8, 53u8, 126u8],
        KeyCode::PageDown => vec![27u8, 91u8, 54u8, 126u8],
        KeyCode::F(1u8) => vec![27u8, 79u8, 80u8],
        KeyCode::F(2u8) => vec![27u8, 79u8, 81u8],
        KeyCode::F(3u8) => vec![27u8, 79u8, 82u8],
        KeyCode::F(4u8) => vec![27u8, 79u8, 83u8],
        KeyCode::F(5u8) => vec![27u8, 91u8, 49u8, 53u8, 126u8],
        KeyCode::F(6u8) => vec![27u8, 91u8, 49u8, 55u8, 126u8],
        KeyCode::F(7u8) => vec![27u8, 91u8, 49u8, 56u8, 126u8],
        KeyCode::F(8u8) => vec![27u8, 91u8, 49u8, 57u8, 126u8],
        KeyCode::F(9u8) => vec![27u8, 91u8, 50u8, 48u8, 126u8],
        KeyCode::F(10u8) => vec![27u8, 91u8, 50u8, 49u8, 126u8],
        KeyCode::F(11u8) => vec![27u8, 91u8, 50u8, 51u8, 126u8],
        KeyCode::F(12u8) => vec![27u8, 91u8, 50u8, 52u8, 126u8],
        _ => Vec::new(),
    }
}

/// The bytes that report a key press to a program.
pub fn encode_key(key: KeyEvent) -> (bytes: Vec<u8>)
    ensures
        bytes@ == key_bytes(key),
{
    let mut encoded = encode_code(key.code, key.modifiers);
    if key.modifiers.alt && encoded.len() > 0 {
        let mut prefix: Vec<u8> = vec![27u8];
        prefix.append(&mut encoded);
        prefix
    } else {
        encoded
    }
}

/// The number by which a mouse event is reported; `None` for one that is not.
pub open spec fn button_code(kind: MouseEventKind) -> Option<u8> {
    match kind {
        MouseEventKind::Down(MouseButton::Left) => Some(0),
        MouseEventKind::Down(MouseButton::Middle) => Some(1),
        MouseEventKind::Down(MouseButton::Right) => Some(2),
        MouseEventKind::Up(MouseButton::Left) => Some(0),
        MouseEventKind::Up(MouseButton::Middle) => Some(1),
        MouseEventKind::Up(MouseButton::Right) => Some(2),
        MouseEventKind::Drag(MouseButton::Left) => Some(32),
        MouseEventKind::Drag(MouseButton::Middle) => Some(33),
        MouseEventKind::Drag(MouseButton::Right) => Some(34),
        MouseEventKind::Moved => Some(35),
        MouseEventKind::ScrollDown => Some(65),
        MouseEventKind::ScrollUp => Some(64),
        MouseEventKind::ScrollLeft | MouseEventKind::ScrollRight => None,
    }
}

/// What the modifiers add to the number of a mouse event.
pub open spec fn modifier_bits(modifiers: KeyModifiers) -> nat {
    let shift: nat = if modifiers.shift {
        4
    } else {
        0
    };
    let alt: nat = if modifiers.alt {
        8
    } else {
        0
    };
    let control: nat = if modifiers.control {
        16
    } else {
        0
    };
    shift + alt + control
}

/// The bytes of a mouse event: the number, column and row, counted from one, and `m` for a
/// release, `M` for anything else.
pub open spec fn mouse_bytes(mouse: MouseEvent) -> Seq<u8> {
    match button_code(mouse.kind) {
        Some(code) => seq![27u8, 91u8, 60u8] + state::decimal(
            (code + modifier_bits(mouse.modifiers)) as nat,
        ) + seq![59u8] + state::decimal((mouse.column + 1) as nat) + seq![59u8] + state::decimal(
            (mouse.row + 1) as nat,
        ) + seq![
            if mouse.kind is Up {
                109u8
            } else {
                77u8
            },
        ],
        None => seq![],
    }
}

/// The bytes that report a mouse event in the SGR format.
pub fn encode_mouse(mouse: MouseEvent) -> (bytes: Vec<u8>)
    requires
        button_code(mouse.kind) is Some ==> mouse.column < u16::MAX && mouse.row < u16::MAX,
    ensures
        bytes@ == mouse_bytes(mouse),
{
    let (code, is_release): (u8, bool) = match mouse.kind {
        MouseEventKind::Down(MouseButton::Left) => (0, false),
        MouseEventKind::Down(MouseButton::Middle) => (1, false),
        MouseEventKind::Down(MouseButton::Right) => (2, false),
        MouseEventKind::Up(MouseButton::Left) => (0, true),
        MouseEventKind::Up(MouseButton::Middle) => (1, true),
        MouseEventKind::Up(MouseButton::Right) => (2, true),
        MouseEventKind::Drag(MouseButton::Left) => (32, false),
        MouseEventKind::Drag(MouseButton::Middle) => (33, false),
        MouseEventKind::Drag(MouseButton::Right) => (34, false),
        MouseEventKind::Moved => (35, false),
        MouseEventKind::ScrollDown => (65, false),
        MouseEventKind::ScrollUp => (64, false),
        MouseEventKind::ScrollLeft | MouseEventKind::ScrollRight => return Vec::new(),
    };
    // None of the numbers has a bit of a modifier set, so the bits can be added.
    let mut btn: u32 = code as u32;
    if mouse.modifiers.shift {
        btn = btn + 4;
    }
    if mouse.modifiers.alt {
        btn = btn + 8;
    }
    if mouse.modifiers.control {
        btn = btn + 16;
    }
    let mut bytes: Vec<u8> = vec![27u8, 91u8, 60u8];
    push_decimal(&mut bytes, btn);
    bytes.push(59u8);
    push_decimal(&mut bytes, mouse.column as u32 + 1);
    bytes.push(59u8);
    push_decimal(&mut bytes, mouse.row as u32 + 1);
    bytes.push(
        if is_release {
            109u8
        } else {
            77u8
        },
    );
    assert(bytes@ =~= mouse_bytes(mouse));
    bytes
}

} // verus!
