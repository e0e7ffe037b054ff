//! Laws of the reports of keys and of the mouse.

use crate::event;
use crate::event::{KeyCode, KeyEvent, KeyModifiers, MouseButton, MouseEvent, MouseEventKind};
use crate::pane::control_laws;
use crate::pane::state;
use vstd::prelude::*;
use vstd::utf8;

verus! {

/// The same key without Alt.
pub open spec fn without_alt(key: KeyEvent) -> KeyEvent {
    KeyEvent { modifiers: KeyModifiers { alt: false, ..key.modifiers }, ..key }
}

/// A character is sent as it is, in UTF-8.
pub proof fn characters_are_sent(c: char, shift: bool)
    ensures
        ({
            let key = KeyEvent {
                code: KeyCode::Char(c),
                modifiers: KeyModifiers { shift, control: false, alt: false },
            };
            &&& event::key_bytes(key) == utf8::encode_utf8(seq![c])
            &&& (c as u32) < 128 ==> event::key_bytes(key) == seq![c as u8]
        }),
{
    let one = seq![c];
    assert(one.drop_first().len() == 0);
    reveal_with_fuel(utf8::encode_utf8, 2);
    if (c as u32) < 128 {
        let u = c as u32;
        assert(u < 128 ==> (u & 0x7F) as u8 == u as u8) by (bit_vector);
        assert(utf8::encode_utf8(one) =~= seq![c as u8]);
    }
}

/// Control with a letter sends its number in the alphabet, whatever its case, and a character
/// beyond ASCII is sent as it is.
pub proof fn control_sends_the_number_of_a_letter(c: char, shift: bool)
    ensures
        ({
            let bytes = event::key_bytes(
                KeyEvent {
                    code: KeyCode::Char(c),
                    modifiers: KeyModifiers { shift, control: true, alt: false },
                },
            );
            &&& 'a' <= c && c <= 'z' ==> bytes == seq![(c as u32 - 'a' as u32 + 1) as u8]
            &&& 'A' <= c && c <= 'Z' ==> bytes == seq![(c as u32 - 'A' as u32 + 1) as u8]
            &&& (c as u32) < 128 ==> bytes.len() == 1 && bytes[0] < 32
            &&& (c as u32) >= 128 ==> bytes == utf8::encode_utf8(seq![c])
        }),
{
}

/// Alt puts an escape in front of what is sent without it, and sends nothing for a key that is
/// not sent.
pub proof fn alt_puts_an_escape_in_front(key: KeyEvent)
    requires
        key.modifiers.alt,
    ensures
        event::key_bytes(key) == if event::key_bytes(without_alt(key)).len() == 0 {
            Seq::empty()
        } else {
            seq![27u8] + event::key_bytes(without_alt(key))
        },
{
    assert(event::key_bytes(without_alt(key)).len() == 0 ==> event::key_bytes(key)
        =~= Seq::<u8>::empty());
}

/// What the keys without a character send: single control characters, and the sequences of the
/// cursor keys, of the editing keys and of the function keys. Modifiers but Alt make no
/// difference, except Shift with Tab.
pub proof fn special_keys_are_sent(key: KeyEvent)
    requires
        !key.modifiers.alt,
        !(key.code is Char),
    ensures
        ({
            let sent = event::key_bytes(key);
            &&& key.code is Enter ==> sent == seq!['\r' as u8]
            &&& key.code is Backspace ==> sent == seq![127u8]
            &&& key.code is Tab ==> sent == if key.modifiers.shift {
                seq![27u8, '[' as u8, 'Z' as u8]
            } else {
                seq!['\t' as u8]
            }
            &&& key.code is Esc ==> sent == seq![27u8]
            &&& key.code is Up ==> sent == seq![27u8, '[' as u8, 'A' as u8]
            &&& key.code is Down ==> sent == seq![27u8, '[' as u8, 'B' as u8]
            &&& key.code is Right ==> sent == seq![27u8, '[' as u8, 'C' as u8]
            &&& key.code is Left ==> sent == seq![27u8, '[' as u8, 'D' as u8]
            &&& key.code is Home ==> sent == seq![27u8, '[' as u8, 'H' as u8]
            &&& key.code is End ==> sent == seq![27u8, '[' as u8, 'F' as u8]
            &&& key.code is Insert ==> sent == seq![27u8, '[' as u8, '2' as u8, '~' as u8]
            &&& key.code is Delete ==> sent == seq![27u8, '[' as u8, '3' as u8, '~' as u8]
            &&& key.code is PageUp ==> sent == seq![27u8, '[' as u8, '5' as u8, '~' as u8]
            &&& key.code is PageDown ==> sent == seq![27u8, '[' as u8, '6' as u8, '~' as u8]
            &&& key.code is BackTab || key.code is Other ==> sent.len() == 0
        }),
{
}

/// The number in the sequence of a function key from the fifth on: counted from fifteen, with
/// a gap behind the fifth and behind the tenth one.
pub open spec fn function_number(n: int) -> nat {
    if n == 5 {
        15
    } else if n <= 10 {
        (n + 11) as nat
    } else {
        (n + 12) as nat
    }
}

/// The first four function keys send letters from P on, the others numbers.
pub proof fn function_keys_are_sent(n: u8, modifiers: KeyModifiers)
    requires
        !modifiers.alt,
    ensures
        ({
            let sent = event::key_bytes(KeyEvent { code: KeyCode::F(n), modifiers });
            &&& 1 <= n <= 4 ==> sent == seq![27u8, 'O' as u8, ('P' as u8 + n - 1) as u8]
            &&& 5 <= n <= 12 ==> exists|digits: Seq<u8>| #[trigger]
                control_laws::is_number(digits, function_number(n as int)) && sent == seq![
                    27u8,
                    '[' as u8,
                ] + digits + seq!['~' as u8]
            &&& n == 0 || n > 12 ==> sent.len() == 0
        }),
{
    let sent = event::key_bytes(KeyEvent { code: KeyCode::F(n), modifiers });
    if 5 <= n <= 12 {
        let m = function_number(n as int);
        let digits = state::decimal(m);
        control_laws::decimal_is_the_number(m);
        reveal_with_fuel(state::decimal, 3);
        assert(digits =~= seq![(48 + m / 10) as u8, (48 + m % 10) as u8]);
        assert(sent =~= seq![27u8, '[' as u8] + digits + seq!['~' as u8]);
    }
}

/// The number of a mouse event: of the button, with 32 more while the mouse moves and 64 more
/// for the wheel; 35 is a movement without a button.
pub open spec fn event_number(kind: MouseEventKind) -> Option<nat> {
    let button = match kind {
        MouseEventKind::Down(b) | MouseEventKind::Up(b) | MouseEventKind::Drag(b) => match b {
            MouseButton::Left => 0nat,
            MouseButton::Middle => 1,
            MouseButton::Right => 2,
        },
        MouseEventKind::Moved => 3,
        MouseEventKind::ScrollUp => 0,
        MouseEventKind::ScrollDown => 1,
        _ => 0,
    };
    match kind {
        MouseEventKind::Down(_) | MouseEventKind::Up(_) => Some(button),
        MouseEventKind::Drag(_) | MouseEventKind::Moved => Some(button + 32),
        MouseEventKind::ScrollUp | MouseEventKind::ScrollDown => Some(button + 64),
        _ => None,
    }
}

/// What the modifiers add to the number of a mouse event: four for Shift, eight for Alt and
/// sixteen for Control.
pub open spec fn modifier_number(modifiers: KeyModifiers) -> nat {
    (if modifiers.shift {
        4nat
    } else {
        0
    }) + (if modifiers.alt {
        8nat
    } else {
        0
    }) + (if modifiers.control {
        16nat
    } else {
        0
    })
}

/// A mouse event is sent with its number, its column and its row, counted from one, and with a
/// small letter behind it for a release. One that has no number is not sent.
pub proof fn mouse_events_are_sent(mouse: MouseEvent)
    ensures
        match event_number(mouse.kind) {
            Some(n) => exists|number: Seq<u8>, column: Seq<u8>, row: Seq<u8>|
                {
                    &&& #[trigger] control_laws::is_number(
                        number,
                        n + modifier_number(mouse.modifiers),
                    )
                    &&& #[trigger] control_laws::is_number(column, (mouse.column + 1) as nat)
                    &&& #[trigger] control_laws::is_number(row, (mouse.row + 1) as nat)
                    &&& event::mouse_bytes(mouse) == seq![27u8, '[' as u8, '<' as u8] + number
                        + seq![';' as u8] + column + seq![';' as u8] + row + seq![
                        if mouse.kind is Up {
                            'm' as u8
                        } else {
                            'M' as u8
                        },
                    ]
                },
            None => event::mouse_bytes(mouse).len() == 0,
        },
{
    match event_number(mouse.kind) {
        Some(n) => {
            let m = n + modifier_number(mouse.modifiers);
            control_laws::decimal_is_the_number(m);
            control_laws::decimal_is_the_number((mouse.column + 1) as nat);
            control_laws::decimal_is_the_number((mouse.row + 1) as nat);
            let number = state::decimal(m);
            let column = state::decimal((mouse.column + 1) as nat);
            let row = state::decimal((mouse.row + 1) as nat);
            assert(control_laws::is_number(number, m));
            assert(control_laws::is_number(column, (mouse.column + 1) as nat));
            assert(control_laws::is_number(row, (mouse.row + 1) as nat));
        },
        None => {},
    }
}

} // verus!
