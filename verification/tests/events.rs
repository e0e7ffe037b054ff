use cdc::event::{
    encode_key, encode_mouse, KeyCode, KeyEvent, KeyModifiers, MouseButton, MouseEvent,
    MouseEventKind,
};

const PLAIN: KeyModifiers = KeyModifiers { shift: false, control: false, alt: false };

fn key(code: KeyCode, modifiers: KeyModifiers) -> Vec<u8> {
    encode_key(KeyEvent { code, modifiers })
}

fn mouse(kind: MouseEventKind, column: u16, row: u16, modifiers: KeyModifiers) -> String {
    String::from_utf8(encode_mouse(MouseEvent { kind, column, row, modifiers })).unwrap()
}

#[test]
fn characters_are_sent_in_utf8() {
    assert_eq!(key(KeyCode::Char('a'), PLAIN), b"a".to_vec());
    assert_eq!(key(KeyCode::Char('한'), PLAIN), "한".as_bytes().to_vec());
    assert_eq!(key(KeyCode::Char('😀'), PLAIN), "😀".as_bytes().to_vec());
}

#[test]
fn control_makes_control_characters() {
    let ctrl = KeyModifiers { control: true, ..PLAIN };
    assert_eq!(key(KeyCode::Char('c'), ctrl), vec![3]);
    assert_eq!(key(KeyCode::Char('C'), ctrl), vec![3]);
    assert_eq!(key(KeyCode::Char('['), ctrl), vec![0x1b]);
    assert_eq!(key(KeyCode::Char('한'), ctrl), "한".as_bytes().to_vec());
}

#[test]
fn alt_puts_an_escape_in_front() {
    let alt = KeyModifiers { alt: true, ..PLAIN };
    assert_eq!(key(KeyCode::Char('x'), alt), b"\x1bx".to_vec());
    assert_eq!(key(KeyCode::Up, alt), b"\x1b\x1b[A".to_vec());
    let both = KeyModifiers { alt: true, control: true, ..PLAIN };
    assert_eq!(key(KeyCode::Char('a'), both), vec![0x1b, 1]);
    // A key that is not reported has no prefix either.
    assert_eq!(key(KeyCode::Other, alt), Vec::<u8>::new());
}

#[test]
fn named_keys_have_their_sequences() {
    let table: Vec<(KeyCode, &[u8])> = vec![
        (KeyCode::Enter, b"\r"),
        (KeyCode::Backspace, b"\x7f"),
        (KeyCode::Tab, b"\t"),
        (KeyCode::Esc, b"\x1b"),
        (KeyCode::Up, b"\x1b[A"),
        (KeyCode::Down, b"\x1b[B"),
        (KeyCode::Right, b"\x1b[C"),
        (KeyCode::Left, b"\x1b[D"),
        (KeyCode::Home, b"\x1b[H"),
        (KeyCode::End, b"\x1b[F"),
        (KeyCode::Delete, b"\x1b[3~"),
        (KeyCode::Insert, b"\x1b[2~"),
        (KeyCode::PageUp, b"\x1b[5~"),
        (KeyCode::PageDown, b"\x1b[6~"),
        (KeyCode::F(1), b"\x1bOP"),
        (KeyCode::F(2), b"\x1bOQ"),
        (KeyCode::F(3), b"\x1bOR"),
        (KeyCode::F(4), b"\x1bOS"),
        (KeyCode::F(5), b"\x1b[15~"),
        (KeyCode::F(6), b"\x1b[17~"),
        (KeyCode::F(7), b"\x1b[18~"),
        (KeyCode::F(8), b"\x1b[19~"),
        (KeyCode::F(9), b"\x1b[20~"),
        (KeyCode::F(10), b"\x1b[21~"),
        (KeyCode::F(11), b"\x1b[23~"),
        (KeyCode::F(12), b"\x1b[24~"),
        (KeyCode::F(13), b""),
        (KeyCode::BackTab, b""),
        (KeyCode::Other, b""),
    ];
    for (code, bytes) in table {
        assert_eq!(key(code, PLAIN), bytes.to_vec(), "{:?}", code);
    }
    let shift = KeyModifiers { shift: true, ..PLAIN };
    assert_eq!(key(KeyCode::Tab, shift), b"\x1b[Z".to_vec());
}

#[test]
fn mouse_events_are_reported_from_one_on() {
    assert_eq!(mouse(MouseEventKind::Down(MouseButton::Left), 0, 0, PLAIN), "\x1b[<0;1;1M");
    assert_eq!(mouse(MouseEventKind::Up(MouseButton::Left), 9, 4, PLAIN), "\x1b[<0;10;5m");
    assert_eq!(mouse(MouseEventKind::Down(MouseButton::Middle), 0, 0, PLAIN), "\x1b[<1;1;1M");
    assert_eq!(mouse(MouseEventKind::Down(MouseButton::Right), 0, 0, PLAIN), "\x1b[<2;1;1M");
    assert_eq!(mouse(MouseEventKind::Up(MouseButton::Middle), 0, 0, PLAIN), "\x1b[<1;1;1m");
    assert_eq!(mouse(MouseEventKind::Up(MouseButton::Right), 0, 0, PLAIN), "\x1b[<2;1;1m");
    assert_eq!(mouse(MouseEventKind::Drag(MouseButton::Left), 0, 0, PLAIN), "\x1b[<32;1;1M");
    assert_eq!(mouse(MouseEventKind::Drag(MouseButton::Middle), 0, 0, PLAIN), "\x1b[<33;1;1M");
    assert_eq!(mouse(MouseEventKind::Drag(MouseButton::Right), 0, 0, PLAIN), "\x1b[<34;1;1M");
    assert_eq!(mouse(MouseEventKind::Moved, 0, 0, PLAIN), "\x1b[<35;1;1M");
    assert_eq!(mouse(MouseEventKind::ScrollUp, 65534, 99, PLAIN), "\x1b[<64;65535;100M");
    assert_eq!(mouse(MouseEventKind::ScrollDown, 0, 0, PLAIN), "\x1b[<65;1;1M");
    assert_eq!(mouse(MouseEventKind::ScrollLeft, 0, 0, PLAIN), "");
    assert_eq!(mouse(MouseEventKind::ScrollRight, 65535, 65535, PLAIN), "");
}

#[test]
fn modifiers_are_added_to_the_button() {
    let all = KeyModifiers { shift: true, control: true, alt: true };
    assert_eq!(mouse(MouseEventKind::ScrollUp, 0, 0, all), "\x1b[<92;1;1M");
    let shift = KeyModifiers { shift: true, ..PLAIN };
    assert_eq!(mouse(MouseEventKind::Down(MouseButton::Left), 0, 0, shift), "\x1b[<4;1;1M");
    let alt = KeyModifiers { alt: true, ..PLAIN };
    assert_eq!(mouse(MouseEventKind::Moved, 0, 0, alt), "\x1b[<43;1;1M");
    let ctrl = KeyModifiers { control: true, ..PLAIN };
    assert_eq!(mouse(MouseEventKind::Drag(MouseButton::Right), 0, 0, ctrl), "\x1b[<50;1;1M");
}
