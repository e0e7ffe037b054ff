use cdc::pane::dump::dump_grid_debug;
use cdc::pane::extract::text_between;
use cdc::pane::{Pane, PaneStatus};
use cdc::style::Color;

fn pane_of(cols: u16, rows: u16) -> Pane {
    Pane::new(7, "screen".to_string(), cols, rows)
}

fn line(pane: &Pane, row: usize) -> String {
    pane.grid.cells[row].iter().map(|c| c.ch).collect()
}

fn view_line(pane: &Pane, row: u16) -> Option<String> {
    pane.grid.view_row(row).map(|cells| cells.iter().map(|c| c.ch).collect())
}

#[test]
fn a_new_pane_is_blank_and_running() {
    let pane = pane_of(4, 2);
    assert_eq!(pane.id, 7);
    assert_eq!(pane.name, "screen");
    assert_eq!(pane.status, PaneStatus::Running);
    assert_eq!(line(&pane, 0), "    ");
    assert!(pane.grid.cursor_visible);
    assert!(pane.grid.auto_wrap);
    assert_eq!(pane.grid.scroll_top(), 0);
    assert_eq!(pane.grid.scroll_bottom(), 1);
}

#[test]
fn bytes_can_come_in_pieces() {
    let mut whole = pane_of(10, 2);
    whole.process_bytes("\x1b[31m한A".as_bytes());
    let mut pieces = pane_of(10, 2);
    for b in "\x1b[31m한A".as_bytes() {
        pieces.process_bytes(&[*b]);
    }
    assert_eq!(line(&whole, 0), line(&pieces, 0));
    assert_eq!(pieces.grid.cell_at(0, 0).ch, '한');
    assert_eq!(pieces.grid.cell_at(0, 2).fg, Color::Red);
}

#[test]
fn printed_text_is_read_back() {
    let mut pane = pane_of(20, 4);
    pane.process_bytes(b"What was written");
    assert_eq!(pane.grid.extract_all_text(), "What was written");
}

#[test]
fn lines_scroll_into_the_scrollback_and_back_into_view() {
    let mut pane = pane_of(3, 2);
    pane.process_bytes(b"1\r\n2\r\n3\r\n4");
    assert_eq!(line(&pane, 0), "3  ");
    assert_eq!(line(&pane, 1), "4  ");
    assert_eq!(pane.grid.scrollback.len(), 2);
    pane.grid.scroll_view_up(1);
    assert_eq!(view_line(&pane, 0), Some("2  ".to_string()));
    assert_eq!(view_line(&pane, 1), Some("3  ".to_string()));
    assert_eq!(view_line(&pane, 2), Some("4  ".to_string()));
    assert_eq!(view_line(&pane, 3), None);
    pane.grid.scroll_view_up(9);
    assert_eq!(pane.grid.scroll_offset, 2);
    assert_eq!(view_line(&pane, 0), Some("1  ".to_string()));
    pane.grid.scroll_view_down(1);
    assert_eq!(pane.grid.scroll_offset, 1);
    pane.grid.scroll_view_down(9);
    assert_eq!(pane.grid.scroll_offset, 0);
    // Output brings the view back to the screen.
    pane.grid.scroll_view_up(2);
    pane.process_bytes(b"x");
    assert_eq!(pane.grid.scroll_offset, 0);
}

#[test]
fn the_scrollback_keeps_ten_thousand_lines() {
    let mut pane = pane_of(8, 1);
    let mut out: Vec<u8> = Vec::new();
    for i in 0..10_050 {
        out.extend_from_slice(format!("{}\r\n", i).as_bytes());
    }
    pane.process_bytes(&out);
    assert_eq!(pane.grid.scrollback.len(), 0);
    // A screen of one line has no scroll region; two lines have one.
    let mut pane = pane_of(8, 2);
    pane.process_bytes(&out);
    assert_eq!(pane.grid.scrollback.len(), 10_000);
    let last: String = pane.grid.scrollback[9_999].iter().map(|c| c.ch).collect();
    assert_eq!(last.trim_end(), "10048");
}

#[test]
fn the_scroll_region_leaves_the_rest_alone() {
    let mut pane = pane_of(1, 5);
    pane.process_bytes(b"\x1b[1;1Ha\x1b[2;1Hb\x1b[3;1Hc\x1b[4;1Hd\x1b[5;1He");
    pane.process_bytes(b"\x1b[2;4r\x1b[4;1H\n");
    let column: String = (0..5).map(|r| pane.grid.cell_at(r, 0).ch).collect();
    assert_eq!(column, "acd e");
    // Nothing goes to the scrollback unless the region begins at the top.
    assert_eq!(pane.grid.scrollback.len(), 0);
    pane.process_bytes(b"\x1b[2;1H\x1bM");
    let column: String = (0..5).map(|r| pane.grid.cell_at(r, 0).ch).collect();
    assert_eq!(column, "a cde");
    pane.process_bytes(b"\x1b[2T");
    let column: String = (0..5).map(|r| pane.grid.cell_at(r, 0).ch).collect();
    assert_eq!(column, "a   e");
}

#[test]
fn erasing_in_line_and_display() {
    let mut pane = pane_of(5, 3);
    pane.process_bytes(b"abcde\r\nfghij\r\nklmno");
    pane.process_bytes(b"\x1b[2;3H\x1b[K");
    assert_eq!(line(&pane, 1), "fg   ");
    pane.process_bytes(b"\x1b[1;3H\x1b[1K");
    assert_eq!(line(&pane, 0), "   de");
    pane.process_bytes(b"\x1b[3;1H\x1b[2K");
    assert_eq!(line(&pane, 2), "     ");
    let mut pane = pane_of(3, 3);
    pane.process_bytes(b"abc\r\ndef\r\nghi\x1b[2;2H\x1b[J");
    assert_eq!((line(&pane, 0), line(&pane, 1), line(&pane, 2)),
        ("abc".to_string(), "d  ".to_string(), "   ".to_string()));
    let mut pane = pane_of(3, 3);
    pane.process_bytes(b"abc\r\ndef\r\nghi\x1b[2;2H\x1b[1J");
    assert_eq!((line(&pane, 0), line(&pane, 1), line(&pane, 2)),
        ("   ".to_string(), "  f".to_string(), "ghi".to_string()));
}

#[test]
fn inserting_deleting_and_erasing_characters() {
    let mut pane = pane_of(5, 1);
    pane.process_bytes(b"abcde\x1b[1;2H\x1b[2@");
    assert_eq!(line(&pane, 0), "a  bc");
    pane.process_bytes(b"\x1b[2P");
    assert_eq!(line(&pane, 0), "abc  ");
    pane.process_bytes(b"\x1b[2X");
    assert_eq!(line(&pane, 0), "a    ");
}

#[test]
fn the_last_character_repeats() {
    let mut pane = pane_of(6, 1);
    pane.process_bytes(b"x\x1b[3b");
    assert_eq!(line(&pane, 0), "xxxx  ");
}

#[test]
fn questions_are_answered() {
    let mut pane = pane_of(20, 5);
    pane.process_bytes(b"\x1b[3;7H\x1b[6n\x1b[5n\x1b[c");
    assert_eq!(pane.grid.response_buf, b"\x1b[3;7R\x1b[0n\x1b[?62;22c".to_vec());
}

#[test]
fn modes_are_set_and_reset() {
    let mut pane = pane_of(5, 2);
    pane.process_bytes(b"\x1b[?1h\x1b[?25l\x1b[?1004h");
    assert!(pane.grid.application_cursor_keys);
    assert!(!pane.grid.cursor_visible);
    assert!(pane.grid.focus_tracking);
    pane.process_bytes(b"\x1b[?1l\x1b[?25h\x1b[?1004l");
    assert!(!pane.grid.application_cursor_keys);
    assert!(pane.grid.cursor_visible);
    assert!(!pane.grid.focus_tracking);
}

#[test]
fn colours_with_colons_and_bright_colours() {
    let mut pane = pane_of(10, 1);
    pane.process_bytes(b"\x1b[38:5:9mA\x1b[48:2:1:2:3mB\x1b[95mC\x1b[103mD\x1b[39;49mE\x1b[34;47mF");
    assert_eq!(pane.grid.cell_at(0, 0).fg, Color::Indexed(9));
    assert_eq!(pane.grid.cell_at(0, 1).bg, Color::Rgb(1, 2, 3));
    assert_eq!(pane.grid.cell_at(0, 2).fg, Color::Indexed(13));
    assert_eq!(pane.grid.cell_at(0, 3).bg, Color::Indexed(11));
    assert_eq!(pane.grid.cell_at(0, 4).fg, Color::Reset);
    assert_eq!(pane.grid.cell_at(0, 4).bg, Color::Reset);
    assert_eq!(pane.grid.cell_at(0, 5).fg, Color::Blue);
    assert_eq!(pane.grid.cell_at(0, 5).bg, Color::White);
}

#[test]
fn a_wide_character_that_is_cut_becomes_a_space() {
    let mut pane = pane_of(6, 1);
    pane.process_bytes("한글".as_bytes());
    pane.process_bytes(b"\x1b[1;2Hx");
    assert_eq!(line(&pane, 0), " x글   ");
    pane.process_bytes(b"\x1b[1;3Hy");
    assert_eq!(line(&pane, 0), " xy   ");
}

#[test]
fn tabs_backspace_and_carriage_return() {
    let mut pane = pane_of(20, 1);
    pane.process_bytes(b"\ta\x08b\rc");
    assert_eq!(pane.grid.cell_at(0, 8).ch, 'b');
    assert_eq!(pane.grid.cell_at(0, 0).ch, 'c');
    assert_eq!(pane.grid.cursor.col, 1);
}

#[test]
fn the_cursor_stays_on_the_screen() {
    let mut pane = pane_of(10, 4);
    pane.process_bytes(b"\x1b[999;999H");
    assert_eq!((pane.grid.cursor.row, pane.grid.cursor.col), (3, 9));
    pane.process_bytes(b"\x1b[999A\x1b[999D");
    assert_eq!((pane.grid.cursor.row, pane.grid.cursor.col), (0, 0));
    pane.process_bytes(b"\x1b[999B\x1b[999C");
    assert_eq!((pane.grid.cursor.row, pane.grid.cursor.col), (3, 9));
    pane.process_bytes(b"\x1b[2;5H\x1b[1E");
    assert_eq!((pane.grid.cursor.row, pane.grid.cursor.col), (2, 0));
    pane.process_bytes(b"\x1b[1F\x1b[4G\x1b[3d");
    assert_eq!((pane.grid.cursor.row, pane.grid.cursor.col), (2, 3));
    pane.resize(2, 2);
    assert_eq!((pane.grid.cursor.row, pane.grid.cursor.col), (1, 1));
}

#[test]
fn resizing_keeps_what_fits() {
    let mut pane = pane_of(4, 2);
    pane.process_bytes(b"abcd\r\nefgh");
    pane.resize(6, 3);
    assert_eq!(line(&pane, 0), "abcd  ");
    assert_eq!(line(&pane, 2), "      ");
    assert_eq!(pane.grid.scroll_bottom, 2);
    pane.resize(4, 2);
    assert_eq!(line(&pane, 1), "efgh");
    pane.resize(2, 1);
    assert_eq!(line(&pane, 0), "ab");
}

#[test]
fn the_main_screen_comes_back_at_a_new_size() {
    let mut pane = pane_of(6, 3);
    pane.process_bytes(b"main\x1b[?1049halt");
    pane.resize(8, 4);
    pane.process_bytes(b"\x1b[?1049l");
    assert_eq!(line(&pane, 0), "main    ");
    assert_eq!(pane.grid.cells.len(), 4);
    assert_eq!((pane.grid.cursor.row, pane.grid.cursor.col), (0, 4));
}

#[test]
fn an_empty_screen_takes_any_output() {
    let mut pane = pane_of(0, 0);
    pane.process_bytes("a한\r\n\x1b[2J\x1b[5;5H\x1b[L\x1b[M\x1b[@\x1b[P\x1b[X\x1bM\x1b7\x1b8".as_bytes());
    assert_eq!(pane.grid.cells.len(), 0);
    assert_eq!(pane.grid.extract_all_text(), "");
}

#[test]
fn wide_text_is_read_without_gaps() {
    let mut pane = pane_of(20, 3);
    pane.process_bytes("한글 텍스트\r\n\r\n끝".as_bytes());
    assert_eq!(pane.grid.extract_all_text(), "한글 텍스트\n끝");
}

#[test]
fn markers_enclose_what_is_found() {
    let found = |s: &str| text_between(s, "<a>", "</a>");
    assert_eq!(found("x <a> one </a> <a>two</a>"), Some("one".to_string()));
    assert_eq!(found("<a>   </a>"), None);
    assert_eq!(found("<a>one"), None);
    assert_eq!(found("one</a>"), None);
    assert_eq!(found("</a><a>later</a>"), Some("later".to_string()));
}

#[test]
fn a_dump_names_lines_and_scrollback() {
    let mut pane = pane_of(5, 2);
    pane.process_bytes(b"one\r\ntwo\r\nthree");
    assert_eq!(
        dump_grid_debug(&pane.grid),
        "Grid: 5x2 cursor=(1,4) scroll_offset=0 scroll_top=0 scroll_bottom=1\n\
         Scrollback lines: 1\n\
         \n=== Grid contents (row: text) ===\n\
         [000] two\n\
         [001] three\n\
         \n=== Last 20 scrollback lines ===\n\
         [sb 000] one\n\
         \nDump complete.\n"
    );
}

#[test]
fn scrolling_twice_is_scrolling_by_the_sum() {
    let text = b"a\r\nb\r\nc\r\nd\r\ne";
    let mut twice = pane_of(2, 5);
    twice.process_bytes(text);
    twice.process_bytes(b"\x1b[1S\x1b[2S");
    let mut once = pane_of(2, 5);
    once.process_bytes(text);
    once.process_bytes(b"\x1b[3S");
    for r in 0..5 {
        assert_eq!(line(&twice, r), line(&once, r));
    }
    assert_eq!(twice.grid.scrollback.len(), 3);
    assert_eq!(once.grid.scrollback.len(), 3);
    assert_eq!(line(&once, 0), "d ");
}

#[test]
fn the_same_size_changes_nothing() {
    let mut pane = pane_of(3, 2);
    pane.process_bytes(b"abc\r\nde");
    pane.resize(3, 2);
    assert_eq!((line(&pane, 0), line(&pane, 1)), ("abc".to_string(), "de ".to_string()));
    assert_eq!((pane.grid.cursor.row, pane.grid.cursor.col), (1, 2));
}

#[test]
fn deleting_inserted_lines_puts_the_others_back() {
    let mut pane = pane_of(1, 4);
    pane.process_bytes(b"a\r\nb\r\nc\r\nd\x1b[2;1H\x1b[2L");
    let column: String = (0..4).map(|r| pane.grid.cell_at(r, 0).ch).collect();
    assert_eq!(column, "a  b");
    pane.process_bytes(b"\x1b[2M");
    let column: String = (0..4).map(|r| pane.grid.cell_at(r, 0).ch).collect();
    assert_eq!(column, "ab  ");
}

#[test]
fn a_reset_makes_attributes_plain() {
    let mut pane = pane_of(4, 1);
    pane.process_bytes(b"\x1b[1;2;3;4;7;9;31;42mA\x1b[0mB\x1b[1;3;4;7m\x1b[22;23;24;27mC");
    let a = *pane.grid.cell_at(0, 0);
    assert!(a.bold && a.dim && a.italic && a.underline && a.reverse && a.strikethrough);
    assert_eq!((a.fg, a.bg), (Color::Red, Color::Green));
    for c in 1..3 {
        let b = *pane.grid.cell_at(0, c);
        assert!(!(b.bold || b.dim || b.italic || b.underline || b.reverse || b.strikethrough));
        assert_eq!((b.fg, b.bg), (Color::Reset, Color::Reset));
    }
}
