use cdc::pane::{Pane, TerminalGrid};
use cdc::style::Color;

fn screen(cols: u16, rows: u16) -> Pane {
    Pane::new(0, "test".to_string(), cols, rows)
}

#[test]
fn test_new_grid() {
    let grid = TerminalGrid::new(80, 24);
    assert_eq!(grid.cols, 80);
    assert_eq!(grid.rows, 24);
    assert_eq!(grid.cells.len(), 24);
    assert_eq!(grid.cells[0].len(), 80);
    assert_eq!(grid.cell_at(0, 0).ch, ' ');
}

#[test]
fn test_vte_print_and_color() {
    let mut pane = screen(80, 24);
    pane.process_bytes(b"Hello\x1b[31m World");
    assert_eq!(pane.grid.cell_at(0, 0).ch, 'H');
    assert_eq!(pane.grid.cell_at(0, 0).fg, Color::Reset);
    assert_eq!(pane.grid.cell_at(0, 6).ch, 'W');
    assert_eq!(pane.grid.cell_at(0, 6).fg, Color::Red);
}

#[test]
fn test_erase_display() {
    let mut pane = screen(80, 24);
    pane.process_bytes(b"Hello");
    pane.process_bytes(b"\x1b[2J");
    assert_eq!(pane.grid.cell_at(0, 0).ch, ' ');
}

#[test]
fn test_scroll_region() {
    let mut pane = screen(80, 24);
    pane.process_bytes(b"\x1b[5;20r");
    assert_eq!(pane.grid.scroll_top, 4);
    assert_eq!(pane.grid.scroll_bottom, 19);
}

#[test]
fn test_wide_char_korean() {
    let mut pane = screen(80, 24);
    // "한글" = two Korean chars, each 2 cells wide
    pane.process_bytes("한글".as_bytes());
    assert_eq!(pane.grid.cell_at(0, 0).ch, '한');
    assert_eq!(pane.grid.cell_at(0, 1).ch, ' '); // placeholder for wide char
    assert_eq!(pane.grid.cell_at(0, 2).ch, '글');
    assert_eq!(pane.grid.cell_at(0, 3).ch, ' '); // placeholder
    assert_eq!(pane.grid.cursor.col, 4); // cursor advanced by 4 (2 chars × 2 width)
}

#[test]
fn test_alternate_screen() {
    let mut pane = screen(80, 24);
    // Write some content
    pane.process_bytes(b"Hello");
    assert_eq!(pane.grid.cell_at(0, 0).ch, 'H');
    // Enter alternate screen - should clear
    pane.process_bytes(b"\x1b[?1049h");
    assert_eq!(pane.grid.cell_at(0, 0).ch, ' ');
    assert_eq!(pane.grid.cursor.row, 0);
    assert_eq!(pane.grid.cursor.col, 0);
}

#[test]
fn test_sgr_bare_reset() {
    let mut pane = screen(80, 24);
    // Set red, then bare ESC[m should reset
    pane.process_bytes(b"\x1b[31mA\x1b[mB");
    assert_eq!(pane.grid.cell_at(0, 0).fg, Color::Red);
    assert_eq!(pane.grid.cell_at(0, 1).fg, Color::Reset);
}

#[test]
fn test_wide_char_wrap_at_line_end() {
    // Grid is 5 cols wide; place a wide char at col 4 — it must wrap to next line
    let mut pane = screen(5, 5);
    // Write 4 ASCII chars then a wide Korean char that doesn't fit
    pane.process_bytes("ABCD한".as_bytes());
    // ABCD fit on row 0, cols 0-3
    assert_eq!(pane.grid.cell_at(0, 0).ch, 'A');
    assert_eq!(pane.grid.cell_at(0, 3).ch, 'D');
    // Wide char wrapped to row 1
    assert_eq!(pane.grid.cell_at(1, 0).ch, '한');
    assert_eq!(pane.grid.cell_at(1, 1).ch, ' '); // wide char placeholder
    assert_eq!(pane.grid.cursor.row, 1);
    assert_eq!(pane.grid.cursor.col, 2);
}

#[test]
fn test_sgr_256_color() {
    let mut pane = screen(80, 24);
    // ESC[38;5;200m sets fg to indexed color 200
    pane.process_bytes(b"\x1b[38;5;200mA");
    assert_eq!(pane.grid.cell_at(0, 0).fg, Color::Indexed(200));
    // ESC[48;5;100m sets bg to indexed color 100
    pane.process_bytes(b"\x1b[48;5;100mB");
    assert_eq!(pane.grid.cell_at(0, 1).bg, Color::Indexed(100));
}

#[test]
fn test_sgr_rgb_color() {
    let mut pane = screen(80, 24);
    // ESC[38;2;10;20;30m sets fg to RGB(10,20,30)
    pane.process_bytes(b"\x1b[38;2;10;20;30mA");
    assert_eq!(pane.grid.cell_at(0, 0).fg, Color::Rgb(10, 20, 30));
    // ESC[48;2;50;60;70m sets bg to RGB(50,60,70)
    pane.process_bytes(b"\x1b[48;2;50;60;70mB");
    assert_eq!(pane.grid.cell_at(0, 1).bg, Color::Rgb(50, 60, 70));
}

#[test]
fn test_cursor_cup() {
    let mut pane = screen(80, 24);
    // CUP row=5 col=10 (1-based)
    pane.process_bytes(b"\x1b[5;10H");
    assert_eq!(pane.grid.cursor.row, 4);
    assert_eq!(pane.grid.cursor.col, 9);
}

#[test]
fn test_cursor_movement() {
    let mut pane = screen(80, 24);
    // Start at (0,0), move down 3
    pane.process_bytes(b"\x1b[3B");
    assert_eq!(pane.grid.cursor.row, 3);
    assert_eq!(pane.grid.cursor.col, 0);
    // Move right 5
    pane.process_bytes(b"\x1b[5C");
    assert_eq!(pane.grid.cursor.col, 5);
    // Move up 2
    pane.process_bytes(b"\x1b[2A");
    assert_eq!(pane.grid.cursor.row, 1);
    // Move left 3
    pane.process_bytes(b"\x1b[3D");
    assert_eq!(pane.grid.cursor.col, 2);
}

#[test]
fn test_insert_lines() {
    let mut pane = screen(10, 5);
    // Write lines: A on row 0, B on row 1
    pane.process_bytes(b"A\r\nB");
    assert_eq!(pane.grid.cell_at(0, 0).ch, 'A');
    assert_eq!(pane.grid.cell_at(1, 0).ch, 'B');
    // Move cursor to row 0 and insert 1 line (IL)
    pane.process_bytes(b"\x1b[1;1H\x1b[1L");
    // Row 0 should now be blank, A pushed to row 1, B to row 2
    assert_eq!(pane.grid.cell_at(0, 0).ch, ' ');
    assert_eq!(pane.grid.cell_at(1, 0).ch, 'A');
    assert_eq!(pane.grid.cell_at(2, 0).ch, 'B');
}

#[test]
fn test_delete_lines() {
    let mut pane = screen(10, 5);
    // Write A on row 0, B on row 1, C on row 2
    pane.process_bytes(b"A\r\nB\r\nC");
    // Move cursor to row 0 and delete 1 line (DL)
    pane.process_bytes(b"\x1b[1;1H\x1b[1M");
    // B should now be on row 0, C on row 1
    assert_eq!(pane.grid.cell_at(0, 0).ch, 'B');
    assert_eq!(pane.grid.cell_at(1, 0).ch, 'C');
    assert_eq!(pane.grid.cell_at(2, 0).ch, ' ');
}

#[test]
fn test_sgr_dim() {
    let mut pane = screen(80, 24);
    // SGR 2 = dim
    pane.process_bytes(b"\x1b[2mA");
    assert!(pane.grid.cell_at(0, 0).dim);
    assert!(!pane.grid.cell_at(0, 0).bold);
    // SGR 0 resets dim
    pane.process_bytes(b"\x1b[0mB");
    assert!(!pane.grid.cell_at(0, 1).dim);
}

#[test]
fn test_sgr_strikethrough() {
    let mut pane = screen(80, 24);
    // SGR 9 = strikethrough
    pane.process_bytes(b"\x1b[9mA");
    assert!(pane.grid.cell_at(0, 0).strikethrough);
    // SGR 29 = turn off strikethrough
    pane.process_bytes(b"\x1b[29mB");
    assert!(!pane.grid.cell_at(0, 1).strikethrough);
    // SGR 0 also resets strikethrough
    pane.process_bytes(b"\x1b[9mC\x1b[0mD");
    assert!(pane.grid.cell_at(0, 2).strikethrough);
    assert!(!pane.grid.cell_at(0, 3).strikethrough);
}

#[test]
fn test_cursor_save_restore() {
    let mut pane = screen(80, 24);
    // Move to row=5, col=10, save cursor
    pane.process_bytes(b"\x1b[6;11H\x1b7");
    assert_eq!(pane.grid.cursor.row, 5);
    assert_eq!(pane.grid.cursor.col, 10);
    // Move elsewhere
    pane.process_bytes(b"\x1b[1;1H");
    assert_eq!(pane.grid.cursor.row, 0);
    assert_eq!(pane.grid.cursor.col, 0);
    // Restore cursor
    pane.process_bytes(b"\x1b8");
    assert_eq!(pane.grid.cursor.row, 5);
    assert_eq!(pane.grid.cursor.col, 10);
}

#[test]
fn test_cursor_save_restore_no_save() {
    // Restoring without a prior save should be a no-op
    let mut pane = screen(80, 24);
    pane.process_bytes(b"\x1b[3;4H");
    pane.process_bytes(b"\x1b8");
    // Should remain at last explicit position since no save happened
    assert_eq!(pane.grid.cursor.row, 2);
    assert_eq!(pane.grid.cursor.col, 3);
}

#[test]
fn test_decawm_off() {
    // When DECAWM is off, characters at the right edge should NOT wrap
    let mut pane = screen(5, 3);
    // Disable auto-wrap: \x1b[?7l
    pane.process_bytes(b"\x1b[?7l");
    // Write 7 characters — should stay on row 0, last 2 overwrite at col 4
    pane.process_bytes(b"ABCDEFG");
    assert_eq!(pane.grid.cursor.row, 0); // stayed on row 0
    assert_eq!(pane.grid.cell_at(0, 0).ch, 'A');
    assert_eq!(pane.grid.cell_at(0, 3).ch, 'D');
    assert_eq!(pane.grid.cell_at(0, 4).ch, 'G'); // last char overwrites at edge
    assert_eq!(pane.grid.cell_at(1, 0).ch, ' '); // row 1 untouched
}

#[test]
fn test_decawm_on_restore() {
    // Re-enable DECAWM should restore wrapping behavior
    let mut pane = screen(5, 3);
    pane.process_bytes(b"\x1b[?7l");
    pane.process_bytes(b"\x1b[?7h");
    // Now write 6 chars — should wrap to row 1
    pane.process_bytes(b"ABCDEF");
    assert_eq!(pane.grid.cell_at(0, 4).ch, 'E');
    assert_eq!(pane.grid.cell_at(1, 0).ch, 'F');
}

#[test]
fn test_alt_screen_save_restore() {
    let mut pane = screen(10, 3);
    // Write content on main screen
    pane.process_bytes(b"Hello");
    assert_eq!(pane.grid.cell_at(0, 0).ch, 'H');
    // Enter alt screen
    pane.process_bytes(b"\x1b[?1049h");
    // Alt screen should be clear
    assert_eq!(pane.grid.cell_at(0, 0).ch, ' ');
    // Write something on alt screen
    pane.process_bytes(b"Alt");
    assert_eq!(pane.grid.cell_at(0, 0).ch, 'A');
    // Leave alt screen — main content should be restored
    pane.process_bytes(b"\x1b[?1049l");
    assert_eq!(pane.grid.cell_at(0, 0).ch, 'H');
    assert_eq!(pane.grid.cell_at(0, 4).ch, 'o');
}

#[test]
fn test_extract_all_text() {
    let mut pane = screen(20, 3);
    pane.process_bytes(b"Hello World\r\nLine 2");
    let text = pane.grid.extract_all_text();
    assert!(text.contains("Hello World"));
    assert!(text.contains("Line 2"));
}

#[test]
fn test_extract_between_markers() {
    let mut pane = screen(60, 3);
    pane.process_bytes(b"prefix [CDC_CORRECT]corrected text[/CDC_CORRECT] suffix");
    let result = pane.grid.extract_between_markers("[CDC_CORRECT]", "[/CDC_CORRECT]");
    assert_eq!(result, Some("corrected text".to_string()));
}

#[test]
fn test_extract_between_markers_missing() {
    let mut pane = screen(30, 3);
    pane.process_bytes(b"no markers here");
    let result = pane.grid.extract_between_markers("[CDC_CORRECT]", "[/CDC_CORRECT]");
    assert_eq!(result, None);
}
