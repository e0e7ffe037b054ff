use cdc::app::{Dialog, TextSelection};
use cdc::logo::logo;
use cdc::pane::state::Cell;
use cdc::pane::{Pane, PaneStatus};
use cdc::style::Color;
use cdc::ui::overlay::{
    render_cwd_input, render_dialog, render_mode_select, render_perm_select, render_stt_confirm,
    Overlay,
};
use cdc::ui::pane_widget::Paint;
use cdc::ui::render::{border_color, detect_pane_alert, render, voice_title, PaneAlert};
use cdc::ui::{compute_layout, inner_rect, ActivePane, PaneWidget, Rect};
use cdc::voice::VoiceState;

fn terminal(width: u16, height: u16) -> Rect {
    Rect { x: 0, y: 0, width, height }
}

fn pane_with(cols: u16, rows: u16, output: &str) -> Pane {
    let mut pane = Pane::new(0, "p".to_string(), cols, rows);
    pane.process_bytes(output.as_bytes());
    pane
}

fn nothing() -> TextSelection {
    TextSelection::none()
}

#[test]
fn the_orchestrator_fills_an_empty_layout() {
    let layout = compute_layout(terminal(100, 50), 0);
    assert_eq!(layout.orch_rect, terminal(100, 50));
    assert!(layout.worker_rects.is_empty());
}

#[test]
fn workers_share_the_width_above_the_orchestrator() {
    let layout = compute_layout(terminal(100, 50), 3);
    assert_eq!(layout.orch_rect, Rect { x: 0, y: 40, width: 100, height: 10 });
    assert_eq!(
        layout.worker_rects,
        vec![
            Rect { x: 0, y: 0, width: 33, height: 40 },
            Rect { x: 33, y: 0, width: 33, height: 40 },
            Rect { x: 66, y: 0, width: 34, height: 40 },
        ]
    );
    // The orchestrator has six rows at least, if there are as many.
    assert_eq!(compute_layout(terminal(10, 20), 1).orch_rect.height, 6);
    assert_eq!(compute_layout(terminal(10, 4), 1).orch_rect.height, 4);
    assert_eq!(compute_layout(terminal(10, 4), 1).worker_rects[0].height, 0);
}

#[test]
fn layouts_tile_the_area() {
    for n in 1..12usize {
        let area = terminal(79, 31);
        let layout = compute_layout(area, n);
        let mut x = 0;
        for r in &layout.worker_rects {
            assert_eq!(r.x, x);
            assert_eq!(r.height + layout.orch_rect.height, 31);
            x += r.width;
        }
        assert_eq!(x, 79);
    }
}

#[test]
fn the_inner_area_leaves_a_border() {
    assert_eq!(
        inner_rect(Rect { x: 2, y: 3, width: 10, height: 5 }),
        Rect { x: 3, y: 4, width: 8, height: 3 }
    );
    assert_eq!(
        inner_rect(Rect { x: 0, y: 0, width: 1, height: 0 }),
        Rect { x: 1, y: 1, width: 0, height: 0 }
    );
    assert_eq!(Rect::new(65530, 0, 10, 2), Rect { x: 65530, y: 0, width: 5, height: 2 });
}

#[test]
fn titles_tell_the_voice_state() {
    let title = |state: VoiceState, correcting: bool| voice_title("O", &state, correcting);
    assert_eq!(title(VoiceState::Idle, false), "O — Ctrl+R: voice");
    assert_eq!(title(VoiceState::Recording, false), "O [REC] Ctrl+R: stop");
    assert_eq!(title(VoiceState::Downloading(1, 3), false), "O [DL: 33%]");
    assert_eq!(title(VoiceState::Downloading(1, 0), false), "O [DL: 0%]");
    assert_eq!(title(VoiceState::Downloading(u64::MAX, u64::MAX), false), "O [DL: 100%]");
    assert_eq!(title(VoiceState::Transcribing, false), "O [STT...]");
    assert_eq!(title(VoiceState::Error("bad".to_string()), false), "O [ERR: bad]");
    assert_eq!(
        title(VoiceState::Error("0123456789012345678901234567890123".to_string()), false),
        "O [ERR: 012345678901234567890123456789]"
    );
    assert_eq!(
        title(VoiceState::Error("가나다라마바사아자차카".to_string()), false),
        "O [ERR: 가나다라마바사아자차]"
    );
    assert_eq!(title(VoiceState::Idle, true), "O [CORRECTING...]");
}

#[test]
fn permission_questions_raise_an_alert() {
    let alert = |output: &str| detect_pane_alert(&pane_with(60, 8, output));
    assert_eq!(alert(""), PaneAlert::Quiet);
    assert_eq!(alert("\x1b[8;1HAllow this tool? (y/n)"), PaneAlert::NeedsPermission);
    assert_eq!(alert("\x1b[4;1HAllow: Yes"), PaneAlert::NeedsPermission);
    assert_eq!(alert("\x1b[4;1HAllow, allow this"), PaneAlert::NeedsPermission);
    assert_eq!(alert("\x1b[4;1HAllow"), PaneAlert::Quiet);
    assert_eq!(alert("\x1b[5;1HDo you want to proceed?"), PaneAlert::NeedsPermission);
    assert_eq!(alert("\x1b[5;1Hplease approve"), PaneAlert::NeedsPermission);
    // Only the last five rows count.
    assert_eq!(alert("\x1b[3;1Hplease approve"), PaneAlert::Quiet);
    let mut pane = pane_with(60, 8, "\x1b[5;1Hplease approve");
    pane.status = PaneStatus::Exited(0);
    assert_eq!(detect_pane_alert(&pane), PaneAlert::Quiet);
}

#[test]
fn borders_have_their_colours() {
    assert_eq!(border_color(PaneAlert::NeedsPermission, true, true, true), Color::Red);
    assert_eq!(border_color(PaneAlert::NeedsPermission, false, true, true), Color::Cyan);
    assert_eq!(border_color(PaneAlert::ReceivingPrompt, true, true, true), Color::Yellow);
    assert_eq!(border_color(PaneAlert::Quiet, true, false, false), Color::DarkGray);
    assert_eq!(border_color(PaneAlert::Quiet, true, false, true), Color::Gray);
}

#[test]
fn all_panes_are_drawn() {
    let orch = pane_with(78, 4, "ab");
    let mut w1 = pane_with(38, 20, "Allow (y/n)");
    w1.process_bytes(b"\x1b[20;1Happrove");
    let mut w2 = pane_with(38, 20, "");
    w2.status = PaneStatus::Exited(-3);
    let workers = vec![&w1, &w2];
    let sel = TextSelection { pane: ActivePane::Worker(1), active: true, ..nothing() };
    let screen = render(
        terminal(80, 30),
        &orch,
        &workers,
        ActivePane::Orchestrator,
        None,
        0,
        &VoiceState::Idle,
        false,
        &sel,
    );
    assert_eq!(screen.frames.len(), 3);
    assert_eq!(screen.hint, None);
    assert_eq!(screen.frames[0].title, "Pane 1 [NEEDS PERMISSION]");
    assert_eq!(screen.frames[0].border, Color::Red);
    assert!(screen.frames[0].bold);
    assert_eq!(screen.frames[0].close, Some((36, 0)));
    assert_eq!(screen.frames[1].title, "Pane 2 [exited: -3]");
    assert_eq!(screen.frames[1].border, Color::DarkGray);
    assert!(screen.frames[1].selected);
    assert_eq!(screen.frames[2].title, "Orchestrator — Ctrl+R: voice");
    assert_eq!(screen.frames[2].border, Color::Cyan);
    assert_eq!(screen.frames[2].close, None);
    assert_eq!(screen.cursor, Some((3, 25)));
    assert_eq!(
        screen.rects,
        vec![
            (ActivePane::Worker(0), Rect { x: 0, y: 0, width: 40, height: 24 }),
            (ActivePane::Worker(1), Rect { x: 40, y: 0, width: 40, height: 24 }),
            (ActivePane::Orchestrator, Rect { x: 0, y: 24, width: 80, height: 6 }),
        ]
    );
    // Half a second later what blinks is off.
    let later = render(
        terminal(80, 30),
        &orch,
        &workers,
        ActivePane::Worker(0),
        None,
        15,
        &VoiceState::Recording,
        true,
        &nothing(),
    );
    assert_eq!(later.frames[0].border, Color::Cyan);
    assert!(!later.frames[0].bold);
    assert_eq!(later.frames[2].title, "Orchestrator [CORRECTING...]");
    assert_eq!(later.cursor, Some((8, 20)));
}

#[test]
fn a_hint_stands_where_there_are_no_workers() {
    let orch = pane_with(10, 3, "");
    let screen = render(
        terminal(40, 10),
        &orch,
        &vec![],
        ActivePane::Orchestrator,
        None,
        0,
        &VoiceState::Idle,
        false,
        &nothing(),
    );
    assert_eq!(screen.hint, Some(Rect { x: 0, y: 0, width: 40, height: 1 }));
    assert_eq!(screen.frames.len(), 1);
}

#[test]
fn one_pane_takes_the_whole_terminal() {
    let mut orch = pane_with(10, 3, "");
    orch.grid.is_receiving_prompt = true;
    let w = pane_with(10, 3, "xyz");
    let draw = |fs: ActivePane| {
        render(
            terminal(40, 10),
            &orch,
            &vec![&w],
            ActivePane::Orchestrator,
            Some(fs),
            0,
            &VoiceState::Transcribing,
            false,
            &nothing(),
        )
    };
    let screen = draw(ActivePane::Worker(0));
    assert_eq!(screen.frames.len(), 1);
    assert_eq!(screen.frames[0].title, "Pane 1 [fullscreen]");
    assert_eq!(screen.rects, vec![(ActivePane::Worker(0), terminal(40, 10))]);
    assert_eq!(screen.cursor, Some((4, 1)));
    let screen = draw(ActivePane::Orchestrator);
    assert_eq!(
        screen.frames[0].title,
        "Orchestrator [fullscreen] [STT...] [receiving prompt]"
    );
    let screen = draw(ActivePane::Worker(5));
    assert!(screen.frames.is_empty());
    assert_eq!(screen.cursor, None);
}

fn put(x: u16, y: u16, ch: char) -> Paint {
    Paint::Put { x, y, cell: Cell { ch, ..Cell::default() } }
}

#[test]
fn a_screen_is_painted_cell_by_cell() {
    let pane = pane_with(4, 2, "a한b\r\n");
    let widget = PaneWidget::new(&pane.grid, true, None);
    let paint = widget.render(Rect { x: 1, y: 1, width: 5, height: 3 }, terminal(20, 20));
    assert_eq!(
        paint,
        vec![
            put(1, 1, 'a'),
            put(2, 1, '한'),
            Paint::Reset { x: 3, y: 1 },
            put(4, 1, 'b'),
            put(5, 1, ' '),
            put(1, 2, ' '),
            put(2, 2, ' '),
            put(3, 2, ' '),
            put(4, 2, ' '),
            put(5, 2, ' '),
            put(1, 3, ' '),
            put(2, 3, ' '),
            put(3, 3, ' '),
            put(4, 3, ' '),
            put(5, 3, ' '),
        ]
    );
    // Nothing is painted outside the terminal.
    let paint = widget.render(Rect { x: 0, y: 0, width: 4, height: 1 }, terminal(2, 1));
    assert_eq!(paint, vec![put(0, 0, 'a'), put(1, 0, '한')]);
}

#[test]
fn characters_without_a_width_are_not_painted() {
    let pane = pane_with(3, 1, "e\u{301}x");
    let widget = PaneWidget::new(&pane.grid, true, None);
    let paint = widget.render(terminal(3, 1), terminal(3, 1));
    assert!(paint.iter().all(|p| matches!(p, Paint::Put { cell, .. } if cell.ch != '\u{301}')));
}

#[test]
fn selected_cells_have_their_colours_exchanged() {
    let pane = pane_with(3, 3, "\x1b[31;44mabc\x1b[m\r\ndef\r\nghi");
    let sel = TextSelection {
        pane: ActivePane::Orchestrator,
        start_col: 1,
        start_row: 2,
        end_col: 2,
        end_row: 0,
        active: true,
    };
    let widget = PaneWidget::new(&pane.grid, true, Some(&sel));
    assert!(!widget.is_selected(0, 1));
    assert!(widget.is_selected(0, 2));
    assert!(widget.is_selected(1, 0));
    assert!(widget.is_selected(2, 1));
    assert!(!widget.is_selected(2, 2));
    let paint = widget.render(terminal(3, 3), terminal(3, 3));
    match paint[2] {
        Paint::Put { cell, .. } => {
            assert_eq!((cell.ch, cell.fg, cell.bg), ('c', Color::Blue, Color::Red))
        }
        _ => panic!("expected a cell"),
    }
    match paint[3] {
        Paint::Put { cell, .. } => {
            assert_eq!((cell.ch, cell.fg, cell.bg), ('d', Color::Black, Color::White))
        }
        _ => panic!("expected a cell"),
    }
    let single = TextSelection { start_col: 2, start_row: 1, end_col: 1, end_row: 1, ..sel };
    let widget = PaneWidget::new(&pane.grid, true, Some(&single));
    assert!(!widget.is_selected(1, 0));
    assert!(widget.is_selected(1, 1) && widget.is_selected(1, 2));
    let inactive = TextSelection { active: false, ..sel };
    assert!(!PaneWidget::new(&pane.grid, true, Some(&inactive)).is_selected(1, 0));
}

fn text_of(overlay: &Overlay) -> Vec<String> {
    overlay
        .lines
        .iter()
        .map(|line| line.iter().map(|p| p.text.clone()).collect::<String>())
        .collect()
}

#[test]
fn the_entry_of_a_directory_is_shown() {
    let suggestions = vec!["~/a/".to_string(), "~/b/".to_string()];
    let o = render_cwd_input(terminal(100, 30), "~/", &suggestions, 1);
    assert_eq!(o.rect, Rect { x: 11, y: 10, width: 78, height: 5 });
    assert_eq!(o.title, "New Pane — 2 matches");
    assert_eq!(text_of(&o), vec![" ~/_", "   ~/a/", " > ~/b/"]);
    assert_eq!(o.lines[2][0].color, Some(Color::Cyan));
    assert!(o.lines[2][0].bold);
    assert_eq!(o.lines[1][0].color, Some(Color::White));
    assert_eq!(o.cursor, Some((15, 11)));
    let one = render_cwd_input(terminal(20, 6), "", &vec!["x".to_string()], 0);
    assert_eq!(one.title, "New Pane — 1 match");
    assert_eq!(one.rect, Rect { x: 2, y: 2, width: 16, height: 4 });
    let many: Vec<String> = (0..20).map(|i| format!("{}", i)).collect();
    let o = render_cwd_input(terminal(100, 60), "", &many, 0);
    assert_eq!(o.lines.len(), 13);
    assert_eq!(o.title, "New Pane — 20 matches");
    let long = "x".repeat(90);
    assert_eq!(render_cwd_input(terminal(100, 60), &long, &vec![], 0).cursor, None);
}

#[test]
fn spoken_text_is_shown_with_the_cursor_in_it() {
    let o = render_stt_confirm(terminal(100, 30), "한글", 1);
    assert_eq!(text_of(&o), vec![" 한|글"]);
    assert_eq!(o.cursor, Some((16, 11)));
    assert_eq!(o.border, Color::Green);
    assert_eq!(text_of(&render_stt_confirm(terminal(100, 30), "ab", 9)), vec![" ab|"]);
}

#[test]
fn options_are_marked() {
    let o = render_mode_select(terminal(60, 30), "Assistant", 1);
    assert_eq!(
        text_of(&o),
        vec![
            "   Assistant",
            "     AI-powered coding assistant",
            " > Terminal",
            "     Plain shell (zsh/bash)",
        ]
    );
    assert_eq!(o.rect, Rect { x: 5, y: 10, width: 50, height: 6 });
    let o = render_perm_select(terminal(60, 30), 0);
    assert_eq!(
        text_of(&o),
        vec![
            " > Skip Permissions",
            "     --dangerously-skip-permissions",
            "   Normal",
            "     Requires permission for each action",
        ]
    );
    assert_eq!(o.lines[0][0].color, Some(Color::Cyan));
    assert_eq!(o.lines[1][0].color, Some(Color::DarkGray));
}

#[test]
fn dialogs_are_shown() {
    let area = terminal(80, 24);
    let o = render_dialog(area, &Dialog::ConfirmQuit, 0).unwrap();
    assert_eq!(o.title, "Quit CDC?");
    assert_eq!(o.rect, Rect { x: 15, y: 9, width: 50, height: 6 });
    assert_eq!(
        text_of(&o),
        vec!["All workers will be terminated.", "", "  > [Quit]     [Cancel]"]
    );
    assert_eq!(o.lines[2][1].color, Some(Color::Red));
    let o = render_dialog(area, &Dialog::ConfirmCloseWorker(2), 1).unwrap();
    assert_eq!(o.title, "Close Pane 3?");
    assert_eq!(o.border, Color::Yellow);
    assert_eq!(text_of(&o)[2], "    [Close]   > [Cancel]");
    assert_eq!(o.lines[2][3].color, Some(Color::Cyan));
    let o = render_dialog(area, &Dialog::SaveSession("abc".to_string()), 0).unwrap();
    assert_eq!(text_of(&o), vec!["Name (Enter=auto): abc_"]);
    assert_eq!(o.rect.height, 4);
    assert!(render_dialog(area, &Dialog::Closed, 0).is_none());
}

#[test]
fn the_logo_is_framed() {
    let pieces = logo("Assistant");
    assert_eq!(pieces.len(), 3 + 6 * 3 + 9);
    let all: String = pieces.iter().map(|p| p.text.clone()).collect();
    assert!(all.contains("Multi-session Assistant orchestrator"));
    // Every line of the frame is as long as the others.
    for line in all.lines().filter(|l| l.contains('│')) {
        assert_eq!(line.chars().count(), 54, "{}", line);
    }
    assert_eq!(pieces[4].color, Some(Color::Rgb(0, 255, 255)));
    assert_eq!(pieces[4].text.chars().count(), 50);
}
