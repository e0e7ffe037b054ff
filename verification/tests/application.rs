use cdc::app::machine::{Action, App, CorrectionState};
use cdc::app::{extract_selection, Dialog, TextSelection};
use cdc::event::{
    KeyCode, KeyEvent, KeyModifiers, MouseButton, MouseEvent, MouseEventKind,
};
use cdc::pane::PaneStatus;
use cdc::pty::PtyEvent;
use cdc::ui::{ActivePane, Rect};
use cdc::voice::{VoiceEvent, VoiceState};

const COLS: u16 = 80;
const ROWS: u16 = 30;
const PLAIN: KeyModifiers = KeyModifiers { shift: false, control: false, alt: false };

fn key(app: &mut App, code: KeyCode) -> Vec<Action> {
    let home = Some("/home/u".to_string());
    let here = Some("/work".to_string());
    app.on_key(KeyEvent { code, modifiers: PLAIN }, COLS, ROWS, &home, &here)
}

fn ctrl(app: &mut App, c: char) -> Vec<Action> {
    let modifiers = KeyModifiers { control: true, ..PLAIN };
    app.on_key(KeyEvent { code: KeyCode::Char(c), modifiers }, COLS, ROWS, &None, &None)
}

fn shift(app: &mut App, code: KeyCode) -> Vec<Action> {
    let modifiers = KeyModifiers { shift: true, ..PLAIN };
    app.on_key(KeyEvent { code, modifiers }, COLS, ROWS, &None, &None)
}

fn mouse(app: &mut App, kind: MouseEventKind, column: u16, row: u16) -> Vec<Action> {
    app.on_mouse(MouseEvent { kind, column, row, modifiers: PLAIN })
}

fn output(app: &mut App, which: ActivePane, text: &str, now: u64) {
    let event = PtyEvent::Output(text.as_bytes().to_vec());
    match which {
        ActivePane::Orchestrator => app.orchestrator.drain_output(&event, now, None),
        ActivePane::Worker(i) => app.workers[i].drain_output(&event, now, None),
    }
}

fn app_with(workers: usize) -> App {
    let mut app = App::new(COLS, ROWS);
    for i in 0..workers {
        app.on_spawned(format!("worker-{}", i + 1), 10, 5, None, COLS, ROWS);
    }
    app
}

fn writes(actions: &Vec<Action>) -> Vec<(ActivePane, String)> {
    actions
        .iter()
        .filter_map(|a| match a {
            Action::Write { pane, bytes } => {
                Some((*pane, String::from_utf8(bytes.clone()).unwrap()))
            }
            _ => None,
        })
        .collect()
}

#[test]
fn the_orchestrator_starts_alone() {
    let app = App::new(COLS, ROWS);
    assert_eq!(app.orchestrator.pane.name, "orchestrator");
    assert_eq!((app.orchestrator.pane.grid.cols, app.orchestrator.pane.grid.rows), (78, 28));
    assert_eq!(app.active, ActivePane::Orchestrator);
    assert_eq!(app.next_id, 1);
    assert!(app.workers.is_empty());
}

#[test]
fn keys_go_to_the_focused_pane() {
    let mut app = app_with(1);
    let actions = key(&mut app, KeyCode::Char('a'));
    assert_eq!(writes(&actions), vec![(ActivePane::Worker(0), "a".to_string())]);
    assert_eq!(writes(&ctrl(&mut app, 'c')), vec![(ActivePane::Worker(0), "\x03".to_string())]);
    assert!(key(&mut app, KeyCode::Other).is_empty());
    app.workers[0].pane.status = PaneStatus::Exited(0);
    assert!(key(&mut app, KeyCode::Char('a')).is_empty());
    // Focus on a pane that is gone reaches nothing.
    app.active = ActivePane::Worker(7);
    assert!(key(&mut app, KeyCode::Char('a')).is_empty());
}

#[test]
fn a_worker_is_entered_and_spawned() {
    let mut app = App::new(COLS, ROWS);
    assert!(ctrl(&mut app, 'n').is_empty());
    assert_eq!(app.cwd_input, Some(String::new()));
    for c in "~/x".chars() {
        key(&mut app, KeyCode::Char(c));
    }
    key(&mut app, KeyCode::Backspace);
    key(&mut app, KeyCode::Char('p'));
    let actions = key(&mut app, KeyCode::Enter);
    assert_eq!(actions.len(), 1);
    match &actions[0] {
        Action::Spawn { id, name, cols, rows, cwd } => {
            assert_eq!((*id, name.as_str()), (1, "worker-1"));
            assert_eq!((*cols, *rows), (78, 22));
            assert_eq!(cwd.as_deref(), Some("/home/u/p"));
        }
        _ => panic!("expected a spawn"),
    }
    assert_eq!(app.cwd_input, None);
    let actions =
        app.on_spawned("worker-1".to_string(), 78, 22, Some("/home/u/p".to_string()), COLS, ROWS);
    assert_eq!(app.active, ActivePane::Worker(0));
    assert_eq!(app.next_id, 2);
    assert_eq!(app.workers[0].cwd.as_deref(), Some("/home/u/p"));
    let sizes: Vec<(ActivePane, u16, u16)> = actions
        .iter()
        .filter_map(|a| match a {
            Action::ResizePty { pane, cols, rows } => Some((*pane, *cols, *rows)),
            _ => None,
        })
        .collect();
    assert_eq!(
        sizes,
        vec![(ActivePane::Orchestrator, 78, 4), (ActivePane::Worker(0), 78, 22)]
    );
    assert_eq!(app.orchestrator.pane.grid.rows, 4);
    let infos = app.worker_infos();
    assert_eq!(infos[0].name, "worker-1");
    assert_eq!(infos[0].cwd.as_deref(), Some("/home/u/p"));
}

#[test]
fn an_entry_can_be_left() {
    let mut app = App::new(COLS, ROWS);
    ctrl(&mut app, 'n');
    key(&mut app, KeyCode::Char('x'));
    key(&mut app, KeyCode::Esc);
    assert_eq!(app.cwd_input, None);
    // An empty entry gives no directory.
    ctrl(&mut app, 'n');
    let actions = key(&mut app, KeyCode::Enter);
    assert!(matches!(&actions[0], Action::Spawn { cwd: None, .. }));
}

#[test]
fn suggestions_go_round() {
    let mut app = App::new(COLS, ROWS);
    ctrl(&mut app, 'n');
    key(&mut app, KeyCode::Char('x'));
    let actions = key(&mut app, KeyCode::Tab);
    assert!(matches!(&actions[0], Action::Complete(input) if input == "x"));
    app.on_completions(vec!["a/".to_string(), "b/".to_string(), "c/".to_string()]);
    assert_eq!(app.cwd_input.as_deref(), Some("a/"));
    key(&mut app, KeyCode::Tab);
    assert_eq!(app.cwd_input.as_deref(), Some("b/"));
    key(&mut app, KeyCode::BackTab);
    key(&mut app, KeyCode::BackTab);
    assert_eq!(app.cwd_input.as_deref(), Some("c/"));
    key(&mut app, KeyCode::Tab);
    assert_eq!(app.cwd_input.as_deref(), Some("a/"));
    key(&mut app, KeyCode::Char('d'));
    assert!(app.cwd_suggestions.is_empty());
    // A single completion is taken without suggestions.
    app.on_completions(vec!["only/".to_string()]);
    assert_eq!(app.cwd_input.as_deref(), Some("only/"));
    assert!(app.cwd_suggestions.is_empty());
    app.on_completions(vec![]);
    assert_eq!(app.cwd_input.as_deref(), Some("only/"));
    assert!(key(&mut app, KeyCode::BackTab).is_empty());
}

#[test]
fn quitting_needs_confirmation() {
    let mut app = app_with(1);
    assert!(ctrl(&mut app, 'q').is_empty());
    assert!(matches!(app.dialog, Dialog::ConfirmQuit));
    assert!(key(&mut app, KeyCode::Char('x')).is_empty());
    assert!(key(&mut app, KeyCode::Enter).is_empty());
    assert!(matches!(app.dialog, Dialog::ConfirmQuit));
    key(&mut app, KeyCode::Esc);
    assert!(matches!(app.dialog, Dialog::Closed));
    ctrl(&mut app, 'q');
    key(&mut app, KeyCode::Char('N'));
    assert!(matches!(app.dialog, Dialog::Closed));
    ctrl(&mut app, 'q');
    let actions = key(&mut app, KeyCode::Char('Y'));
    assert!(matches!(actions[0], Action::Quit));
}

#[test]
fn closing_a_worker_needs_confirmation() {
    let mut app = app_with(3);
    assert!(ctrl(&mut app, 'w').is_empty());
    assert!(matches!(app.dialog, Dialog::ConfirmCloseWorker(2)));
    key(&mut app, KeyCode::Char('n'));
    assert_eq!(app.workers.len(), 3);
    ctrl(&mut app, 'w');
    app.fullscreen = Some(ActivePane::Worker(2));
    let actions = key(&mut app, KeyCode::Char('y'));
    assert!(matches!(actions[0], Action::Kill(2)));
    assert_eq!(app.workers.len(), 2);
    assert_eq!(app.active, ActivePane::Worker(1));
    assert_eq!(app.fullscreen, None);
    assert!(matches!(app.dialog, Dialog::Closed));
    assert_eq!(app.workers[0].pane.grid.cols, 38);
    ctrl(&mut app, '1');
    ctrl(&mut app, 'w');
    key(&mut app, KeyCode::Char('y'));
    assert_eq!(app.workers[0].pane.name, "worker-2");
    ctrl(&mut app, 'w');
    key(&mut app, KeyCode::Char('y'));
    assert_eq!(app.active, ActivePane::Orchestrator);
    // The orchestrator cannot be closed.
    ctrl(&mut app, 'w');
    assert!(matches!(app.dialog, Dialog::Closed));
    // A worker that is gone leaves only the dialog to close.
    app.dialog = Dialog::ConfirmCloseWorker(4);
    assert!(key(&mut app, KeyCode::Char('y')).is_empty());
    assert!(matches!(app.dialog, Dialog::Closed));
}

#[test]
fn a_session_name_is_typed() {
    let mut app = App::new(COLS, ROWS);
    ctrl(&mut app, 's');
    for c in "abc".chars() {
        key(&mut app, KeyCode::Char(c));
    }
    key(&mut app, KeyCode::Backspace);
    let actions = key(&mut app, KeyCode::Enter);
    assert!(matches!(&actions[0], Action::SaveSession(name) if name == "ab"));
    ctrl(&mut app, 's');
    key(&mut app, KeyCode::Backspace);
    let actions = key(&mut app, KeyCode::Enter);
    assert!(matches!(&actions[0], Action::SaveSession(name) if name.is_empty()));
    ctrl(&mut app, 's');
    assert!(key(&mut app, KeyCode::Esc).is_empty());
    assert!(matches!(app.dialog, Dialog::Closed));
}

#[test]
fn focus_is_switched_and_reported() {
    let mut app = app_with(2);
    output(&mut app, ActivePane::Worker(1), "\x1b[?1004h", 0);
    output(&mut app, ActivePane::Orchestrator, "\x1b[?1004h", 0);
    let actions = ctrl(&mut app, 'o');
    assert_eq!(
        writes(&actions),
        vec![
            (ActivePane::Worker(1), "\x1b[O".to_string()),
            (ActivePane::Orchestrator, "\x1b[I".to_string()),
        ]
    );
    assert!(ctrl(&mut app, 'o').is_empty());
    assert_eq!(
        writes(&ctrl(&mut app, '1')),
        vec![(ActivePane::Orchestrator, "\x1b[O".to_string())]
    );
    assert_eq!(app.active, ActivePane::Worker(0));
    assert!(ctrl(&mut app, '9').is_empty());
    assert_eq!(app.active, ActivePane::Worker(0));
    assert!(app.on_focus(true).is_empty());
    ctrl(&mut app, '2');
    assert_eq!(
        writes(&app.on_focus(false)),
        vec![(ActivePane::Worker(1), "\x1b[O".to_string())]
    );
    assert_eq!(
        writes(&app.on_focus(true)),
        vec![(ActivePane::Worker(1), "\x1b[I".to_string())]
    );
}

#[test]
fn one_pane_takes_the_terminal_and_gives_it_back() {
    let mut app = app_with(2);
    ctrl(&mut app, 'z');
    assert_eq!(app.fullscreen, Some(ActivePane::Worker(1)));
    assert_eq!(app.workers[1].pane.grid.cols, 78);
    assert_eq!(app.workers[1].pane.grid.rows, 28);
    assert_eq!(app.workers[0].pane.grid.cols, 38);
    ctrl(&mut app, 'z');
    assert_eq!(app.fullscreen, None);
    assert_eq!(app.workers[1].pane.grid.cols, 38);
    assert_eq!(app.workers[1].pane.grid.rows, 22);
}

#[test]
fn other_control_keys() {
    let mut app = App::new(COLS, ROWS);
    assert!(matches!(ctrl(&mut app, 'r')[0], Action::ToggleVoice));
    assert!(matches!(ctrl(&mut app, 'd')[0], Action::DumpGrid));
}

#[test]
fn pages_of_the_scrollback() {
    let mut app = App::new(COLS, ROWS);
    let mut text = String::new();
    for i in 0..60 {
        text.push_str(&format!("{}\r\n", i));
    }
    output(&mut app, ActivePane::Orchestrator, &text, 0);
    shift(&mut app, KeyCode::PageUp);
    assert_eq!(app.orchestrator.pane.grid.scroll_offset, 14);
    shift(&mut app, KeyCode::PageDown);
    assert_eq!(app.orchestrator.pane.grid.scroll_offset, 0);
    assert_eq!(
        writes(&shift(&mut app, KeyCode::Up)),
        vec![(ActivePane::Orchestrator, "\x1b[A".to_string())]
    );
    // Without shift the key goes to the pane.
    assert_eq!(
        writes(&key(&mut app, KeyCode::PageUp)),
        vec![(ActivePane::Orchestrator, "\x1b[5~".to_string())]
    );
}

fn with_frames(workers: usize) -> App {
    let mut app = app_with(workers);
    app.on_drawn(vec![
        (ActivePane::Worker(0), Rect { x: 0, y: 0, width: 40, height: 24 }),
        (ActivePane::Worker(1), Rect { x: 40, y: 0, width: 40, height: 24 }),
        (ActivePane::Orchestrator, Rect { x: 0, y: 24, width: 80, height: 6 }),
    ]);
    app
}

#[test]
fn a_click_focuses_and_is_forwarded() {
    let mut app = with_frames(2);
    assert_eq!(app.frame_count, 1);
    let left = MouseButton::Left;
    assert!(mouse(&mut app, MouseEventKind::Down(left), 5, 6).is_empty());
    assert_eq!(app.active, ActivePane::Worker(0));
    assert_eq!((app.selection.start_col, app.selection.start_row), (4, 5));
    let actions = mouse(&mut app, MouseEventKind::Up(left), 5, 6);
    assert_eq!(
        writes(&actions),
        vec![
            (ActivePane::Worker(0), "\x1b[<0;5;6M".to_string()),
            (ActivePane::Worker(0), "\x1b[<0;5;6m".to_string()),
        ]
    );
    // A click on a border is nobody's.
    assert!(mouse(&mut app, MouseEventKind::Down(left), 0, 0).is_empty());
    assert_eq!(app.active, ActivePane::Worker(0));
    assert_eq!(app.selection, TextSelection::none());
    assert!(mouse(&mut app, MouseEventKind::Up(left), 0, 0).is_empty());
    assert!(mouse(&mut app, MouseEventKind::Moved, 5, 6).is_empty());
    assert!(mouse(&mut app, MouseEventKind::Down(MouseButton::Right), 5, 6).is_empty());
}

#[test]
fn scrolling_goes_to_the_focused_pane() {
    let mut app = with_frames(2);
    assert_eq!(
        writes(&mouse(&mut app, MouseEventKind::ScrollUp, 41, 1)),
        vec![(ActivePane::Worker(1), "\x1b[<64;1;1M".to_string())]
    );
    assert!(mouse(&mut app, MouseEventKind::ScrollDown, 1, 1).is_empty());
}

#[test]
fn a_drag_selects_and_copies() {
    let mut app = with_frames(2);
    output(&mut app, ActivePane::Worker(0), "hello world\r\nsecond  \r\n", 0);
    let left = MouseButton::Left;
    mouse(&mut app, MouseEventKind::Down(left), 7, 1);
    mouse(&mut app, MouseEventKind::Drag(left), 79, 29);
    // The selection stays within its pane.
    assert_eq!((app.selection.end_col, app.selection.end_row), (37, 21));
    assert!(app.selection.active);
    let actions = mouse(&mut app, MouseEventKind::Up(left), 79, 29);
    assert!(matches!(&actions[0], Action::Copy(text) if text == "world\nsecond"));
    // Backwards is the same text.
    mouse(&mut app, MouseEventKind::Down(left), 3, 2);
    mouse(&mut app, MouseEventKind::Drag(left), 7, 1);
    let actions = mouse(&mut app, MouseEventKind::Up(left), 7, 1);
    assert!(matches!(&actions[0], Action::Copy(text) if text == "world\nsec"));
    // Nothing but blanks is not copied.
    mouse(&mut app, MouseEventKind::Down(left), 3, 10);
    mouse(&mut app, MouseEventKind::Drag(left), 5, 10);
    assert!(mouse(&mut app, MouseEventKind::Up(left), 5, 10).is_empty());
}

#[test]
fn selections_are_read_from_the_view() {
    let mut app = App::new(20, 10);
    output(&mut app, ActivePane::Orchestrator, "abcdef\r\n한글\r\nxyz", 0);
    let sel = |start: (u16, u16), end: (u16, u16)| TextSelection {
        pane: ActivePane::Orchestrator,
        start_col: start.0,
        start_row: start.1,
        end_col: end.0,
        end_row: end.1,
        active: true,
    };
    let grid = &app.orchestrator.pane.grid;
    assert_eq!(extract_selection(grid, &sel((1, 0), (3, 0))), "bcd");
    assert_eq!(extract_selection(grid, &sel((4, 0), (1, 2))), "ef\n한 글\nxy");
    assert_eq!(extract_selection(grid, &sel((0, 2), (99, 50))), "xyz");
    // Behind the end of the line there is nothing.
    assert_eq!(extract_selection(grid, &sel((50, 0), (60, 0))), "");
    assert_eq!(sel((3, 1), (2, 1)).normalized(), (2, 1, 3, 1));
    assert_eq!(sel((3, 1), (9, 0)).normalized(), (9, 0, 3, 1));
}

#[test]
fn the_terminal_is_resized() {
    let mut app = app_with(1);
    let actions = app.on_resize(100, 50);
    assert!(matches!(actions[actions.len() - 1], Action::ClearTerminal));
    assert_eq!(app.workers[0].pane.grid.cols, 98);
    assert_eq!(app.workers[0].pane.grid.rows, 38);
    assert_eq!(app.orchestrator.pane.grid.rows, 8);
}

#[test]
fn programs_write_answer_and_exit() {
    let mut app = app_with(1);
    output(&mut app, ActivePane::Worker(0), "\x1b[5n", 42);
    assert_eq!(app.workers[0].last_output_time, Some(42));
    assert_eq!(app.workers[0].flush_responses(), b"\x1b[0n".to_vec());
    assert!(app.workers[0].flush_responses().is_empty());
    app.workers[0].drain_output(&PtyEvent::Exited, 50, Some(3));
    assert_eq!(app.workers[0].pane.status, PaneStatus::Exited(3));
    app.orchestrator.drain_output(&PtyEvent::Exited, 50, None);
    assert_eq!(app.orchestrator.pane.status, PaneStatus::Exited(0));
}

fn said(app: &mut App, text: &str, now: u64) -> Vec<Action> {
    app.on_voice(VoiceEvent::Transcribed(text.to_string()), now, 5000)
}

#[test]
fn a_spoken_command_is_corrected_and_routed() {
    let mut app = app_with(2);
    let actions = said(&mut app, "워커 일에게 빌드", 1000);
    let sent = writes(&actions);
    assert_eq!(sent.len(), 1);
    assert_eq!(sent[0].0, ActivePane::Orchestrator);
    assert!(sent[0].1.starts_with("다음 음성 명령의 오타를"));
    assert!(sent[0].1.ends_with("\n"));
    assert!(app.correcting());
    // Nothing happens while the orchestrator still writes.
    output(&mut app, ActivePane::Orchestrator, "[CDC_CORRECT]워커 2에게 빌드 해[/CDC_CORRECT]", 2000);
    assert!(app.check_correction(2500, 500).is_empty());
    let actions = app.check_correction(2501, 500);
    assert_eq!(writes(&actions), vec![(ActivePane::Worker(1), "빌드 해\n".to_string())]);
    assert!(!app.correcting());
    assert!(app.check_correction(9999, 500).is_empty());
}

#[test]
fn the_spoken_text_goes_out_when_time_is_up() {
    let mut app = app_with(1);
    said(&mut app, "do it", 1000);
    assert!(app.check_correction(5999, 500).is_empty());
    let actions = app.check_correction(6000, 500);
    assert_eq!(writes(&actions), vec![(ActivePane::Orchestrator, "do it\n".to_string())]);
}

#[test]
fn a_second_text_pushes_the_first_one_out() {
    let mut app = app_with(1);
    said(&mut app, "worker 1에 first", 0);
    let actions = said(&mut app, "second", 10);
    let sent = writes(&actions);
    assert_eq!(sent[0], (ActivePane::Worker(0), "first\n".to_string()));
    assert_eq!(sent[1].0, ActivePane::Orchestrator);
    assert!(matches!(
        &app.correction_state,
        CorrectionState::WaitingForResponse { raw_text, hard_ceiling: 5010 } if raw_text == "second"
    ));
}

#[test]
fn a_blocked_orchestrator_does_not_correct() {
    let mut app = app_with(1);
    output(&mut app, ActivePane::Orchestrator, "please approve", 0);
    let actions = said(&mut app, "worker 1에 go", 0);
    assert_eq!(writes(&actions), vec![(ActivePane::Worker(0), "go\n".to_string())]);
    assert!(!app.correcting());
    app.orchestrator.drain_output(&PtyEvent::Exited, 0, None);
    let actions = said(&mut app, "hello", 0);
    assert_eq!(writes(&actions), vec![(ActivePane::Orchestrator, "hello\n".to_string())]);
}

#[test]
fn a_text_for_a_worker_that_is_gone_is_dropped() {
    let mut app = app_with(1);
    assert!(app.route_text("워커 5에게 빌드").is_empty());
    app.workers[0].pane.status = PaneStatus::Exited(1);
    assert!(app.route_text("워커 1에게 빌드").is_empty());
    assert_eq!(
        writes(&app.deliver("x", None)),
        vec![(ActivePane::Orchestrator, "x\n".to_string())]
    );
    assert!(app.deliver("x", Some((0, "y".to_string()))).is_empty());
}

#[test]
fn voice_states_are_kept() {
    let mut app = App::new(COLS, ROWS);
    app.on_voice(VoiceEvent::DownloadProgress(1, 2), 0, 0);
    assert!(matches!(app.voice_state, VoiceState::Downloading(1, 2)));
    app.on_voice(VoiceEvent::StateChanged(VoiceState::Recording), 0, 0);
    assert!(matches!(app.voice_state, VoiceState::Recording));
    app.on_voice(VoiceEvent::Error("e".to_string()), 0, 0);
    assert!(matches!(&app.voice_state, VoiceState::Error(m) if m == "e"));
    said(&mut app, "x", u64::MAX);
    assert!(matches!(app.voice_state, VoiceState::Idle));
    assert!(matches!(
        app.correction_state,
        CorrectionState::WaitingForResponse { hard_ceiling: u64::MAX, .. }
    ));
}

#[test]
fn restored_workers_do_not_take_the_focus() {
    let mut app = App::new(COLS, ROWS);
    let (w, h) = app.new_worker_size(COLS, ROWS);
    assert_eq!((w, h), (78, 22));
    app.add_worker("saved".to_string(), w, h, Some("/x".to_string()));
    assert_eq!(app.active, ActivePane::Orchestrator);
    assert_eq!(app.next_id, 2);
    app.resize_all_panes(COLS, ROWS, None);
    assert_eq!(app.orchestrator.pane.grid.rows, 4);
}

#[test]
fn what_is_highlighted_is_what_is_copied() {
    let mut app = App::new(12, 8);
    output(&mut app, ActivePane::Orchestrator, "abcdefghij\r\nklmnopqrst\r\nuvwxyz", 0);
    let grid = &app.orchestrator.pane.grid;
    let sel = TextSelection {
        pane: ActivePane::Orchestrator,
        start_col: 7,
        start_row: 0,
        end_col: 2,
        end_row: 2,
        active: true,
    };
    let widget = cdc::ui::PaneWidget::new(grid, true, Some(&sel));
    let mut shown = String::new();
    for row in 0..3u16 {
        for col in 0..10u16 {
            if widget.is_selected(row, col) {
                shown.push(grid.cell_at(row as usize, col as usize).ch);
            }
        }
    }
    assert_eq!(extract_selection(grid, &sel).replace('\n', ""), shown);
}

#[test]
fn a_dialog_clones() {
    let dialog = Dialog::SaveSession("x".to_string()).clone();
    assert!(matches!(dialog, Dialog::SaveSession(name) if name == "x"));
    assert!(!Dialog::Closed.clone().is_open());
    assert!(Dialog::ConfirmCloseWorker(1).clone().is_open());
    assert!(Dialog::ConfirmQuit.clone().is_open());
}

#[test]
fn a_waiting_text_goes_out_once() {
    // The orchestrator asks for a permission when the second text is spoken.
    let mut app = app_with(1);
    said(&mut app, "worker 1에 first", 0);
    output(&mut app, ActivePane::Orchestrator, "please approve", 1);
    let actions = said(&mut app, "worker 1에 second", 10);
    assert_eq!(writes(&actions), vec![
        (ActivePane::Worker(0), "first\n".to_string()),
        (ActivePane::Worker(0), "second\n".to_string()),
    ]);
    assert!(!app.correcting());
    assert!(app.check_correction(u64::MAX, 0).is_empty());
    // The orchestrator has ended when the second text is spoken.
    let mut app = app_with(1);
    said(&mut app, "worker 1에 first", 0);
    app.orchestrator.drain_output(&PtyEvent::Exited, 1, None);
    let actions = said(&mut app, "worker 1에 second", 10);
    assert_eq!(writes(&actions).len(), 2);
    assert!(app.check_correction(u64::MAX, 0).is_empty());
}

#[test]
fn keys_and_mouse_leave_a_waiting_text_alone() {
    let mut app = with_frames(1);
    said(&mut app, "do it", 0);
    key(&mut app, KeyCode::Char('x'));
    ctrl(&mut app, 'n');
    key(&mut app, KeyCode::Esc);
    mouse(&mut app, MouseEventKind::Down(MouseButton::Left), 2, 2);
    assert!(app.correcting());
    assert_eq!(writes(&app.check_correction(5000, 500)).len(), 1);
    assert!(app.check_correction(u64::MAX, 0).is_empty());
}
