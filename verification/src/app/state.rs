//! The mathematical model of the application: what each event makes of it, and what it asks to
//! be done.

use crate::app::dialog::DialogView;
use crate::app::selection;
use crate::app::selection::TextSelection;
use crate::correction;
use crate::event;
use crate::event::{KeyCode, KeyEvent, KeyModifiers, MouseButton, MouseEvent, MouseEventKind};
use crate::pane::extract;
use crate::pane::state::GridState;
use crate::pane::PaneStatus;
use crate::paths;
use crate::pty::PtyEventView;
use crate::route;
use crate::text;
use crate::ui::layout;
use crate::ui::layout::{ActivePane, Rect};
use crate::voice::{VoiceEventView, VoiceStateView};
use crate::vt;
use vstd::prelude::*;
use vstd::utf8;

verus! {

/// A pane as the application sees it.
pub struct ManagedView {
    pub id: u32,
    pub name: Seq<char>,
    pub grid: GridState,
    pub fed: Seq<u8>,
    pub status: PaneStatus,
    pub cwd: Option<Seq<char>>,
    pub last_output: Option<u64>,
}

/// Whether a correction is awaited: of which spoken text, and until when at the latest.
pub enum CorrectionView {
    Idle,
    Waiting { raw: Seq<char>, ceiling: u64 },
}

/// Something that the application asks to be done.
pub enum ActionView {
    /// Send bytes to the program of a pane.
    Write { pane: ActivePane, bytes: Seq<u8> },
    /// Tell the program of a pane its size.
    ResizePty { pane: ActivePane, cols: u16, rows: u16 },
    /// End the program of a worker that was taken out, whose index this was.
    Kill(usize),
    /// Start a worker.
    Spawn { id: u32, name: Seq<char>, cols: u16, rows: u16, cwd: Option<Seq<char>> },
    /// Save the session under a name, an automatic one where it is empty.
    SaveSession(Seq<char>),
    /// Copy a text to the clipboard.
    Copy(Seq<char>),
    /// Start or stop a recording.
    ToggleVoice,
    /// Write down the screen of the focused pane.
    DumpGrid,
    /// Find completions of a path.
    Complete(Seq<char>),
    /// Clear the terminal.
    ClearTerminal,
    /// End the application.
    Quit,
}

/// The application.
#[verifier::ext_equal]
pub struct AppView {
    pub orchestrator: ManagedView,
    pub workers: Seq<ManagedView>,
    pub active: ActivePane,
    pub next_id: u32,
    pub rects: Seq<(ActivePane, Rect)>,
    pub fullscreen: Option<ActivePane>,
    pub cwd_input: Option<Seq<char>>,
    pub suggestions: Seq<Seq<char>>,
    pub suggestion_idx: usize,
    pub selection: TextSelection,
    pub dialog: DialogView,
    pub frame_count: u64,
    pub voice: VoiceStateView,
    pub correction: CorrectionView,
}

/// What an event brings: the application afterwards, and what it asks to be done, in order.
pub type Step = (AppView, Seq<ActionView>);

impl ManagedView {
    /// A pane whose program was just started.
    pub open spec fn started(
        id: u32,
        name: Seq<char>,
        cols: u16,
        rows: u16,
        cwd: Option<Seq<char>>,
    ) -> ManagedView {
        ManagedView {
            id,
            name,
            grid: GridState::fresh(cols, rows),
            fed: seq![],
            status: PaneStatus::Running,
            cwd,
            last_output: None,
        }
    }

    /// The pane after its program did something. `code` is its exit code, if it is known.
    pub open spec fn after(self, event: PtyEventView, now: u64, code: Option<i32>) -> ManagedView {
        match event {
            PtyEventView::Output(data) => ManagedView {
                grid: self.grid.applied_all(vt::vt_actions_all(self.fed, data)),
                fed: self.fed + data,
                last_output: Some(now),
                ..self
            },
            PtyEventView::Exited => ManagedView {
                status: PaneStatus::Exited(
                    match code {
                        Some(c) => c,
                        None => 0,
                    },
                ),
                ..self
            },
        }
    }

    /// The pane with no answers to its program left to send.
    pub open spec fn answered(self) -> ManagedView {
        ManagedView { grid: GridState { response: seq![], ..self.grid }, ..self }
    }

    /// The pane with a screen of another size.
    pub open spec fn resized(self, cols: u16, rows: u16) -> ManagedView {
        ManagedView { grid: self.grid.resized(cols, rows), ..self }
    }

    /// Half a screen, a line at least.
    pub open spec fn half_page(self) -> int {
        if self.grid.rows / 2 < 1 {
            1
        } else {
            self.grid.rows as int / 2
        }
    }
}

/// The report of focus gained or lost.
pub open spec fn focus_bytes(gained: bool) -> Seq<u8> {
    if gained {
        seq![27u8, 91u8, 73u8]
    } else {
        seq![27u8, 91u8, 79u8]
    }
}

/// A line of text as it is typed: in UTF-8, with a line feed behind it.
pub open spec fn typed_line(s: Seq<char>) -> Seq<u8> {
    utf8::encode_utf8(s.push('\n'))
}

/// The area of a terminal.
pub open spec fn terminal_area(cols: u16, rows: u16) -> Rect {
    Rect { x: 0, y: 0, width: cols, height: rows }
}

/// The size of the screen in a frame.
pub open spec fn inner_size(rect: Rect) -> (u16, u16) {
    (layout::inside(rect).width, layout::inside(rect).height)
}

impl AppView {
    /// A pane of the application.
    pub open spec fn pane(self, which: ActivePane) -> Option<ManagedView> {
        match which {
            ActivePane::Orchestrator => Some(self.orchestrator),
            ActivePane::Worker(idx) => if idx < self.workers.len() {
                Some(self.workers[idx as int])
            } else {
                None
            },
        }
    }

    /// The application with a pane replaced.
    pub open spec fn with_pane(self, which: ActivePane, pane: ManagedView) -> AppView {
        match which {
            ActivePane::Orchestrator => AppView { orchestrator: pane, ..self },
            ActivePane::Worker(idx) => AppView {
                workers: self.workers.update(idx as int, pane),
                ..self
            },
        }
    }

    /// The report of focus to a pane that wants it.
    pub open spec fn focus_report(self, which: ActivePane, gained: bool) -> Seq<ActionView> {
        match self.pane(which) {
            Some(p) => if p.grid.focus_tracking {
                seq![ActionView::Write { pane: which, bytes: focus_bytes(gained) }]
            } else {
                seq![]
            },
            None => seq![],
        }
    }

    /// The reports when focus goes from one pane to another.
    pub open spec fn focus_switch(self, old: ActivePane, new: ActivePane) -> Seq<ActionView> {
        if old == new {
            seq![]
        } else {
            self.focus_report(old, false) + self.focus_report(new, true)
        }
    }

    /// Focus on another pane.
    pub open spec fn focused(self, new: ActivePane) -> Step {
        (AppView { active: new, ..self }, self.focus_switch(self.active, new))
    }

    /// Bytes for the focused pane, if its program runs and there are any.
    pub open spec fn sent(self, bytes: Seq<u8>) -> Seq<ActionView> {
        match self.pane(self.active) {
            Some(p) => if p.status == PaneStatus::Running && bytes.len() > 0 {
                seq![ActionView::Write { pane: self.active, bytes }]
            } else {
                seq![]
            },
            None => seq![],
        }
    }

    /// The size of the screen of worker `i`.
    pub open spec fn worker_size(self, cols: u16, rows: u16, i: int) -> (u16, u16) {
        inner_size(layout::worker_place(terminal_area(cols, rows), self.workers.len(), i))
    }

    /// The size of the screen of the orchestrator.
    pub open spec fn orch_size(self, cols: u16, rows: u16) -> (u16, u16) {
        inner_size(layout::orch_place(terminal_area(cols, rows), self.workers.len()))
    }

    /// All panes at the sizes that they have in a terminal; where one pane has all of it, only
    /// that pane.
    pub open spec fn resized_all(self, cols: u16, rows: u16, fullscreen: Option<ActivePane>) -> Step {
        match fullscreen {
            Some(fs) => {
                let (w, h) = inner_size(terminal_area(cols, rows));
                match self.pane(fs) {
                    Some(p) => (
                        self.with_pane(fs, p.resized(w, h)),
                        seq![ActionView::ResizePty { pane: fs, cols: w, rows: h }],
                    ),
                    None => (self, seq![]),
                }
            },
            None => {
                let (w, h) = self.orch_size(cols, rows);
                (
                    AppView {
                        orchestrator: self.orchestrator.resized(w, h),
                        workers: Seq::new(
                            self.workers.len(),
                            |i: int|
                                self.workers[i].resized(
                                    self.worker_size(cols, rows, i).0,
                                    self.worker_size(cols, rows, i).1,
                                ),
                        ),
                        ..self
                    },
                    seq![
                        ActionView::ResizePty { pane: ActivePane::Orchestrator, cols: w, rows: h },
                    ] + Seq::new(
                        self.workers.len(),
                        |i: int|
                            ActionView::ResizePty {
                                pane: ActivePane::Worker(i as usize),
                                cols: self.worker_size(cols, rows, i).0,
                                rows: self.worker_size(cols, rows, i).1,
                            },
                    ),
                )
            },
        }
    }

    /// No dialog.
    pub open spec fn undisturbed(self) -> AppView {
        AppView { dialog: DialogView::Closed, ..self }
    }

    /// Worker `idx` taken out, with focus on a neighbour and the others at their new sizes.
    pub open spec fn worker_closed(self, idx: usize, cols: u16, rows: u16) -> Step {
        if idx >= self.workers.len() {
            (self.undisturbed(), seq![])
        } else {
            let s1 = AppView {
                workers: self.workers.remove(idx as int),
                dialog: DialogView::Closed,
                ..self
            };
            let n = s1.workers.len();
            let new = if n == 0 {
                ActivePane::Orchestrator
            } else if idx < n {
                ActivePane::Worker(idx)
            } else {
                ActivePane::Worker((n - 1) as usize)
            };
            let (s2, focus) = s1.focused(new);
            let (s3, sizes) = AppView { fullscreen: None, ..s2 }.resized_all(cols, rows, None);
            (s3, seq![ActionView::Kill(idx)] + focus + sizes)
        }
    }

    /// A key while a dialog is open.
    pub open spec fn dialog_key(self, code: KeyCode, cols: u16, rows: u16) -> Step {
        match self.dialog {
            DialogView::Closed => (self, seq![]),
            DialogView::ConfirmQuit => match code {
                KeyCode::Char('y') | KeyCode::Char('Y') => (self, seq![ActionView::Quit]),
                KeyCode::Char('n') | KeyCode::Char('N') | KeyCode::Esc => (
                    self.undisturbed(),
                    seq![],
                ),
                _ => (self, seq![]),
            },
            DialogView::ConfirmCloseWorker(idx) => match code {
                KeyCode::Char('y') | KeyCode::Char('Y') => self.worker_closed(idx, cols, rows),
                KeyCode::Char('n') | KeyCode::Char('N') | KeyCode::Esc => (
                    self.undisturbed(),
                    seq![],
                ),
                _ => (self, seq![]),
            },
            DialogView::SaveSession(name) => match code {
                KeyCode::Enter => (self.undisturbed(), seq![ActionView::SaveSession(name)]),
                KeyCode::Esc => (self.undisturbed(), seq![]),
                KeyCode::Backspace => (
                    AppView {
                        dialog: DialogView::SaveSession(
                            if name.len() > 0 {
                                name.drop_last()
                            } else {
                                name
                            },
                        ),
                        ..self
                    },
                    seq![],
                ),
                KeyCode::Char(c) => (
                    AppView { dialog: DialogView::SaveSession(name.push(c)), ..self },
                    seq![],
                ),
                _ => (self, seq![]),
            },
        }
    }

    /// No entry of a directory.
    pub open spec fn entry_closed(self) -> AppView {
        AppView { cwd_input: None, suggestions: seq![], suggestion_idx: 0, ..self }
    }

    /// An entry of a directory without suggestions.
    pub open spec fn entered(self, input: Seq<char>) -> AppView {
        AppView { cwd_input: Some(input), suggestions: seq![], suggestion_idx: 0, ..self }
    }

    /// An entry of a directory with suggestion `idx` taken.
    pub open spec fn suggested(self, idx: usize) -> AppView {
        AppView {
            cwd_input: Some(self.suggestions[idx as int]),
            suggestion_idx: idx,
            ..self
        }
    }

    /// The size of the screen of a worker that is added.
    pub open spec fn new_worker_size(self, cols: u16, rows: u16) -> (u16, u16) {
        let n = self.workers.len() + 1;
        inner_size(layout::worker_place(terminal_area(cols, rows), n, n - 1))
    }

    /// The start of a worker in a directory that was entered.
    pub open spec fn spawn_asked(
        self,
        cols: u16,
        rows: u16,
        cwd: Option<Seq<char>>,
    ) -> ActionView {
        let (w, h) = self.new_worker_size(cols, rows);
        ActionView::Spawn {
            id: self.next_id,
            name: "worker-"@ + text::digits(self.next_id as nat),
            cols: w,
            rows: h,
            cwd,
        }
    }

    /// A key while a directory is entered.
    pub open spec fn entry_key(
        self,
        input: Seq<char>,
        code: KeyCode,
        cols: u16,
        rows: u16,
        home: Option<Seq<char>>,
        current: Option<Seq<char>>,
    ) -> Step {
        let n = self.suggestions.len();
        match code {
            KeyCode::Enter => (
                self.entry_closed(),
                seq![self.spawn_asked(cols, rows, paths::resolved(input, home, current))],
            ),
            KeyCode::Esc => (self.entry_closed(), seq![]),
            KeyCode::Tab => if n > 0 {
                (
                    self.suggested(
                        if self.suggestion_idx + 1 < n {
                            (self.suggestion_idx + 1) as usize
                        } else {
                            0
                        },
                    ),
                    seq![],
                )
            } else {
                (self, seq![ActionView::Complete(input)])
            },
            KeyCode::BackTab => if n > 0 {
                (
                    self.suggested(
                        if self.suggestion_idx == 0 {
                            (n - 1) as usize
                        } else {
                            (self.suggestion_idx - 1) as usize
                        },
                    ),
                    seq![],
                )
            } else {
                (self, seq![])
            },
            KeyCode::Backspace => (
                self.entered(
                    if input.len() > 0 {
                        input.drop_last()
                    } else {
                        input
                    },
                ),
                seq![],
            ),
            KeyCode::Char(c) => (self.entered(input.push(c)), seq![]),
            _ => (self, seq![]),
        }
    }

    /// A key with Control, when nothing else wants it.
    pub open spec fn control_key(self, key: KeyEvent, cols: u16, rows: u16) -> Step {
        match key.code {
            KeyCode::Char('q') => (AppView { dialog: DialogView::ConfirmQuit, ..self }, seq![]),
            KeyCode::Char('z') => {
                let fs = if self.fullscreen is Some {
                    None
                } else {
                    Some(self.active)
                };
                AppView { fullscreen: fs, ..self }.resized_all(cols, rows, fs)
            },
            KeyCode::Char('o') => self.focused(ActivePane::Orchestrator),
            KeyCode::Char('n') => (AppView { cwd_input: Some(seq![]), ..self }, seq![]),
            KeyCode::Char('d') => (self, seq![ActionView::DumpGrid]),
            KeyCode::Char('w') => match self.active {
                ActivePane::Worker(idx) => if idx < self.workers.len() {
                    (AppView { dialog: DialogView::ConfirmCloseWorker(idx), ..self }, seq![])
                } else {
                    (self, seq![])
                },
                ActivePane::Orchestrator => (self, seq![]),
            },
            KeyCode::Char('r') => (self, seq![ActionView::ToggleVoice]),
            KeyCode::Char('s') => (
                AppView { dialog: DialogView::SaveSession(seq![]), ..self },
                seq![],
            ),
            KeyCode::Char(c) => if '1' <= c && c <= '9' {
                let idx = (c as u32 - '1' as u32) as usize;
                if idx < self.workers.len() {
                    self.focused(ActivePane::Worker(idx))
                } else {
                    (self, seq![])
                }
            } else {
                (self, self.sent(event::key_bytes(key)))
            },
            _ => (self, self.sent(event::key_bytes(key))),
        }
    }

    /// The view of the focused pane moved by half a page.
    pub open spec fn paged(self, up: bool) -> AppView {
        match self.pane(self.active) {
            Some(p) => {
                let grid = if up {
                    p.grid.view_moved_up(p.half_page())
                } else {
                    p.grid.view_moved_down(p.half_page())
                };
                self.with_pane(self.active, ManagedView { grid, ..p })
            },
            None => self,
        }
    }

    /// A key.
    pub open spec fn key(
        self,
        key: KeyEvent,
        cols: u16,
        rows: u16,
        home: Option<Seq<char>>,
        current: Option<Seq<char>>,
    ) -> Step {
        if !(self.dialog is Closed) {
            self.dialog_key(key.code, cols, rows)
        } else {
            match self.cwd_input {
                Some(input) => self.entry_key(input, key.code, cols, rows, home, current),
                None => if key.modifiers.control {
                    self.control_key(key, cols, rows)
                } else if key.modifiers.shift && key.code == KeyCode::PageUp {
                    (self.paged(true), seq![])
                } else if key.modifiers.shift && key.code == KeyCode::PageDown {
                    (self.paged(false), seq![])
                } else {
                    (self, self.sent(event::key_bytes(key)))
                },
            }
        }
    }

    /// Completions of the entered directory that were found.
    pub open spec fn completed(self, found: Seq<Seq<char>>) -> AppView {
        if self.cwd_input is None || found.len() == 0 {
            self
        } else if found.len() == 1 {
            AppView { cwd_input: Some(found[0]), ..self }
        } else {
            AppView {
                cwd_input: Some(found[0]),
                suggestions: found,
                suggestion_idx: 0,
                ..self
            }
        }
    }

    /// A worker that was started, without focus on it.
    pub open spec fn worker_added(self, worker: ManagedView) -> AppView {
        AppView {
            workers: self.workers.push(worker),
            next_id: (self.next_id + 1) as u32,
            ..self
        }
    }

    /// A worker that was started, with focus on it and all panes at their new sizes.
    pub open spec fn worker_spawned(self, worker: ManagedView, cols: u16, rows: u16) -> Step {
        let s1 = self.worker_added(worker);
        let (s2, focus) = s1.focused(ActivePane::Worker(self.workers.len() as usize));
        let (s3, sizes) = AppView { fullscreen: None, ..s2 }.resized_all(cols, rows, None);
        (s3, focus + sizes)
    }

    /// The first pane from `i` on in whose frame a cell is.
    pub open spec fn pane_under(self, column: u16, row: u16, i: int) -> Option<int>
        decreases self.rects.len() - i,
    {
        if i < 0 || i >= self.rects.len() {
            None
        } else if layout::inside(self.rects[i].1).holds(column, row) {
            Some(i)
        } else {
            self.pane_under(column, row, i + 1)
        }
    }

    /// The first frame of a pane from `i` on.
    pub open spec fn frame_of(self, which: ActivePane, i: int) -> Option<Rect>
        decreases self.rects.len() - i,
    {
        if i < 0 || i >= self.rects.len() {
            None
        } else if self.rects[i].0 == which {
            Some(self.rects[i].1)
        } else {
            self.frame_of(which, i + 1)
        }
    }

    /// The mouse button pressed: a selection may begin in the pane under the mouse, which gets
    /// the focus.
    pub open spec fn pressed(self, column: u16, row: u16) -> Step {
        match self.pane_under(column, row, 0) {
            Some(i) => {
                let (which, rect) = self.rects[i];
                let inner = layout::inside(rect);
                let s = AppView {
                    selection: TextSelection {
                        pane: which,
                        start_col: (column - inner.x) as u16,
                        start_row: (row - inner.y) as u16,
                        end_col: (column - inner.x) as u16,
                        end_row: (row - inner.y) as u16,
                        active: false,
                    },
                    ..self
                };
                s.focused(which)
            },
            None => (AppView { selection: TextSelection::nothing(), ..self }, seq![]),
        }
    }

    /// The mouse dragged: the selection goes on to there, within its pane.
    pub open spec fn dragged(self, column: u16, row: u16) -> AppView {
        match self.frame_of(self.selection.pane, 0) {
            Some(rect) => {
                let inner = layout::inside(rect);
                AppView {
                    selection: TextSelection {
                        end_col: within(column, inner.x, inner.width),
                        end_row: within(row, inner.y, inner.height),
                        active: true,
                        ..self.selection
                    },
                    ..self
                }
            },
            None => self,
        }
    }

    /// A mouse event for the focused pane, if it is in its frame.
    pub open spec fn mouse_sent(
        self,
        kind: MouseEventKind,
        column: u16,
        row: u16,
        modifiers: KeyModifiers,
    ) -> Seq<ActionView> {
        match self.frame_of(self.active, 0) {
            Some(rect) => {
                let inner = layout::inside(rect);
                if inner.holds(column, row) {
                    self.sent(
                        event::mouse_bytes(
                            MouseEvent {
                                kind,
                                column: (column - inner.x) as u16,
                                row: (row - inner.y) as u16,
                                modifiers,
                            },
                        ),
                    )
                } else {
                    seq![]
                }
            },
            None => seq![],
        }
    }

    /// The mouse button released: the selected text is copied, or, where nothing was selected,
    /// the focused pane gets the click.
    pub open spec fn released(self, mouse: MouseEvent) -> Seq<ActionView> {
        if self.selection.active {
            let grid = match self.pane(self.selection.pane) {
                Some(p) => p.grid,
                None => self.orchestrator.grid,
            };
            let copied = selection::selected_text(grid, self.selection.span());
            if copied.len() > 0 {
                seq![ActionView::Copy(copied)]
            } else {
                seq![]
            }
        } else {
            self.mouse_sent(
                MouseEventKind::Down(MouseButton::Left),
                mouse.column,
                mouse.row,
                mouse.modifiers,
            ) + self.mouse_sent(
                MouseEventKind::Up(MouseButton::Left),
                mouse.column,
                mouse.row,
                mouse.modifiers,
            )
        }
    }

    /// A mouse event.
    pub open spec fn mouse(self, mouse: MouseEvent) -> Step {
        match mouse.kind {
            MouseEventKind::Down(MouseButton::Left) => self.pressed(mouse.column, mouse.row),
            MouseEventKind::Drag(MouseButton::Left) => (
                self.dragged(mouse.column, mouse.row),
                seq![],
            ),
            MouseEventKind::Up(MouseButton::Left) => (self, self.released(mouse)),
            MouseEventKind::ScrollUp | MouseEventKind::ScrollDown => (
                self,
                self.mouse_sent(mouse.kind, mouse.column, mouse.row, mouse.modifiers),
            ),
            _ => (self, seq![]),
        }
    }

    /// A text for the worker that it names, if that is there and runs, else for the
    /// orchestrator. `target` is what the text names.
    pub open spec fn delivered(
        self,
        said: Seq<char>,
        target: Option<(nat, Seq<char>)>,
    ) -> Seq<ActionView> {
        match target {
            Some((idx, content)) => if idx < self.workers.len()
                && self.workers[idx as int].status == PaneStatus::Running {
                seq![
                    ActionView::Write {
                        pane: ActivePane::Worker(idx as usize),
                        bytes: typed_line(content),
                    },
                ]
            } else {
                seq![]
            },
            None => seq![
                ActionView::Write {
                    pane: ActivePane::Orchestrator,
                    bytes: typed_line(said),
                },
            ],
        }
    }

    /// A spoken text where it belongs.
    pub open spec fn routed(self, said: Seq<char>) -> Seq<ActionView> {
        self.delivered(said, route::route(said, route::lowered(text::trim(said))))
    }

    /// A spoken text: one that still waits for its correction goes out as it is and is awaited no
    /// longer, and this one goes to the orchestrator for correction, or out as it is if the
    /// orchestrator does not take it. `blocked` says whether it waits for a permission.
    pub open spec fn transcribed(
        self,
        said: Seq<char>,
        now: u64,
        timeout: u64,
        blocked: bool,
    ) -> Step {
        let pending = match self.correction {
            CorrectionView::Waiting { raw, ceiling } => self.routed(raw),
            CorrectionView::Idle => seq![],
        };
        if self.orchestrator.status == PaneStatus::Running && !blocked {
            (
                AppView {
                    correction: CorrectionView::Waiting {
                        raw: said,
                        ceiling: if now + timeout <= u64::MAX {
                            (now + timeout) as u64
                        } else {
                            u64::MAX
                        },
                    },
                    voice: VoiceStateView::Idle,
                    ..self
                },
                pending + seq![
                    ActionView::Write {
                        pane: ActivePane::Orchestrator,
                        bytes: typed_line(correction::prompt(said)),
                    },
                ],
            )
        } else {
            (
                AppView {
                    correction: CorrectionView::Idle,
                    voice: VoiceStateView::Idle,
                    ..self
                },
                pending + self.routed(said),
            )
        }
    }

    /// Whether the wait for a correction is over: the orchestrator has been quiet for long
    /// enough, or the time is up.
    pub open spec fn correction_due(self, now: u64, quiescence: u64) -> bool {
        match self.correction {
            CorrectionView::Idle => false,
            CorrectionView::Waiting { raw, ceiling } => now >= ceiling || (
            self.orchestrator.last_output matches Some(t) && now - t > quiescence),
        }
    }

    /// The correction that was awaited, if the wait is over.
    pub open spec fn correction_checked(self, now: u64, quiescence: u64) -> Step {
        match self.correction {
            CorrectionView::Waiting { raw, ceiling } => if self.correction_due(now, quiescence) {
                let screen = extract::screen_text(self.orchestrator.grid.cells);
                (
                    AppView { correction: CorrectionView::Idle, ..self },
                    self.routed(correction::corrected(screen, raw)),
                )
            } else {
                (self, seq![])
            },
            CorrectionView::Idle => (self, seq![]),
        }
    }

    /// An event of voice input.
    pub open spec fn voice_event(
        self,
        event: VoiceEventView,
        now: u64,
        timeout: u64,
        blocked: bool,
    ) -> Step {
        match event {
            VoiceEventView::Transcribed(said) => self.transcribed(said, now, timeout, blocked),
            VoiceEventView::StateChanged(state) => (AppView { voice: state, ..self }, seq![]),
            VoiceEventView::DownloadProgress(dl, total) => (
                AppView { voice: VoiceStateView::Downloading(dl, total), ..self },
                seq![],
            ),
            VoiceEventView::Error(msg) => (
                AppView { voice: VoiceStateView::Error(msg), ..self },
                seq![],
            ),
        }
    }
}

/// A coordinate seen from the start of a side, brought into the side.
pub open spec fn within(v: u16, start: u16, side: u16) -> u16 {
    let at: int = if v < start {
        0
    } else {
        v - start
    };
    let last: int = if side == 0 {
        0
    } else {
        side - 1
    };
    if at < last {
        at as u16
    } else {
        last as u16
    }
}

} // verus!
