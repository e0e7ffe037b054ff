//! Keys, mouse and terminal events.

use crate::app::dialog::Dialog;
use crate::app::machine;
use crate::app::machine::{
    no_actions, one_action, push_action, push_all, screen_size, Action, App,
};
use crate::app::managed::ManagedPane;
use crate::app::selection::{extract_selection, TextSelection};
use crate::app::state;
use crate::app::state::{ActionView, AppView, ManagedView};
use crate::event;
use crate::event::{
    encode_key, encode_mouse, KeyCode, KeyEvent, KeyModifiers, MouseButton, MouseEvent,
    MouseEventKind,
};
use crate::paths;
use crate::paths::resolve_cwd;
use crate::text;
use crate::text::{chars_of, copy_opt, copy_text, push_digits};
use crate::ui::layout;
use crate::ui::layout::{compute_layout, inner_rect, ActivePane, Rect};
use vstd::prelude::*;

verus! {

impl App {
    /// Takes out a worker.
    fn close_worker(&mut self, idx: usize, cols: u16, rows: u16) -> (actions: Vec<Action>)
        requires
            old(self).wf(),
            machine::fits(cols, rows, old(self).workers.len() as nat),
        ensures
            final(self).wf(),
            (final(self)@, machine::actions_of(actions@)) == old(self)@.worker_closed(
                idx,
                cols,
                rows,
            ),
    {
        let ghost start = *self;
        self.dialog = Dialog::Closed;
        if idx >= self.workers.len() {
            return no_actions();
        }
        let _removed = self.workers.remove(idx);
        assert(self@.workers =~= start@.workers.remove(idx as int));
        let n = self.workers.len();
        let new_pane = if n == 0 {
            ActivePane::Orchestrator
        } else if idx < n {
            ActivePane::Worker(idx)
        } else {
            ActivePane::Worker(n - 1)
        };
        let mut actions = one_action(Action::Kill(idx));
        push_all(&mut actions, self.focus_on(new_pane));
        self.fullscreen = None;
        push_all(&mut actions, self.resize_all_panes(cols, rows, None));
        actions
    }

    /// A key while a dialog is open.
    fn dialog_key(&mut self, code: KeyCode, cols: u16, rows: u16) -> (actions: Vec<Action>)
        requires
            old(self).wf(),
            machine::fits(cols, rows, old(self).workers.len() as nat),
        ensures
            final(self).wf(),
            (final(self)@, machine::actions_of(actions@)) == old(self)@.dialog_key(
                code,
                cols,
                rows,
            ),
    {
        match &self.dialog {
            Dialog::Closed => no_actions(),
            Dialog::ConfirmQuit => match code {
                KeyCode::Char('y') | KeyCode::Char('Y') => one_action(Action::Quit),
                KeyCode::Char('n') | KeyCode::Char('N') | KeyCode::Esc => {
                    self.dialog = Dialog::Closed;
                    no_actions()
                },
                _ => no_actions(),
            },
            Dialog::ConfirmCloseWorker(idx) => {
                let idx = *idx;
                match code {
                    KeyCode::Char('y') | KeyCode::Char('Y') => self.close_worker(idx, cols, rows),
                    KeyCode::Char('n') | KeyCode::Char('N') | KeyCode::Esc => {
                        self.dialog = Dialog::Closed;
                        no_actions()
                    },
                    _ => no_actions(),
                }
            },
            Dialog::SaveSession(name) => {
                let mut name = copy_text(name);
                match code {
                    KeyCode::Enter => {
                        self.dialog = Dialog::Closed;
                        one_action(Action::SaveSession(name))
                    },
                    KeyCode::Esc => {
                        self.dialog = Dialog::Closed;
                        no_actions()
                    },
                    KeyCode::Backspace => {
                        let _last = name.pop();
                        self.dialog = Dialog::SaveSession(name);
                        no_actions()
                    },
                    KeyCode::Char(c) => {
                        name.push(c);
                        self.dialog = Dialog::SaveSession(name);
                        no_actions()
                    },
                    _ => no_actions(),
                }
            },
        }
    }

    /// The size of the screen of a worker that is added.
    pub fn new_worker_size(&self, cols: u16, rows: u16) -> (size: (u16, u16))
        requires
            machine::fits(cols, rows, self.workers.len() as nat + 1),
        ensures
            size == self@.new_worker_size(cols, rows),
    {
        let total = Rect { x: 0, y: 0, width: cols, height: rows };
        let n = self.workers.len() + 1;
        let plan = compute_layout(total, n);
        proof {
            layout::layout_leaves_room(total, n as nat);
        }
        let rect = plan.worker_rects[n - 1];
        assert(rect == layout::worker_place(total, n as nat, n - 1));
        screen_size(rect)
    }

    /// The start of a worker in a directory that was entered.
    fn ask_for_spawn(&self, cols: u16, rows: u16, cwd: Option<String>) -> (action: Action)
        requires
            machine::fits(cols, rows, self.workers.len() as nat + 1),
        ensures
            action@ == self@.spawn_asked(cols, rows, text::opt_text(cwd)),
    {
        let (w, h) = self.new_worker_size(cols, rows);
        let mut name = "worker-".to_owned();
        push_digits(&mut name, self.next_id as u128);
        Action::Spawn { id: self.next_id, name, cols: w, rows: h, cwd }
    }

    /// Ends the entry of a directory.
    fn close_entry(&mut self)
        requires
            old(self).wf(),
        ensures
            final(self).wf(),
            final(self)@ == old(self)@.entry_closed(),
    {
        self.cwd_input = None;
        self.cwd_suggestions = Vec::new();
        self.cwd_suggestion_idx = 0;
        assert(self@.suggestions =~= seq![]);
    }

    /// Goes on with the entry of a directory.
    fn enter(&mut self, input: String)
        requires
            old(self).wf(),
        ensures
            final(self).wf(),
            final(self)@ == old(self)@.entered(input@),
    {
        self.cwd_input = Some(input);
        self.cwd_suggestions = Vec::new();
        self.cwd_suggestion_idx = 0;
        assert(self@.suggestions =~= seq![]);
    }

    /// Takes a suggestion.
    fn suggest(&mut self, idx: usize)
        requires
            old(self).wf(),
            idx < old(self).cwd_suggestions.len(),
        ensures
            final(self).wf(),
            final(self)@ == old(self)@.suggested(idx),
    {
        self.cwd_suggestion_idx = idx;
        self.cwd_input = Some(copy_text(&self.cwd_suggestions[idx]));
    }

    /// A key while a directory is entered.
    fn entry_key(
        &mut self,
        input: String,
        code: KeyCode,
        cols: u16,
        rows: u16,
        home: &Option<String>,
        current: &Option<String>,
    ) -> (actions: Vec<Action>)
        requires
            old(self).wf(),
            machine::fits(cols, rows, old(self).workers.len() as nat + 1),
        ensures
            final(self).wf(),
            (final(self)@, machine::actions_of(actions@)) == old(self)@.entry_key(
                input@,
                code,
                cols,
                rows,
                text::opt_text(*home),
                text::opt_text(*current),
            ),
    {
        let n = self.cwd_suggestions.len();
        match code {
            KeyCode::Enter => {
                let cwd = resolve_cwd(input.as_str(), home, current);
                let action = self.ask_for_spawn(cols, rows, cwd);
                self.close_entry();
                one_action(action)
            },
            KeyCode::Esc => {
                self.close_entry();
                no_actions()
            },
            KeyCode::Tab => {
                if n > 0 {
                    let idx = self.cwd_suggestion_idx;
                    self.suggest(
                        if idx + 1 < n {
                            idx + 1
                        } else {
                            0
                        },
                    );
                    no_actions()
                } else {
                    one_action(Action::Complete(input))
                }
            },
            KeyCode::BackTab => {
                if n > 0 {
                    let idx = self.cwd_suggestion_idx;
                    self.suggest(
                        if idx == 0 {
                            n - 1
                        } else {
                            idx - 1
                        },
                    );
                }
                no_actions()
            },
            KeyCode::Backspace => {
                let mut input = input;
                let _last = input.pop();
                self.enter(input);
                no_actions()
            },
            KeyCode::Char(c) => {
                let mut input = input;
                input.push(c);
                self.enter(input);
                no_actions()
            },
            _ => no_actions(),
        }
    }

    /// A key with Control.
    fn control_key(&mut self, key: KeyEvent, cols: u16, rows: u16) -> (actions: Vec<Action>)
        requires
            old(self).wf(),
            machine::fits(cols, rows, old(self).workers.len() as nat),
        ensures
            final(self).wf(),
            (final(self)@, machine::actions_of(actions@)) == old(self)@.control_key(
                key,
                cols,
                rows,
            ),
    {
        match key.code {
            KeyCode::Char('q') => {
                self.dialog = Dialog::ConfirmQuit;
                no_actions()
            },
            KeyCode::Char('z') => {
                let fs = match self.fullscreen {
                    Some(_) => None,
                    None => Some(self.active),
                };
                self.fullscreen = fs;
                self.resize_all_panes(cols, rows, fs)
            },
            KeyCode::Char('o') => self.focus_on(ActivePane::Orchestrator),
            KeyCode::Char('n') => {
                self.cwd_input = Some(String::new());
                assert(self@.cwd_input == Some(Seq::<char>::empty()));
                no_actions()
            },
            KeyCode::Char('d') => one_action(Action::DumpGrid),
            KeyCode::Char('w') => {
                match self.active {
                    ActivePane::Worker(idx) => {
                        if idx < self.workers.len() {
                            self.dialog = Dialog::ConfirmCloseWorker(idx);
                        }
                    },
                    ActivePane::Orchestrator => {},
                }
                no_actions()
            },
            KeyCode::Char('r') => one_action(Action::ToggleVoice),
            KeyCode::Char('s') => {
                self.dialog = Dialog::SaveSession(String::new());
                no_actions()
            },
            KeyCode::Char(c) => {
                if '1' <= c && c <= '9' {
                    let idx = (c as u32 - '1' as u32) as usize;
                    if idx < self.workers.len() {
                        self.focus_on(ActivePane::Worker(idx))
                    } else {
                        no_actions()
                    }
                } else {
                    self.send(encode_key(key))
                }
            },
            _ => self.send(encode_key(key)),
        }
    }

    /// Moves the view of the focused pane by half a page.
    fn page(&mut self, up: bool)
        requires
            old(self).wf(),
        ensures
            final(self).wf(),
            final(self)@ == old(self)@.paged(up),
    {
        match self.active {
            ActivePane::Orchestrator => {
                self.orchestrator.page(up);
            },
            ActivePane::Worker(idx) => {
                if idx < self.workers.len() {
                    let ghost before = *self;
                    self.workers[idx].page(up);
                    assert(self@.workers =~= before@.paged(up).workers);
                }
            },
        }
    }

    /// Takes in a key. The terminal has the given size; `home` and `current` are the home
    /// directory and the current one, where they are known.
    pub fn on_key(
        &mut self,
        key: KeyEvent,
        cols: u16,
        rows: u16,
        home: &Option<String>,
        current: &Option<String>,
    ) -> (actions: Vec<Action>)
        requires
            old(self).wf(),
            machine::fits(cols, rows, old(self).workers.len() as nat + 1),
        ensures
            final(self).wf(),
            (final(self)@, machine::actions_of(actions@)) == old(self)@.key(
                key,
                cols,
                rows,
                text::opt_text(*home),
                text::opt_text(*current),
            ),
    {
        if self.dialog.is_open() {
            return self.dialog_key(key.code, cols, rows);
        }
        let entry = copy_opt(&self.cwd_input);
        match entry {
            Some(input) => self.entry_key(input, key.code, cols, rows, home, current),
            None => if key.modifiers.control {
                self.control_key(key, cols, rows)
            } else if key.modifiers.shift && key.code == KeyCode::PageUp {
                self.page(true);
                no_actions()
            } else if key.modifiers.shift && key.code == KeyCode::PageDown {
                self.page(false);
                no_actions()
            } else {
                self.send(encode_key(key))
            },
        }
    }

    /// Takes in completions of the entered directory.
    pub fn on_completions(&mut self, found: Vec<String>)
        requires
            old(self).wf(),
        ensures
            final(self).wf(),
            final(self)@ == old(self)@.completed(text::strings(found@)),
    {
        match &self.cwd_input {
            None => {
                return ;
            },
            Some(_) => {},
        }
        if found.len() == 0 {
            return ;
        }
        self.cwd_input = Some(copy_text(&found[0]));
        if found.len() > 1 {
            self.cwd_suggestion_idx = 0;
            self.cwd_suggestions = found;
        }
    }

    /// Takes in a worker that was started for a saved session.
    pub fn add_worker(&mut self, name: String, cols: u16, rows: u16, cwd: Option<String>)
        requires
            old(self).wf(),
            old(self).next_id < u32::MAX,
        ensures
            final(self).wf(),
            final(self).workers.len() == old(self).workers.len() + 1,
            final(self)@ == old(self)@.worker_added(
                ManagedView::started(
                    old(self).next_id,
                    name@,
                    cols,
                    rows,
                    text::opt_text(cwd),
                ),
            ),
    {
        let ghost before = *self;
        let worker = ManagedPane::spawn(self.next_id, name, cols, rows, cwd);
        let ghost w = worker@;
        self.workers.push(worker);
        self.next_id = self.next_id + 1;
        assert(self@.workers =~= before@.workers.push(w));
    }

    /// Takes in a worker that was started, with a screen of `w` by `h` cells, in a terminal of
    /// the given size.
    pub fn on_spawned(
        &mut self,
        name: String,
        w: u16,
        h: u16,
        cwd: Option<String>,
        cols: u16,
        rows: u16,
    ) -> (actions: Vec<Action>)
        requires
            old(self).wf(),
            old(self).next_id < u32::MAX,
            machine::fits(cols, rows, old(self).workers.len() as nat + 1),
        ensures
            final(self).wf(),
            (final(self)@, machine::actions_of(actions@)) == old(self)@.worker_spawned(
                ManagedView::started(old(self).next_id, name@, w, h, text::opt_text(cwd)),
                cols,
                rows,
            ),
    {
        let n = self.workers.len();
        self.add_worker(name, w, h, cwd);
        let mut actions = self.focus_on(ActivePane::Worker(n));
        self.fullscreen = None;
        push_all(&mut actions, self.resize_all_panes(cols, rows, None));
        actions
    }

    /// The index of the pane in whose frame a cell is.
    fn find_under(&self, column: u16, row: u16) -> (r: Option<usize>)
        requires
            self.wf(),
        ensures
            match r {
                Some(i) => self@.pane_under(column, row, 0) == Some(i as int) && i
                    < self.pane_rects.len(),
                None => self@.pane_under(column, row, 0) is None,
            },
    {
        let mut i: usize = 0;
        while i < self.pane_rects.len()
            invariant
                self.wf(),
                i <= self.pane_rects.len(),
                self@.pane_under(column, row, i as int) == self@.pane_under(column, row, 0),
            decreases self.pane_rects.len() - i,
        {
            assert(self.pane_rects@[i as int].1.x < u16::MAX);
            let inner = inner_rect(self.pane_rects[i].1);
            if inner.contains(column, row) {
                return Some(i);
            }
            i = i + 1;
        }
        None
    }

    /// The frame of a pane.
    fn find_frame(&self, which: ActivePane) -> (r: Option<Rect>)
        requires
            self.wf(),
        ensures
            r == self@.frame_of(which, 0),
            r matches Some(rect) ==> rect.x < u16::MAX && rect.y < u16::MAX,
    {
        let mut i: usize = 0;
        while i < self.pane_rects.len()
            invariant
                self.wf(),
                i <= self.pane_rects.len(),
                self@.frame_of(which, i as int) == self@.frame_of(which, 0),
            decreases self.pane_rects.len() - i,
        {
            assert(self.pane_rects@[i as int].1.x < u16::MAX);
            if self.pane_rects[i].0 == which {
                return Some(self.pane_rects[i].1);
            }
            i = i + 1;
        }
        None
    }

    /// The mouse button pressed.
    fn press(&mut self, column: u16, row: u16) -> (actions: Vec<Action>)
        requires
            old(self).wf(),
        ensures
            final(self).wf(),
            (final(self)@, machine::actions_of(actions@)) == old(self)@.pressed(column, row),
    {
        match self.find_under(column, row) {
            Some(i) => {
                let (which, rect) = self.pane_rects[i];
                assert(self.pane_rects@[i as int].1.x < u16::MAX);
                let inner = inner_rect(rect);
                proof {
                    found_is_under(self@, column, row, 0);
                }
                let col = column - inner.x;
                let line = row - inner.y;
                self.selection = TextSelection {
                    pane: which,
                    start_col: col,
                    start_row: line,
                    end_col: col,
                    end_row: line,
                    active: false,
                };
                self.focus_on(which)
            },
            None => {
                self.selection = TextSelection::none();
                no_actions()
            },
        }
    }

    /// The mouse dragged.
    fn drag(&mut self, column: u16, row: u16)
        requires
            old(self).wf(),
        ensures
            final(self).wf(),
            final(self)@ == old(self)@.dragged(column, row),
    {
        match self.find_frame(self.selection.pane) {
            Some(rect) => {
                let inner = inner_rect(rect);
                self.selection.end_col = bring_within(column, inner.x, inner.width);
                self.selection.end_row = bring_within(row, inner.y, inner.height);
                self.selection.active = true;
            },
            None => {},
        }
    }

    /// A mouse event for the focused pane.
    fn send_mouse(
        &self,
        kind: MouseEventKind,
        column: u16,
        row: u16,
        modifiers: KeyModifiers,
    ) -> (actions: Vec<Action>)
        requires
            self.wf(),
        ensures
            machine::actions_of(actions@) == self@.mouse_sent(kind, column, row, modifiers),
    {
        match self.find_frame(self.active) {
            Some(rect) => {
                let inner = inner_rect(rect);
                if inner.contains(column, row) {
                    let mouse = MouseEvent {
                        kind,
                        column: column - inner.x,
                        row: row - inner.y,
                        modifiers,
                    };
                    self.send(encode_mouse(mouse))
                } else {
                    no_actions()
                }
            },
            None => no_actions(),
        }
    }

    /// The mouse button released.
    fn release(&self, mouse: MouseEvent) -> (actions: Vec<Action>)
        requires
            self.wf(),
        ensures
            machine::actions_of(actions@) == self@.released(mouse),
    {
        if self.selection.active {
            let grid = match self.pane(self.selection.pane) {
                Some(p) => &p.pane.grid,
                None => &self.orchestrator.pane.grid,
            };
            let copied = extract_selection(grid, &self.selection);
            if chars_of(copied.as_str()).len() > 0 {
                one_action(Action::Copy(copied))
            } else {
                no_actions()
            }
        } else {
            let mut actions = self.send_mouse(
                MouseEventKind::Down(MouseButton::Left),
                mouse.column,
                mouse.row,
                mouse.modifiers,
            );
            push_all(
                &mut actions,
                self.send_mouse(
                    MouseEventKind::Up(MouseButton::Left),
                    mouse.column,
                    mouse.row,
                    mouse.modifiers,
                ),
            );
            actions
        }
    }

    /// Takes in a mouse event.
    pub fn on_mouse(&mut self, mouse: MouseEvent) -> (actions: Vec<Action>)
        requires
            old(self).wf(),
        ensures
            final(self).wf(),
            (final(self)@, machine::actions_of(actions@)) == old(self)@.mouse(mouse),
    {
        match mouse.kind {
            MouseEventKind::Down(MouseButton::Left) => self.press(mouse.column, mouse.row),
            MouseEventKind::Drag(MouseButton::Left) => {
                self.drag(mouse.column, mouse.row);
                no_actions()
            },
            MouseEventKind::Up(MouseButton::Left) => self.release(mouse),
            MouseEventKind::ScrollUp | MouseEventKind::ScrollDown => self.send_mouse(
                mouse.kind,
                mouse.column,
                mouse.row,
                mouse.modifiers,
            ),
            _ => no_actions(),
        }
    }

    /// Takes in a new size of the terminal.
    pub fn on_resize(&mut self, cols: u16, rows: u16) -> (actions: Vec<Action>)
        requires
            old(self).wf(),
            machine::fits(cols, rows, old(self).workers.len() as nat),
        ensures
            final(self).wf(),
            final(self)@ == old(self)@.resized_all(cols, rows, old(self).fullscreen).0,
            machine::actions_of(actions@) == old(self)@.resized_all(
                cols,
                rows,
                old(self).fullscreen,
            ).1.push(ActionView::ClearTerminal),
    {
        let mut actions = self.resize_all_panes(cols, rows, self.fullscreen);
        push_action(&mut actions, Action::ClearTerminal);
        actions
    }

    /// Takes in that the terminal gained or lost the focus.
    pub fn on_focus(&self, gained: bool) -> (actions: Vec<Action>)
        ensures
            machine::actions_of(actions@) == self@.focus_report(self.active, gained),
    {
        self.report_focus(self.active, gained)
    }

    /// Takes in where the panes were drawn, and counts the frame.
    pub fn on_drawn(&mut self, rects: Vec<(ActivePane, Rect)>)
        requires
            old(self).wf(),
            forall|i: int|
                0 <= i < rects.len() ==> (#[trigger] rects@[i]).1.x < u16::MAX && rects@[i].1.y
                    < u16::MAX,
        ensures
            final(self).wf(),
            final(self)@ == (AppView {
                rects: rects@,
                frame_count: old(self).frame_count.wrapping_add(1),
                ..old(self)@
            }),
    {
        self.pane_rects = rects;
        self.frame_count = self.frame_count.wrapping_add(1);
    }
}

/// A pane that is found under a cell has the cell in its frame.
proof fn found_is_under(s: AppView, column: u16, row: u16, i: int)
    requires
        0 <= i,
    ensures
        s.pane_under(column, row, i) matches Some(k) ==> i <= k < s.rects.len()
            && layout::inside(s.rects[k].1).holds(column, row),
    decreases s.rects.len() - i,
{
    if i < s.rects.len() && !layout::inside(s.rects[i].1).holds(column, row) {
        found_is_under(s, column, row, i + 1);
    }
}

/// A coordinate seen from the start of a side, brought into the side.
fn bring_within(v: u16, start: u16, side: u16) -> (r: u16)
    ensures
        r == state::within(v, start, side),
{
    let at = v.saturating_sub(start);
    let last = side.saturating_sub(1);
    if at < last {
        at
    } else {
        last
    }
}

} // verus!
