//! The application: what each event makes of it, and what it asks to be done.

use crate::app::dialog::{Dialog, DialogView};
use crate::app::managed::ManagedPane;
use crate::app::selection::TextSelection;
use crate::app::state;
use crate::app::state::{ActionView, AppView, CorrectionView, ManagedView};
use crate::pane::PaneStatus;
use crate::text;
use crate::ui::layout;
use crate::ui::layout::{compute_layout, inner_rect, ActivePane, Rect};
use crate::voice::{VoiceState, VoiceStateView};
use vstd::prelude::*;

verus! {

/// Whether a correction is awaited.
pub enum CorrectionState {
    Idle,
    /// The spoken text, and when the wait ends at the latest, in milliseconds.
    WaitingForResponse { raw_text: String, hard_ceiling: u64 },
}

impl View for CorrectionState {
    type V = CorrectionView;

    open spec fn view(&self) -> CorrectionView {
        match *self {
            CorrectionState::Idle => CorrectionView::Idle,
            CorrectionState::WaitingForResponse { raw_text, hard_ceiling } =>
                CorrectionView::Waiting { raw: raw_text@, ceiling: hard_ceiling },
        }
    }
}

/// Something that the application asks to be done.
pub enum Action {
    /// Send bytes to the program of a pane.
    Write { pane: ActivePane, bytes: Vec<u8> },
    /// Tell the program of a pane its size.
    ResizePty { pane: ActivePane, cols: u16, rows: u16 },
    /// End the program of a worker that was taken out, whose index this was.
    Kill(usize),
    /// Start a worker.
    Spawn { id: u32, name: String, cols: u16, rows: u16, cwd: Option<String> },
    /// Save the session under a name, an automatic one where it is empty.
    SaveSession(String),
    /// Copy a text to the clipboard.
    Copy(String),
    /// Start or stop a recording.
    ToggleVoice,
    /// Write down the screen of the focused pane.
    DumpGrid,
    /// Find completions of a path.
    Complete(String),
    /// Clear the terminal.
    ClearTerminal,
    /// End the application.
    Quit,
}

impl View for Action {
    type V = ActionView;

    open spec fn view(&self) -> ActionView {
        match *self {
            Action::Write { pane, bytes } => ActionView::Write { pane, bytes: bytes@ },
            Action::ResizePty { pane, cols, rows } => ActionView::ResizePty { pane, cols, rows },
            Action::Kill(idx) => ActionView::Kill(idx),
            Action::Spawn { id, name, cols, rows, cwd } => ActionView::Spawn {
                id,
                name: name@,
                cols,
                rows,
                cwd: text::opt_text(cwd),
            },
            Action::SaveSession(name) => ActionView::SaveSession(name@),
            Action::Copy(s) => ActionView::Copy(s@),
            Action::ToggleVoice => ActionView::ToggleVoice,
            Action::DumpGrid => ActionView::DumpGrid,
            Action::Complete(input) => ActionView::Complete(input@),
            Action::ClearTerminal => ActionView::ClearTerminal,
            Action::Quit => ActionView::Quit,
        }
    }
}

/// The contents of a list of actions.
pub open spec fn actions_of(actions: Seq<Action>) -> Seq<ActionView> {
    Seq::new(actions.len(), |i: int| actions[i]@)
}

/// The contents of a list of panes.
pub open spec fn panes_of(panes: Seq<ManagedPane>) -> Seq<ManagedView> {
    Seq::new(panes.len(), |i: int| panes[i]@)
}

/// The application.
pub struct App {
    pub orchestrator: ManagedPane,
    pub workers: Vec<ManagedPane>,
    pub active: ActivePane,
    pub next_id: u32,
    pub pane_rects: Vec<(ActivePane, Rect)>,
    pub fullscreen: Option<ActivePane>,
    /// Present while the directory of a new worker is entered.
    pub cwd_input: Option<String>,
    pub cwd_suggestions: Vec<String>,
    pub cwd_suggestion_idx: usize,
    pub selection: TextSelection,
    pub dialog: Dialog,
    pub frame_count: u64,
    pub voice_state: VoiceState,
    pub correction_state: CorrectionState,
}

impl View for App {
    type V = AppView;

    open spec fn view(&self) -> AppView {
        AppView {
            orchestrator: self.orchestrator@,
            workers: panes_of(self.workers@),
            active: self.active,
            next_id: self.next_id,
            rects: self.pane_rects@,
            fullscreen: self.fullscreen,
            cwd_input: text::opt_text(self.cwd_input),
            suggestions: text::strings(self.cwd_suggestions@),
            suggestion_idx: self.cwd_suggestion_idx,
            selection: self.selection,
            dialog: self.dialog@,
            frame_count: self.frame_count,
            voice: self.voice_state@,
            correction: self.correction_state@,
        }
    }
}

/// A terminal in which a layout for `workers` workers can be computed.
pub open spec fn fits(cols: u16, rows: u16, workers: nat) -> bool {
    workers > 0 ==> rows * 20 <= u16::MAX && workers <= u16::MAX
}

impl App {
    /// Screens are valid, frames leave room for a border, and the suggestion that is taken is
    /// one.
    pub open spec fn wf(self) -> bool {
        &&& self.orchestrator@.grid.wf()
        &&& forall|i: int| 0 <= i < self.workers.len() ==> (#[trigger] self.workers@[i])@.grid.wf()
        &&& forall|i: int|
            0 <= i < self.pane_rects.len() ==> (#[trigger] self.pane_rects@[i]).1.x < u16::MAX
                && self.pane_rects@[i].1.y < u16::MAX
        &&& self.cwd_suggestions.len() > 0 ==> self.cwd_suggestion_idx
            < self.cwd_suggestions.len()
    }
}

/// Appends an action.
pub fn push_action(actions: &mut Vec<Action>, action: Action)
    ensures
        actions_of(final(actions)@) == actions_of(old(actions)@).push(action@),
{
    let ghost before = actions_of(actions@);
    let ghost a = action@;
    actions.push(action);
    assert(actions_of(actions@) =~= before.push(a));
}

/// No action.
pub fn no_actions() -> (actions: Vec<Action>)
    ensures
        actions_of(actions@) == Seq::<ActionView>::empty(),
{
    let actions: Vec<Action> = Vec::new();
    assert(actions_of(actions@) =~= seq![]);
    actions
}

/// One action.
pub fn one_action(action: Action) -> (actions: Vec<Action>)
    ensures
        actions_of(actions@) == seq![action@],
{
    let mut actions = no_actions();
    let ghost a = action@;
    push_action(&mut actions, action);
    assert(actions_of(actions@) =~= seq![a]);
    actions
}

/// Appends all of `more`.
pub fn push_all(actions: &mut Vec<Action>, more: Vec<Action>)
    ensures
        actions_of(final(actions)@) == actions_of(old(actions)@) + actions_of(more@),
{
    let ghost before = actions_of(actions@);
    let ghost m = actions_of(more@);
    let mut more = more;
    actions.append(&mut more);
    assert(actions_of(actions@) =~= before + m);
}

/// The UTF-8 form of a text with a line feed behind it.
pub fn line_bytes(s: &str) -> (bytes: Vec<u8>)
    ensures
        bytes@ == state::typed_line(s@),
{
    let mut line = s.to_owned();
    line.push('\n');
    vstd::slice::slice_to_vec(line.as_str().as_bytes())
}

/// The report of focus gained or lost.
fn focus_report_bytes(gained: bool) -> (bytes: Vec<u8>)
    ensures
        bytes@ == state::focus_bytes(gained),
{
    if gained {
        vec![27u8, 91u8, 73u8]
    } else {
        vec![27u8, 91u8, 79u8]
    }
}

/// The size of the screen in a frame.
pub fn screen_size(rect: Rect) -> (size: (u16, u16))
    requires
        rect.x < u16::MAX,
        rect.y < u16::MAX,
    ensures
        size == state::inner_size(rect),
{
    let inner = inner_rect(rect);
    (inner.width, inner.height)
}

impl App {
    /// The application in a terminal of the given size, with the orchestrator alone.
    pub fn new(cols: u16, rows: u16) -> (app: Self)
        ensures
            app.wf(),
            app@.orchestrator == ManagedView::started(
                0,
                "orchestrator"@,
                state::inner_size(state::terminal_area(cols, rows)).0,
                state::inner_size(state::terminal_area(cols, rows)).1,
                None,
            ),
            app@ == (AppView {
                orchestrator: app@.orchestrator,
                workers: seq![],
                active: ActivePane::Orchestrator,
                next_id: 1,
                rects: seq![],
                fullscreen: None,
                cwd_input: None,
                suggestions: seq![],
                suggestion_idx: 0,
                selection: TextSelection::nothing(),
                dialog: DialogView::Closed,
                frame_count: 0,
                voice: VoiceStateView::Idle,
                correction: CorrectionView::Idle,
            }),
    {
        let plan = compute_layout(Rect { x: 0, y: 0, width: cols, height: rows }, 0);
        let (w, h) = screen_size(plan.orch_rect);
        let app = App {
            orchestrator: ManagedPane::spawn(0, "orchestrator".to_owned(), w, h, None),
            workers: Vec::new(),
            active: ActivePane::Orchestrator,
            next_id: 1,
            pane_rects: Vec::new(),
            fullscreen: None,
            cwd_input: None,
            cwd_suggestions: Vec::new(),
            cwd_suggestion_idx: 0,
            selection: TextSelection::none(),
            dialog: Dialog::Closed,
            frame_count: 0,
            voice_state: VoiceState::Idle,
            correction_state: CorrectionState::Idle,
        };
        assert(app@.workers =~= seq![]);
        assert(app@.suggestions =~= seq![]);
        assert(app@.rects =~= seq![]);
        app
    }

    /// A pane of the application.
    pub fn pane(&self, which: ActivePane) -> (r: Option<&ManagedPane>)
        ensures
            match r {
                Some(p) => self@.pane(which) == Some(p@),
                None => self@.pane(which) is None,
            },
            self.wf() ==> (r matches Some(p) ==> p@.grid.wf()),
    {
        match which {
            ActivePane::Orchestrator => Some(&self.orchestrator),
            ActivePane::Worker(idx) => if idx < self.workers.len() {
                Some(&self.workers[idx])
            } else {
                None
            },
        }
    }

    /// The report of focus to a pane that wants it.
    pub fn report_focus(&self, which: ActivePane, gained: bool) -> (actions: Vec<Action>)
        ensures
            actions_of(actions@) == self@.focus_report(which, gained),
    {
        match self.pane(which) {
            Some(p) => if p.pane.grid.focus_tracking {
                one_action(Action::Write { pane: which, bytes: focus_report_bytes(gained) })
            } else {
                no_actions()
            },
            None => no_actions(),
        }
    }

    /// Send focus-in/out events (\x1b[I / \x1b[O) to PTYs when active pane changes.
    /// A program that enables focus event tracking (\x1b[?1004h) may ignore input
    /// until it receives a focus-in event.
    pub fn switch_focus(&self, old_pane: ActivePane, new_pane: ActivePane) -> (actions: Vec<
        Action,
    >)
        ensures
            actions_of(actions@) == self@.focus_switch(old_pane, new_pane),
    {
        if old_pane == new_pane {
            return no_actions();
        }
        let mut actions = self.report_focus(old_pane, false);
        push_all(&mut actions, self.report_focus(new_pane, true));
        actions
    }

    /// Focus on another pane.
    pub fn focus_on(&mut self, new_pane: ActivePane) -> (actions: Vec<Action>)
        requires
            old(self).wf(),
        ensures
            final(self).wf(),
            (final(self)@, actions_of(actions@)) == old(self)@.focused(new_pane),
    {
        let actions = self.switch_focus(self.active, new_pane);
        self.active = new_pane;
        actions
    }

    /// Bytes for the focused pane.
    pub fn send(&self, bytes: Vec<u8>) -> (actions: Vec<Action>)
        ensures
            actions_of(actions@) == self@.sent(bytes@),
    {
        match self.pane(self.active) {
            Some(p) => {
                let running = match p.pane.status {
                    PaneStatus::Running => true,
                    PaneStatus::Exited(_) => false,
                };
                if running && bytes.len() > 0 {
                    one_action(Action::Write { pane: self.active, bytes })
                } else {
                    no_actions()
                }
            },
            None => no_actions(),
        }
    }

    /// Gives a pane a screen of another size.
    fn resize_pane(&mut self, which: ActivePane, cols: u16, rows: u16) -> (actions: Vec<Action>)
        requires
            old(self).wf(),
        ensures
            final(self).wf(),
            match old(self)@.pane(which) {
                Some(p) => {
                    &&& final(self)@ == old(self)@.with_pane(which, p.resized(cols, rows))
                    &&& actions_of(actions@) == seq![
                        ActionView::ResizePty { pane: which, cols, rows },
                    ]
                },
                None => final(self)@ == old(self)@ && actions_of(actions@) == Seq::<
                    ActionView,
                >::empty(),
            },
    {
        match which {
            ActivePane::Orchestrator => {
                self.orchestrator.resize(cols, rows);
                one_action(Action::ResizePty { pane: which, cols, rows })
            },
            ActivePane::Worker(idx) => if idx < self.workers.len() {
                let ghost before = *self;
                self.workers[idx].resize(cols, rows);
                proof {
                    let p = before.workers@[idx as int]@;
                    assert(self@ =~= before@.with_pane(which, p.resized(cols, rows)));
                }
                one_action(Action::ResizePty { pane: which, cols, rows })
            } else {
                no_actions()
            },
        }
    }

    /// Gives all panes the sizes that they have in a terminal.
    pub fn resize_all_panes(&mut self, cols: u16, rows: u16, fullscreen: Option<ActivePane>) -> (
        actions: Vec<Action>)
        requires
            old(self).wf(),
            fits(cols, rows, old(self).workers.len() as nat),
        ensures
            final(self).wf(),
            (final(self)@, actions_of(actions@)) == old(self)@.resized_all(cols, rows, fullscreen),
    {
        let total = Rect { x: 0, y: 0, width: cols, height: rows };
        match fullscreen {
            Some(fs) => {
                let (w, h) = screen_size(total);
                self.resize_pane(fs, w, h)
            },
            None => self.resize_to_layout(cols, rows),
        }
    }

    /// Gives all panes the sizes that they have in the layout of a terminal.
    fn resize_to_layout(&mut self, cols: u16, rows: u16) -> (actions: Vec<Action>)
        requires
            old(self).wf(),
            fits(cols, rows, old(self).workers.len() as nat),
        ensures
            final(self).wf(),
            (final(self)@, actions_of(actions@)) == old(self)@.resized_all(cols, rows, None),
    {
        let ghost start = *self;
        let ghost goal = start@.resized_all(cols, rows, None);
        let total = Rect { x: 0, y: 0, width: cols, height: rows };
        let n = self.workers.len();
        let plan = compute_layout(total, n);
        proof {
            layout::layout_leaves_room(total, n as nat);
        }
        let (w, h) = screen_size(plan.orch_rect);
        self.orchestrator.resize(w, h);
        let mut actions = one_action(
            Action::ResizePty { pane: ActivePane::Orchestrator, cols: w, rows: h },
        );
        assert(goal.1.take(1) =~= seq![
            ActionView::ResizePty { pane: ActivePane::Orchestrator, cols: w, rows: h },
        ]);
        let mut i: usize = 0;
        while i < n
            invariant
                start.wf(),
                self.wf(),
                n == start.workers.len(),
                self.workers.len() == n,
                i <= n,
                goal == start@.resized_all(cols, rows, None),
                total == state::terminal_area(cols, rows),
                plan.worker_rects@ == layout::worker_places(total, n as nat),
                forall|k: int|
                    0 <= k < n ==> (#[trigger] layout::worker_place(total, n as nat, k)).x
                        < u16::MAX && layout::worker_place(total, n as nat, k).y < u16::MAX,
                self@ == (AppView {
                    orchestrator: goal.0.orchestrator,
                    workers: self@.workers,
                    ..start@
                }),
                forall|k: int|
                    0 <= k < n ==> (#[trigger] self.workers@[k])@ == if k < i {
                        goal.0.workers[k]
                    } else {
                        start.workers@[k]@
                    },
                actions_of(actions@) == goal.1.take(1 + i),
            decreases n - i,
        {
            let ghost before = *self;
            let rect = plan.worker_rects[i];
            assert(rect == layout::worker_place(total, n as nat, i as int));
            let (w, h) = screen_size(rect);
            self.workers[i].resize(w, h);
            push_action(
                &mut actions,
                Action::ResizePty { pane: ActivePane::Worker(i), cols: w, rows: h },
            );
            assert(start@.workers[i as int] == start.workers@[i as int]@);
            assert(goal.1.take(2 + i) =~= goal.1.take(1 + i).push(
                ActionView::ResizePty { pane: ActivePane::Worker(i), cols: w, rows: h },
            ));
            i = i + 1;
        }
        assert(goal.1.take(1 + n) =~= goal.1);
        assert(self@.workers =~= goal.0.workers);
        actions
    }
}

} // verus!
