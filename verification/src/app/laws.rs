//! Laws of the application.

use crate::app::dialog::DialogView;
use crate::app::state;
use crate::app::state::{ActionView, AppView};
use crate::correction;
use crate::event::{KeyCode, KeyEvent, MouseEvent};
use crate::pane::extract;
use crate::pane::PaneStatus;
use crate::ui::layout;
use crate::ui::layout::{ActivePane, Rect};
use crate::ui::render;
use vstd::prelude::*;

verus! {

/// Whether focus is on a pane that there is.
pub open spec fn focus_is_on_a_pane(s: AppView) -> bool {
    s.pane(s.active) is Some
}

/// Whether every frame on the terminal is that of a pane that there is.
pub open spec fn frames_are_of_panes(s: AppView) -> bool {
    forall|i: int| 0 <= i < s.rects.len() ==> s.pane((#[trigger] s.rects[i]).0) is Some
}

proof fn resizing_keeps_panes(s: AppView, cols: u16, rows: u16, fullscreen: Option<ActivePane>)
    ensures
        s.resized_all(cols, rows, fullscreen).0.workers.len() == s.workers.len(),
        s.resized_all(cols, rows, fullscreen).0.active == s.active,
        s.resized_all(cols, rows, fullscreen).0.dialog == s.dialog,
        s.resized_all(cols, rows, fullscreen).0.fullscreen == s.fullscreen,
{
}

/// Focus stays on a pane that there is, whatever key is pressed.
pub proof fn keys_keep_focus_on_a_pane(
    s: AppView,
    key: KeyEvent,
    cols: u16,
    rows: u16,
    home: Option<Seq<char>>,
    current: Option<Seq<char>>,
)
    requires
        focus_is_on_a_pane(s),
        s.workers.len() <= usize::MAX,
    ensures
        focus_is_on_a_pane(s.key(key, cols, rows, home, current).0),
{
    let fs = if s.fullscreen is Some {
        None
    } else {
        Some(s.active)
    };
    resizing_keeps_panes(AppView { fullscreen: fs, ..s }, cols, rows, fs);
    match s.dialog {
        DialogView::ConfirmCloseWorker(idx) => if idx < s.workers.len() {
            let s1 = AppView {
                workers: s.workers.remove(idx as int),
                dialog: DialogView::Closed,
                ..s
            };
            let n = s1.workers.len();
            let new = if n == 0 {
                ActivePane::Orchestrator
            } else if idx < n {
                ActivePane::Worker(idx)
            } else {
                ActivePane::Worker((n - 1) as usize)
            };
            let s2 = AppView { fullscreen: None, ..s1.focused(new).0 };
            resizing_keeps_panes(s2, cols, rows, None);
        },
        _ => {},
    }
}

/// Focus stays on a pane that there is, whatever the mouse does, where the frames on the
/// terminal are of panes that there are.
pub proof fn mouse_keeps_focus_on_a_pane(s: AppView, mouse: MouseEvent)
    requires
        focus_is_on_a_pane(s),
        frames_are_of_panes(s),
    ensures
        focus_is_on_a_pane(s.mouse(mouse).0),
{
    found_is_a_frame(s, mouse.column, mouse.row, 0);
}

proof fn found_is_a_frame(s: AppView, column: u16, row: u16, i: int)
    requires
        0 <= i,
    ensures
        s.pane_under(column, row, i) matches Some(k) ==> i <= k < s.rects.len(),
    decreases s.rects.len() - i,
{
    if i < s.rects.len() {
        found_is_a_frame(s, column, row, i + 1);
    }
}

/// The frames of all panes, as they are drawn, are of panes that there are, and leave room for
/// a border.
pub proof fn drawn_frames_are_of_panes(s: AppView, area: Rect)
    requires
        render::is_terminal(area, s.workers.len()),
        s.rects == render::pane_places(area, s.workers.len()),
    ensures
        frames_are_of_panes(s),
        forall|i: int|
            0 <= i < s.rects.len() ==> (#[trigger] s.rects[i]).1.x < u16::MAX && s.rects[i].1.y
                < u16::MAX,
{
    layout::layout_leaves_room(area, s.workers.len());
    assert forall|i: int| 0 <= i < s.rects.len() implies (#[trigger] s.rects[i]).1.x < u16::MAX
        && s.rects[i].1.y < u16::MAX && s.pane(s.rects[i].0) is Some by {
        if i < s.workers.len() {
            assert(s.rects[i].1 == layout::worker_place(area, s.workers.len(), i));
        }
    }
}

/// A worker that was started gets the focus.
pub proof fn new_worker_gets_focus(s: AppView, worker: state::ManagedView, cols: u16, rows: u16)
    requires
        s.workers.len() < usize::MAX,
    ensures
        focus_is_on_a_pane(s.worker_spawned(worker, cols, rows).0),
        s.worker_spawned(worker, cols, rows).0.active == ActivePane::Worker(
            s.workers.len() as usize,
        ),
{
    let s1 = s.worker_added(worker);
    let s2 = AppView {
        fullscreen: None,
        ..s1.focused(ActivePane::Worker(s.workers.len() as usize)).0
    };
    resizing_keeps_panes(s2, cols, rows, None);
}

/// Resizing panes tells their programs the new sizes and does nothing else.
proof fn resizing_only_tells_sizes(
    s: AppView,
    cols: u16,
    rows: u16,
    fullscreen: Option<ActivePane>,
)
    ensures
        forall|i: int|
            0 <= i < s.resized_all(cols, rows, fullscreen).1.len() ==> (
            #[trigger] s.resized_all(cols, rows, fullscreen).1[i]) is ResizePty,
{
}

/// A change of focus is told to programs and does nothing else.
proof fn focus_only_writes(s: AppView, old_pane: ActivePane, new_pane: ActivePane)
    ensures
        forall|i: int|
            0 <= i < s.focus_switch(old_pane, new_pane).len() ==> (
            #[trigger] s.focus_switch(old_pane, new_pane)[i]) is Write,
{
}

/// The application ends only where it asked for confirmation and got it.
pub proof fn quitting_is_confirmed(
    s: AppView,
    key: KeyEvent,
    cols: u16,
    rows: u16,
    home: Option<Seq<char>>,
    current: Option<Seq<char>>,
)
    requires
        s.key(key, cols, rows, home, current).1.contains(ActionView::Quit),
    ensures
        s.dialog == DialogView::ConfirmQuit,
        key.code == KeyCode::Char('y') || key.code == KeyCode::Char('Y'),
{
    asked_only_when_confirmed(s, key, cols, rows, home, current, ActionView::Quit);
}

/// A worker is ended only where the application asked for confirmation and got it.
pub proof fn closing_is_confirmed(
    s: AppView,
    key: KeyEvent,
    cols: u16,
    rows: u16,
    home: Option<Seq<char>>,
    current: Option<Seq<char>>,
    idx: usize,
)
    requires
        s.key(key, cols, rows, home, current).1.contains(ActionView::Kill(idx)),
    ensures
        s.dialog == DialogView::ConfirmCloseWorker(idx),
        key.code == KeyCode::Char('y') || key.code == KeyCode::Char('Y'),
{
    asked_only_when_confirmed(s, key, cols, rows, home, current, ActionView::Kill(idx));
}

proof fn asked_only_when_confirmed(
    s: AppView,
    key: KeyEvent,
    cols: u16,
    rows: u16,
    home: Option<Seq<char>>,
    current: Option<Seq<char>>,
    action: ActionView,
)
    requires
        s.key(key, cols, rows, home, current).1.contains(action),
        action is Quit || action is Kill,
    ensures
        key.code == KeyCode::Char('y') || key.code == KeyCode::Char('Y'),
        action is Quit ==> s.dialog == DialogView::ConfirmQuit,
        action matches ActionView::Kill(idx) ==> s.dialog == DialogView::ConfirmCloseWorker(idx),
{
    let actions = s.key(key, cols, rows, home, current).1;
    let i = choose|i: int| 0 <= i < actions.len() && actions[i] == action;
    let fs = if s.fullscreen is Some {
        None
    } else {
        Some(s.active)
    };
    resizing_only_tells_sizes(AppView { fullscreen: fs, ..s }, cols, rows, fs);
    focus_only_writes(s, s.active, ActivePane::Orchestrator);
    match key.code {
        KeyCode::Char(c) => if '1' <= c && c <= '9' {
            focus_only_writes(s, s.active, ActivePane::Worker((c as u32 - '1' as u32) as usize));
        },
        _ => {},
    }
    match s.dialog {
        DialogView::ConfirmCloseWorker(idx) => if idx < s.workers.len() {
            let s1 = AppView {
                workers: s.workers.remove(idx as int),
                dialog: DialogView::Closed,
                ..s
            };
            let n = s1.workers.len();
            let new = if n == 0 {
                ActivePane::Orchestrator
            } else if idx < n {
                ActivePane::Worker(idx)
            } else {
                ActivePane::Worker((n - 1) as usize)
            };
            let s2 = AppView { fullscreen: None, ..s1.focused(new).0 };
            focus_only_writes(s1, s.active, new);
            resizing_only_tells_sizes(s2, cols, rows, None);
        },
        _ => {},
    }
}

/// While a dialog asks for confirmation, keys other than its own change nothing and reach no
/// pane.
pub proof fn confirmation_takes_all_keys(
    s: AppView,
    key: KeyEvent,
    cols: u16,
    rows: u16,
    home: Option<Seq<char>>,
    current: Option<Seq<char>>,
)
    requires
        s.dialog is ConfirmQuit || s.dialog is ConfirmCloseWorker,
        key.code != KeyCode::Char('y'),
        key.code != KeyCode::Char('Y'),
    ensures
        s.key(key, cols, rows, home, current).1.len() == 0,
        s.key(key, cols, rows, home, current).0 == s || s.key(
            key,
            cols,
            rows,
            home,
            current,
        ).0 == s.undisturbed(),
{
}

/// Going on to the next suggestion and back again is going nowhere.
pub proof fn suggestions_go_round(
    s: AppView,
    input: Seq<char>,
    cols: u16,
    rows: u16,
    home: Option<Seq<char>>,
    current: Option<Seq<char>>,
)
    requires
        s.suggestion_idx < s.suggestions.len() <= usize::MAX,
        s.cwd_input == Some(s.suggestions[s.suggestion_idx as int]),
    ensures
        ({
            let next = s.entry_key(input, KeyCode::Tab, cols, rows, home, current).0;
            next.entry_key(
                next.cwd_input.unwrap(),
                KeyCode::BackTab,
                cols,
                rows,
                home,
                current,
            ).0 == s
        }),
{
}

/// Giving one pane the whole terminal and taking it back leaves all panes at the sizes of the
/// layout.
pub proof fn fullscreen_and_back(s: AppView, key: KeyEvent, cols: u16, rows: u16)
    requires
        s.fullscreen is None,
        key.code == KeyCode::Char('z'),
        focus_is_on_a_pane(s),
    ensures
        ({
            let big = s.control_key(key, cols, rows).0;
            let back = big.control_key(key, cols, rows).0;
            &&& big.fullscreen == Some(s.active)
            &&& back.fullscreen is None
            &&& back.active == s.active
            &&& back.workers.len() == s.workers.len()
            &&& (back.orchestrator.grid.cols, back.orchestrator.grid.rows) == s.orch_size(
                cols,
                rows,
            )
            &&& forall|i: int|
                0 <= i < s.workers.len() ==> ((#[trigger] back.workers[i]).grid.cols,
                back.workers[i].grid.rows) == s.worker_size(cols, rows, i)
        }),
{
    let fs = Some(s.active);
    let s1 = AppView { fullscreen: fs, ..s };
    resizing_keeps_panes(s1, cols, rows, fs);
    let big = s1.resized_all(cols, rows, fs).0;
    let s2 = AppView { fullscreen: None, ..big };
    resizing_keeps_panes(s2, cols, rows, None);
}

/// A spoken text that is sent for correction comes out once the time is up, and then nothing
/// is awaited any more.
pub proof fn spoken_text_comes_out(
    s: AppView,
    said: Seq<char>,
    now: u64,
    timeout: u64,
    later: u64,
    quiescence: u64,
)
    requires
        s.orchestrator.status == PaneStatus::Running,
        later >= now + timeout,
    ensures
        ({
            let waiting = s.transcribed(said, now, timeout, false).0;
            let (done, actions) = waiting.correction_checked(later, quiescence);
            &&& waiting.correction is Waiting
            &&& done.correction is Idle
            &&& actions == waiting.routed(
                correction::corrected(extract::screen_text(s.orchestrator.grid.cells), said),
            )
        }),
{
}

/// A spoken text that waits for its correction goes out once: where another text is spoken it
/// goes out as it is, and what is awaited after that, if anything, is the other text.
pub proof fn waiting_text_goes_out_once(
    s: AppView,
    raw: Seq<char>,
    ceiling: u64,
    said: Seq<char>,
    now: u64,
    timeout: u64,
    blocked: bool,
    later: u64,
    quiescence: u64,
)
    requires
        s.correction == (state::CorrectionView::Waiting { raw, ceiling }),
    ensures
        ({
            let (next, actions) = s.transcribed(said, now, timeout, blocked);
            let (done, more) = next.correction_checked(later, quiescence);
            let taken = s.orchestrator.status == PaneStatus::Running && !blocked;
            &&& actions == s.routed(raw) + if taken {
                seq![
                    ActionView::Write {
                        pane: ActivePane::Orchestrator,
                        bytes: state::typed_line(correction::prompt(said)),
                    },
                ]
            } else {
                s.routed(said)
            }
            &&& match next.correction {
                state::CorrectionView::Waiting { raw: awaited, .. } => taken && awaited == said,
                state::CorrectionView::Idle => !taken && done == next && more.len() == 0,
            }
        }),
{
}

/// Once a correction was checked and its text sent, another check sends nothing.
pub proof fn corrected_text_goes_out_once(
    s: AppView,
    now: u64,
    later: u64,
    quiescence: u64,
)
    requires
        s.correction_due(now, quiescence),
    ensures
        ({
            let done = s.correction_checked(now, quiescence).0;
            done.correction_checked(later, quiescence) == (done, Seq::<ActionView>::empty())
        }),
{
}

/// Keys leave a text that waits for its correction alone.
pub proof fn keys_leave_the_correction_alone(
    s: AppView,
    key: KeyEvent,
    cols: u16,
    rows: u16,
    home: Option<Seq<char>>,
    current: Option<Seq<char>>,
)
    ensures
        s.key(key, cols, rows, home, current).0.correction == s.correction,
{
}

/// The mouse leaves a text that waits for its correction alone.
pub proof fn mouse_leaves_the_correction_alone(s: AppView, mouse: MouseEvent)
    ensures
        s.mouse(mouse).0.correction == s.correction,
{
}

/// Without a correction on the screen the text goes out as it was spoken.
pub proof fn uncorrected_text_stays(screen: Seq<char>, raw: Seq<char>)
    requires
        extract::between(screen, "[CDC_CORRECT]"@, "[/CDC_CORRECT]"@) is None,
        correction::guessed(screen, raw) is None,
    ensures
        correction::corrected(screen, raw) == raw,
{
}

/// What stands between the markers is the correction, whatever else is on the screen.
pub proof fn marked_text_is_taken(screen: Seq<char>, raw: Seq<char>, marked: Seq<char>)
    requires
        extract::between(screen, "[CDC_CORRECT]"@, "[/CDC_CORRECT]"@) == Some(marked),
    ensures
        correction::corrected(screen, raw) == marked,
{
}

/// A text that names no worker goes to the orchestrator, and one that names a worker goes to no
/// other pane.
pub proof fn text_goes_where_it_belongs(
    s: AppView,
    said: Seq<char>,
    target: Option<(nat, Seq<char>)>,
    i: int,
)
    requires
        0 <= i < s.delivered(said, target).len(),
    ensures
        match target {
            Some((idx, content)) => s.delivered(said, target)[i] == (ActionView::Write {
                pane: ActivePane::Worker(idx as usize),
                bytes: state::typed_line(content),
            }),
            None => s.delivered(said, target)[i] == (ActionView::Write {
                pane: ActivePane::Orchestrator,
                bytes: state::typed_line(said),
            }),
        },
{
}

} // verus!
