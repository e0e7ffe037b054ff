//! Laws of keys and mouse: what each of them does to the application, and what it asks for.

use crate::app::dialog::DialogView;
use crate::app::selection;
use crate::app::selection::TextSelection;
use crate::app::state::{ActionView, AppView, ManagedView};
use crate::event;
use crate::event::{KeyCode, KeyEvent, KeyModifiers, MouseButton, MouseEvent, MouseEventKind};
use crate::pane::state::GridState;
use crate::pane::PaneStatus;
use crate::paths;
use crate::text;
use crate::ui::layout;
use crate::ui::layout::{ActivePane, Rect};
use vstd::prelude::*;

verus! {

/// Whether nothing stands between the keys and the panes.
pub open spec fn is_free(s: AppView) -> bool {
    s.dialog is Closed && s.cwd_input is None
}

/// The bytes that are sent to the program of the focused pane, if it runs.
pub open spec fn is_sent(s: AppView, actions: Seq<ActionView>, bytes: Seq<u8>) -> bool {
    let runs = s.pane(s.active) matches Some(p) && p.status == PaneStatus::Running;
    if runs && bytes.len() > 0 {
        actions == seq![ActionView::Write { pane: s.active, bytes }]
    } else {
        actions.len() == 0
    }
}

/// A key without Control goes to the program of the focused pane, unless a dialog or an entry
/// is open or it moves the view, and changes nothing.
pub proof fn keys_go_to_the_focused_pane(
    s: AppView,
    key: KeyEvent,
    cols: u16,
    rows: u16,
    home: Option<Seq<char>>,
    current: Option<Seq<char>>,
)
    requires
        is_free(s),
        !key.modifiers.control,
        !(key.modifiers.shift && (key.code is PageUp || key.code is PageDown)),
    ensures
        s.key(key, cols, rows, home, current).0 == s,
        is_sent(s, s.key(key, cols, rows, home, current).1, event::key_bytes(key)),
{
}

/// Shift with Page Up and Page Down moves the view of the focused pane by half of its rows, one
/// at least, as far as the scrollback goes; nothing is sent.
#[verifier::spinoff_prover]
#[verifier::rlimit(40)]
pub proof fn pages_are_turned(
    s: AppView,
    key: KeyEvent,
    cols: u16,
    rows: u16,
    home: Option<Seq<char>>,
    current: Option<Seq<char>>,
    other: ActivePane,
)
    requires
        is_free(s),
        !key.modifiers.control,
        key.modifiers.shift,
        key.code is PageUp || key.code is PageDown,
        s.pane(s.active) matches Some(p) && p.grid.wf(),
        other != s.active,
    ensures
        ({
            let (t, actions) = s.key(key, cols, rows, home, current);
            let before = s.pane(s.active).unwrap().grid;
            let after = t.pane(s.active).unwrap().grid;
            let half = if before.rows < 2 {
                1
            } else {
                before.rows as int / 2
            };
            &&& actions.len() == 0
            &&& t == AppView { orchestrator: t.orchestrator, workers: t.workers, ..s }
            &&& t.workers.len() == s.workers.len()
            &&& t.pane(other) == s.pane(other)
            &&& t.pane(s.active) == Some(
                ManagedView { grid: after, ..s.pane(s.active).unwrap() },
            )
            &&& after == GridState { scroll_offset: after.scroll_offset, ..before }
            &&& key.code is PageUp ==> if before.scroll_offset + half <= before.scrollback.len() {
                after.scroll_offset == before.scroll_offset + half
            } else {
                after.scroll_offset == before.scrollback.len()
            }
            &&& key.code is PageDown ==> if half <= before.scroll_offset {
                after.scroll_offset + half == before.scroll_offset
            } else {
                after.scroll_offset == 0
            }
        }),
{
}

/// What the keys with Control do: each opens one thing or asks for one thing, and nothing else
/// changes. Other keys with Control go to the program of the focused pane.
#[verifier::spinoff_prover]
#[verifier::rlimit(40)]
pub proof fn control_keys(
    s: AppView,
    key: KeyEvent,
    cols: u16,
    rows: u16,
    home: Option<Seq<char>>,
    current: Option<Seq<char>>,
)
    requires
        is_free(s),
        key.modifiers.control,
    ensures
        ({
            let (t, actions) = s.key(key, cols, rows, home, current);
            match key.code {
                KeyCode::Char(c) => {
                    &&& c == 'q' ==> t == AppView { dialog: DialogView::ConfirmQuit, ..s }
                        && actions.len() == 0
                    &&& c == 'n' ==> t == AppView { cwd_input: Some(seq![]), ..s }
                        && actions.len() == 0
                    &&& c == 's' ==> t == AppView {
                        dialog: DialogView::SaveSession(seq![]),
                        ..s
                    } && actions.len() == 0
                    &&& c == 'r' ==> t == s && actions == seq![ActionView::ToggleVoice]
                    &&& c == 'd' ==> t == s && actions == seq![ActionView::DumpGrid]
                    &&& c == 'o' ==> t == AppView { active: ActivePane::Orchestrator, ..s }
                        && actions == s.focused(ActivePane::Orchestrator).1
                    &&& c == 'w' ==> actions.len() == 0 && match s.active {
                        ActivePane::Worker(idx) => if idx < s.workers.len() {
                            t == AppView { dialog: DialogView::ConfirmCloseWorker(idx), ..s }
                        } else {
                            t == s
                        },
                        ActivePane::Orchestrator => t == s,
                    }
                    &&& !"qnsrdowz123456789"@.contains(c) ==> t == s && is_sent(
                        s,
                        actions,
                        event::key_bytes(key),
                    )
                },
                _ => t == s && is_sent(s, actions, event::key_bytes(key)),
            }
        }),
{
    reveal_strlit("qnsrdowz123456789");
    let k = "qnsrdowz123456789"@;
    assert(k[0] == 'q' && k[1] == 'n' && k[2] == 's' && k[3] == 'r' && k[4] == 'd' && k[5] == 'o'
        && k[6] == 'w' && k[7] == 'z' && k[8] == '1' && k[9] == '2' && k[10] == '3' && k[11]
        == '4' && k[12] == '5' && k[13] == '6' && k[14] == '7' && k[15] == '8' && k[16] == '9');
}

/// Control with a digit focuses the worker of that number, counted from one, if there is one.
pub proof fn digits_focus_workers(
    s: AppView,
    n: u8,
    modifiers: KeyModifiers,
    cols: u16,
    rows: u16,
    home: Option<Seq<char>>,
    current: Option<Seq<char>>,
)
    requires
        is_free(s),
        modifiers.control,
        1 <= n <= 9,
    ensures
        ({
            let key = KeyEvent { code: KeyCode::Char((48 + n) as u8 as char), modifiers };
            let (t, actions) = s.key(key, cols, rows, home, current);
            if n <= s.workers.len() {
                &&& t == AppView { active: ActivePane::Worker((n - 1) as usize), ..s }
                &&& actions == s.focused(ActivePane::Worker((n - 1) as usize)).1
            } else {
                t == s && actions.len() == 0
            }
        }),
{
    let c = (48 + n) as u8 as char;
    assert('1' <= c && c <= '9');
    assert(c as u32 - '1' as u32 == n - 1);
}

/// Whether a pane wants to be told of the focus.
pub open spec fn wants_focus(s: AppView, which: ActivePane) -> bool {
    s.pane(which) matches Some(p) && p.grid.focus_tracking
}

/// When the focus goes from one pane to another, the one is told that it lost it and the other
/// that it has it, those of them that want to be told. Where it stays nobody is told.
pub proof fn focus_is_told(s: AppView, new: ActivePane)
    ensures
        ({
            let (t, actions) = s.focused(new);
            let lost = ActionView::Write {
                pane: s.active,
                bytes: seq![27u8, '[' as u8, 'O' as u8],
            };
            let gained = ActionView::Write {
                pane: new,
                bytes: seq![27u8, '[' as u8, 'I' as u8],
            };
            &&& t == AppView { active: new, ..s }
            &&& s.active == new ==> actions.len() == 0
            &&& s.active != new ==> actions == (if wants_focus(s, s.active) {
                seq![lost]
            } else {
                seq![]
            }) + (if wants_focus(s, new) {
                seq![gained]
            } else {
                seq![]
            })
        }),
{
}

/// While a name for a session is entered, characters are put behind it and taken off again;
/// Enter saves under it and Escape leaves.
pub proof fn session_names_are_typed(
    s: AppView,
    name: Seq<char>,
    key: KeyEvent,
    cols: u16,
    rows: u16,
    home: Option<Seq<char>>,
    current: Option<Seq<char>>,
)
    requires
        s.dialog == DialogView::SaveSession(name),
    ensures
        ({
            let (t, actions) = s.key(key, cols, rows, home, current);
            &&& t == AppView { dialog: t.dialog, ..s }
            &&& key.code matches KeyCode::Char(c) ==> t.dialog == DialogView::SaveSession(
                name + seq![c],
            )
            &&& key.code is Backspace && name.len() > 0 ==> t.dialog == DialogView::SaveSession(
                name.take(name.len() - 1),
            )
            &&& key.code is Backspace && name.len() == 0 ==> t.dialog == s.dialog
            &&& key.code is Enter ==> t.dialog is Closed && actions == seq![
                ActionView::SaveSession(name),
            ]
            &&& key.code is Esc ==> t.dialog is Closed
            &&& !(key.code is Enter) ==> actions.len() == 0
            &&& !(key.code is Char || key.code is Backspace || key.code is Enter || key.code is Esc)
                ==> t == s
        }),
{
    match key.code {
        KeyCode::Char(c) => {
            assert(name.push(c) =~= name + seq![c]);
        },
        KeyCode::Backspace => {
            if name.len() > 0 {
                assert(name.drop_last() =~= name.take(name.len() - 1));
            }
        },
        _ => {},
    }
}

/// A question is answered with y or n, whatever the case, and Escape answers no; other keys do
/// nothing. Yes to the question of quitting quits.
pub proof fn questions_are_answered_with_letters(
    s: AppView,
    key: KeyEvent,
    cols: u16,
    rows: u16,
    home: Option<Seq<char>>,
    current: Option<Seq<char>>,
)
    requires
        s.dialog is ConfirmQuit || s.dialog is ConfirmCloseWorker,
    ensures
        ({
            let (t, actions) = s.key(key, cols, rows, home, current);
            let yes = key.code == KeyCode::Char('y') || key.code == KeyCode::Char('Y');
            let no = key.code == KeyCode::Char('n') || key.code == KeyCode::Char('N') || key.code
                == KeyCode::Esc;
            &&& yes && s.dialog is ConfirmQuit ==> actions == seq![ActionView::Quit]
            &&& no ==> t == AppView { dialog: DialogView::Closed, ..s } && actions.len() == 0
            &&& !yes && !no ==> t == s && actions.len() == 0
        }),
{
}

/// Closing a worker ends its program and takes it out; the others keep their order, and are
/// what they were but for their size. The focus goes to the worker that comes into its place,
/// to the last one where it was the last, to the orchestrator where none is left.
#[verifier::spinoff_prover]
#[verifier::rlimit(40)]
pub proof fn worker_is_closed(
    s: AppView,
    idx: usize,
    key: KeyEvent,
    cols: u16,
    rows: u16,
    home: Option<Seq<char>>,
    current: Option<Seq<char>>,
    i: int,
)
    requires
        s.dialog == DialogView::ConfirmCloseWorker(idx),
        idx < s.workers.len() <= usize::MAX,
        key.code == KeyCode::Char('y') || key.code == KeyCode::Char('Y'),
        0 <= i < s.workers.len() - 1,
    ensures
        ({
            let (t, actions) = s.key(key, cols, rows, home, current);
            let n = s.workers.len() - 1;
            let was = s.workers[if i < idx {
                i
            } else {
                i + 1
            }];
            &&& actions.len() > 0 && actions[0] == ActionView::Kill(idx)
            &&& t.workers.len() == n
            &&& t.workers[i].id == was.id && t.workers[i].name == was.name && t.workers[i].cwd
                == was.cwd && t.workers[i].status == was.status && t.workers[i].fed == was.fed
            &&& t.workers[i].grid == was.grid.resized(
                t.workers[i].grid.cols,
                t.workers[i].grid.rows,
            )
            &&& fits_in(
                t.workers[i],
                layout::worker_place(
                    Rect { x: 0, y: 0, width: cols, height: rows },
                    n as nat,
                    i,
                ),
            )
            &&& actions.len() >= n + 2
            &&& actions[actions.len() - n + i] == ActionView::ResizePty {
                pane: ActivePane::Worker(i as usize),
                cols: t.workers[i].grid.cols,
                rows: t.workers[i].grid.rows,
            }
            &&& t.dialog is Closed && t.fullscreen is None
            &&& t.active == ActivePane::Worker(
                if idx < n {
                    idx
                } else {
                    (n - 1) as usize
                },
            )
        }),
{
}

/// The last worker closed leaves the focus to the orchestrator.
pub proof fn last_worker_is_closed(
    s: AppView,
    key: KeyEvent,
    cols: u16,
    rows: u16,
    home: Option<Seq<char>>,
    current: Option<Seq<char>>,
)
    requires
        s.dialog == DialogView::ConfirmCloseWorker(0),
        s.workers.len() == 1,
        key.code == KeyCode::Char('y') || key.code == KeyCode::Char('Y'),
    ensures
        ({
            let (t, actions) = s.key(key, cols, rows, home, current);
            &&& actions.len() > 0 && actions[0] == ActionView::Kill(0)
            &&& t.workers.len() == 0
            &&& t.active == ActivePane::Orchestrator
            &&& t.dialog is Closed
        }),
{
}

/// While a directory is entered, characters are put behind it and taken off again, which ends
/// what was suggested; Escape leaves.
pub proof fn directories_are_typed(
    s: AppView,
    input: Seq<char>,
    key: KeyEvent,
    cols: u16,
    rows: u16,
    home: Option<Seq<char>>,
    current: Option<Seq<char>>,
)
    requires
        s.dialog is Closed,
        s.cwd_input == Some(input),
        key.code is Char || key.code is Backspace || key.code is Esc,
    ensures
        ({
            let (t, actions) = s.key(key, cols, rows, home, current);
            &&& actions.len() == 0
            &&& t == AppView {
                cwd_input: t.cwd_input,
                suggestions: seq![],
                suggestion_idx: 0,
                ..s
            }
            &&& key.code matches KeyCode::Char(c) ==> t.cwd_input == Some(input + seq![c])
            &&& key.code is Backspace && input.len() > 0 ==> t.cwd_input == Some(
                input.take(input.len() - 1),
            )
            &&& key.code is Backspace && input.len() == 0 ==> t.cwd_input == Some(input)
            &&& key.code is Esc ==> t.cwd_input is None
        }),
{
    match key.code {
        KeyCode::Char(c) => {
            assert(input.push(c) =~= input + seq![c]);
        },
        KeyCode::Backspace => {
            if input.len() > 0 {
                assert(input.drop_last() =~= input.take(input.len() - 1));
            }
        },
        _ => {},
    }
}

/// Enter ends the entry of a directory and asks for a worker there: with the next number, a name
/// that has it, and no directory where none was entered. A tilde stands for the home directory,
/// and a path that is not absolute is seen from the current directory.
#[verifier::spinoff_prover]
#[verifier::rlimit(40)]
pub proof fn worker_is_asked_for(
    s: AppView,
    input: Seq<char>,
    key: KeyEvent,
    cols: u16,
    rows: u16,
    home: Option<Seq<char>>,
    current: Option<Seq<char>>,
)
    requires
        s.dialog is Closed,
        s.cwd_input == Some(input),
        key.code is Enter,
    ensures
        ({
            let (t, actions) = s.key(key, cols, rows, home, current);
            &&& t == AppView {
                cwd_input: None,
                suggestions: seq![],
                suggestion_idx: 0,
                ..s
            }
            &&& actions.len() == 1
            &&& actions[0] matches ActionView::Spawn { id, name, cols: w, rows: h, cwd } && {
                let n = s.workers.len() + 1;
                let place = layout::worker_place(
                    Rect { x: 0, y: 0, width: cols, height: rows },
                    n,
                    n - 1,
                );
                &&& id == s.next_id
                &&& name == "worker-"@ + text::digits(s.next_id as nat)
                &&& w == layout::inside(place).width && h == layout::inside(place).height
                &&& input.len() == 0 ==> cwd is None
                &&& input.len() > 0 && input[0] == '/' ==> cwd == Some(input)
                &&& input.len() > 0 && input[0] != '/' && input[0] != '~' ==> cwd == Some(
                    match current {
                        Some(dir) => paths::joined(dir, input),
                        None => input,
                    },
                )
                &&& home matches Some(h) ==> (h.len() > 0 && h[0] == '/' && input.len() > 0
                    && input[0] == '~' ==> cwd == Some(h + input.skip(1)))
            }
        }),
{
    if input.len() > 0 && input[0] == '~' {
        assert(input.drop_first() =~= input.skip(1));
    }
}

/// Tab asks for completions where nothing is suggested, and goes on to the next suggestion where
/// something is, from the last one to the first; Shift with Tab goes back.
pub proof fn suggestions_are_gone_through(
    s: AppView,
    input: Seq<char>,
    key: KeyEvent,
    cols: u16,
    rows: u16,
    home: Option<Seq<char>>,
    current: Option<Seq<char>>,
)
    requires
        s.dialog is Closed,
        s.cwd_input == Some(input),
        key.code is Tab || key.code is BackTab,
        s.suggestions.len() <= usize::MAX,
        s.suggestions.len() > 0 ==> s.suggestion_idx < s.suggestions.len(),
    ensures
        ({
            let (t, actions) = s.key(key, cols, rows, home, current);
            let n = s.suggestions.len() as int;
            &&& n == 0 ==> t == s && actions == if key.code is Tab {
                seq![ActionView::Complete(input)]
            } else {
                seq![]
            }
            &&& n > 0 ==> {
                &&& actions.len() == 0
                &&& t == AppView {
                    cwd_input: Some(s.suggestions[t.suggestion_idx as int]),
                    suggestion_idx: t.suggestion_idx,
                    ..s
                }
                &&& key.code is Tab ==> t.suggestion_idx as int % n == (s.suggestion_idx + 1) % n
                &&& key.code is BackTab ==> (t.suggestion_idx + 1) % n == s.suggestion_idx as int
                    % n
                &&& t.suggestion_idx < n
            }
        }),
{
    let n = s.suggestions.len() as int;
    if n > 0 {
        let i = s.suggestion_idx as int;
        vstd::arithmetic::div_mod::lemma_small_mod(i as nat, n as nat);
        if i + 1 < n {
            vstd::arithmetic::div_mod::lemma_small_mod((i + 1) as nat, n as nat);
        } else {
            vstd::arithmetic::div_mod::lemma_mod_self_0(n);
        }
        vstd::arithmetic::div_mod::lemma_small_mod(0, n as nat);
    }
}

/// Of the completions that were found the first is entered, and where there are several they
/// are suggested. Where none was found, or nothing is entered any more, nothing changes.
pub proof fn completions_are_taken(s: AppView, found: Seq<Seq<char>>)
    ensures
        ({
            let t = s.completed(found);
            &&& s.cwd_input is None || found.len() == 0 ==> t == s
            &&& s.cwd_input is Some && found.len() > 0 ==> {
                &&& t.cwd_input == Some(found[0])
                &&& found.len() > 1 ==> t.suggestions == found && t.suggestion_idx == 0
                &&& t == AppView {
                    cwd_input: t.cwd_input,
                    suggestions: t.suggestions,
                    suggestion_idx: t.suggestion_idx,
                    ..s
                }
            }
        }),
{
}

/// Whether a pane has the size of the inside of its frame.
pub open spec fn fits_in(p: ManagedView, frame: Rect) -> bool {
    p.grid.cols == layout::inside(frame).width && p.grid.rows == layout::inside(frame).height
}

/// Whether a pane is what it was but for the size of its screen.
pub open spec fn only_resized(was: ManagedView, is: ManagedView) -> bool {
    &&& is == ManagedView { grid: is.grid, ..was }
    &&& is.grid == was.grid.resized(is.grid.cols, is.grid.rows)
}

/// In a terminal of another size every pane has the size of the inside of its frame in the
/// layout, and its program is told. But for their screens the panes are what they were.
pub proof fn panes_are_resized(s: AppView, cols: u16, rows: u16)
    requires
        s.workers.len() <= usize::MAX,
    ensures
        ({
            let (t, actions) = s.resized_all(cols, rows, None);
            let area = Rect { x: 0, y: 0, width: cols, height: rows };
            let n = s.workers.len();
            &&& t == AppView { orchestrator: t.orchestrator, workers: t.workers, ..s }
            &&& t.workers.len() == n
            &&& only_resized(s.orchestrator, t.orchestrator)
            &&& fits_in(t.orchestrator, layout::orch_place(area, n))
            &&& actions.len() == n + 1
            &&& actions[0] == ActionView::ResizePty {
                pane: ActivePane::Orchestrator,
                cols: t.orchestrator.grid.cols,
                rows: t.orchestrator.grid.rows,
            }
            &&& forall|i: int|
                #![trigger t.workers[i]]
                0 <= i < n ==> {
                    &&& only_resized(s.workers[i], t.workers[i])
                    &&& fits_in(t.workers[i], layout::worker_place(area, n, i))
                    &&& actions[i + 1] == ActionView::ResizePty {
                        pane: ActivePane::Worker(i as usize),
                        cols: t.workers[i].grid.cols,
                        rows: t.workers[i].grid.rows,
                    }
                }
        }),
{
}

/// Where one pane has all of the terminal, that pane alone has another size, that of the inside
/// of the terminal, and its program is told.
pub proof fn one_pane_is_resized(
    s: AppView,
    cols: u16,
    rows: u16,
    fs: ActivePane,
    other: ActivePane,
)
    requires
        s.pane(fs) is Some,
        other != fs,
    ensures
        ({
            let (t, actions) = s.resized_all(cols, rows, Some(fs));
            let area = Rect { x: 0, y: 0, width: cols, height: rows };
            &&& t == AppView { orchestrator: t.orchestrator, workers: t.workers, ..s }
            &&& t.workers.len() == s.workers.len()
            &&& t.pane(other) == s.pane(other)
            &&& t.pane(fs) matches Some(p) && only_resized(s.pane(fs).unwrap(), p) && fits_in(
                p,
                area,
            )
            &&& actions == seq![
                ActionView::ResizePty {
                    pane: fs,
                    cols: layout::inside(area).width,
                    rows: layout::inside(area).height,
                },
            ]
        }),
{
}

/// Control with Z gives the focused pane all of the terminal, and gives all panes their places
/// back the next time.
pub proof fn fullscreen_is_toggled(
    s: AppView,
    modifiers: KeyModifiers,
    cols: u16,
    rows: u16,
    home: Option<Seq<char>>,
    current: Option<Seq<char>>,
)
    requires
        is_free(s),
        modifiers.control,
    ensures
        ({
            let key = KeyEvent { code: KeyCode::Char('z'), modifiers };
            let (t, actions) = s.key(key, cols, rows, home, current);
            let fs = if s.fullscreen is Some {
                None
            } else {
                Some(s.active)
            };
            &&& t.fullscreen == fs
            &&& t.active == s.active
            &&& (t, actions) == AppView { fullscreen: fs, ..s }.resized_all(cols, rows, fs)
        }),
{
}

/// A worker that was started is the last one and gets the focus, the others stay but for their
/// sizes, and the next one gets the next number.
#[verifier::spinoff_prover]
#[verifier::rlimit(40)]
pub proof fn worker_is_added(s: AppView, worker: ManagedView, cols: u16, rows: u16)
    requires
        s.next_id < u32::MAX,
        s.workers.len() < usize::MAX,
    ensures
        ({
            let t = s.worker_added(worker);
            &&& t.workers == s.workers + seq![worker]
            &&& t.next_id == s.next_id + 1
            &&& t == AppView { workers: t.workers, next_id: t.next_id, ..s }
        }),
        ({
            let (t, actions) = s.worker_spawned(worker, cols, rows);
            let area = Rect { x: 0, y: 0, width: cols, height: rows };
            let n = s.workers.len();
            &&& t.workers.len() == n + 1
            &&& only_resized(s.orchestrator, t.orchestrator)
            &&& fits_in(t.orchestrator, layout::orch_place(area, n + 1))
            &&& only_resized(worker, t.workers[n as int])
            &&& forall|i: int|
                0 <= i < n ==> only_resized(s.workers[i], #[trigger] t.workers[i])
            &&& forall|i: int|
                0 <= i <= n ==> fits_in(
                    #[trigger] t.workers[i],
                    layout::worker_place(area, n + 1, i),
                )
            &&& t.active == ActivePane::Worker(n as usize)
            &&& t.fullscreen is None
            &&& t.next_id == s.next_id + 1
            &&& actions.len() >= n + 2
        }),
{
    assert(s.workers.push(worker) =~= s.workers + seq![worker]);
    let s1 = AppView { fullscreen: None, ..s.worker_added(worker).focused(
        ActivePane::Worker(s.workers.len() as usize),
    ).0 };
    panes_are_resized(s1, cols, rows);
}

/// Whether frame `i` is the first one in whose inside a cell is.
pub open spec fn is_first_under(s: AppView, column: u16, row: u16, i: int) -> bool {
    &&& 0 <= i < s.rects.len()
    &&& layout::inside(s.rects[i].1).holds(column, row)
    &&& forall|j: int|
        0 <= j < i ==> !layout::inside((#[trigger] s.rects[j]).1).holds(column, row)
}

proof fn first_under_is_found(s: AppView, column: u16, row: u16, i: int, from: int)
    requires
        is_first_under(s, column, row, i),
        0 <= from <= i,
    ensures
        s.pane_under(column, row, from) == Some(i),
    decreases i - from,
{
    if from < i {
        assert(!layout::inside(s.rects[from].1).holds(column, row));
        first_under_is_found(s, column, row, i, from + 1);
    }
}

proof fn nothing_under_is_found(s: AppView, column: u16, row: u16, from: int)
    requires
        0 <= from,
        forall|j: int|
            0 <= j < s.rects.len() ==> !layout::inside((#[trigger] s.rects[j]).1).holds(
                column,
                row,
            ),
    ensures
        s.pane_under(column, row, from) is None,
    decreases s.rects.len() - from,
{
    if from < s.rects.len() {
        assert(!layout::inside(s.rects[from].1).holds(column, row));
        nothing_under_is_found(s, column, row, from + 1);
    }
}

/// A press of the left button inside a frame focuses its pane, and a selection can begin at the
/// cell of its screen that is under the mouse. Elsewhere it ends the selection.
#[verifier::spinoff_prover]
#[verifier::rlimit(40)]
pub proof fn press_focuses_and_marks(
    s: AppView,
    modifiers: KeyModifiers,
    column: u16,
    row: u16,
    i: int,
)
    ensures
        ({
            let press = MouseEvent {
                kind: MouseEventKind::Down(MouseButton::Left),
                column,
                row,
                modifiers,
            };
            let t = s.mouse(press).0;
            &&& is_first_under(s, column, row, i) ==> {
                let inner = layout::inside(s.rects[i].1);
                let sel = t.selection;
                &&& t.active == s.rects[i].0
                &&& sel.pane == s.rects[i].0 && !sel.active
                &&& inner.x + sel.start_col == column && inner.y + sel.start_row == row
                &&& sel.end_col == sel.start_col && sel.end_row == sel.start_row
                &&& t == AppView { active: t.active, selection: sel, ..s }
                &&& s.mouse(press).1 == s.focused(s.rects[i].0).1
            }
            &&& (forall|j: int|
                0 <= j < s.rects.len() ==> !layout::inside((#[trigger] s.rects[j]).1).holds(
                    column,
                    row,
                )) ==> !t.selection.active && t == AppView { selection: t.selection, ..s }
                && s.mouse(press).1.len() == 0
        }),
{
    if is_first_under(s, column, row, i) {
        first_under_is_found(s, column, row, i, 0);
    }
    if forall|j: int|
        0 <= j < s.rects.len() ==> !layout::inside((#[trigger] s.rects[j]).1).holds(column, row) {
        nothing_under_is_found(s, column, row, 0);
    }
}

/// Whether frame `i` is the first one of a pane.
pub open spec fn is_frame_of(s: AppView, which: ActivePane, i: int) -> bool {
    &&& 0 <= i < s.rects.len()
    &&& s.rects[i].0 == which
    &&& forall|j: int| 0 <= j < i ==> (#[trigger] s.rects[j]).0 != which
}

proof fn frame_is_found(s: AppView, which: ActivePane, i: int, from: int)
    requires
        is_frame_of(s, which, i),
        0 <= from <= i,
    ensures
        s.frame_of(which, from) == Some(s.rects[i].1),
    decreases i - from,
{
    if from < i {
        assert(s.rects[from].0 != which);
        frame_is_found(s, which, i, from + 1);
    }
}

/// A drag takes the end of the selection to the cell under the mouse, or to the nearest one of
/// its pane; its start stays.
#[verifier::spinoff_prover]
#[verifier::rlimit(40)]
pub proof fn drag_selects(
    s: AppView,
    modifiers: KeyModifiers,
    column: u16,
    row: u16,
    i: int,
)
    requires
        is_frame_of(s, s.selection.pane, i),
        layout::inside(s.rects[i].1).width > 0,
        layout::inside(s.rects[i].1).height > 0,
        layout::inside(s.rects[i].1).wf(),
    ensures
        ({
            let drag = MouseEvent {
                kind: MouseEventKind::Drag(MouseButton::Left),
                column,
                row,
                modifiers,
            };
            let t = s.mouse(drag).0;
            let inner = layout::inside(s.rects[i].1);
            let sel = t.selection;
            &&& s.mouse(drag).1.len() == 0
            &&& t == AppView { selection: sel, ..s }
            &&& sel == TextSelection {
                end_col: sel.end_col,
                end_row: sel.end_row,
                active: true,
                ..s.selection
            }
            &&& inner.x <= column < inner.x + inner.width ==> inner.x + sel.end_col == column
            &&& column < inner.x ==> sel.end_col == 0
            &&& column >= inner.x + inner.width ==> sel.end_col + 1 == inner.width
            &&& inner.y <= row < inner.y + inner.height ==> inner.y + sel.end_row == row
            &&& row < inner.y ==> sel.end_row == 0
            &&& row >= inner.y + inner.height ==> sel.end_row + 1 == inner.height
        }),
{
    frame_is_found(s, s.selection.pane, i, 0);
}

/// Releasing the button copies what is selected, if there is any text in it, and changes nothing
/// else; the selection is that of the pane that it began in.
pub proof fn release_copies(s: AppView, modifiers: KeyModifiers, column: u16, row: u16)
    requires
        s.selection.active,
        s.pane(s.selection.pane) is Some,
    ensures
        ({
            let release = MouseEvent {
                kind: MouseEventKind::Up(MouseButton::Left),
                column,
                row,
                modifiers,
            };
            let (t, actions) = s.mouse(release);
            let grid = s.pane(s.selection.pane).unwrap().grid;
            let copied = selection::selected_text(grid, s.selection.span());
            &&& t == s
            &&& copied.len() > 0 ==> actions == seq![ActionView::Copy(copied)]
            &&& copied.len() == 0 ==> actions.len() == 0
        }),
{
}

/// The report of a mouse event to the focused pane, in the cells of its screen, if the mouse is
/// inside its frame.
pub open spec fn is_forwarded(
    s: AppView,
    frame: Rect,
    kind: MouseEventKind,
    mouse: MouseEvent,
    actions: Seq<ActionView>,
) -> bool {
    let inner = layout::inside(frame);
    if inner.holds(mouse.column, mouse.row) {
        is_sent(
            s,
            actions,
            event::mouse_bytes(
                MouseEvent {
                    kind,
                    column: (mouse.column - inner.x) as u16,
                    row: (mouse.row - inner.y) as u16,
                    modifiers: mouse.modifiers,
                },
            ),
        )
    } else {
        actions.len() == 0
    }
}

/// The wheel is reported to the focused pane where the mouse is inside its frame, and changes
/// nothing. Other buttons and movements do nothing.
pub proof fn wheel_is_forwarded(s: AppView, mouse: MouseEvent, i: int)
    requires
        is_frame_of(s, s.active, i),
    ensures
        mouse.kind is ScrollUp || mouse.kind is ScrollDown ==> s.mouse(mouse).0 == s
            && is_forwarded(s, s.rects[i].1, mouse.kind, mouse, s.mouse(mouse).1),
        mouse.kind is Moved || mouse.kind is ScrollLeft || mouse.kind is ScrollRight
            ==> s.mouse(mouse).0 == s && s.mouse(mouse).1.len() == 0,
        mouse.kind matches MouseEventKind::Down(b) ==> (b != MouseButton::Left ==> s.mouse(
            mouse,
        ).0 == s && s.mouse(mouse).1.len() == 0),
{
    frame_is_found(s, s.active, i, 0);
}

/// A click without a selection is reported to the focused pane as a press and a release where
/// the mouse is inside its frame.
pub proof fn click_is_forwarded(s: AppView, mouse: MouseEvent, i: int)
    requires
        is_frame_of(s, s.active, i),
        !s.selection.active,
        mouse.kind == MouseEventKind::Up(MouseButton::Left),
    ensures
        s.mouse(mouse).0 == s,
        exists|press: Seq<ActionView>, release: Seq<ActionView>|
            {
                &&& #[trigger] is_forwarded(
                    s,
                    s.rects[i].1,
                    MouseEventKind::Down(MouseButton::Left),
                    mouse,
                    press,
                )
                &&& #[trigger] is_forwarded(
                    s,
                    s.rects[i].1,
                    MouseEventKind::Up(MouseButton::Left),
                    mouse,
                    release,
                )
                &&& s.mouse(mouse).1 == press + release
            },
{
    frame_is_found(s, s.active, i, 0);
    let press = s.mouse_sent(
        MouseEventKind::Down(MouseButton::Left),
        mouse.column,
        mouse.row,
        mouse.modifiers,
    );
    let release = s.mouse_sent(
        MouseEventKind::Up(MouseButton::Left),
        mouse.column,
        mouse.row,
        mouse.modifiers,
    );
    let frame = s.rects[i].1;
    assert(is_forwarded(s, frame, MouseEventKind::Down(MouseButton::Left), mouse, press));
    assert(is_forwarded(s, frame, MouseEventKind::Up(MouseButton::Left), mouse, release));
}

} // verus!
