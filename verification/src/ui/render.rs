//! What the panes look like: frames, titles, alerts and the place of the cursor.

use crate::app::TextSelection;
use crate::pane::state::{Cell, GridState};
use crate::pane::{Pane, PaneStatus};
use crate::style::Color;
use crate::text;
use crate::text::{
    chars_of, clip_of, contains_text, push_digits, push_signed, push_text, to_text, trim_of,
};
use crate::ui::layout;
use crate::ui::layout::{compute_layout, inner_rect, ActivePane, Rect};
use crate::voice::{VoiceState, VoiceStateView};
use vstd::prelude::*;

verus! {

/// What a pane wants from the user.
#[derive(Clone, Copy, PartialEq, Eq, Structural, Debug)]
pub enum PaneAlert {
    Quiet,
    NeedsPermission,
    ReceivingPrompt,
}

/// The frame of a pane.
pub struct PaneFrame {
    pub pane: ActivePane,
    pub rect: Rect,
    pub title: String,
    pub border: Color,
    pub bold: bool,
    /// Whether the selection is on this pane.
    pub selected: bool,
    /// Where the close button `[X]` begins.
    pub close: Option<(u16, u16)>,
}

/// The frame of a pane, with its title as a sequence.
pub struct PaneFrameView {
    pub pane: ActivePane,
    pub rect: Rect,
    pub title: Seq<char>,
    pub border: Color,
    pub bold: bool,
    pub selected: bool,
    pub close: Option<(u16, u16)>,
}

impl View for PaneFrame {
    type V = PaneFrameView;

    open spec fn view(&self) -> PaneFrameView {
        PaneFrameView {
            pane: self.pane,
            rect: self.rect,
            title: self.title@,
            border: self.border,
            bold: self.bold,
            selected: self.selected,
            close: self.close,
        }
    }
}

/// The contents of a list of frames.
pub open spec fn frame_views(frames: Seq<PaneFrame>) -> Seq<PaneFrameView> {
    Seq::new(frames.len(), |i: int| frames[i]@)
}

/// What is drawn of the panes.
pub struct Screen {
    /// Frames in the order in which they are drawn.
    pub frames: Vec<PaneFrame>,
    /// Where the hint stands that says how to add a pane.
    pub hint: Option<Rect>,
    /// Where the cursor of the terminal goes.
    pub cursor: Option<(u16, u16)>,
    /// The panes on the terminal.
    pub rects: Vec<(ActivePane, Rect)>,
}

/// What is drawn of the panes, with texts as sequences.
pub struct ScreenView {
    pub frames: Seq<PaneFrameView>,
    pub hint: Option<Rect>,
    pub cursor: Option<(u16, u16)>,
    pub rects: Seq<(ActivePane, Rect)>,
}

impl View for Screen {
    type V = ScreenView;

    open spec fn view(&self) -> ScreenView {
        ScreenView {
            frames: frame_views(self.frames@),
            hint: self.hint,
            cursor: self.cursor,
            rects: self.rects@,
        }
    }
}

/// How far a download has come, in percent.
pub open spec fn percent(dl: u64, total: u64) -> nat {
    if total > 0 {
        (dl * 100 / total as int) as nat
    } else {
        0
    }
}

/// The title of the orchestrator: its name and what voice input is doing.
pub open spec fn titled(base: Seq<char>, voice: VoiceStateView, correcting: bool) -> Seq<char> {
    if correcting {
        base + " [CORRECTING...]"@
    } else {
        match voice {
            VoiceStateView::Idle => base + " — Ctrl+R: voice"@,
            VoiceStateView::Recording => base + " [REC] Ctrl+R: stop"@,
            VoiceStateView::Downloading(dl, total) => base + " [DL: "@ + text::digits(
                percent(dl, total),
            ) + "%]"@,
            VoiceStateView::Transcribing => base + " [STT...]"@,
            VoiceStateView::Error(msg) => base + " [ERR: "@ + text::clipped(msg, 30) + "]"@,
        }
    }
}

/// Build orchestrator title with voice state suffix.
pub fn voice_title(base: &str, voice_state: &VoiceState, correcting: bool) -> (title: String)
    ensures
        title@ == titled(base@, voice_state@, correcting),
{
    let mut title = base.to_owned();
    if correcting {
        push_text(&mut title, " [CORRECTING...]");
        return title;
    }
    match voice_state {
        VoiceState::Idle => {
            push_text(&mut title, " — Ctrl+R: voice");
        },
        VoiceState::Recording => {
            push_text(&mut title, " [REC] Ctrl+R: stop");
        },
        VoiceState::Downloading(dl, total) => {
            let pct: u128 = if *total > 0 {
                *dl as u128 * 100 / *total as u128
            } else {
                0
            };
            push_text(&mut title, " [DL: ");
            push_digits(&mut title, pct);
            push_text(&mut title, "%]");
        },
        VoiceState::Transcribing => {
            push_text(&mut title, " [STT...]");
        },
        VoiceState::Error(msg) => {
            let short = to_text(&clip_of(&chars_of(msg.as_str()), 30));
            push_text(&mut title, " [ERR: ");
            push_text(&mut title, short.as_str());
            push_text(&mut title, "]");
        },
    }
    title
}

/// The characters of a line of cells.
pub open spec fn chars_in(cells: Seq<Cell>) -> Seq<char> {
    Seq::new(cells.len(), |i: int| cells[i].ch)
}

/// Whether a line of a screen asks for a permission.
pub open spec fn asks(cells: Seq<Cell>) -> bool {
    let line = text::trim(chars_in(cells));
    ||| text::holds(line, "Allow"@) && (text::holds(line, "(y/n)"@) || text::holds(line, "Yes"@)
        || text::holds(line, "allow this"@))
    ||| text::holds(line, "Do you want to proceed"@)
    ||| text::holds(line, "approve"@)
}

/// Whether row `r` of a view asks for a permission.
pub open spec fn row_asks(grid: GridState, r: int) -> bool {
    match grid.viewed(r) {
        Some(cells) => asks(cells),
        None => false,
    }
}

/// Whether a pane waits for a permission: its program runs, and one of the last five rows of
/// the view asks for one.
pub open spec fn needs_permission(pane: Pane) -> bool {
    pane.status == PaneStatus::Running && exists|r: int|
        0 <= r && pane.grid@.rows - 5 <= r < pane.grid@.rows && #[trigger] row_asks(
            pane.grid@,
            r,
        )
}

/// Whether a line of a screen asks for a permission.
fn line_asks(cells: &[Cell]) -> (r: bool)
    ensures
        r == asks(cells@),
{
    let mut chars: Vec<char> = Vec::new();
    let mut i: usize = 0;
    while i < cells.len()
        invariant
            i <= cells.len(),
            chars@ == chars_in(cells@.take(i as int)),
        decreases cells.len() - i,
    {
        chars.push(cells[i].ch);
        i = i + 1;
        assert(chars@ =~= chars_in(cells@.take(i as int)));
    }
    assert(cells@.take(cells@.len() as int) =~= cells@);
    let line = trim_of(&chars);
    if contains_text(&line, "Allow") && (contains_text(&line, "(y/n)") || contains_text(
        &line,
        "Yes",
    ) || contains_text(&line, "allow this")) {
        return true;
    }
    contains_text(&line, "Do you want to proceed") || contains_text(&line, "approve")
}

/// Detect if a pane needs permission or is waiting for input by scanning last rows.
pub fn detect_pane_alert(pane: &Pane) -> (alert: PaneAlert)
    requires
        pane.grid@.wf(),
    ensures
        alert == if needs_permission(*pane) {
            PaneAlert::NeedsPermission
        } else {
            PaneAlert::Quiet
        },
{
    match pane.status {
        PaneStatus::Running => {},
        _ => {
            return PaneAlert::Quiet;
        },
    }
    let rows = pane.grid.rows;
    let mut r: u16 = rows.saturating_sub(5);
    let ghost first = r as int;
    while r < rows
        invariant
            pane.grid@.wf(),
            rows == pane.grid@.rows,
            first == if rows < 5 {
                0
            } else {
                rows - 5
            },
            first <= r <= rows,
            forall|k: int| first <= k < r ==> !(#[trigger] row_asks(pane.grid@, k)),
            pane.status == PaneStatus::Running,
        decreases rows - r,
    {
        match pane.grid.view_row(r) {
            Some(cells) => {
                if line_asks(cells) {
                    assert(row_asks(pane.grid@, r as int));
                    return PaneAlert::NeedsPermission;
                }
            },
            None => {},
        }
        r = r + 1;
    }
    PaneAlert::Quiet
}

/// Whether a pane is held up by a question for permission.
pub fn is_pane_blocked(pane: &Pane) -> (r: bool)
    requires
        pane.grid@.wf(),
    ensures
        r == needs_permission(*pane),
{
    match detect_pane_alert(pane) {
        PaneAlert::NeedsPermission => true,
        _ => false,
    }
}

/// Whether what blinks is on: about half of each second at 60 frames.
pub open spec fn blink_is_on(frame_count: u64) -> bool {
    frame_count / 15 % 2 == 0
}

/// The colour of the border of a pane.
pub open spec fn border_of(alert: PaneAlert, blink: bool, focused: bool, running: bool) -> Color {
    if alert == PaneAlert::NeedsPermission && blink {
        Color::Red
    } else if alert == PaneAlert::ReceivingPrompt && blink {
        Color::Yellow
    } else if focused {
        Color::Cyan
    } else if !running {
        Color::DarkGray
    } else {
        Color::Gray
    }
}

/// The colour of the border of a pane.
pub fn border_color(alert: PaneAlert, blink: bool, focused: bool, running: bool) -> (color: Color)
    ensures
        color == border_of(alert, blink, focused, running),
{
    if alert == PaneAlert::NeedsPermission && blink {
        Color::Red
    } else if alert == PaneAlert::ReceivingPrompt && blink {
        Color::Yellow
    } else if focused {
        Color::Cyan
    } else if !running {
        Color::DarkGray
    } else {
        Color::Gray
    }
}

/// The title of a pane with what there is to say of it.
pub open spec fn full_title(title: Seq<char>, pane: Pane) -> Seq<char> {
    match pane.status {
        PaneStatus::Exited(code) => title + " [exited: "@ + text::signed_digits(code as int)
            + "]"@,
        PaneStatus::Running => if needs_permission(pane) {
            title + " [NEEDS PERMISSION]"@
        } else if pane.grid@.is_receiving_prompt {
            title + " [receiving prompt]"@
        } else {
            title
        },
    }
}

/// Where the close button of a worker begins, if there is room for it.
pub open spec fn close_place(area: Rect, is_worker: bool) -> Option<(u16, u16)> {
    if is_worker && area.width > 10 {
        Some(((area.x + area.width - 4) as u16, area.y))
    } else {
        None
    }
}

/// The frame of a pane.
pub open spec fn framed(
    pane: Pane,
    which: ActivePane,
    area: Rect,
    focused: bool,
    title: Seq<char>,
    frame_count: u64,
    selection: TextSelection,
) -> PaneFrameView {
    let alert = if needs_permission(pane) {
        PaneAlert::NeedsPermission
    } else {
        PaneAlert::Quiet
    };
    PaneFrameView {
        pane: which,
        rect: area,
        title: full_title(title, pane),
        border: border_of(
            alert,
            blink_is_on(frame_count),
            focused,
            pane.status == PaneStatus::Running,
        ),
        bold: needs_permission(pane) && blink_is_on(frame_count),
        selected: selection.active && selection.pane == which,
        close: close_place(area, which is Worker),
    }
}

/// The frame of a pane, with its title, its border and its close button.
pub fn render_pane(
    pane: &Pane,
    which: ActivePane,
    area: Rect,
    focused: bool,
    title: &str,
    frame_count: u64,
    selection: &TextSelection,
) -> (frame: PaneFrame)
    requires
        pane.grid@.wf(),
        area.wf(),
    ensures
        frame@ == framed(*pane, which, area, focused, title@, frame_count, *selection),
{
    let alert = detect_pane_alert(pane);
    let blink = frame_count / 15 % 2 == 0;
    let needs = alert == PaneAlert::NeedsPermission;
    let mut full = title.to_owned();
    let running = match pane.status {
        PaneStatus::Running => {
            if needs {
                push_text(&mut full, " [NEEDS PERMISSION]");
            } else if pane.grid.is_receiving_prompt {
                push_text(&mut full, " [receiving prompt]");
            }
            true
        },
        PaneStatus::Exited(code) => {
            push_text(&mut full, " [exited: ");
            push_signed(&mut full, code);
            push_text(&mut full, "]");
            false
        },
    };
    let is_worker = match which {
        ActivePane::Orchestrator => false,
        ActivePane::Worker(_) => true,
    };
    let close = if is_worker && area.width > 10 {
        Some((area.x + (area.width - 4), area.y))
    } else {
        None
    };
    PaneFrame {
        pane: which,
        rect: area,
        title: full,
        border: border_color(alert, blink, focused, running),
        bold: needs && blink,
        selected: selection.active && selection.pane == which,
        close,
    }
}

/// Where the cursor of a pane is on the terminal, if it is inside the frame.
pub open spec fn cursor_place(grid: GridState, outer: Rect) -> Option<(u16, u16)> {
    let inner = layout::inside(outer);
    if grid.col < inner.width && grid.row < inner.height {
        Some(((inner.x + grid.col) as u16, (inner.y + grid.row) as u16))
    } else {
        None
    }
}

/// The place of the terminal's cursor, where the input method shows what is composed.
pub fn cursor_for_ime(pane: &Pane, outer: Rect) -> (r: Option<(u16, u16)>)
    requires
        outer.x < u16::MAX,
        outer.y < u16::MAX,
    ensures
        r == cursor_place(pane.grid@, outer),
{
    let inner = inner_rect(outer);
    let col = pane.grid.cursor.col;
    let row = pane.grid.cursor.row;
    if col < inner.width && row < inner.height {
        Some((inner.x + col, inner.y + row))
    } else {
        None
    }
}

/// The title of worker `i`.
pub open spec fn worker_title(i: int) -> Seq<char> {
    "Pane "@ + text::digits((i + 1) as nat)
}

/// A terminal that starts at the origin and has room for a layout.
pub open spec fn is_terminal(area: Rect, workers: nat) -> bool {
    area.x == 0 && area.y == 0 && layout::can_lay_out(area, workers)
}

/// The frame of worker `i`.
pub open spec fn worker_frame(
    area: Rect,
    panes: Seq<&Pane>,
    i: int,
    active: ActivePane,
    frame_count: u64,
    selection: TextSelection,
) -> PaneFrameView {
    framed(
        *panes[i],
        ActivePane::Worker(i as usize),
        layout::worker_place(area, panes.len(), i),
        active == ActivePane::Worker(i as usize),
        worker_title(i),
        frame_count,
        selection,
    )
}

/// The panes on the terminal: the workers, then the orchestrator.
pub open spec fn pane_places(area: Rect, workers: nat) -> Seq<(ActivePane, Rect)> {
    Seq::new(
        workers,
        |i: int| (ActivePane::Worker(i as usize), layout::worker_place(area, workers, i)),
    ).push((ActivePane::Orchestrator, layout::orch_place(area, workers)))
}

/// Where the hint stands that says how to add a pane.
pub open spec fn hint_place(area: Rect, workers: nat) -> Option<Rect> {
    if workers == 0 {
        let above = area.height - layout::orch_place(area, workers).height;
        Some(Rect::at(area.x, (above / 2) as u16, area.width, 1))
    } else {
        None
    }
}

/// Where the cursor goes when all panes are shown.
pub open spec fn active_cursor(
    area: Rect,
    orchestrator: Pane,
    panes: Seq<&Pane>,
    active: ActivePane,
) -> Option<(u16, u16)> {
    match active {
        ActivePane::Orchestrator => cursor_place(
            orchestrator.grid@,
            layout::orch_place(area, panes.len()),
        ),
        ActivePane::Worker(idx) => if idx < panes.len() {
            cursor_place(
                panes[idx as int].grid@,
                layout::worker_place(area, panes.len(), idx as int),
            )
        } else {
            None
        },
    }
}

/// What is drawn of one pane over the whole terminal.
pub open spec fn one_pane(
    area: Rect,
    orchestrator: Pane,
    panes: Seq<&Pane>,
    fs: ActivePane,
    frame_count: u64,
    voice: VoiceStateView,
    correcting: bool,
    selection: TextSelection,
) -> ScreenView {
    let title = titled("Orchestrator [fullscreen]"@, voice, correcting);
    let (frames, cursor) = match fs {
        ActivePane::Orchestrator => (
            seq![framed(orchestrator, fs, area, true, title, frame_count, selection)],
            cursor_place(orchestrator.grid@, area),
        ),
        ActivePane::Worker(idx) => if idx < panes.len() {
            (
                seq![
                    framed(
                        *panes[idx as int],
                        fs,
                        area,
                        true,
                        worker_title(idx as int) + " [fullscreen]"@,
                        frame_count,
                        selection,
                    ),
                ],
                cursor_place(panes[idx as int].grid@, area),
            )
        } else {
            (seq![], None)
        },
    };
    ScreenView { frames, hint: None, cursor, rects: seq![(fs, area)] }
}

/// What is drawn of all panes.
pub open spec fn all_panes(
    area: Rect,
    orchestrator: Pane,
    panes: Seq<&Pane>,
    active: ActivePane,
    frame_count: u64,
    voice: VoiceStateView,
    correcting: bool,
    selection: TextSelection,
) -> ScreenView {
    ScreenView {
        frames: Seq::new(
            panes.len(),
            |i: int| worker_frame(area, panes, i, active, frame_count, selection),
        ).push(
            framed(
                orchestrator,
                ActivePane::Orchestrator,
                layout::orch_place(area, panes.len()),
                active == ActivePane::Orchestrator,
                titled("Orchestrator"@, voice, correcting),
                frame_count,
                selection,
            ),
        ),
        hint: hint_place(area, panes.len()),
        cursor: active_cursor(area, orchestrator, panes, active),
        rects: pane_places(area, panes.len()),
    }
}

/// Every pane has a valid screen.
pub open spec fn panes_wf(panes: Seq<&Pane>) -> bool {
    forall|i: int| 0 <= i < panes.len() ==> (#[trigger] panes[i]).grid@.wf()
}

fn numbered_title(i: usize) -> (title: String)
    ensures
        title@ == worker_title(i as int),
{
    let mut title = "Pane ".to_owned();
    push_digits(&mut title, i as u128 + 1);
    title
}

/// One pane over the whole terminal.
fn render_fullscreen(
    area: Rect,
    orchestrator: &Pane,
    worker_panes: &Vec<&Pane>,
    fs: ActivePane,
    frame_count: u64,
    voice_state: &VoiceState,
    correcting: bool,
    selection: &TextSelection,
) -> (screen: Screen)
    requires
        is_terminal(area, worker_panes.len() as nat),
        orchestrator.grid@.wf(),
        panes_wf(worker_panes@),
    ensures
        screen@ == one_pane(
            area,
            *orchestrator,
            worker_panes@,
            fs,
            frame_count,
            voice_state@,
            correcting,
            *selection,
        ),
{
    let mut frames: Vec<PaneFrame> = Vec::new();
    let mut cursor: Option<(u16, u16)> = None;
    match fs {
        ActivePane::Orchestrator => {
            let title = voice_title("Orchestrator [fullscreen]", voice_state, correcting);
            let frame = render_pane(
                orchestrator,
                fs,
                area,
                true,
                title.as_str(),
                frame_count,
                selection,
            );
            let ghost f = frame@;
            frames.push(frame);
            assert(frame_views(frames@) =~= seq![f]);
            cursor = cursor_for_ime(orchestrator, area);
        },
        ActivePane::Worker(idx) => {
            if idx < worker_panes.len() {
                let pane = worker_panes[idx];
                let mut title = numbered_title(idx);
                push_text(&mut title, " [fullscreen]");
                let frame = render_pane(
                    pane,
                    fs,
                    area,
                    true,
                    title.as_str(),
                    frame_count,
                    selection,
                );
                let ghost f = frame@;
                frames.push(frame);
                assert(frame_views(frames@) =~= seq![f]);
                cursor = cursor_for_ime(pane, area);
            }
        },
    }
    let mut rects: Vec<(ActivePane, Rect)> = Vec::new();
    rects.push((fs, area));
    assert(rects@ =~= seq![(fs, area)]);
    assert(frames.len() == 0 ==> frame_views(frames@) =~= seq![]);
    Screen { frames, hint: None, cursor, rects }
}

/// All panes, the workers above the orchestrator.
fn render_panes(
    area: Rect,
    orchestrator: &Pane,
    worker_panes: &Vec<&Pane>,
    active: ActivePane,
    frame_count: u64,
    voice_state: &VoiceState,
    correcting: bool,
    selection: &TextSelection,
) -> (screen: Screen)
    requires
        is_terminal(area, worker_panes.len() as nat),
        orchestrator.grid@.wf(),
        panes_wf(worker_panes@),
    ensures
        screen@ == all_panes(
            area,
            *orchestrator,
            worker_panes@,
            active,
            frame_count,
            voice_state@,
            correcting,
            *selection,
        ),
{
    let n = worker_panes.len();
    let plan = compute_layout(area, n);
    proof {
        layout::layout_tiles_the_area(area, n as nat);
        layout::layout_leaves_room(area, n as nat);
    }
    let hint = if n == 0 {
        Some(Rect::new(area.x, (area.height - plan.orch_rect.height) / 2, area.width, 1))
    } else {
        None
    };
    let ghost all_frames = Seq::new(
        n as nat,
        |i: int| worker_frame(area, worker_panes@, i, active, frame_count, *selection),
    );
    let ghost all_rects = Seq::new(
        n as nat,
        |i: int| (ActivePane::Worker(i as usize), layout::worker_place(area, n as nat, i)),
    );
    let mut frames: Vec<PaneFrame> = Vec::new();
    let mut rects: Vec<(ActivePane, Rect)> = Vec::new();
    let mut i: usize = 0;
    assert(frame_views(frames@) =~= all_frames.take(0));
    while i < n
        invariant
            n == worker_panes.len(),
            i <= n,
            panes_wf(worker_panes@),
            plan.worker_rects@ == layout::worker_places(area, n as nat),
            forall|k: int| 0 <= k < n ==> (#[trigger] layout::worker_place(area, n as nat, k)).wf(),
            all_frames == Seq::new(
                n as nat,
                |i: int| worker_frame(area, worker_panes@, i, active, frame_count, *selection),
            ),
            all_rects == Seq::new(
                n as nat,
                |i: int| (ActivePane::Worker(i as usize), layout::worker_place(area, n as nat, i)),
            ),
            frame_views(frames@) == all_frames.take(i as int),
            rects@ == all_rects.take(i as int),
        decreases n - i,
    {
        let ghost before = frame_views(frames@);
        let rect = plan.worker_rects[i];
        assert(rect == layout::worker_place(area, n as nat, i as int));
        let which = ActivePane::Worker(i);
        let title = numbered_title(i);
        assert(worker_panes@[i as int].grid@.wf());
        let frame = render_pane(
            worker_panes[i],
            which,
            rect,
            active == which,
            title.as_str(),
            frame_count,
            selection,
        );
        let ghost f = frame@;
        assert(f == worker_frame(
            area,
            worker_panes@,
            i as int,
            active,
            frame_count,
            *selection,
        ));
        frames.push(frame);
        rects.push((which, rect));
        i = i + 1;
        assert(frame_views(frames@) =~= before.push(f));
        assert(frame_views(frames@) =~= all_frames.take(i as int));
        assert(rects@ =~= all_rects.take(i as int));
    }
    assert(all_frames.take(n as int) =~= all_frames);
    assert(all_rects.take(n as int) =~= all_rects);
    let title = voice_title("Orchestrator", voice_state, correcting);
    let frame = render_pane(
        orchestrator,
        ActivePane::Orchestrator,
        plan.orch_rect,
        active == ActivePane::Orchestrator,
        title.as_str(),
        frame_count,
        selection,
    );
    let ghost f = frame@;
    frames.push(frame);
    assert(frame_views(frames@) =~= all_frames.push(f));
    rects.push((ActivePane::Orchestrator, plan.orch_rect));
    let cursor = match active {
        ActivePane::Orchestrator => cursor_for_ime(orchestrator, plan.orch_rect),
        ActivePane::Worker(idx) => {
            if idx < n {
                let rect = plan.worker_rects[idx];
                assert(rect == layout::worker_place(area, n as nat, idx as int));
                cursor_for_ime(worker_panes[idx], rect)
            } else {
                None
            }
        },
    };
    Screen { frames, hint, cursor, rects }
}

/// Render all panes; the (ActivePane, Rect) pairs are for mouse-click detection.
/// If `fullscreen` is Some, render only that pane at the full area.
pub fn render(
    area: Rect,
    orchestrator: &Pane,
    worker_panes: &Vec<&Pane>,
    active: ActivePane,
    fullscreen: Option<ActivePane>,
    frame_count: u64,
    voice_state: &VoiceState,
    correcting: bool,
    selection: &TextSelection,
) -> (screen: Screen)
    requires
        is_terminal(area, worker_panes.len() as nat),
        orchestrator.grid@.wf(),
        panes_wf(worker_panes@),
    ensures
        screen@ == match fullscreen {
            Some(fs) => one_pane(
                area,
                *orchestrator,
                worker_panes@,
                fs,
                frame_count,
                voice_state@,
                correcting,
                *selection,
            ),
            None => all_panes(
                area,
                *orchestrator,
                worker_panes@,
                active,
                frame_count,
                voice_state@,
                correcting,
                *selection,
            ),
        },
{
    match fullscreen {
        Some(fs) => render_fullscreen(
            area,
            orchestrator,
            worker_panes,
            fs,
            frame_count,
            voice_state,
            correcting,
            selection,
        ),
        None => render_panes(
            area,
            orchestrator,
            worker_panes,
            active,
            frame_count,
            voice_state,
            correcting,
            selection,
        ),
    }
}

/// The cursor of the terminal is inside the frame of the pane that it belongs to.
pub proof fn cursor_is_inside_the_frame(grid: GridState, outer: Rect)
    requires
        outer.wf(),
        outer.x < u16::MAX,
        outer.y < u16::MAX,
    ensures
        match cursor_place(grid, outer) {
            Some((x, y)) => outer.x < x < outer.x + outer.width - 1 && outer.y < y < outer.y
                + outer.height - 1,
            None => true,
        },
{
}

} // verus!
