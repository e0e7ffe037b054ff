//! Laws of frames, titles, alerts and dialogs.

use crate::app::dialog::DialogView;
use crate::app::selection_laws;
use crate::app::TextSelection;
use crate::pane::state::{Cell, GridState};
use crate::pane::{Pane, PaneStatus};
use crate::style::Color;
use crate::text;
use crate::text_laws;
use crate::ui::layout;
use crate::ui::layout::{ActivePane, Rect};
use crate::ui::overlay;
use crate::ui::overlay::OverlayView;
use crate::ui::render;
use crate::ui::render::PaneAlert;
use crate::voice::VoiceStateView;
use vstd::prelude::*;

verus! {

/// The title of the orchestrator is its name with what voice input is doing behind it; that a
/// correction is awaited goes before everything else.
pub proof fn titles_say_what_voice_input_does(base: Seq<char>, voice: VoiceStateView)
    ensures
        render::titled(base, voice, true) == base + " [CORRECTING...]"@,
        voice is Idle ==> render::titled(base, voice, false) == base + " — Ctrl+R: voice"@,
        voice is Recording ==> render::titled(base, voice, false) == base
            + " [REC] Ctrl+R: stop"@,
        voice is Transcribing ==> render::titled(base, voice, false) == base + " [STT...]"@,
{
}

/// A download is shown with the percentage that is there, rounded down, and with zero where the
/// whole is not known.
pub proof fn titles_say_how_far_a_download_is(base: Seq<char>, dl: u64, total: u64)
    ensures
        exists|digits: Seq<char>|
            {
                let p = #[trigger] text::number(digits);
                &&& text::all_digits(digits) && digits.len() > 0
                &&& render::titled(base, VoiceStateView::Downloading(dl, total), false) == base
                    + " [DL: "@ + digits + "%]"@
                &&& total > 0 ==> p * total <= 100 * dl < (p + 1) * total
                &&& total == 0 ==> p == 0
            },
{
    let p = render::percent(dl, total);
    text_laws::numbers_are_read_back(p);
    assert(text::number(text::digits(p)) == p);
    if total > 0 {
        let a = dl as int * 100;
        let b = total as int;
        vstd::arithmetic::div_mod::lemma_fundamental_div_mod(a, b);
        vstd::arithmetic::div_mod::lemma_div_pos_is_pos(a, b);
        assert(b * (a / b) == (a / b) * b) by (nonlinear_arith);
        assert((a / b + 1) * b == (a / b) * b + b) by (nonlinear_arith);
    }
}

/// An error is shown with its message, cut to thirty bytes where it is longer.
pub proof fn titles_say_what_went_wrong(base: Seq<char>, msg: Seq<char>)
    ensures
        exists|n: int|
            {
                &&& 0 <= n <= msg.len()
                &&& render::titled(base, VoiceStateView::Error(msg), false) == base + " [ERR: "@
                    + #[trigger] msg.take(n) + "]"@
                &&& text::byte_len(msg.take(n)) <= 30
                &&& n < msg.len() ==> text::byte_len(msg.take(n + 1)) > 30
            },
{
    text_laws::clipping(msg, 30);
    let n = text::clipped(msg, 30).len() as int;
    assert(msg.take(n) == text::clipped(msg, 30));
}

/// White space around a text makes no difference to what stands in it.
proof fn trimming_keeps_what_is_inside(s: Seq<char>, part: Seq<char>)
    requires
        part.len() > 0,
        !text::is_space(part[0]),
        !text::is_space(part.last()),
    ensures
        text::holds(text::trim(s), part) <==> text_laws::has_inside(s, part),
{
    let t = text::trim(s);
    text_laws::trimming(s);
    text_laws::holding_is_having_inside(s, part);
    let (front, back) = choose|front: Seq<char>, back: Seq<char>|
        #![trigger text_laws::all_space(front), text_laws::all_space(back)]
        s == front + t + back && text_laws::all_space(front) && text_laws::all_space(back);
    if text::holds(t, part) {
        let i = choose|i: int| text::occurs_at(t, part, i);
        assert(s.subrange(front.len() + i, front.len() + i + part.len()) =~= t.subrange(
            i,
            i + part.len(),
        ));
        assert(text::occurs_at(s, part, front.len() + i));
    }
    if text::holds(s, part) {
        let i = choose|i: int| text::occurs_at(s, part, i);
        let sub = s.subrange(i, i + part.len());
        assert(sub[0] == s[i]);
        assert(sub.last() == s[i + part.len() - 1]);
        if i < front.len() {
            assert(s[i] == front[i]);
            assert(text::is_space(front[i]));
        }
        let e = i + part.len() - 1;
        if e >= front.len() + t.len() {
            assert(s[e] == back[e - front.len() - t.len()]);
            assert(text::is_space(back[e - front.len() - t.len()]));
        }
        let j = i - front.len();
        assert(t.subrange(j, j + part.len()) =~= sub);
        assert(text::occurs_at(t, part, j));
    }
}

/// Whether a line of cells has a text inside.
pub open spec fn line_has(cells: Seq<Cell>, part: Seq<char>) -> bool {
    text_laws::has_inside(selection_laws::chars_in(cells), part)
}

/// Whether a line asks for a permission: it says "Allow" with an answer to choose, or that it
/// waits to proceed, or to be approved.
pub open spec fn asks_for_permission(cells: Seq<Cell>) -> bool {
    ||| line_has(cells, "Allow"@) && (line_has(cells, "(y/n)"@) || line_has(cells, "Yes"@)
        || line_has(cells, "allow this"@))
    ||| line_has(cells, "Do you want to proceed"@)
    ||| line_has(cells, "approve"@)
}

proof fn asking_is_asking(cells: Seq<Cell>)
    ensures
        render::asks(cells) <==> asks_for_permission(cells),
{
    reveal_strlit("Allow");
    reveal_strlit("(y/n)");
    reveal_strlit("Yes");
    reveal_strlit("allow this");
    reveal_strlit("Do you want to proceed");
    reveal_strlit("approve");
    let s = render::chars_in(cells);
    assert(s =~= selection_laws::chars_in(cells));
    trimming_keeps_what_is_inside(s, "Allow"@);
    trimming_keeps_what_is_inside(s, "(y/n)"@);
    trimming_keeps_what_is_inside(s, "Yes"@);
    trimming_keeps_what_is_inside(s, "allow this"@);
    trimming_keeps_what_is_inside(s, "Do you want to proceed"@);
    trimming_keeps_what_is_inside(s, "approve"@);
}

/// A pane whose program runs needs a permission where one of the last five rows that it shows
/// asks for one.
pub proof fn questions_need_permission(pane: Pane, r: int, line: Seq<Cell>)
    requires
        pane.grid@.wf(),
        pane.status == PaneStatus::Running,
        selection_laws::is_shown(pane.grid@, r, line),
        0 <= r < pane.grid@.rows <= r + 5,
        asks_for_permission(line),
    ensures
        render::needs_permission(pane),
{
    asking_is_asking(line);
    assert(pane.grid@.viewed(r) == Some(line));
    assert(render::row_asks(pane.grid@, r));
}

/// A pane needs no permission where none of the last five rows that it shows asks for one, or
/// its program has ended.
pub proof fn nothing_else_needs_permission(pane: Pane)
    requires
        pane.grid@.wf(),
        pane.status != PaneStatus::Running || forall|r: int, line: Seq<Cell>|
            0 <= r < pane.grid@.rows <= r + 5 && #[trigger] selection_laws::is_shown(
                pane.grid@,
                r,
                line,
            ) ==> !asks_for_permission(line),
    ensures
        !render::needs_permission(pane),
{
    if render::needs_permission(pane) {
        let r = choose|r: int|
            0 <= r && pane.grid@.rows - 5 <= r < pane.grid@.rows && #[trigger] render::row_asks(
                pane.grid@,
                r,
            );
        let line = pane.grid@.viewed(r).unwrap();
        assert(selection_laws::is_shown(pane.grid@, r, line));
        asking_is_asking(line);
    }
}

/// What blinks is on for fifteen frames and off for the next fifteen.
pub proof fn blinking(frame: u64)
    requires
        frame + 15 <= u64::MAX,
    ensures
        render::blink_is_on((frame + 15) as u64) == !render::blink_is_on(frame),
        frame < 15 ==> render::blink_is_on(frame),
        frame % 15 < 14 ==> render::blink_is_on((frame + 1) as u64) == render::blink_is_on(frame),
{
}

/// The border of a pane: red while an alert for a permission blinks, yellow for one of a prompt,
/// else cyan with the focus, and without it dark where the program has ended.
pub proof fn borders(alert: PaneAlert, blink: bool, focused: bool, running: bool)
    ensures
        ({
            let color = render::border_of(alert, blink, focused, running);
            &&& color == Color::Red <==> blink && alert is NeedsPermission
            &&& color == Color::Yellow <==> blink && alert is ReceivingPrompt
            &&& !blink || alert is Quiet ==> {
                &&& focused ==> color == Color::Cyan
                &&& !focused && running ==> color == Color::Gray
                &&& !focused && !running ==> color == Color::DarkGray
            }
        }),
{
}

/// The frame of a pane: where it is, whether it is bright with the focus, whether the selection
/// is in it, how its title ends, and its close button, three cells and a corner from the right.
pub proof fn frames(
    pane: Pane,
    which: ActivePane,
    area: Rect,
    focused: bool,
    title: Seq<char>,
    frame_count: u64,
    selection: TextSelection,
)
    requires
        area.wf(),
    ensures
        ({
            let f = render::framed(pane, which, area, focused, title, frame_count, selection);
            let quiet = !render::needs_permission(pane);
            &&& f.pane == which && f.rect == area
            &&& f.selected <==> selection.active && selection.pane == which
            &&& f.bold <==> !quiet && render::blink_is_on(frame_count)
            &&& quiet && focused ==> f.border == Color::Cyan
            &&& quiet && !focused && pane.status == PaneStatus::Running ==> f.border
                == Color::Gray
            &&& quiet && !focused && pane.status != PaneStatus::Running ==> f.border
                == Color::DarkGray
            &&& !quiet && render::blink_is_on(frame_count) ==> f.border == Color::Red
            &&& !quiet && !render::blink_is_on(frame_count) && focused ==> f.border
                == Color::Cyan
            &&& pane.status == PaneStatus::Running && !quiet ==> f.title == title
                + " [NEEDS PERMISSION]"@
            &&& pane.status == PaneStatus::Running && quiet && !pane.grid@.is_receiving_prompt
                ==> f.title == title
            &&& pane.status == PaneStatus::Running && quiet && pane.grid@.is_receiving_prompt
                ==> f.title == title + " [receiving prompt]"@
            &&& pane.status matches PaneStatus::Exited(code) ==> f.title == title
                + " [exited: "@ + text::signed_digits(code as int) + "]"@
            &&& match f.close {
                Some((x, y)) => which is Worker && area.width > 10 && x + 4 == area.x
                    + area.width && y == area.y,
                None => which is Orchestrator || area.width <= 10,
            }
        }),
{
}

/// The cursor of the terminal stands in the frame of a pane where its screen has it, one cell
/// from the left and from the top, if it is inside the frame.
pub proof fn cursors(grid: GridState, outer: Rect)
    requires
        outer.wf(),
        outer.x < u16::MAX,
        outer.y < u16::MAX,
    ensures
        grid.col + 2 < outer.width && grid.row + 2 < outer.height ==> render::cursor_place(
            grid,
            outer,
        ) == Some(((outer.x + 1 + grid.col) as u16, (outer.y + 1 + grid.row) as u16)),
        render::cursor_place(grid, outer) matches Some((x, y)) ==> {
            &&& x == outer.x + 1 + grid.col && y == outer.y + 1 + grid.row
            &&& x < outer.x + outer.width - 1 && y < outer.y + outer.height - 1
        },
{
}

/// With all panes shown there is a frame for each worker, numbered from one, and below them one
/// for the orchestrator, each with its pane and at its place in the layout. The frame with the
/// focus is that of the active pane. The panes for the mouse are those of the frames. Where there
/// is no worker, a hint says how to add one.
#[verifier::spinoff_prover]
#[verifier::rlimit(40)]
pub proof fn all_panes_have_frames(
    area: Rect,
    orchestrator: Pane,
    panes: Seq<&Pane>,
    active: ActivePane,
    frame_count: u64,
    voice: VoiceStateView,
    correcting: bool,
    selection: TextSelection,
    i: int,
)
    requires
        panes.len() <= usize::MAX,
        0 <= i < panes.len(),
    ensures
        ({
            let s = render::all_panes(
                area,
                orchestrator,
                panes,
                active,
                frame_count,
                voice,
                correcting,
                selection,
            );
            let w = ActivePane::Worker(i as usize);
            let n = panes.len() as int;
            &&& s.frames.len() == n + 1
            &&& s.frames[i] == render::framed(
                *panes[i],
                w,
                layout::worker_place(area, panes.len(), i),
                active == w,
                "Pane "@ + text::digits((i + 1) as nat),
                frame_count,
                selection,
            )
            &&& s.frames[n] == render::framed(
                orchestrator,
                ActivePane::Orchestrator,
                layout::orch_place(area, panes.len()),
                active == ActivePane::Orchestrator,
                render::titled("Orchestrator"@, voice, correcting),
                frame_count,
                selection,
            )
            &&& s.rects.len() == n + 1
            &&& s.rects[i] == (w, s.frames[i].rect)
            &&& s.rects[n] == (ActivePane::Orchestrator, s.frames[n].rect)
            &&& s.hint is None
            &&& active == w ==> s.cursor == render::cursor_place(
                panes[i].grid@,
                s.frames[i].rect,
            )
            &&& active == ActivePane::Orchestrator ==> s.cursor == render::cursor_place(
                orchestrator.grid@,
                s.frames[n].rect,
            )
        }),
{
}

/// Without workers the orchestrator has the only frame, which is the terminal, and there is a
/// hint.
pub proof fn orchestrator_alone_has_a_frame(
    area: Rect,
    orchestrator: Pane,
    active: ActivePane,
    frame_count: u64,
    voice: VoiceStateView,
    correcting: bool,
    selection: TextSelection,
)
    requires
        render::is_terminal(area, 0),
    ensures
        ({
            let s = render::all_panes(
                area,
                orchestrator,
                seq![],
                active,
                frame_count,
                voice,
                correcting,
                selection,
            );
            &&& s.frames.len() == 1
            &&& s.frames[0].pane == ActivePane::Orchestrator
            &&& s.frames[0].rect == area
            &&& s.rects == seq![(ActivePane::Orchestrator, area)]
            &&& s.hint == Some(Rect { x: 0, y: 0, width: area.width, height: 1 })
        }),
{
    let s = render::all_panes(
        area,
        orchestrator,
        seq![],
        active,
        frame_count,
        voice,
        correcting,
        selection,
    );
    assert(s.rects =~= seq![(ActivePane::Orchestrator, area)]);
}

/// One pane over the whole terminal has the only frame, which is the terminal, with the focus on
/// it, and says so in its title.
pub proof fn one_pane_has_the_terminal(
    area: Rect,
    orchestrator: Pane,
    panes: Seq<&Pane>,
    fs: ActivePane,
    frame_count: u64,
    voice: VoiceStateView,
    correcting: bool,
    selection: TextSelection,
)
    ensures
        ({
            let s = render::one_pane(
                area,
                orchestrator,
                panes,
                fs,
                frame_count,
                voice,
                correcting,
                selection,
            );
            &&& s.rects == seq![(fs, area)]
            &&& s.hint is None
            &&& fs matches ActivePane::Orchestrator ==> s.frames == seq![
                render::framed(
                    orchestrator,
                    fs,
                    area,
                    true,
                    render::titled("Orchestrator [fullscreen]"@, voice, correcting),
                    frame_count,
                    selection,
                ),
            ] && s.cursor == render::cursor_place(orchestrator.grid@, area)
            &&& fs matches ActivePane::Worker(idx) ==> if idx < panes.len() {
                s.frames == seq![
                    render::framed(
                        *panes[idx as int],
                        fs,
                        area,
                        true,
                        "Pane "@ + text::digits((idx + 1) as nat) + " [fullscreen]"@,
                        frame_count,
                        selection,
                    ),
                ] && s.cursor == render::cursor_place(panes[idx as int].grid@, area)
            } else {
                s.frames.len() == 0 && s.cursor is None
            }
        }),
{
}

/// Whether a box is in the middle of the width of a terminal, as wide as it may be with two
/// columns beside it.
pub open spec fn is_centered(area: Rect, rect: Rect, wide: int) -> bool {
    &&& rect.width <= wide
    &&& area.width >= wide + 4 ==> rect.width == wide
    &&& 4 <= area.width < wide + 4 ==> rect.width + 4 == area.width
    &&& area.width < 4 ==> rect.width == 0
    &&& 2 * rect.x <= area.width - rect.width <= 2 * rect.x + 1
}

/// The box for a directory is centered, a third down or further up where it would not fit, and
/// high enough for the entry, its border and the suggestions, twelve at most. It shows what was
/// entered with the cursor behind it, the number of suggestions, and the suggestions in order,
/// the chosen one marked.
#[verifier::spinoff_prover]
#[verifier::rlimit(40)]
pub proof fn entry_is_shown(
    area: Rect,
    input: Seq<char>,
    suggestions: Seq<Seq<char>>,
    chosen: usize,
)
    requires
        area.width <= u16::MAX - 4,
        area.height <= u16::MAX - 15,
    ensures
        ({
            let b = overlay::cwd_box(area, input, suggestions, chosen);
            let n = if suggestions.len() < 12 {
                suggestions.len() as int
            } else {
                12
            };
            &&& is_centered(area, b.rect, 78)
            &&& b.rect.height == 3 + n
            &&& b.border == Color::Cyan
            &&& b.rect.y + b.rect.height <= area.height || b.rect.y == 0
            &&& 3 * b.rect.y <= area.height
            &&& b.lines.len() == 1 + n
            &&& b.lines[0].len() == 1 && b.lines[0][0].text == seq![' '] + input + seq!['_']
            &&& b.title == "New Pane — "@ + text::digits(suggestions.len()) + if suggestions.len()
                == 1 {
                " match"@
            } else {
                " matches"@
            }
            &&& forall|i: int|
                0 <= i < n ==> {
                    let line = #[trigger] b.lines[1 + i];
                    &&& line.len() == 1
                    &&& i == chosen ==> line[0].text == " > "@ + suggestions[i] && line[0].bold
                        && line[0].color == Some(Color::Cyan)
                    &&& i != chosen ==> line[0].text == "   "@ + suggestions[i] && !line[0].bold
                        && line[0].color == Some(Color::White)
                }
            &&& b.cursor matches Some((x, y)) ==> y == b.rect.y + 1
            &&& text::byte_len(input) + 2 < b.rect.width ==> b.cursor == Some(
                ((b.rect.x + 2 + text::byte_len(input)) as u16, (b.rect.y + 1) as u16),
            )
        }),
{
    reveal_strlit(" ");
    reveal_strlit(" match");
    reveal_strlit(" matches");
    reveal_strlit("es");
    reveal_strlit("");
    let b = overlay::cwd_box(area, input, suggestions, chosen);
    assert(b.lines[0][0].text =~= seq![' '] + input + seq!['_']);
    assert(" match"@ + "es"@ =~= " matches"@);
    assert(" match"@ + ""@ =~= " match"@);
    let head = "New Pane — "@ + text::digits(suggestions.len());
    assert(b.title =~= head + (" match"@ + if suggestions.len() == 1 {
        ""@
    } else {
        "es"@
    }));
}

/// The box for a spoken text shows it with a mark at the cursor, which stands there, at the end
/// where it is beyond the text.
pub proof fn spoken_text_is_shown(area: Rect, said: Seq<char>, cursor: usize)
    requires
        area.width <= u16::MAX - 4,
        area.height <= u16::MAX - 15,
    ensures
        ({
            let b = overlay::stt_box(area, said, cursor);
            let k = if cursor < said.len() {
                cursor as int
            } else {
                said.len() as int
            };
            &&& is_centered(area, b.rect, 78)
            &&& b.rect.height == 4
            &&& b.border == Color::Green
            &&& b.title == "Voice Input — Edit and press Enter to send, Esc to cancel"@
            &&& b.lines.len() == 1 && b.lines[0].len() == 1
            &&& b.lines[0][0].text == seq![' '] + said.take(k) + seq!['|'] + said.skip(k)
            &&& text::byte_len(said.take(k)) + 2 < b.rect.width ==> b.cursor == Some(
                (
                    (b.rect.x + 2 + text::byte_len(said.take(k))) as u16,
                    (b.rect.y + 1) as u16,
                ),
            )
        }),
{
    reveal_strlit(" ");
    let b = overlay::stt_box(area, said, cursor);
    let k = if cursor < said.len() {
        cursor as int
    } else {
        said.len() as int
    };
    assert(b.lines[0][0].text =~= seq![' '] + said.take(k) + seq!['|'] + said.skip(k));
}

/// In a box with two options each has its description below it, and the chosen one is marked.
pub proof fn options_are_shown(
    area: Rect,
    title: Seq<char>,
    first: (Seq<char>, Seq<char>),
    second: (Seq<char>, Seq<char>),
    chosen: usize,
)
    requires
        area.width <= u16::MAX - 4,
        area.height <= u16::MAX - 15,
    ensures
        ({
            let b = overlay::option_box(area, title, first, second, chosen);
            &&& is_centered(area, b.rect, 50)
            &&& b.rect.height == 6
            &&& b.title == title
            &&& b.lines.len() == 4
            &&& b.lines[0][0].text == if chosen == 0 {
                " > "@ + first.0
            } else {
                "   "@ + first.0
            }
            &&& b.border == Color::Cyan && b.cursor is None
            &&& b.lines[0][0].bold == (chosen == 0)
            &&& b.lines[0][0].color == Some(
                if chosen == 0 {
                    Color::Cyan
                } else {
                    Color::White
                },
            )
            &&& b.lines[2][0].color == Some(
                if chosen == 1 {
                    Color::Cyan
                } else {
                    Color::White
                },
            )
            &&& b.lines[1][0].text == "     "@ + first.1
            &&& b.lines[2][0].text == if chosen == 1 {
                " > "@ + second.0
            } else {
                "   "@ + second.0
            }
            &&& b.lines[2][0].bold == (chosen == 1)
            &&& b.lines[3][0].text == "     "@ + second.1
        }),
{
}

/// The two buttons of a box that asks for confirmation: the first does it, the second does not,
/// and the chosen one is marked and bold.
pub open spec fn has_buttons(b: OverlayView, name: Seq<char>, chosen: usize) -> bool {
    &&& b.lines.len() == 3
    &&& b.lines[2].len() == 4
    &&& b.lines[2][1].text == if chosen == 0 {
        "> ["@ + name + "]"@
    } else {
        "  ["@ + name + "]"@
    }
    &&& b.lines[2][1].bold == (chosen == 0)
    &&& chosen == 0 ==> b.lines[2][1].color == Some(Color::Red)
    &&& chosen == 1 ==> b.lines[2][3].color == Some(Color::Cyan)
    &&& b.lines[2][3].text == if chosen == 1 {
        "> [Cancel]"@
    } else {
        "  [Cancel]"@
    }
    &&& b.lines[2][3].bold == (chosen == 1)
}

/// A dialog is a box in the middle of the terminal that says what it asks for: whether to quit,
/// whether to close which pane, counted from one, or what name a session shall have, with what
/// was typed of it. Where no dialog is open there is no box.
#[verifier::spinoff_prover]
#[verifier::rlimit(40)]
pub proof fn dialogs_are_shown(area: Rect, dialog: DialogView, chosen: usize)
    requires
        area.width <= u16::MAX - 4,
        area.height <= u16::MAX - 15,
    ensures
        match overlay::dialog_box(area, dialog, chosen) {
            None => dialog is Closed,
            Some(b) => {
                &&& is_centered(area, b.rect, 50)
                &&& area.height >= b.rect.height ==> 2 * b.rect.y <= area.height - b.rect.height
                    <= 2 * b.rect.y + 1
                &&& match dialog {
                    DialogView::Closed => false,
                    DialogView::ConfirmQuit => {
                        &&& b.title == "Quit CDC?"@
                        &&& b.border == Color::Red
                        &&& b.lines[0][0].text == "All workers will be terminated."@
                        &&& has_buttons(b, "Quit"@, chosen)
                    },
                    DialogView::ConfirmCloseWorker(idx) => {
                        &&& b.title == "Close Pane "@ + text::digits((idx + 1) as nat) + "?"@
                        &&& b.border == Color::Yellow
                        &&& b.lines[0][0].text == "Pane process will be killed."@
                        &&& has_buttons(b, "Close"@, chosen)
                    },
                    DialogView::SaveSession(name) => {
                        &&& b.title == "Save Session"@
                        &&& b.border == Color::Green
                        &&& b.lines.len() == 1
                        &&& b.lines[0][0].text == "Name (Enter=auto): "@ + name + seq!['_']
                    },
                }
            },
        },
{
    reveal_strlit("> [Quit]");
    reveal_strlit("  [Quit]");
    reveal_strlit("> [Close]");
    reveal_strlit("  [Close]");
    reveal_strlit("Quit");
    reveal_strlit("Close");
    reveal_strlit("> [");
    reveal_strlit("  [");
    reveal_strlit("]");
    assert("> ["@ + "Quit"@ + "]"@ =~= "> [Quit]"@);
    assert("  ["@ + "Quit"@ + "]"@ =~= "  [Quit]"@);
    assert("> ["@ + "Close"@ + "]"@ =~= "> [Close]"@);
    assert("  ["@ + "Close"@ + "]"@ =~= "  [Close]"@);
    match dialog {
        DialogView::SaveSession(name) => {
            let b = overlay::dialog_box(area, dialog, chosen).unwrap();
            assert(b.lines[0][0].text =~= "Name (Enter=auto): "@ + name + seq!['_']);
        },
        _ => {},
    }
}

} // verus!
