//! Laws of spoken commands: their correction and their delivery, and of the output of programs.

use crate::app::state::{ActionView, AppView, CorrectionView, ManagedView};
use crate::correction;
use crate::pane::extract;
use crate::pane::laws;
use crate::pane::state::GridState;
use crate::pane::PaneStatus;
use crate::pty;
use crate::pty::PtyEventView;
use crate::route;
use crate::text;
use crate::text_laws;
use crate::ui::ActivePane;
use crate::voice::{VoiceEventView, VoiceStateView};
use crate::vt;
use vstd::prelude::*;
use vstd::utf8;

verus! {

/// The prompt for a correction: what is asked for, the spoken text, and on a line of its own an
/// example of an answer between the markers.
pub proof fn prompt_asks_for_a_correction(raw: Seq<char>)
    ensures
        correction::prompt(raw)
            == "다음 음성 명령의 오타를 보정해서 [CDC_CORRECT] 태그 안에 결과만 출력해: "@ + raw
            + "\n예시: [CDC_CORRECT]보정된 텍스트[/CDC_CORRECT]"@,
{
    reveal_strlit("예시: [CDC_CORRECT]보정된 텍스트[/CDC_CORRECT]");
    reveal_strlit("\n예시: [CDC_CORRECT]보정된 텍스트[/CDC_CORRECT]");
    let start = "다음 음성 명령의 오타를 보정해서 [CDC_CORRECT] 태그 안에 결과만 출력해: "@ + raw;
    assert("\n예시: [CDC_CORRECT]보정된 텍스트[/CDC_CORRECT]"@ =~= seq!['\n']
        + correction::prompt_example());
    assert(correction::prompt(raw) =~= start
        + "\n예시: [CDC_CORRECT]보정된 텍스트[/CDC_CORRECT]"@);
}

/// What stands on the screen between the markers is the corrected text, without the white space
/// around it, whatever stands around the markers.
pub proof fn marked_text_is_the_correction(
    pre: Seq<char>,
    content: Seq<char>,
    post: Seq<char>,
    raw: Seq<char>,
)
    requires
        text::trim(content).len() > 0,
        forall|j: int|
            0 <= j < pre.len() ==> !(#[trigger] text::occurs_at(
                pre + "[CDC_CORRECT]"@ + content + "[/CDC_CORRECT]"@ + post,
                "[CDC_CORRECT]"@,
                j,
            )),
        forall|j: int|
            pre.len() + 13 <= j < pre.len() + 13 + content.len() ==> !(#[trigger] text::occurs_at(
                pre + "[CDC_CORRECT]"@ + content + "[/CDC_CORRECT]"@ + post,
                "[/CDC_CORRECT]"@,
                j,
            )),
    ensures
        correction::corrected(
            pre + "[CDC_CORRECT]"@ + content + "[/CDC_CORRECT]"@ + post,
            raw,
        ) == text::trim(content),
{
    reveal_strlit("[CDC_CORRECT]");
    laws::marked_content_is_found(pre, "[CDC_CORRECT]"@, content, "[/CDC_CORRECT]"@, post);
}

/// Without markers on the screen the line that looks like the correction is taken, and without
/// such a line the text as it was spoken.
pub proof fn guessed_text_is_the_correction(screen: Seq<char>, raw: Seq<char>)
    requires
        !text_laws::has_inside(screen, "[CDC_CORRECT]"@) || !text_laws::has_inside(
            screen,
            "[/CDC_CORRECT]"@,
        ),
    ensures
        correction::corrected(screen, raw) == match correction::guessed(screen, raw) {
            Some(line) => line,
            None => raw,
        },
{
    crate::pane::extract_laws::nothing_is_between(screen, "[CDC_CORRECT]"@, "[/CDC_CORRECT]"@);
}

/// Whether a line on the screen can be the corrected text: three bytes long at least, not what
/// was spoken, not the prompt, and neither input of the user nor a fence.
pub open spec fn can_be_correction(line: Seq<char>, raw: Seq<char>) -> bool {
    let none = Seq::<char>::empty();
    &&& text::byte_len(line) >= 3
    &&& line != raw
    &&& !(text_laws::has_inside(line, "음성 명령"@) && text_laws::has_inside(line, "보정"@))
    &&& !text_laws::has_inside(line, "[CDC_CORRECT]"@)
    &&& !text_laws::stands_behind(line, ">"@, none)
    &&& !text_laws::stands_behind(line, "❯"@, none)
    &&& !text_laws::stands_behind(line, "```"@, none)
}

proof fn may_be_is_can_be(line: Seq<char>, raw: Seq<char>)
    ensures
        correction::may_be_correction(line, raw) <==> can_be_correction(line, raw),
{
    text_laws::holding_is_having_inside(line, "음성 명령"@);
    text_laws::holding_is_having_inside(line, "보정"@);
    text_laws::holding_is_having_inside(line, "[CDC_CORRECT]"@);
    text_laws::standing_is_having_a_front(line, ">"@, 0);
    text_laws::standing_is_having_a_front(line, "❯"@, 0);
    text_laws::standing_is_having_a_front(line, "```"@, 0);
    assert(line.take(0) =~= Seq::<char>::empty());
}

/// Without markers the corrected text is the last line on the screen that can be it, without the
/// white space around it.
pub proof fn last_fitting_line_is_the_correction(lines: Seq<Seq<char>>, raw: Seq<char>, n: int)
    requires
        0 <= n < lines.len(),
        can_be_correction(text::trim(lines[n]), raw),
        forall|k: int|
            n < k < lines.len() ==> !can_be_correction(text::trim(#[trigger] lines[k]), raw),
    ensures
        correction::last_correction(lines, raw) == Some(text::trim(lines[n])),
    decreases lines.len(),
{
    may_be_is_can_be(text::trim(lines.last()), raw);
    if n < lines.len() - 1 {
        assert(!can_be_correction(text::trim(lines[lines.len() - 1]), raw));
        let front = lines.drop_last();
        assert forall|k: int| n < k < front.len() implies !can_be_correction(
            text::trim(#[trigger] front[k]),
            raw,
        ) by {
            assert(front[k] == lines[k]);
        }
        last_fitting_line_is_the_correction(front, raw, n);
    }
}

/// Where no line can be it, there is none.
pub proof fn no_line_is_the_correction(lines: Seq<Seq<char>>, raw: Seq<char>)
    requires
        forall|k: int|
            0 <= k < lines.len() ==> !can_be_correction(text::trim(#[trigger] lines[k]), raw),
    ensures
        correction::last_correction(lines, raw) is None,
    decreases lines.len(),
{
    if lines.len() > 0 {
        may_be_is_can_be(text::trim(lines.last()), raw);
        assert(!can_be_correction(text::trim(lines[lines.len() - 1]), raw));
        let front = lines.drop_last();
        assert forall|k: int| 0 <= k < front.len() implies !can_be_correction(
            text::trim(#[trigger] front[k]),
            raw,
        ) by {
            assert(front[k] == lines[k]);
        }
        no_line_is_the_correction(front, raw);
    }
}

/// Lines of a text, with line feeds between them, are what the text is searched by for a
/// correction.
pub proof fn screens_are_searched_by_lines(screen: Seq<char>, raw: Seq<char>)
    ensures
        exists|lines: Seq<Seq<char>>|
            {
                &&& screen == text_laws::with_between(lines, '\n')
                &&& forall|i: int|
                    0 <= i < lines.len() ==> text_laws::is_free_of(#[trigger] lines[i], '\n')
                &&& correction::guessed(screen, raw) == #[trigger] correction::last_correction(
                    lines,
                    text::trim(raw),
                )
            },
{
    let lines = text::split_at_char(screen, '\n');
    text_laws::splitting(screen, '\n');
    assert(correction::guessed(screen, raw) == correction::last_correction(
        lines,
        text::trim(raw),
    ));
}

/// A setting is the number that it holds, and the default where it is missing or holds none.
pub proof fn settings_are_numbers(n: nat, value: Seq<char>, default: u64)
    ensures
        n <= u64::MAX ==> correction::setting(Some(text::digits(n)), default) == n,
        correction::setting(None, default) == default,
        value.len() == 0 ==> correction::setting(Some(value), default) == default,
        value.len() > 0 && !text::is_digit(value.last()) ==> correction::setting(
            Some(value),
            default,
        ) == default,
{
    text_laws::numbers_are_parsed(n, u64::MAX as nat, value);
    if value.len() > 0 && !text::is_digit(value.last()) {
        assert(value.last() == value[value.len() - 1]);
        assert(text::parsed(value, u64::MAX as nat) is None) by {
            if text::parsed(value, u64::MAX as nat) is Some {
                if value.len() == 1 {
                    assert(value[0] == '+');
                    assert(value.drop_first().len() == 0);
                }
            }
        }
    }
}

/// A text that names a worker that is there and runs is typed there, with a line feed behind it,
/// and nowhere else; one that names another worker is dropped; one that names none is typed to
/// the orchestrator.
pub proof fn texts_are_delivered(
    s: AppView,
    said: Seq<char>,
    target: Option<(nat, Seq<char>)>,
)
    ensures
        match target {
            Some((idx, content)) => if idx < s.workers.len() && s.workers[idx as int].status
                == PaneStatus::Running {
                s.delivered(said, target) == seq![
                    ActionView::Write {
                        pane: ActivePane::Worker(idx as usize),
                        bytes: utf8::encode_utf8(content + seq!['\n']),
                    },
                ]
            } else {
                s.delivered(said, target).len() == 0
            },
            None => s.delivered(said, target) == seq![
                ActionView::Write {
                    pane: ActivePane::Orchestrator,
                    bytes: utf8::encode_utf8(said + seq!['\n']),
                },
            ],
        },
{
    assert(said.push('\n') =~= said + seq!['\n']);
    match target {
        Some((idx, content)) => {
            assert(content.push('\n') =~= content + seq!['\n']);
        },
        None => {},
    }
}

/// A spoken text goes to the worker that it names.
pub proof fn texts_are_routed(s: AppView, said: Seq<char>)
    ensures
        s.routed(said) == s.delivered(said, route::route(said, route::lowered(text::trim(said)))),
{
}

/// A spoken text is sent to an orchestrator that takes it, in a prompt, and awaited until the
/// time is up; else it goes where it belongs at once.
pub proof fn spoken_texts_are_taken_in(
    s: AppView,
    said: Seq<char>,
    now: u64,
    timeout: u64,
    blocked: bool,
)
    requires
        s.correction is Idle,
    ensures
        ({
            let (t, actions) = s.voice_event(
                VoiceEventView::Transcribed(said),
                now,
                timeout,
                blocked,
            );
            &&& t.voice == VoiceStateView::Idle
            &&& t == AppView { voice: t.voice, correction: t.correction, ..s }
            &&& s.orchestrator.status == PaneStatus::Running && !blocked ==> {
                &&& actions == seq![
                    ActionView::Write {
                        pane: ActivePane::Orchestrator,
                        bytes: utf8::encode_utf8(correction::prompt(said) + seq!['\n']),
                    },
                ]
                &&& t.correction matches CorrectionView::Waiting { raw, ceiling } && raw == said
                    && (now + timeout <= u64::MAX ==> ceiling == now + timeout)
            }
            &&& s.orchestrator.status != PaneStatus::Running || blocked ==> {
                &&& actions == s.routed(said)
                &&& t.correction is Idle
            }
        }),
{
    let p = correction::prompt(said);
    assert(p.push('\n') =~= p + seq!['\n']);
    let (t, actions) = s.voice_event(VoiceEventView::Transcribed(said), now, timeout, blocked);
    if s.orchestrator.status == PaneStatus::Running && !blocked {
        assert(actions =~= seq![
            ActionView::Write {
                pane: ActivePane::Orchestrator,
                bytes: utf8::encode_utf8(p + seq!['\n']),
            },
        ]);
    } else {
        assert(actions =~= s.routed(said));
    }
}

/// Other events of voice input change what is shown of it and nothing else.
pub proof fn voice_input_is_shown(
    s: AppView,
    event: VoiceEventView,
    now: u64,
    timeout: u64,
    blocked: bool,
)
    requires
        !(event is Transcribed),
    ensures
        ({
            let (t, actions) = s.voice_event(event, now, timeout, blocked);
            &&& actions.len() == 0
            &&& t == AppView { voice: t.voice, ..s }
            &&& t.voice == match event {
                VoiceEventView::StateChanged(state) => state,
                VoiceEventView::DownloadProgress(dl, total) => VoiceStateView::Downloading(
                    dl,
                    total,
                ),
                VoiceEventView::Error(msg) => VoiceStateView::Error(msg),
                VoiceEventView::Transcribed(_) => t.voice,
            }
        }),
{
}

/// A correction is taken when the time is up, or when the orchestrator has written something and
/// has been silent for longer than the set time since; until then nothing happens. What is taken
/// is the corrected text on the screen of the orchestrator, and it goes where it belongs.
pub proof fn corrections_are_taken(
    s: AppView,
    raw: Seq<char>,
    ceiling: u64,
    now: u64,
    quiescence: u64,
)
    requires
        s.correction == (CorrectionView::Waiting { raw, ceiling }),
    ensures
        ({
            let (t, actions) = s.correction_checked(now, quiescence);
            let silent = s.orchestrator.last_output matches Some(at) && now > at + quiescence;
            if now >= ceiling || silent {
                &&& t == AppView { correction: CorrectionView::Idle, ..s }
                &&& actions == s.routed(
                    correction::corrected(
                        extract::screen_text(s.orchestrator.grid.cells),
                        raw,
                    ),
                )
            } else {
                t == s && actions.len() == 0
            }
        }),
{
}

/// A read that failed or brought nothing is the end of a program, and any other is its output.
pub proof fn reads_mean_output_or_the_end(data: Seq<u8>)
    ensures
        pty::read_means(None) is Exited,
        data.len() == 0 ==> pty::read_means(Some(data)) is Exited,
        data.len() > 0 ==> pty::read_means(Some(data)) == PtyEventView::Output(data),
{
}

/// Output of a program goes to its screen, behind what it wrote before, and the moment is noted;
/// its end is noted with its exit code, zero where that is not known. Nothing else changes.
pub proof fn output_is_taken_in(p: ManagedView, data: Seq<u8>, now: u64, code: Option<i32>)
    ensures
        ({
            let q = p.after(PtyEventView::Output(data), now, code);
            &&& q == ManagedView { grid: q.grid, fed: p.fed + data, last_output: Some(now), ..p }
            &&& q.grid == p.grid.applied_all(vt::vt_actions_all(p.fed, data))
        }),
        ({
            let q = p.after(PtyEventView::Exited, now, code);
            &&& q == ManagedView { status: q.status, ..p }
            &&& q.status == PaneStatus::Exited(
                if code is Some {
                    code.unwrap()
                } else {
                    0
                },
            )
        }),
        p.answered().grid == (GridState { response: seq![], ..p.grid }),
        p.answered() == (ManagedView { grid: p.answered().grid, ..p }),
{
}

/// A pane that was just started runs, with a fresh screen, and has written nothing.
pub proof fn panes_start_fresh(
    id: u32,
    name: Seq<char>,
    cols: u16,
    rows: u16,
    cwd: Option<Seq<char>>,
)
    ensures
        ({
            let p = ManagedView::started(id, name, cols, rows, cwd);
            &&& p.id == id && p.name == name && p.cwd == cwd
            &&& p.status == PaneStatus::Running
            &&& p.grid == GridState::fresh(cols, rows)
            &&& p.fed.len() == 0 && p.last_output is None
        }),
{
}

} // verus!
