//! Dialogs over the panes.

use crate::app::dialog::{Dialog, DialogView};
use crate::style::Color;
use crate::text;
use crate::text::{byte_len_of, chars_of, push_digits, push_text, slice_of, to_text};
use crate::ui::layout::Rect;
use vstd::prelude::*;

verus! {

/// A piece of text with its style.
pub struct StyledText {
    pub text: String,
    pub color: Option<Color>,
    pub bold: bool,
}

/// A piece of text with its style, as a sequence.
pub struct StyledView {
    pub text: Seq<char>,
    pub color: Option<Color>,
    pub bold: bool,
}

impl View for StyledText {
    type V = StyledView;

    open spec fn view(&self) -> StyledView {
        StyledView { text: self.text@, color: self.color, bold: self.bold }
    }
}

/// A box over the panes: its border and title, its lines, and the place of the cursor.
pub struct Overlay {
    pub rect: Rect,
    pub border: Color,
    pub title: String,
    pub lines: Vec<Vec<StyledText>>,
    pub cursor: Option<(u16, u16)>,
}

/// A box over the panes, with texts as sequences.
pub struct OverlayView {
    pub rect: Rect,
    pub border: Color,
    pub title: Seq<char>,
    pub lines: Seq<Seq<StyledView>>,
    pub cursor: Option<(u16, u16)>,
}

/// The contents of a line.
pub open spec fn piece_views(line: Seq<StyledText>) -> Seq<StyledView> {
    Seq::new(line.len(), |i: int| line[i]@)
}

/// The contents of lines.
pub open spec fn line_views(lines: Seq<Vec<StyledText>>) -> Seq<Seq<StyledView>> {
    Seq::new(lines.len(), |i: int| piece_views(lines[i]@))
}

impl View for Overlay {
    type V = OverlayView;

    open spec fn view(&self) -> OverlayView {
        OverlayView {
            rect: self.rect,
            border: self.border,
            title: self.title@,
            lines: line_views(self.lines@),
            cursor: self.cursor,
        }
    }
}

/// Text without a style.
pub open spec fn unstyled(t: Seq<char>) -> StyledView {
    StyledView { text: t, color: None, bold: false }
}

/// Text in a colour.
pub open spec fn colored(t: Seq<char>, color: Color, bold: bool) -> StyledView {
    StyledView { text: t, color: Some(color), bold }
}

/// A row that can be chosen: marked, and in `color`, where it is the chosen one.
pub open spec fn choice(marked: Seq<char>, plain: Seq<char>, chosen: bool, color: Color) -> StyledView {
    if chosen {
        colored(marked, color, true)
    } else {
        colored(plain, Color::White, false)
    }
}

/// `a - b`, zero where `b` is larger.
pub open spec fn less(a: int, b: int) -> int {
    if a < b {
        0
    } else {
        a - b
    }
}

/// The smaller of two numbers.
pub open spec fn least(a: int, b: int) -> int {
    if a < b {
        a
    } else {
        b
    }
}

/// The width of a box, at most `wide`, with some room beside it.
pub open spec fn box_width(area: Rect, wide: int) -> int {
    least(wide, less(area.width as int, 4))
}

/// A box in the middle of the width, a third down.
pub open spec fn upper_box(area: Rect, wide: int, height: int) -> Rect {
    let width = box_width(area, wide);
    Rect::at(
        ((area.width - width) / 2) as u16,
        least(area.height as int / 3, less(area.height as int, height)) as u16,
        width as u16,
        height as u16,
    )
}

/// A box in the middle.
pub open spec fn middle_box(area: Rect, wide: int, height: int) -> Rect {
    let width = box_width(area, wide);
    Rect::at(
        ((area.width - width) / 2) as u16,
        (less(area.height as int, height) / 2) as u16,
        width as u16,
        height as u16,
    )
}

/// The place of the cursor behind `bytes` bytes of text in the first line of a box, if it is
/// inside the box.
pub open spec fn cursor_behind(rect: Rect, bytes: nat) -> Option<(u16, u16)> {
    let x = rect.x + 2 + bytes % 65536;
    let y = rect.y + 1;
    if x < rect.x + rect.width && y < rect.y + rect.height {
        Some((x as u16, y as u16))
    } else {
        None
    }
}

fn width_of(area: Rect, wide: u16) -> (w: u16)
    ensures
        w == box_width(area, wide as int),
        w <= area.width,
{
    let room = area.width.saturating_sub(4);
    if wide < room {
        wide
    } else {
        room
    }
}

fn upper_rect(area: Rect, wide: u16, height: u16) -> (r: Rect)
    ensures
        r == upper_box(area, wide as int, height as int),
        r.wf(),
{
    let width = width_of(area, wide);
    let third = area.height / 3;
    let lowest = area.height.saturating_sub(height);
    let y = if third < lowest {
        third
    } else {
        lowest
    };
    Rect::new((area.width - width) / 2, y, width, height)
}

fn middle_rect(area: Rect, wide: u16, height: u16) -> (r: Rect)
    ensures
        r == middle_box(area, wide as int, height as int),
        r.wf(),
{
    let width = width_of(area, wide);
    Rect::new((area.width - width) / 2, area.height.saturating_sub(height) / 2, width, height)
}

fn cursor_at(rect: Rect, bytes: u128) -> (r: Option<(u16, u16)>)
    requires
        rect.wf(),
    ensures
        r == cursor_behind(rect, bytes as nat),
{
    let behind: u32 = (bytes % 65536) as u32;
    let x: u32 = rect.x as u32 + 2 + behind;
    let y: u32 = rect.y as u32 + 1;
    if x < rect.x as u32 + rect.width as u32 && y < rect.y as u32 + rect.height as u32 {
        Some((x as u16, y as u16))
    } else {
        None
    }
}

fn raw(t: String) -> (r: StyledText)
    ensures
        r@ == unstyled(t@),
{
    StyledText { text: t, color: None, bold: false }
}

fn painted(t: String, color: Color, bold: bool) -> (r: StyledText)
    ensures
        r@ == colored(t@, color, bold),
{
    StyledText { text: t, color: Some(color), bold }
}

fn chooser(marked: &str, plain: &str, chosen: bool, color: Color) -> (r: StyledText)
    ensures
        r@ == choice(marked@, plain@, chosen, color),
{
    if chosen {
        painted(marked.to_owned(), color, true)
    } else {
        painted(plain.to_owned(), Color::White, false)
    }
}

/// Appends a line of one piece.
fn push_line(lines: &mut Vec<Vec<StyledText>>, piece: StyledText)
    ensures
        line_views(final(lines)@) == line_views(old(lines)@).push(seq![piece@]),
{
    let mut line: Vec<StyledText> = Vec::new();
    let ghost p = piece@;
    line.push(piece);
    assert(piece_views(line@) =~= seq![p]);
    let ghost before = line_views(lines@);
    let ghost l = piece_views(line@);
    lines.push(line);
    assert(line_views(lines@) =~= before.push(l));
}

/// Suggestions that are shown at once.
pub const MAX_VISIBLE: usize = 12;

/// The lines of suggestions, the chosen one marked.
pub open spec fn suggestion_lines(suggestions: Seq<Seq<char>>, chosen: usize, n: int) -> Seq<
    Seq<StyledView>,
> {
    Seq::new(
        n as nat,
        |i: int|
            seq![
                if i == chosen {
                    colored(" > "@ + suggestions[i], Color::Cyan, true)
                } else {
                    colored("   "@ + suggestions[i], Color::White, false)
                },
            ],
    )
}

/// The box for the directory of a new pane.
pub open spec fn cwd_box(
    area: Rect,
    input: Seq<char>,
    suggestions: Seq<Seq<char>>,
    chosen: usize,
) -> OverlayView {
    let n = least(suggestions.len() as int, MAX_VISIBLE as int);
    let rect = upper_box(area, 78, 3 + n);
    OverlayView {
        rect,
        border: Color::Cyan,
        title: "New Pane — "@ + text::digits(suggestions.len()) + " match"@ + if suggestions.len()
            == 1 {
            ""@
        } else {
            "es"@
        },
        lines: seq![seq![unstyled((" "@ + input).push('_'))]] + suggestion_lines(
            suggestions,
            chosen,
            n,
        ),
        cursor: cursor_behind(rect, text::byte_len(input)),
    }
}

/// Render a centered input overlay for cwd entry with optional suggestions.
pub fn render_cwd_input(
    area: Rect,
    input: &str,
    suggestions: &Vec<String>,
    selected_idx: usize,
) -> (r: Overlay)
    ensures
        r@ == cwd_box(area, input@, text::strings(suggestions@), selected_idx),
{
    let ghost all = text::strings(suggestions@);
    let visible = if suggestions.len() < MAX_VISIBLE {
        suggestions.len()
    } else {
        MAX_VISIBLE
    };
    let rect = upper_rect(area, 78, 3 + visible as u16);
    let mut first = " ".to_owned();
    push_text(&mut first, input);
    first.push('_');
    let mut lines: Vec<Vec<StyledText>> = Vec::new();
    let ghost head = seq![seq![unstyled(first@)]];
    push_line(&mut lines, raw(first));
    assert(line_views(lines@) =~= head);
    let ghost shown = suggestion_lines(all, selected_idx, visible as int);
    let mut i: usize = 0;
    assert(line_views(lines@) =~= head + shown.take(0));
    while i < visible
        invariant
            i <= visible <= suggestions.len(),
            all == text::strings(suggestions@),
            shown == suggestion_lines(all, selected_idx, visible as int),
            line_views(lines@) == head + shown.take(i as int),
        decreases visible - i,
    {
        let ghost before = line_views(lines@);
        let chosen = i == selected_idx;
        let mut t = if chosen {
            " > ".to_owned()
        } else {
            "   ".to_owned()
        };
        push_text(&mut t, suggestions[i].as_str());
        let piece = if chosen {
            painted(t, Color::Cyan, true)
        } else {
            painted(t, Color::White, false)
        };
        let ghost p = piece@;
        push_line(&mut lines, piece);
        assert(shown[i as int] =~= seq![p]);
        i = i + 1;
        assert(shown.take(i as int) =~= shown.take(i - 1).push(seq![p]));
        assert(line_views(lines@) =~= head + shown.take(i as int));
    }
    assert(shown.take(visible as int) =~= shown);
    let mut title = "New Pane — ".to_owned();
    push_digits(&mut title, suggestions.len() as u128);
    push_text(&mut title, " match");
    if suggestions.len() == 1 {
        push_text(&mut title, "");
    } else {
        push_text(&mut title, "es");
    }
    let bytes = byte_len_of(&chars_of(input));
    Overlay { rect, border: Color::Cyan, title, lines, cursor: cursor_at(rect, bytes) }
}

/// The box for a spoken text, with the cursor at a character of it.
pub open spec fn stt_box(area: Rect, said: Seq<char>, cursor: usize) -> OverlayView {
    let k = least(cursor as int, said.len() as int);
    let rect = upper_box(area, 78, 4);
    OverlayView {
        rect,
        border: Color::Green,
        title: "Voice Input — Edit and press Enter to send, Esc to cancel"@,
        lines: seq![seq![unstyled((" "@ + said.take(k)).push('|') + said.skip(k))]],
        cursor: cursor_behind(rect, text::byte_len(said.take(k))),
    }
}

/// Render STT confirmation dialog with editable text.
pub fn render_stt_confirm(area: Rect, said: &str, cursor: usize) -> (r: Overlay)
    ensures
        r@ == stt_box(area, said@, cursor),
{
    let rect = upper_rect(area, 78, 4);
    let chars = chars_of(said);
    let k = if cursor < chars.len() {
        cursor
    } else {
        chars.len()
    };
    let before = slice_of(&chars, 0, k);
    let after = slice_of(&chars, k, chars.len());
    assert(before@ =~= said@.take(k as int));
    assert(after@ =~= said@.skip(k as int));
    let mut display = " ".to_owned();
    push_text(&mut display, to_text(&before).as_str());
    display.push('|');
    push_text(&mut display, to_text(&after).as_str());
    let mut lines: Vec<Vec<StyledText>> = Vec::new();
    let ghost d = display@;
    push_line(&mut lines, raw(display));
    assert(line_views(lines@) =~= seq![seq![unstyled(d)]]);
    Overlay {
        rect,
        border: Color::Green,
        title: "Voice Input — Edit and press Enter to send, Esc to cancel".to_owned(),
        lines,
        cursor: cursor_at(rect, byte_len_of(&before)),
    }
}

/// A box with two options, each with a description below it.
pub open spec fn option_box(
    area: Rect,
    title: Seq<char>,
    first: (Seq<char>, Seq<char>),
    second: (Seq<char>, Seq<char>),
    chosen: usize,
) -> OverlayView {
    OverlayView {
        rect: upper_box(area, 50, 6),
        border: Color::Cyan,
        title,
        lines: seq![
            seq![choice(" > "@ + first.0, "   "@ + first.0, chosen == 0, Color::Cyan)],
            seq![colored("     "@ + first.1, Color::DarkGray, false)],
            seq![choice(" > "@ + second.0, "   "@ + second.0, chosen == 1, Color::Cyan)],
            seq![colored("     "@ + second.1, Color::DarkGray, false)],
        ],
        cursor: None,
    }
}

fn prefixed(prefix: &str, t: &str) -> (r: String)
    ensures
        r@ == prefix@ + t@,
{
    let mut r = prefix.to_owned();
    push_text(&mut r, t);
    r
}

fn push_option(lines: &mut Vec<Vec<StyledText>>, label: &str, about: &str, chosen: bool)
    ensures
        line_views(final(lines)@) == line_views(old(lines)@).push(
            seq![choice(" > "@ + label@, "   "@ + label@, chosen, Color::Cyan)],
        ).push(seq![colored("     "@ + about@, Color::DarkGray, false)]),
{
    let marked = prefixed(" > ", label);
    let plain = prefixed("   ", label);
    push_line(lines, chooser(marked.as_str(), plain.as_str(), chosen, Color::Cyan));
    push_line(lines, painted(prefixed("     ", about), Color::DarkGray, false));
}

fn render_options(
    area: Rect,
    title: &str,
    first: (&str, &str),
    second: (&str, &str),
    chosen: usize,
) -> (r: Overlay)
    ensures
        r@ == option_box(
            area,
            title@,
            (first.0@, first.1@),
            (second.0@, second.1@),
            chosen,
        ),
{
    let mut lines: Vec<Vec<StyledText>> = Vec::new();
    push_option(&mut lines, first.0, first.1, chosen == 0);
    push_option(&mut lines, second.0, second.1, chosen == 1);
    assert(line_views(lines@) =~= option_box(
        area,
        title@,
        (first.0@, first.1@),
        (second.0@, second.1@),
        chosen,
    ).lines);
    Overlay {
        rect: upper_rect(area, 50, 6),
        border: Color::Cyan,
        title: title.to_owned(),
        lines,
        cursor: None,
    }
}

/// Render execution mode selection dialog: the assistant, under its name, or a terminal.
pub fn render_mode_select(area: Rect, assistant: &str, selected: usize) -> (r: Overlay)
    ensures
        r@ == option_box(
            area,
            "Pane Type — ↑↓ select, Enter confirm, Esc cancel"@,
            (assistant@, "AI-powered coding assistant"@),
            ("Terminal"@, "Plain shell (zsh/bash)"@),
            selected,
        ),
{
    render_options(
        area,
        "Pane Type — ↑↓ select, Enter confirm, Esc cancel",
        (assistant, "AI-powered coding assistant"),
        ("Terminal", "Plain shell (zsh/bash)"),
        selected,
    )
}

/// Render permission mode selection dialog.
pub fn render_perm_select(area: Rect, selected: usize) -> (r: Overlay)
    ensures
        r@ == option_box(
            area,
            "Permission Mode — ↑↓ select, Enter confirm, Esc cancel"@,
            ("Skip Permissions"@, "--dangerously-skip-permissions"@),
            ("Normal"@, "Requires permission for each action"@),
            selected,
        ),
{
    render_options(
        area,
        "Permission Mode — ↑↓ select, Enter confirm, Esc cancel",
        ("Skip Permissions", "--dangerously-skip-permissions"),
        ("Normal", "Requires permission for each action"),
        selected,
    )
}

/// A box that asks for confirmation, with two buttons.
pub open spec fn confirm_box(
    area: Rect,
    border: Color,
    title: Seq<char>,
    message: Seq<char>,
    yes: (Seq<char>, Seq<char>),
    chosen: usize,
) -> OverlayView {
    OverlayView {
        rect: middle_box(area, 50, 6),
        border,
        title,
        lines: seq![
            seq![unstyled(message)],
            seq![unstyled(""@)],
            seq![
                unstyled("  "@),
                choice(yes.0, yes.1, chosen == 0, Color::Red),
                unstyled("   "@),
                choice("> [Cancel]"@, "  [Cancel]"@, chosen == 1, Color::Cyan),
            ],
        ],
        cursor: None,
    }
}

fn render_confirm(
    area: Rect,
    border: Color,
    title: String,
    message: &str,
    yes: (&str, &str),
    chosen: usize,
) -> (r: Overlay)
    ensures
        r@ == confirm_box(area, border, title@, message@, (yes.0@, yes.1@), chosen),
{
    let mut lines: Vec<Vec<StyledText>> = Vec::new();
    push_line(&mut lines, raw(message.to_owned()));
    push_line(&mut lines, raw("".to_owned()));
    let mut buttons: Vec<StyledText> = Vec::new();
    buttons.push(raw("  ".to_owned()));
    buttons.push(chooser(yes.0, yes.1, chosen == 0, Color::Red));
    buttons.push(raw("   ".to_owned()));
    buttons.push(chooser("> [Cancel]", "  [Cancel]", chosen == 1, Color::Cyan));
    let ghost b = piece_views(buttons@);
    let ghost before = line_views(lines@);
    lines.push(buttons);
    assert(line_views(lines@) =~= before.push(b));
    let ghost expected = confirm_box(
        area,
        border,
        title@,
        message@,
        (yes.0@, yes.1@),
        chosen,
    ).lines;
    assert(b =~= expected[2]);
    assert(line_views(lines@) =~= expected);
    Overlay { rect: middle_rect(area, 50, 6), border, title, lines, cursor: None }
}

/// The box of a dialog, if it has one.
pub open spec fn dialog_box(area: Rect, dialog: DialogView, chosen: usize) -> Option<OverlayView> {
    match dialog {
        DialogView::ConfirmQuit => Some(
            confirm_box(
                area,
                Color::Red,
                "Quit CDC?"@,
                "All workers will be terminated."@,
                ("> [Quit]"@, "  [Quit]"@),
                chosen,
            ),
        ),
        DialogView::ConfirmCloseWorker(idx) => Some(
            confirm_box(
                area,
                Color::Yellow,
                "Close Pane "@ + text::digits((idx + 1) as nat) + "?"@,
                "Pane process will be killed."@,
                ("> [Close]"@, "  [Close]"@),
                chosen,
            ),
        ),
        DialogView::SaveSession(input) => Some(
            OverlayView {
                rect: middle_box(area, 50, 4),
                border: Color::Green,
                title: "Save Session"@,
                lines: seq![seq![unstyled(("Name (Enter=auto): "@ + input).push('_'))]],
                cursor: None,
            },
        ),
        DialogView::Closed => None,
    }
}

/// Render a confirmation/input dialog overlay.
pub fn render_dialog(area: Rect, dialog: &Dialog, selected: usize) -> (r: Option<Overlay>)
    ensures
        match r {
            Some(overlay) => dialog_box(area, dialog@, selected) == Some(overlay@),
            None => dialog_box(area, dialog@, selected) is None,
        },
{
    match dialog {
        Dialog::ConfirmQuit => Some(
            render_confirm(
                area,
                Color::Red,
                "Quit CDC?".to_owned(),
                "All workers will be terminated.",
                ("> [Quit]", "  [Quit]"),
                selected,
            ),
        ),
        Dialog::ConfirmCloseWorker(idx) => {
            let mut title = "Close Pane ".to_owned();
            push_digits(&mut title, *idx as u128 + 1);
            push_text(&mut title, "?");
            Some(
                render_confirm(
                    area,
                    Color::Yellow,
                    title,
                    "Pane process will be killed.",
                    ("> [Close]", "  [Close]"),
                    selected,
                ),
            )
        },
        Dialog::SaveSession(input) => {
            let mut t = prefixed("Name (Enter=auto): ", input.as_str());
            t.push('_');
            let mut lines: Vec<Vec<StyledText>> = Vec::new();
            let ghost content = t@;
            push_line(&mut lines, raw(t));
            assert(line_views(lines@) =~= seq![seq![unstyled(content)]]);
            Some(
                Overlay {
                    rect: middle_rect(area, 50, 4),
                    border: Color::Green,
                    title: "Save Session".to_owned(),
                    lines,
                    cursor: None,
                },
            )
        },
        Dialog::Closed => None,
    }
}

} // verus!
