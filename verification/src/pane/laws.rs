//! Laws of the terminal screen.

use crate::pane;
use crate::pane::extract;
use crate::pane::state;
use crate::pane::state::{Cell, CellAttr, GridState};
use crate::text;
use crate::vt;
use crate::vt::VtActionView;
use crate::width;
use vstd::prelude::*;

verus! {

/// Sizes, kept screen and kept cursor of two states are the same.
pub open spec fn same_frame(s: GridState, t: GridState) -> bool {
    &&& s.cols == t.cols
    &&& s.rows == t.rows
    &&& s.saved_screen == t.saved_screen
    &&& s.saved_cursor == t.saved_cursor
}

/// The cursor, and the kept cursor if there is one, are within the screen.
pub open spec fn cursors_inside(s: GridState) -> bool {
    &&& s.row <= state::last_index(s.rows)
    &&& s.col <= state::last_index(s.cols)
    &&& match s.saved_cursor {
        Some((row, col, _)) => row <= state::last_index(s.rows) && col <= state::last_index(
            s.cols,
        ),
        None => true,
    }
}

/// Whether `action` switches between the main and the alternate screen.
pub open spec fn switches_screen(action: VtActionView) -> bool {
    match action {
        VtActionView::Csi { params, intermediates, ignore, action } => {
            let mode = state::param_value(params, 0, 0);
            (action == 'h' || action == 'l') && intermediates == seq![63u8] && (mode == 1049
                || mode == 47 || mode == 1047)
        },
        _ => false,
    }
}

/// Whether `action` keeps the cursor position for later.
pub open spec fn saves_cursor(action: VtActionView) -> bool {
    match action {
        VtActionView::Esc { intermediates, ignore, byte } => byte == 55,
        _ => false,
    }
}

/// `t` is a valid screen of the size of `s`, with the same kept cursor and screen, and its
/// cursor is within the screen if that of `s` is.
spec fn keeps(s: GridState, t: GridState) -> bool {
    &&& t.wf()
    &&& same_frame(s, t)
    &&& cursors_inside(s) ==> cursors_inside(t)
}

proof fn line_feed_keeps(s: GridState)
    requires
        s.wf(),
    ensures
        keeps(s, s.line_feed()),
        s.line_feed().col == s.col,
{
    scrolled_keeps(s, 1);
}

proof fn scrolled_keeps(s: GridState, n: nat)
    requires
        s.wf(),
    ensures
        keeps(s, s.scrolled_up(n as int)),
        keeps(s, s.scrolled_down(n as int)),
        s.scrolled_up(n as int).col == s.col,
{
    let t = s.scrolled_up(n as int);
    assert forall|r: int| 0 <= r < t.cells.len() implies (#[trigger] t.cells[r]).len()
        == t.cols by {
        assert(s.cells[r].len() == s.cols);
    }
}

proof fn positioned_keeps(s: GridState, w: u16)
    requires
        s.wf(),
    ensures
        keeps(s, s.positioned(w)),
{
    let s0 = GridState { scroll_offset: 0, pending_wrap: false, ..s };
    line_feed_keeps(GridState { col: 0, ..s0 });
    let s1 = if s.pending_wrap && s.auto_wrap {
        s0.wrapped()
    } else {
        s0
    };
    line_feed_keeps(GridState { col: 0, ..s1 });
}

proof fn with_line_keeps(s: GridState, line: Seq<Cell>)
    requires
        s.wf(),
        s.row < s.rows,
        line.len() == s.cols,
    ensures
        keeps(s, s.with_line(line)),
{
    let t = s.with_line(line);
    assert forall|r: int| 0 <= r < t.cells.len() implies (#[trigger] t.cells[r]).len()
        == t.cols by {
        assert(s.cells[r].len() == s.cols);
    }
}

proof fn printed_keeps(s: GridState, c: char)
    requires
        s.wf(),
    ensures
        keeps(s, s.printed(c)),
{
    let w = width::columns_of(c);
    positioned_keeps(s, w);
    let p = s.positioned(w);
    if p.on_screen() {
        let line = p.cells[p.row as int];
        assert(line.len() == p.cols);
        with_line_keeps(
            p,
            state::line_with(line, p.col as int, c, p.attr, w, p.before_wide(), p.under_wide()),
        );
    }
}

proof fn printed_times_keeps(s: GridState, c: char, n: nat)
    requires
        s.wf(),
    ensures
        keeps(s, s.printed_times(c, n)),
    decreases n,
{
    if n > 0 {
        printed_times_keeps(s, c, (n - 1) as nat);
        printed_keeps(s.printed_times(c, (n - 1) as nat), c);
    }
}

proof fn line_edits_keep(s: GridState, mode: u16, n: nat)
    requires
        s.wf(),
    ensures
        keeps(s, s.erased_in_line(mode)),
        keeps(s, s.cells_erased(n as int)),
        keeps(s, s.blanks_inserted(n as int)),
        keeps(s, s.cells_deleted(n as int)),
{
    if s.row < s.rows {
        let line = s.cells[s.row as int];
        assert(line.len() == s.cols);
        with_line_keeps(s, state::erase_span(line, s.col as int, line.len() as int));
        with_line_keeps(s, state::erase_span(line, 0, s.col + 1));
        with_line_keeps(s, state::blank_line(s.cols as nat));
        with_line_keeps(s, state::erase_span(line, s.col as int, s.col + n));
        with_line_keeps(s, state::insert_blanks(line, s.col as int, n as int));
        with_line_keeps(s, state::delete_cells(line, s.col as int, n as int));
    }
}

proof fn erased_in_display_keeps(s: GridState, mode: u16)
    requires
        s.wf(),
    ensures
        keeps(s, s.erased_in_display(mode)),
{
    let t = s.erased_in_display(mode);
    assert forall|r: int| 0 <= r < t.cells.len() implies (#[trigger] t.cells[r]).len()
        == t.cols by {
        assert(s.cells[r].len() == s.cols);
    }
}

proof fn line_moves_keep(s: GridState, n: nat)
    requires
        s.wf(),
    ensures
        keeps(s, s.lines_inserted(n as int)),
        keeps(s, s.lines_deleted(n as int)),
{
    let t = s.lines_inserted(n as int);
    assert forall|r: int| 0 <= r < t.cells.len() implies (#[trigger] t.cells[r]).len()
        == t.cols by {
        assert(s.cells[r].len() == s.cols);
    }
    let u = s.lines_deleted(n as int);
    assert forall|r: int| 0 <= r < u.cells.len() implies (#[trigger] u.cells[r]).len()
        == u.cols by {
        assert(s.cells[r].len() == s.cols);
    }
}

proof fn mode_set_keeps(s: GridState, mode: u16, enable: bool)
    requires
        s.wf(),
    ensures
        s.mode_set(mode, enable).wf(),
        s.mode_set(mode, enable).cols == s.cols,
        s.mode_set(mode, enable).rows == s.rows,
        s.mode_set(mode, enable).saved_cursor == s.saved_cursor,
        mode != 1049 && mode != 47 && mode != 1047 ==> s.mode_set(mode, enable).saved_screen
            == s.saved_screen,
        cursors_inside(s) ==> cursors_inside(s.mode_set(mode, enable)),
{
}

#[verifier::spinoff_prover]
#[verifier::rlimit(60)]
proof fn csi_keeps(s: GridState, params: Seq<Seq<u16>>, intermediates: Seq<u8>, action: char)
    requires
        s.wf(),
    ensures
        s.csi(params, intermediates, action).wf(),
        s.csi(params, intermediates, action).cols == s.cols,
        s.csi(params, intermediates, action).rows == s.rows,
        s.csi(params, intermediates, action).saved_cursor == s.saved_cursor,
        !switches_screen(
            VtActionView::Csi { params, intermediates, ignore: false, action },
        ) ==> s.csi(params, intermediates, action).saved_screen == s.saved_screen,
        cursors_inside(s) ==> cursors_inside(s.csi(params, intermediates, action)),
{
    let n = state::param_value(params, 0, 1) as nat;
    let mode = state::param_value(params, 0, 0);
    let settled = GridState { pending_wrap: false, ..s };
    if action == 'J' {
        erased_in_display_keeps(settled, mode);
    } else if action == 'K' {
        line_edits_keep(settled, mode, n);
    } else if action == 'L' || action == 'M' {
        line_moves_keep(s, n);
    } else if action == 'h' || action == 'l' {
        mode_set_keeps(s, mode, action == 'h');
    } else if action == 'X' || action == '@' || action == 'P' {
        line_edits_keep(s, mode, n);
    } else if action == 'S' || action == 'T' {
        scrolled_keeps(s, n);
    } else if action == 'b' {
        match s.last_char {
            Some(c) => printed_times_keeps(s, c, n),
            None => {},
        }
    }
}

/// Every action keeps the screen valid and its size, and with it the bound on the scrollback.
/// The kept screen changes only when screens are switched, and the kept cursor only when the
/// cursor is saved.
pub proof fn actions_keep_the_screen_valid(s: GridState, action: VtActionView)
    requires
        s.wf(),
    ensures
        s.applied(action).wf(),
        s.applied(action).cols == s.cols,
        s.applied(action).rows == s.rows,
        s.applied(action).scrollback.len() <= state::MAX_SCROLLBACK,
        !switches_screen(action) ==> s.applied(action).saved_screen == s.saved_screen,
        !saves_cursor(action) ==> s.applied(action).saved_cursor == s.saved_cursor,
{
    match action {
        VtActionView::Print(c) => printed_keeps(s, c),
        VtActionView::Execute(byte) => line_feed_keeps(GridState { pending_wrap: false, ..s }),
        VtActionView::Esc { intermediates, ignore, byte } => scrolled_keeps(s, 1),
        VtActionView::Csi { params, intermediates, ignore, action } => csi_keeps(
            s,
            params,
            intermediates,
            action,
        ),
        _ => {},
    }
}

/// A cursor that is on the screen stays there whatever the program in the pane sends, as long
/// as the cursor position kept for later is on the screen too.
pub proof fn actions_keep_the_cursor_inside(s: GridState, action: VtActionView)
    requires
        s.wf(),
        cursors_inside(s),
    ensures
        cursors_inside(s.applied(action)),
{
    match action {
        VtActionView::Print(c) => printed_keeps(s, c),
        VtActionView::Execute(byte) => line_feed_keeps(GridState { pending_wrap: false, ..s }),
        VtActionView::Esc { intermediates, ignore, byte } => scrolled_keeps(s, 1),
        VtActionView::Csi { params, intermediates, ignore, action } => csi_keeps(
            s,
            params,
            intermediates,
            action,
        ),
        _ => {},
    }
}

proof fn run_keeps(s: GridState, actions: Seq<VtActionView>)
    requires
        s.wf(),
    ensures
        s.applied_all(actions).wf(),
        s.applied_all(actions).cols == s.cols,
        s.applied_all(actions).rows == s.rows,
        (forall|i: int| 0 <= i < actions.len() ==> !switches_screen(#[trigger] actions[i]))
            ==> s.applied_all(actions).saved_screen == s.saved_screen,
        (forall|i: int| 0 <= i < actions.len() ==> !saves_cursor(#[trigger] actions[i]))
            ==> s.applied_all(actions).saved_cursor == s.saved_cursor,
    decreases actions.len(),
{
    if actions.len() > 0 {
        let before = actions.drop_last();
        run_keeps(s, before);
        actions_keep_the_screen_valid(s.applied_all(before), actions.last());
        assert(forall|i: int| 0 <= i < before.len() ==> before[i] == actions[i]);
    }
}

/// Leaving the alternate screen brings the main screen and its cursor back, whatever was done
/// on the alternate screen in between.
pub proof fn alternate_screen_restores(s: GridState, actions: Seq<VtActionView>)
    requires
        s.wf(),
        cursors_inside(s),
        forall|i: int| 0 <= i < actions.len() ==> !switches_screen(#[trigger] actions[i]),
    ensures
        s.alternate_entered().applied_all(actions).alternate_left().cells == s.cells,
        s.alternate_entered().applied_all(actions).alternate_left().row == s.row,
        s.alternate_entered().applied_all(actions).alternate_left().col == s.col,
{
    assert(s.alternate_entered().wf());
    run_keeps(s.alternate_entered(), actions);
    let t = s.alternate_entered().applied_all(actions).alternate_left();
    assert forall|r: int| 0 <= r < s.cells.len() implies t.cells[r] =~= s.cells[r] by {
        assert(s.cells[r].len() == s.cols);
    }
    assert(t.cells =~= s.cells);
}

/// Restoring the cursor puts it where it was when it was saved, whatever came in between.
pub proof fn cursor_restores(s: GridState, actions: Seq<VtActionView>)
    requires
        s.wf(),
        forall|i: int| 0 <= i < actions.len() ==> !saves_cursor(#[trigger] actions[i]),
    ensures
        s.esc(55).applied_all(actions).esc(56).row == s.row,
        s.esc(55).applied_all(actions).esc(56).col == s.col,
        s.esc(55).applied_all(actions).esc(56).pending_wrap == s.pending_wrap,
{
    run_keeps(s.esc(55), actions);
}

/// Restoring the cursor without having saved it does nothing.
pub proof fn cursor_restore_needs_save(s: GridState)
    requires
        s.saved_cursor is None,
    ensures
        s.esc(56) == s,
{
}

/// With wrapping off a character stays in its line: nothing scrolls, and at the right edge it
/// overwrites the last column.
pub proof fn no_wrap_stays_in_line(s: GridState, c: char)
    requires
        s.wf(),
        !s.auto_wrap,
        s.on_screen(),
    ensures
        s.printed(c).row == s.row,
        s.printed(c).scrollback == s.scrollback,
        !s.printed(c).pending_wrap,
        s.printed(c).cells[s.row as int][s.col as int] == state::glyph(c, s.attr),
        forall|r: int|
            0 <= r < s.rows && r != s.row ==> #[trigger] s.printed(c).cells[r] == s.cells[r],
{
    assert(s.cells[s.row as int].len() == s.cols);
}

/// Printable characters of ASCII.
pub open spec fn is_ascii_text(text: Seq<char>) -> bool {
    forall|i: int|
        0 <= i < text.len() ==> 0x20 <= (#[trigger] text[i]) as u32 && (text[i] as u32) < 0x7f
}

/// The printing of a character.
pub open spec fn print_of(c: char) -> VtActionView {
    VtActionView::Print(c)
}

/// The printing of a text.
pub open spec fn printing(text: Seq<char>) -> Seq<VtActionView> {
    Seq::new(text.len(), |i: int| print_of(text[i]))
}

/// Text that fits on the line stands on the screen where the cursor was, in the current
/// attributes, and the cursor stands behind it.
pub proof fn printed_text_stands_on_the_screen(s: GridState, text: Seq<char>)
    requires
        s.wf(),
        s.on_screen(),
        !s.pending_wrap,
        is_ascii_text(text),
        s.col + text.len() <= s.cols,
    ensures
        s.applied_all(printing(text)).row == s.row,
        s.applied_all(printing(text)).col == state::clamp_index(s.col + text.len(), s.cols),
        forall|i: int|
            s.col <= i < s.col + text.len() ==> #[trigger] s.applied_all(
                printing(text),
            ).cells[s.row as int][i] == state::glyph(text[i - s.col], s.attr),
        forall|r: int|
            0 <= r < s.rows && r != s.row ==> #[trigger] s.applied_all(printing(text)).cells[r]
                == s.cells[r],
{
    text_lands(s, text);
}

proof fn printing_without_last(text: Seq<char>)
    requires
        text.len() > 0,
    ensures
        printing(text).len() == text.len(),
        printing(text).last() == VtActionView::Print(text.last()),
        printing(text).drop_last() == printing(text.drop_last()),
{
    assert(printing(text).drop_last() =~= printing(text.drop_last()));
}

proof fn character_lands(s: GridState, c: char)
    requires
        s.wf(),
        s.on_screen(),
        !s.pending_wrap,
        0x20 <= c as u32,
        (c as u32) < 0x7f,
    ensures
        ({
            let t = s.printed(c);
            let line = s.cells[s.row as int];
            &&& keeps(s, t)
            &&& t.attr == s.attr
            &&& t.row == s.row
            &&& t.col == state::clamp_index(s.col + 1, s.cols)
            &&& s.col + 1 < s.cols ==> !t.pending_wrap
            &&& t.cells[s.row as int][s.col as int] == state::glyph(c, s.attr)
            &&& forall|i: int|
                0 <= i < s.col && !width::is_wide(line[i].ch)
                    ==> #[trigger] t.cells[s.row as int][i] == line[i]
            &&& !width::is_wide(line[s.col as int].ch) ==> forall|i: int|
                s.col < i < s.cols ==> #[trigger] t.cells[s.row as int][i] == line[i]
            &&& forall|r: int| 0 <= r < s.rows && r != s.row ==> #[trigger] t.cells[r] == s.cells[r]
        }),
{
    printed_keeps(s, c);
    assert(s.cells[s.row as int].len() == s.cols);
    assert(width::columns_of(c) == 1);
    let p = GridState { scroll_offset: 0, pending_wrap: false, ..s };
    assert(s.positioned(1) == p);
}

/// Whether no cell of a line holds a wide character.
pub open spec fn no_wide(line: Seq<Cell>) -> bool {
    forall|i: int| 0 <= i < line.len() ==> !width::is_wide(#[trigger] line[i].ch)
}

proof fn text_lands(s: GridState, text: Seq<char>)
    requires
        s.wf(),
        s.on_screen(),
        !s.pending_wrap,
        is_ascii_text(text),
        s.col + text.len() <= s.cols,
    ensures
        ({
            let t = s.applied_all(printing(text));
            &&& t.wf()
            &&& same_frame(s, t)
            &&& t.attr == s.attr
            &&& t.row == s.row
            &&& t.col == state::clamp_index(s.col + text.len(), s.cols)
            &&& s.col + text.len() < s.cols ==> !t.pending_wrap
            &&& forall|i: int|
                s.col <= i < s.col + text.len() ==> #[trigger] t.cells[s.row as int][i]
                    == state::glyph(text[i - s.col], s.attr)
            &&& no_wide(s.cells[s.row as int]) ==> forall|i: int|
                s.col + text.len() <= i < s.cols ==> #[trigger] t.cells[s.row as int][i]
                    == s.cells[s.row as int][i]
            &&& forall|r: int| 0 <= r < s.rows && r != s.row ==> #[trigger] t.cells[r] == s.cells[r]
        }),
    decreases text.len(),
{
    if text.len() > 0 {
        let before = text.drop_last();
        printing_without_last(text);
        assert forall|i: int| 0 <= i < before.len() implies 0x20 <= (#[trigger] before[i]) as u32
            && (before[i] as u32) < 0x7f by {
            assert(before[i] == text[i]);
        }
        text_lands(s, before);
        let t = s.applied_all(printing(before));
        let c = text.last();
        assert(c == text[text.len() - 1]);
        character_lands(t, c);
        let u = t.printed(c);
        assert(s.applied_all(printing(text)) == u);
        assert forall|i: int| s.col <= i < s.col + text.len() implies #[trigger] u.cells[
            s.row as int
        ][i] == state::glyph(text[i - s.col], s.attr) by {
            if i < s.col + before.len() {
                assert(t.cells[s.row as int][i] == state::glyph(before[i - s.col], s.attr));
                assert(!width::is_wide(before[i - s.col]));
            }
        }
        if no_wide(s.cells[s.row as int]) {
            let line = s.cells[s.row as int];
            assert(line.len() == s.cols);
            assert(t.cells[s.row as int][t.col as int] == line[t.col as int]);
            assert(!width::is_wide(line[t.col as int].ch));
            assert forall|i: int| s.col + text.len() <= i < s.cols implies #[trigger] u.cells[
                s.row as int
            ][i] == line[i] by {
                assert(t.cells[s.row as int][i] == line[i]);
            }
        }
    } else {
        assert(printing(text).len() == 0);
    }
}

/// Moving the view up and down again by as much comes back to the same lines, unless the view
/// came to the start of the scrollback.
pub proof fn view_comes_back(s: GridState, n: int)
    requires
        s.wf(),
        0 <= n,
        s.scroll_offset + n <= s.scrollback.len(),
    ensures
        s.view_moved_up(n).view_moved_down(n) == s,
{
}

/// With the view at the bottom the lines of the view are those of the screen; moved up by `n`
/// its first line is the line `n` lines before the end of the scrollback.
pub proof fn view_shows_scrollback(s: GridState, n: int, r: int)
    requires
        s.wf(),
        s.scroll_offset == 0,
        0 <= n <= s.scrollback.len(),
        0 <= r,
    ensures
        r < s.rows ==> s.viewed(r) == Some(s.cells[r]),
        r < n ==> s.view_moved_up(n).viewed(r) == Some(s.scrollback[s.scrollback.len() - n + r]),
        n <= r < s.rows ==> s.view_moved_up(n).viewed(r) == Some(s.cells[r - n]),
{
}

/// Output brings the view back to the screen.
pub proof fn output_shows_the_screen(s: GridState, c: char)
    ensures
        s.printed(c).scroll_offset == 0,
{
}

/// A line that scrolls off the top of the screen is the newest line of the scrollback.
pub proof fn scrolled_line_is_kept(s: GridState)
    requires
        s.wf(),
        s.scroll_top == 0,
        s.scroll_top < s.scroll_bottom,
    ensures
        s.scrolled_up(1).scrollback.len() > 0,
        s.scrolled_up(1).scrollback.last() == s.cells[0],
        s.scrolled_up(1).cells[0] == s.cells[1],
        s.scrolled_up(1).cells[s.scroll_bottom as int] == state::blank_line(s.cols as nat),
{
}

/// Scrolling by `m` lines and then by `n` is scrolling by `m + n`.
pub proof fn scrolling_adds_up(s: GridState, m: nat, n: nat)
    requires
        s.wf(),
    ensures
        s.scrolled_up(m as int).scrolled_up(n as int) == s.scrolled_up((m + n) as int),
        s.scrolled_down(m as int).scrolled_down(n as int) == s.scrolled_down((m + n) as int),
{
    let top = s.scroll_top as int;
    let bottom = s.scroll_bottom as int;
    let cols = s.cols as nat;
    if top < bottom < s.cells.len() {
        let a = s.scrolled_up(m as int);
        let b = a.scrolled_up(n as int);
        let c = s.scrolled_up((m + n) as int);
        assert(b.cells =~= c.cells);
        if top == 0 {
            let first = state::lines_leaving(s.cells, bottom, m, cols);
            let second = state::lines_leaving(a.cells, bottom, n, cols);
            let both = state::lines_leaving(s.cells, bottom, m + n, cols);
            assert(first + second =~= both);
            let max = s.max_scrollback as int;
            assert(s.scrollback + both =~= s.scrollback + first + second);
            assert(state::keep_last(state::keep_last(s.scrollback + first, max) + second, max)
                =~= state::keep_last(s.scrollback + both, max));
        }
        assert(b =~= c);
        let d = s.scrolled_down(m as int).scrolled_down(n as int);
        let e = s.scrolled_down((m + n) as int);
        assert(d.cells =~= e.cells);
        assert(d =~= e);
    }
}

/// Resizing to the same size changes nothing on the screen.
pub proof fn same_size_is_kept(s: GridState)
    requires
        s.wf(),
    ensures
        s.resized(s.cols, s.rows).cells == s.cells,
{
    let t = s.resized(s.cols, s.rows);
    assert forall|r: int| 0 <= r < s.cells.len() implies t.cells[r] =~= s.cells[r] by {
        assert(s.cells[r].len() == s.cols);
    }
    assert(t.cells =~= s.cells);
}

/// Every cell that is on both the old and the new screen survives a resize, and the others are
/// blank.
pub proof fn resize_keeps_what_fits(s: GridState, cols: u16, rows: u16, r: int, c: int)
    requires
        s.wf(),
        0 <= r < rows,
        0 <= c < cols,
    ensures
        s.resized(cols, rows).cells[r][c] == if r < s.rows && c < s.cols {
            s.cells[r][c]
        } else {
            state::blank()
        },
{
    if r < s.rows {
        assert(s.cells[r].len() == s.cols);
    }
}

/// A resize leaves the cursor on the screen.
pub proof fn resize_keeps_the_cursor_inside(s: GridState, cols: u16, rows: u16)
    ensures
        s.resized(cols, rows).row <= state::last_index(rows),
        s.resized(cols, rows).col <= state::last_index(cols),
{
}

/// Growing the screen and shrinking it again loses nothing.
pub proof fn grown_screen_shrinks_back(s: GridState, cols: u16, rows: u16)
    requires
        s.wf(),
        s.cols <= cols,
        s.rows <= rows,
    ensures
        s.resized(cols, rows).resized(s.cols, s.rows).cells == s.cells,
{
    let t = s.resized(cols, rows).resized(s.cols, s.rows);
    assert forall|r: int| 0 <= r < s.cells.len() implies t.cells[r] =~= s.cells[r] by {
        assert(s.cells[r].len() == s.cols);
    }
    assert(t.cells =~= s.cells);
}

/// A reset of the graphic rendition, written out or bare, gives plain attributes whatever they
/// were.
pub proof fn sgr_reset(attr: CellAttr)
    ensures
        state::sgr(attr, seq![seq![0u16]]) == state::plain(),
        state::sgr(attr, seq![Seq::empty()]) == state::plain(),
{
    reveal_with_fuel(state::sgr_from, 2);
}

/// Colour parameters written with `;` and with `:` select the same colours.
pub proof fn sgr_colors(attr: CellAttr, idx: u16, r: u16, g: u16, b: u16)
    ensures
        state::sgr(attr, seq![seq![38u16], seq![5u16], seq![idx]]) == (CellAttr {
            fg: crate::style::Color::Indexed(state::low_byte(idx)),
            ..attr
        }),
        state::sgr(attr, seq![seq![38u16, 5u16, idx]]) == state::sgr(
            attr,
            seq![seq![38u16], seq![5u16], seq![idx]],
        ),
        state::sgr(attr, seq![seq![48u16], seq![2u16], seq![r], seq![g], seq![b]]) == (CellAttr {
            bg: crate::style::Color::Rgb(
                state::low_byte(r),
                state::low_byte(g),
                state::low_byte(b),
            ),
            ..attr
        }),
        state::sgr(attr, seq![seq![48u16, 2u16, r, g, b]]) == state::sgr(
            attr,
            seq![seq![48u16], seq![2u16], seq![r], seq![g], seq![b]],
        ),
{
    reveal_with_fuel(state::sgr_from, 2);
}

/// Deleting the lines that were inserted puts the lines back that were not pushed out of the
/// scroll region.
pub proof fn deleted_lines_undo_inserted(s: GridState, n: int, r: int)
    requires
        s.wf(),
        0 <= n,
        0 <= r < s.rows,
        r < s.row || s.scroll_bottom < r || r + n <= s.scroll_bottom,
    ensures
        s.lines_inserted(n).lines_deleted(n).cells[r] == s.cells[r],
{
}

/// Deleting the blanks that were inserted puts the cells back that were not pushed out of the
/// line.
pub proof fn deleted_cells_undo_inserted(s: GridState, n: int, c: int)
    requires
        s.wf(),
        s.row < s.rows,
        0 <= n,
        0 <= c < s.cols,
        c < s.col || c + n < s.cols,
    ensures
        s.blanks_inserted(n).cells_deleted(n).cells[s.row as int][c] == s.cells[s.row as int][c],
{
    assert(s.cells[s.row as int].len() == s.cols);
}

/// Plain printable bytes of a program print the characters that they stand for.
pub proof fn plain_bytes_print(bytes: Seq<u8>)
    requires
        forall|i: int| 0 <= i < bytes.len() ==> 0x20 <= #[trigger] bytes[i] < 0x7f,
    ensures
        vt::all_plain(bytes),
        pane::plain_actions(bytes) == printing(ascii_text(bytes)),
        is_ascii_text(ascii_text(bytes)),
{
    let t = ascii_text(bytes);
    assert forall|i: int| 0 <= i < bytes.len() implies vt::plain_action(bytes[i]) == print_of(
        t[i],
    ) by {
        assert(0x20 <= bytes[i] < 0x7f);
    }
    assert(pane::plain_actions(bytes) =~= printing(t));
}

/// The text that ASCII bytes stand for.
pub open spec fn ascii_text(bytes: Seq<u8>) -> Seq<char> {
    Seq::new(bytes.len(), |i: int| bytes[i] as char)
}

/// The characters of cells without wide characters are the characters of the cells.
proof fn line_chars_of_narrow(line: Seq<Cell>)
    requires
        no_wide(line),
        forall|i: int| 0 <= i < line.len() ==> (#[trigger] line[i]).ch != '\0',
    ensures
        extract::line_chars(line).len() == line.len(),
        forall|i: int|
            0 <= i < line.len() ==> #[trigger] extract::line_chars(line)[i] == line[i].ch,
    decreases line.len(),
{
    if line.len() > 0 {
        let front = line.drop_last();
        assert forall|i: int| 0 <= i < front.len() implies !width::is_wide(
            #[trigger] front[i].ch,
        ) && front[i].ch != '\0' by {
            assert(front[i] == line[i]);
            assert(!width::is_wide(line[i].ch));
        }
        line_chars_of_narrow(front);
        if line.len() > 1 {
            assert(!width::is_wide(line[line.len() - 2].ch));
        }
        assert(line[line.len() - 1].ch != '\0');
    }
}

/// White space behind a text that does not end with it goes.
proof fn trimmed_behind(s: Seq<char>, n: int)
    requires
        0 <= n <= s.len(),
        forall|i: int| n <= i < s.len() ==> text::is_space(#[trigger] s[i]),
        n > 0 ==> !text::is_space(s[n - 1]),
    ensures
        text::trim_end(s) == s.take(n),
    decreases s.len(),
{
    if n < s.len() {
        assert(text::is_space(s[s.len() - 1]));
        trimmed_behind(s.drop_last(), n);
        assert(s.drop_last().take(n) =~= s.take(n));
    } else {
        assert(s.take(n) =~= s);
    }
}

proof fn blank_lines_hold_no_text(cells: Seq<Seq<Cell>>, first: Seq<char>, n: nat)
    requires
        0 < n <= cells.len(),
        text::trim_end(extract::line_chars(cells[0])) == first,
        first.len() > 0,
        forall|r: int| 0 < r < cells.len() ==> text::trim_end(
            extract::line_chars(#[trigger] cells[r]),
        ).len() == 0,
    ensures
        extract::text_lines(cells.take(n as int)) == seq![first],
    decreases n,
{
    let part = cells.take(n as int);
    assert(part.drop_last() =~= cells.take(n - 1));
    assert(part.last() == cells[n - 1]);
    if n == 1 {
        assert(cells.take(0).len() == 0);
        assert(extract::text_lines(cells.take(0)) =~= seq![]);
        assert(extract::text_lines(part) =~= seq![first]);
    } else {
        blank_lines_hold_no_text(cells, first, (n - 1) as nat);
    }
}

/// A line of text that a program writes on a fresh screen is what the screen is read as.
pub proof fn printed_text_is_read_back(cols: u16, rows: u16, t: Seq<char>)
    requires
        rows > 0,
        0 < t.len() <= cols,
        is_ascii_text(t),
        t.last() != ' ',
    ensures
        extract::screen_text(GridState::fresh(cols, rows).applied_all(printing(t)).cells) == t,
{
    let s = GridState::fresh(cols, rows);
    assert(s.wf()) by {
        assert forall|r: int| 0 <= r < s.cells.len() implies (#[trigger] s.cells[r]).len()
            == s.cols by {}
    }
    assert(s.on_screen());
    let line = s.cells[0];
    assert forall|i: int| 0 <= i < line.len() implies !width::is_wide(#[trigger] line[i].ch) by {
        assert(line[i] == state::blank());
    }
    text_lands(s, t);
    let u = s.applied_all(printing(t));
    let row = u.cells[0];
    assert(row.len() == cols);
    assert forall|i: int| 0 <= i < row.len() implies (#[trigger] row[i]).ch == if i < t.len() {
        t[i]
    } else {
        ' '
    } by {
        if i < t.len() {
            assert(u.cells[0][i] == state::glyph(t[i], s.attr));
        } else {
            assert(u.cells[0][i] == line[i]);
        }
    }
    assert forall|i: int| 0 <= i < row.len() implies !width::is_wide(#[trigger] row[i].ch) && row[
        i
    ].ch != '\0' by {
        if i < t.len() {
            assert(0x20 <= t[i] as u32 && (t[i] as u32) < 0x7f);
        }
    }
    line_chars_of_narrow(row);
    let chars = extract::line_chars(row);
    assert forall|i: int| t.len() <= i < chars.len() implies text::is_space(#[trigger] chars[i]) by {
        assert(row[i].ch == ' ');
    }
    assert(chars[t.len() - 1] == row[t.len() - 1].ch);
    assert(t[t.len() - 1] == t.last());
    assert(0x20 <= t[t.len() - 1] as u32 && (t[t.len() - 1] as u32) < 0x7f);
    trimmed_behind(chars, t.len() as int);
    assert forall|i: int| 0 <= i < t.len() implies chars.take(t.len() as int)[i] == t[i] by {
        assert(chars[i] == row[i].ch);
    }
    assert(chars.take(t.len() as int) =~= t);
    assert forall|r: int| 0 < r < u.cells.len() implies text::trim_end(
        extract::line_chars(#[trigger] u.cells[r]),
    ).len() == 0 by {
        let other = s.cells[r];
        assert(u.cells[r] == other);
        assert forall|i: int| 0 <= i < other.len() implies !width::is_wide(
            #[trigger] other[i].ch,
        ) && other[i].ch == ' ' by {
            assert(other[i] == state::blank());
        }
        line_chars_of_narrow(other);
        let cs = extract::line_chars(other);
        assert forall|i: int| 0 <= i < cs.len() implies text::is_space(#[trigger] cs[i]) by {
            assert(cs[i] == other[i].ch);
        }
        trimmed_behind(cs, 0);
    }
    blank_lines_hold_no_text(u.cells, t, u.cells.len());
    assert(u.cells.take(u.cells.len() as int) =~= u.cells);
}

/// What stands between the first start marker and the next end marker is found, without the
/// white space around it.
pub proof fn marked_content_is_found(
    pre: Seq<char>,
    start: Seq<char>,
    content: Seq<char>,
    end: Seq<char>,
    post: Seq<char>,
)
    requires
        text::trim(content).len() > 0,
        forall|j: int|
            0 <= j < pre.len() ==> !(#[trigger] text::occurs_at(
                pre + start + content + end + post,
                start,
                j,
            )),
        forall|j: int|
            pre.len() + start.len() <= j < pre.len() + start.len() + content.len() ==> !(
            #[trigger] text::occurs_at(pre + start + content + end + post, end, j)),
    ensures
        extract::between(pre + start + content + end + post, start, end) == Some(
            text::trim(content),
        ),
{
    let all = pre + start + content + end + post;
    let i = pre.len() as int;
    let from = i + start.len();
    let j = from + content.len();
    assert(all.subrange(i, i + start.len()) =~= start);
    assert(text::occurs_at(all, start, i));
    text::first_at_is_first(all, start, 0);
    assert(text::first_at(all, start, 0) == Some(i));
    assert(all.subrange(j, j + end.len()) =~= end);
    assert(text::occurs_at(all, end, j));
    text::first_at_is_first(all, end, from);
    assert(text::first_at(all, end, from) == Some(j));
    assert(all.subrange(from, j) =~= content);
}

} // verus!
