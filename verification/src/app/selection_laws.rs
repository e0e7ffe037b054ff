//! Laws of text selected with the mouse.

use crate::app::selection;
use crate::app::selection::{Span, TextSelection};
use crate::pane::state::{Cell, GridState};
use crate::text;
use crate::text_laws;
use vstd::prelude::*;

verus! {

/// Whether `line` is what the view shows in row `r`: a line of the scrollback as far as the
/// view was scrolled back, and a line of the screen below that.
pub open spec fn is_shown(grid: GridState, r: int, line: Seq<Cell>) -> bool {
    ||| 0 <= r < grid.scroll_offset && line == grid.scrollback[grid.scrollback.len()
        - grid.scroll_offset + r]
    ||| grid.scroll_offset <= r < grid.scroll_offset + grid.rows && line == grid.cells[r
        - grid.scroll_offset]
}

/// The characters of cells.
pub open spec fn chars_in(cells: Seq<Cell>) -> Seq<char> {
    Seq::new(cells.len(), |i: int| cells[i].ch)
}

/// Whether every cell was filled.
pub open spec fn all_filled(cells: Seq<Cell>) -> bool {
    forall|i: int| 0 <= i < cells.len() ==> (#[trigger] cells[i]).ch != '\0'
}

proof fn filled_cells_have_their_characters(cells: Seq<Cell>)
    requires
        all_filled(cells),
    ensures
        selection::filled_chars(cells) == chars_in(cells),
    decreases cells.len(),
{
    if cells.len() > 0 {
        let front = cells.drop_last();
        assert forall|i: int| 0 <= i < front.len() implies (#[trigger] front[i]).ch != '\0' by {
            assert(front[i] == cells[i]);
        }
        filled_cells_have_their_characters(front);
        assert(cells[cells.len() - 1].ch != '\0');
        assert(selection::filled_chars(cells) =~= chars_in(cells));
    } else {
        assert(selection::filled_chars(cells) =~= chars_in(cells));
    }
}

/// A selection within one row holds the characters that the view shows from the one end to the
/// other, without the white space behind them, whichever end it began at.
pub proof fn selection_in_a_row(grid: GridState, sel: TextSelection, line: Seq<Cell>)
    requires
        grid.wf(),
        sel.start_row == sel.end_row,
        is_shown(grid, sel.start_row as int, line),
        sel.start_col < line.len(),
        sel.end_col < line.len(),
        all_filled(line),
    ensures
        ({
            let (a, b) = if sel.start_col <= sel.end_col {
                (sel.start_col, sel.end_col)
            } else {
                (sel.end_col, sel.start_col)
            };
            selection::selected_text(grid, sel.span()) == text::trim_end(
                chars_in(line.subrange(a as int, b + 1)),
            )
        }),
{
    let span = sel.span();
    let r = sel.start_row as int;
    let cells = line.subrange(span.first_col as int, span.last_col + 1);
    assert(grid.viewed(r) == Some(line));
    assert forall|i: int| 0 <= i < cells.len() implies (#[trigger] cells[i]).ch != '\0' by {
        assert(cells[i] == line[i + span.first_col]);
    }
    filled_cells_have_their_characters(cells);
    let t = text::trim_end(chars_in(cells));
    reveal_with_fuel(selection::selected_lines, 2);
    assert(selection::selected_in(span, r, line) == t);
    let lines = selection::selected_lines(grid, span, r + 1);
    assert(lines =~= seq![t]);
    reveal_with_fuel(selection::without_empty_end, 2);
    if t.len() == 0 {
        assert(lines.drop_last().len() == 0);
        assert(text::join_lines(selection::without_empty_end(lines)) =~= t);
    } else {
        assert(lines.last() == t);
    }
}

/// The columns of a row of `len` cells that a selection over several rows covers: from its first
/// cell on in its first row, up to its last cell in its last row, and all in between.
pub open spec fn covered_from(span: Span, row: int) -> int {
    if row == span.first_row {
        span.first_col as int
    } else {
        0
    }
}

/// The column behind those that a selection covers.
pub open spec fn covered_to(span: Span, row: int, len: int) -> int {
    if row == span.last_row && span.last_col + 1 < len {
        span.last_col + 1
    } else {
        len
    }
}

/// Whether `t` is the text of what a selection covers in a row that the view shows.
pub open spec fn is_row_text(grid: GridState, span: Span, row: int, t: Seq<char>) -> bool {
    exists|line: Seq<Cell>| #[trigger] is_shown(grid, row, line) && {
        let from = covered_from(span, row);
        let to = covered_to(span, row, line.len() as int);
        if from < to {
            all_filled(line) && t == text::trim_end(chars_in(line.subrange(from, to)))
        } else {
            t.len() == 0
        }
    }
}

/// A selection over rows that the view shows holds the text of each of them, with line feeds
/// between them, where there is text in the last one; empty rows at the end are left out.
pub proof fn selection_over_rows(grid: GridState, sel: TextSelection, rows: Seq<Seq<char>>)
    requires
        grid.wf(),
        rows.len() == sel.span().last_row - sel.span().first_row + 1,
        forall|k: int|
            0 <= k < rows.len() ==> is_row_text(
                grid,
                sel.span(),
                sel.span().first_row + k,
                #[trigger] rows[k],
            ),
    ensures
        rows.last().len() > 0 ==> selection::selected_text(grid, sel.span())
            == text_laws::with_between(rows, '\n'),
        forall|n: int|
            0 < n < rows.len() && #[trigger] rows[n - 1].len() > 0 && (forall|k: int|
                n <= k < rows.len() ==> (#[trigger] rows[k]).len() == 0)
                ==> selection::selected_text(grid, sel.span()) == text_laws::with_between(
                rows.take(n),
                '\n',
            ),
        (forall|k: int| 0 <= k < rows.len() ==> (#[trigger] rows[k]).len() == 0)
            ==> selection::selected_text(grid, sel.span()).len() == 0,
{
    let span = sel.span();
    selection::selection_has_no_direction(sel);
    rows_are_selected(grid, span, rows, rows.len());
    assert(rows.take(rows.len() as int) =~= rows);
    assert(selection::selected_lines(grid, span, span.last_row + 1) == rows);
    if rows.last().len() > 0 {
        text_laws::joining(rows);
    }
    assert forall|n: int|
        0 < n < rows.len() && #[trigger] rows[n - 1].len() > 0 && (forall|k: int|
            n <= k < rows.len() ==> (#[trigger] rows[k]).len() == 0) implies selection::selected_text(
        grid,
        span,
    ) == text_laws::with_between(rows.take(n), '\n') by {
        empty_end_goes(rows, n);
        text_laws::joining(rows.take(n));
    }
    if forall|k: int| 0 <= k < rows.len() ==> (#[trigger] rows[k]).len() == 0 {
        empty_end_goes(rows, 0);
        assert(rows.take(0).len() == 0);
    }
}

proof fn empty_end_goes(rows: Seq<Seq<char>>, n: int)
    requires
        0 <= n <= rows.len(),
        n > 0 ==> rows[n - 1].len() > 0,
        forall|k: int| n <= k < rows.len() ==> (#[trigger] rows[k]).len() == 0,
    ensures
        selection::without_empty_end(rows) == rows.take(n),
    decreases rows.len(),
{
    if n < rows.len() {
        assert(rows[rows.len() - 1].len() == 0);
        let front = rows.drop_last();
        assert forall|k: int| n <= k < front.len() implies (#[trigger] front[k]).len() == 0 by {
            assert(front[k] == rows[k]);
        }
        empty_end_goes(front, n);
        assert(front.take(n) =~= rows.take(n));
    } else {
        assert(rows.take(n) =~= rows);
    }
}

proof fn rows_are_selected(grid: GridState, span: Span, rows: Seq<Seq<char>>, n: nat)
    requires
        grid.wf(),
        n <= rows.len(),
        rows.len() == span.last_row - span.first_row + 1,
        forall|k: int|
            0 <= k < rows.len() ==> is_row_text(
                grid,
                span,
                span.first_row + k,
                #[trigger] rows[k],
            ),
    ensures
        selection::selected_lines(grid, span, span.first_row + n) == rows.take(n as int),
    decreases n,
{
    if n == 0 {
        assert(rows.take(0) =~= seq![]);
    } else {
        rows_are_selected(grid, span, rows, (n - 1) as nat);
        let row = span.first_row + n - 1;
        let t = rows[n - 1];
        assert(is_row_text(grid, span, span.first_row + (n - 1), t));
        let line = choose|line: Seq<Cell>| #[trigger] is_shown(grid, row, line) && {
            let from = covered_from(span, row);
            let to = covered_to(span, row, line.len() as int);
            if from < to {
                all_filled(line) && t == text::trim_end(chars_in(line.subrange(from, to)))
            } else {
                t.len() == 0
            }
        };
        assert(grid.viewed(row) == Some(line));
        let from = covered_from(span, row);
        let to = covered_to(span, row, line.len() as int);
        assert(span.from(row) == from);
        assert(span.to(row, line.len() as int) == to);
        if from < to {
            let cells = line.subrange(from, to);
            assert forall|i: int| 0 <= i < cells.len() implies (#[trigger] cells[i]).ch != '\0' by {
                assert(cells[i] == line[i + from]);
            }
            filled_cells_have_their_characters(cells);
        } else {
            assert(t =~= seq![]);
        }
        assert(rows.take(n as int) =~= rows.take(n - 1).push(t));
    }
}

/// The ends of a selection in reading order: the one in the upper row, or in the same row the
/// one further left, comes first.
pub proof fn ends_are_in_reading_order(sel: TextSelection)
    ensures
        ({
            let span = sel.span();
            let first = (span.first_row, span.first_col);
            let last = (span.last_row, span.last_col);
            let start = (sel.start_row, sel.start_col);
            let end = (sel.end_row, sel.end_col);
            &&& (first == start && last == end) || (first == end && last == start)
            &&& first.0 < last.0 || (first.0 == last.0 && first.1 <= last.1)
        }),
{
}

} // verus!
