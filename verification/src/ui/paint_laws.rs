//! Laws of the painting of a screen.

use crate::app::TextSelection;
use crate::pane::control_laws;
use crate::pane::state;
use crate::pane::state::{Cell, GridState};
use crate::style::Color;
use crate::ui::pane_widget;
use crate::ui::pane_widget::Paint;
use crate::ui::Rect;
use crate::width;
use vstd::prelude::*;

verus! {

/// Whether one cell is not behind another one in reading order.
pub open spec fn up_to(row: int, col: int, row2: int, col2: int) -> bool {
    row < row2 || (row == row2 && col <= col2)
}

/// Whether a cell is between the ends of a selection in reading order, whichever comes first.
pub open spec fn is_between(sel: TextSelection, row: int, col: int) -> bool {
    ||| up_to(sel.start_row as int, sel.start_col as int, row, col) && up_to(
        row,
        col,
        sel.end_row as int,
        sel.end_col as int,
    )
    ||| up_to(sel.end_row as int, sel.end_col as int, row, col) && up_to(
        row,
        col,
        sel.start_row as int,
        sel.start_col as int,
    )
}

/// A cell is selected where there is a selection and the cell is between its ends in reading
/// order.
pub proof fn selection_is_between_its_ends(sel: TextSelection, row: u16, col: u16)
    ensures
        pane_widget::selected(Some(sel), row, col) <==> sel.active && is_between(
            sel,
            row as int,
            col as int,
        ),
        !pane_widget::selected(None, row, col),
{
}

/// A cell of a line, blank behind its end.
pub open spec fn is_cell_at(view: Option<Seq<Cell>>, col: int, cell: Cell) -> bool {
    match view {
        Some(line) => if col < line.len() {
            cell == line[col]
        } else {
            control_laws::nothing_in(cell)
        },
        None => control_laws::nothing_in(cell),
    }
}

/// Whether a cell is another one with its colours exchanged: white for a foreground and black
/// for a background that is not set.
pub open spec fn is_highlighted(shown: Cell, cell: Cell) -> bool {
    &&& shown == Cell { fg: shown.fg, bg: shown.bg, ..cell }
    &&& cell.fg != Color::Reset ==> shown.bg == cell.fg
    &&& cell.fg == Color::Reset ==> shown.bg == Color::White
    &&& cell.bg != Color::Reset ==> shown.fg == cell.bg
    &&& cell.bg == Color::Reset ==> shown.fg == Color::Black
}

/// Whether painting `p` is right for a cell of row `row` from column `from` on: the cell of the
/// view stands at its place, as it is, or highlighted where it is selected.
pub open spec fn is_right(
    view: Option<Seq<Cell>>,
    selection: Option<TextSelection>,
    area: Rect,
    bounds: Rect,
    row: int,
    from: int,
    p: Paint,
) -> bool {
    match p {
        Paint::Put { x, y, cell } => {
            let col = x - area.x;
            &&& y == area.y + row
            &&& from <= col < area.width
            &&& bounds.holds(x, y)
            &&& exists|under: Cell| #[trigger] is_cell_at(view, col, under) && if view is Some
                && (selection matches Some(sel) && sel.active && is_between(sel, row, col)) {
                is_highlighted(cell, under)
            } else {
                cell == under
            }
        },
        Paint::Reset { x, y } => {
            let col = x - area.x - 1;
            &&& y == area.y + row
            &&& from <= col < area.width
            &&& bounds.holds(x, y)
            &&& view matches Some(line) && 0 <= col < line.len() && width::columns_of(line[col].ch) == 2
        },
    }
}

proof fn row_is_right(
    view: Option<Seq<Cell>>,
    selection: Option<TextSelection>,
    area: Rect,
    bounds: Rect,
    row: u16,
    col: int,
)
    requires
        area.wf(),
        row < area.height,
        0 <= col,
    ensures
        forall|i: int|
            0 <= i < pane_widget::row_paint(view, selection, area, bounds, row, col).len()
                ==> is_right(
                view,
                selection,
                area,
                bounds,
                row as int,
                col,
                #[trigger] pane_widget::row_paint(view, selection, area, bounds, row, col)[i],
            ),
    decreases pane_widget::left_of(area.width, col),
{
    let all = pane_widget::row_paint(view, selection, area, bounds, row, col);
    let x = (area.x + col) as u16;
    let y = (area.y + row) as u16;
    if col < area.width {
        let w: int = match view {
            Some(line) => width::columns_of(pane_widget::cell_of(line, col).ch) as int,
            None => 1,
        };
        let on = bounds.holds(x, y);
        let step: int = if !on || w == 0 {
            1
        } else {
            w
        };
        let rest = pane_widget::row_paint(view, selection, area, bounds, row, col + step);
        row_is_right(view, selection, area, bounds, row, col + step);
        let here = all.len() - rest.len();
        assert(all == all.take(here) + rest) by {
            assert(all =~= all.take(here) + rest);
        }
        assert forall|i: int| 0 <= i < all.len() implies is_right(
            view,
            selection,
            area,
            bounds,
            row as int,
            col,
            #[trigger] all[i],
        ) by {
            if i >= here {
                assert(all[i] == rest[i - here]);
                assert(is_right(
                    view,
                    selection,
                    area,
                    bounds,
                    row as int,
                    col + step,
                    rest[i - here],
                ));
            } else {
                let under = match view {
                    Some(line) => pane_widget::cell_of(line, col),
                    None => state::blank(),
                };
                assert(is_cell_at(view, col, under));
                assert(on);
                assert(i == 0 ==> all[i] is Put);
                assert(i == 1 ==> all[i] is Reset);
                assert(here <= 2);
                match selection {
                    Some(sel) => selection_is_between_its_ends(sel, row, col as u16),
                    None => {},
                }
            }
        }
    }
}

/// Whether a painting is right for one of the first rows of a view.
pub open spec fn is_right_in_view(
    grid: GridState,
    selection: Option<TextSelection>,
    area: Rect,
    bounds: Rect,
    rows: int,
    p: Paint,
) -> bool {
    exists|row: int|
        0 <= row < rows && #[trigger] is_right(
            grid.viewed(row),
            selection,
            area,
            bounds,
            row,
            0,
            p,
        )
}

/// Everything that is painted is a cell of the view at its place, with the same character,
/// colours and attributes, or with its colours exchanged where it is selected, or what is left
/// to a wide character in front.
pub proof fn painting_is_right(
    grid: GridState,
    selection: Option<TextSelection>,
    area: Rect,
    bounds: Rect,
    rows: int,
    i: int,
)
    requires
        area.wf(),
        rows <= area.height,
        0 <= i < pane_widget::view_paint(grid, selection, area, bounds, rows).len(),
    ensures
        is_right_in_view(
            grid,
            selection,
            area,
            bounds,
            rows,
            pane_widget::view_paint(grid, selection, area, bounds, rows)[i],
        ),
    decreases rows,
{
    if rows > 0 {
        let before = pane_widget::view_paint(grid, selection, area, bounds, rows - 1);
        let all = pane_widget::view_paint(grid, selection, area, bounds, rows);
        let last = pane_widget::row_paint(
            grid.viewed(rows - 1),
            selection,
            area,
            bounds,
            (rows - 1) as u16,
            0,
        );
        if i < before.len() {
            painting_is_right(grid, selection, area, bounds, rows - 1, i);
            assert(all[i] == before[i]);
            let row = choose|row: int|
                0 <= row < rows - 1 && #[trigger] is_right(
                    grid.viewed(row),
                    selection,
                    area,
                    bounds,
                    row,
                    0,
                    before[i],
                );
            assert(is_right(grid.viewed(row), selection, area, bounds, row, 0, all[i]));
        } else {
            row_is_right(grid.viewed(rows - 1), selection, area, bounds, (rows - 1) as u16, 0);
            assert(all[i] == last[i - before.len()]);
            assert(is_right(
                grid.viewed(rows - 1),
                selection,
                area,
                bounds,
                rows - 1,
                0,
                last[i - before.len()],
            ));
        }
    }
}

/// Where nothing is selected, every cell that is painted is the cell of the view at its place,
/// unchanged, or holds nothing behind the end of a line.
pub proof fn unselected_cells_are_painted_as_they_are(
    grid: GridState,
    area: Rect,
    bounds: Rect,
    i: int,
)
    requires
        area.wf(),
        0 <= i < pane_widget::view_paint(grid, None, area, bounds, area.height as int).len(),
    ensures
        pane_widget::view_paint(grid, None, area, bounds, area.height as int)[i] matches Paint::Put {
            x,
            y,
            cell,
        } ==> {
            &&& area.holds(x, y)
            &&& is_cell_at(grid.viewed(y - area.y), x - area.x, cell)
        },
{
    painting_is_right(grid, None, area, bounds, area.height as int, i);
    let p = pane_widget::view_paint(grid, None, area, bounds, area.height as int)[i];
    let row = choose|row: int|
        0 <= row < area.height && #[trigger] is_right(
            grid.viewed(row),
            None,
            area,
            bounds,
            row,
            0,
            p,
        );
    assert(is_right(grid.viewed(row), None, area, bounds, row, 0, p));
}

/// Whether the cells of a line in front of column `col` have characters that are one column
/// wide, and the one in it has a width at all.
pub open spec fn narrow_up_to(line: Seq<Cell>, col: int) -> bool {
    &&& forall|i: int|
        0 <= i < line.len() && i < col ==> width::columns_of((#[trigger] line[i]).ch) == 1
    &&& col < line.len() ==> width::columns_of(line[col].ch) > 0
}

/// Whether a painting leaves a cell of the terminal to the wide character in front of it.
pub open spec fn leaves(paint: Seq<Paint>, x: int, y: int) -> bool {
    exists|i: int|
        0 <= i < paint.len() && (#[trigger] paint[i] matches Paint::Reset { x: px, y: py } && px
            == x && py == y)
}

/// Whether a line has a wide character in a column.
pub open spec fn wide_at(view: Option<Seq<Cell>>, col: int) -> bool {
    view matches Some(line) && 0 <= col < line.len() && width::columns_of(line[col].ch) == 2
}

/// Whether a painting puts something in a cell of the terminal.
pub open spec fn puts(paint: Seq<Paint>, x: int, y: int) -> bool {
    exists|i: int|
        0 <= i < paint.len() && (#[trigger] paint[i] matches Paint::Put { x: px, y: py, .. } && px
            == x && py == y)
}

proof fn row_reaches(
    view: Option<Seq<Cell>>,
    selection: Option<TextSelection>,
    area: Rect,
    bounds: Rect,
    row: u16,
    from: int,
    col: int,
)
    requires
        area.wf(),
        row < area.height,
        0 <= from <= col < area.width,
        view matches Some(line) ==> narrow_up_to(line, col),
        bounds.holds((area.x + col) as u16, (area.y + row) as u16),
    ensures
        puts(
            pane_widget::row_paint(view, selection, area, bounds, row, from),
            area.x + col,
            area.y + row,
        ),
        wide_at(view, col) && bounds.holds((area.x + col + 1) as u16, (area.y + row) as u16)
            ==> leaves(
            pane_widget::row_paint(view, selection, area, bounds, row, from),
            (area.x + col + 1) as u16 as int,
            area.y + row,
        ),
    decreases col - from,
{
    let all = pane_widget::row_paint(view, selection, area, bounds, row, from);
    let w: int = match view {
        Some(line) => width::columns_of(pane_widget::cell_of(line, from).ch) as int,
        None => 1,
    };
    if from == col {
        if w == 2 && bounds.holds((area.x + col + 1) as u16, (area.y + row) as u16) {
            assert(all[1] is Reset);
        }
        assert(all[0] matches Paint::Put { x, y, .. } && x == area.x + col && y == area.y + row);
    } else {
        let rest = pane_widget::row_paint(view, selection, area, bounds, row, from + 1);
        row_reaches(view, selection, area, bounds, row, from + 1, col);
        let i = choose|i: int|
            0 <= i < rest.len() && (#[trigger] rest[i] matches Paint::Put { x: px, y: py, .. }
                && px == area.x + col && py == area.y + row);
        let here = all.len() - rest.len();
        assert(w == 1);
        assert(all =~= all.take(here) + rest);
        assert(all[here + i] == rest[i]);
        let next = (area.x + col + 1) as u16 as int;
        if leaves(rest, next, area.y + row) {
            let j = choose|j: int|
                0 <= j < rest.len() && (#[trigger] rest[j] matches Paint::Reset { x: px, y: py }
                    && px == next && py == area.y + row);
            assert(all[here + j] == rest[j]);
        }
    }
}

proof fn puts_stay(a: Seq<Paint>, b: Seq<Paint>, x: int, y: int)
    requires
        puts(a, x, y) || puts(b, x, y),
    ensures
        puts(a + b, x, y),
{
    if puts(a, x, y) {
        let i = choose|i: int|
            0 <= i < a.len() && (#[trigger] a[i] matches Paint::Put { x: px, y: py, .. } && px
                == x && py == y);
        assert((a + b)[i] == a[i]);
    } else {
        let i = choose|i: int|
            0 <= i < b.len() && (#[trigger] b[i] matches Paint::Put { x: px, y: py, .. } && px
                == x && py == y);
        assert((a + b)[a.len() + i] == b[i]);
    }
}

/// Every cell of the area that the terminal has is painted, where the line of the view has
/// characters of one column only in front of it, or there is none. The cell behind a wide
/// character is left to it.
pub proof fn every_cell_is_painted(
    grid: GridState,
    selection: Option<TextSelection>,
    area: Rect,
    bounds: Rect,
    rows: int,
    row: int,
    col: int,
)
    requires
        area.wf(),
        0 <= row < rows <= area.height,
        0 <= col < area.width,
        grid.viewed(row) matches Some(line) ==> narrow_up_to(line, col),
        bounds.holds((area.x + col) as u16, (area.y + row) as u16),
    ensures
        puts(
            pane_widget::view_paint(grid, selection, area, bounds, rows),
            area.x + col,
            area.y + row,
        ),
        wide_at(grid.viewed(row), col) && bounds.holds(
            (area.x + col + 1) as u16,
            (area.y + row) as u16,
        ) ==> leaves(
            pane_widget::view_paint(grid, selection, area, bounds, rows),
            (area.x + col + 1) as u16 as int,
            area.y + row,
        ),
    decreases rows,
{
    let before = pane_widget::view_paint(grid, selection, area, bounds, rows - 1);
    let last = pane_widget::row_paint(
        grid.viewed(rows - 1),
        selection,
        area,
        bounds,
        (rows - 1) as u16,
        0,
    );
    if row == rows - 1 {
        row_reaches(grid.viewed(row), selection, area, bounds, row as u16, 0, col);
    } else {
        every_cell_is_painted(grid, selection, area, bounds, rows - 1, row, col);
    }
    puts_stay(before, last, area.x + col, area.y + row);
    let next = (area.x + col + 1) as u16 as int;
    if leaves(before, next, area.y + row) || leaves(last, next, area.y + row) {
        leaves_stay(before, last, next, area.y + row);
    }
}

proof fn leaves_stay(a: Seq<Paint>, b: Seq<Paint>, x: int, y: int)
    requires
        leaves(a, x, y) || leaves(b, x, y),
    ensures
        leaves(a + b, x, y),
{
    if leaves(a, x, y) {
        let i = choose|i: int|
            0 <= i < a.len() && (#[trigger] a[i] matches Paint::Reset { x: px, y: py } && px == x
                && py == y);
        assert((a + b)[i] == a[i]);
    } else {
        let i = choose|i: int|
            0 <= i < b.len() && (#[trigger] b[i] matches Paint::Reset { x: px, y: py } && px == x
                && py == y);
        assert((a + b)[a.len() + i] == b[i]);
    }
}

} // verus!
