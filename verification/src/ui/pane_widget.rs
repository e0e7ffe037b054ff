//! How the screen of a pane is painted.

use crate::app::TextSelection;
use crate::pane::state;
use crate::pane::state::{Cell, GridState};
use crate::pane::TerminalGrid;
use crate::style::Color;
use crate::ui::Rect;
use crate::width;
use crate::width::columns;
use vstd::prelude::*;

verus! {

/// One change of a cell of the terminal.
#[derive(Clone, Copy, PartialEq, Eq, Structural, Debug)]
pub enum Paint {
    /// Show a cell.
    Put { x: u16, y: u16, cell: Cell },
    /// Leave the cell to the wide character in front of it.
    Reset { x: u16, y: u16 },
}

/// The screen of a pane, with what is selected on it.
pub struct PaneWidget<'a> {
    pub grid: &'a TerminalGrid,
    pub selection: Option<&'a TextSelection>,
}

/// Whether a cell of the view is selected.
pub open spec fn selected(selection: Option<TextSelection>, row: u16, col: u16) -> bool {
    match selection {
        Some(sel) => sel.active && sel.span().covers(row as int, col as int),
        None => false,
    }
}

/// A cell with its colours exchanged, white and black for colours that are not set.
pub open spec fn highlighted(cell: Cell) -> Cell {
    Cell {
        bg: if cell.fg == Color::Reset {
            Color::White
        } else {
            cell.fg
        },
        fg: if cell.bg == Color::Reset {
            Color::Black
        } else {
            cell.bg
        },
        ..cell
    }
}

/// The cell at column `col` of a line, blank behind its end.
pub open spec fn cell_of(line: Seq<Cell>, col: int) -> Cell {
    if col < line.len() {
        line[col]
    } else {
        state::blank()
    }
}

/// Columns from `col` up to `width`.
pub open spec fn left_of(width: u16, col: int) -> int {
    if col < width {
        width - col
    } else {
        0
    }
}

/// How row `row` of a view is painted from column `col` on, in `area` of a terminal that has
/// the cells of `bounds`. Characters without a width are left out, and the second cell of a wide
/// character is left to it.
pub open spec fn row_paint(
    view: Option<Seq<Cell>>,
    selection: Option<TextSelection>,
    area: Rect,
    bounds: Rect,
    row: u16,
    col: int,
) -> Seq<Paint>
    decreases left_of(area.width, col),
{
    let x = (area.x + col) as u16;
    let y = (area.y + row) as u16;
    if col < 0 || col >= area.width {
        seq![]
    } else if !bounds.holds(x, y) {
        row_paint(view, selection, area, bounds, row, col + 1)
    } else {
        match view {
            None => seq![Paint::Put { x, y, cell: state::blank() }] + row_paint(
                view,
                selection,
                area,
                bounds,
                row,
                col + 1,
            ),
            Some(line) => {
                let cell = cell_of(line, col);
                let w = width::columns_of(cell.ch);
                let put = Paint::Put {
                    x,
                    y,
                    cell: if selected(selection, row, col as u16) {
                        highlighted(cell)
                    } else {
                        cell
                    },
                };
                let next = (x + 1) as u16;
                if w == 0 {
                    row_paint(view, selection, area, bounds, row, col + 1)
                } else if w == 2 && bounds.holds(next, y) {
                    seq![put, Paint::Reset { x: next, y }] + row_paint(
                        view,
                        selection,
                        area,
                        bounds,
                        row,
                        col + w,
                    )
                } else {
                    seq![put] + row_paint(view, selection, area, bounds, row, col + w)
                }
            },
        }
    }
}

/// How the first `rows` rows of a view are painted.
pub open spec fn view_paint(
    grid: GridState,
    selection: Option<TextSelection>,
    area: Rect,
    bounds: Rect,
    rows: int,
) -> Seq<Paint>
    decreases rows,
{
    if rows <= 0 {
        seq![]
    } else {
        view_paint(grid, selection, area, bounds, rows - 1) + row_paint(
            grid.viewed(rows - 1),
            selection,
            area,
            bounds,
            (rows - 1) as u16,
            0,
        )
    }
}

/// The selection of a widget.
pub open spec fn selection_of(selection: Option<&TextSelection>) -> Option<TextSelection> {
    match selection {
        Some(sel) => Some(*sel),
        None => None,
    }
}

/// A cell with its colours exchanged.
fn highlight(cell: Cell) -> (r: Cell)
    ensures
        r == highlighted(cell),
{
    Cell {
        bg: if cell.fg == Color::Reset {
            Color::White
        } else {
            cell.fg
        },
        fg: if cell.bg == Color::Reset {
            Color::Black
        } else {
            cell.bg
        },
        ..cell
    }
}

impl<'a> PaneWidget<'a> {
    /// The screen of a pane, with what is selected on it.
    pub fn new(grid: &'a TerminalGrid, _focused: bool, selection: Option<&'a TextSelection>) -> (w:
        Self)
        ensures
            w.grid == grid,
            w.selection == selection,
    {
        PaneWidget { grid, selection }
    }

    /// Whether a cell of the view is selected.
    pub fn is_selected(&self, row: u16, col: u16) -> (r: bool)
        ensures
            r == selected(selection_of(self.selection), row, col),
    {
        match self.selection {
            None => false,
            Some(sel) => {
                if !sel.active {
                    return false;
                }
                let (sc, sr, ec, er) = sel.normalized();
                if row < sr || row > er {
                    false
                } else if sr == er {
                    col >= sc && col <= ec
                } else if row == sr {
                    col >= sc
                } else if row == er {
                    col <= ec
                } else {
                    true
                }
            },
        }
    }

    /// Paints one row.
    fn render_row(&self, area: Rect, bounds: Rect, row: u16, paint: &mut Vec<Paint>)
        requires
            self.grid@.wf(),
            area.wf(),
            row < area.height,
        ensures
            final(paint)@ == old(paint)@ + row_paint(
                self.grid@.viewed(row as int),
                selection_of(self.selection),
                area,
                bounds,
                row,
                0,
            ),
    {
        let view = self.grid.view_row(row);
        let ghost line = self.grid@.viewed(row as int);
        let ghost sel = selection_of(self.selection);
        let y = area.y + row;
        let mut col: u32 = 0;
        let ghost whole = row_paint(line, sel, area, bounds, row, 0);
        assert(paint@ + row_paint(line, sel, area, bounds, row, 0) =~= old(paint)@ + whole);
        while col < area.width as u32
            invariant
                area.wf(),
                row < area.height,
                y == area.y + row,
                line == self.grid@.viewed(row as int),
                sel == selection_of(self.selection),
                match view {
                    Some(cells) => line == Some(cells@),
                    None => line is None,
                },
                paint@ + row_paint(line, sel, area, bounds, row, col as int) == old(paint)@
                    + whole,
            decreases area.width + 3 - col,
        {
            let ghost before = paint@;
            let x: u16 = area.x + col as u16;
            let rest: u32;
            if !bounds.contains(x, y) {
                rest = col + 1;
            } else {
                match view {
                    None => {
                        paint.push(Paint::Put { x, y, cell: Cell::default() });
                        rest = col + 1;
                    },
                    Some(cells) => {
                        let cell = if (col as usize) < cells.len() {
                            cells[col as usize]
                        } else {
                            Cell::default()
                        };
                        let w = columns(cell.ch);
                        if w == 0 {
                            rest = col + 1;
                        } else {
                            let shown = if self.is_selected(row, col as u16) {
                                highlight(cell)
                            } else {
                                cell
                            };
                            paint.push(Paint::Put { x, y, cell: shown });
                            if w == 2 && bounds.contains(x + 1, y) {
                                paint.push(Paint::Reset { x: x + 1, y });
                            }
                            rest = col + w as u32;
                        }
                    },
                }
            }
            assert(paint@ + row_paint(line, sel, area, bounds, row, rest as int) =~= before
                + row_paint(line, sel, area, bounds, row, col as int));
            col = rest;
        }
        assert(paint@ =~= old(paint)@ + whole);
    }

    /// Paints the screen in an area of a terminal that has the cells of `bounds`.
    pub fn render(&self, area: Rect, bounds: Rect) -> (paint: Vec<Paint>)
        requires
            self.grid@.wf(),
            area.wf(),
        ensures
            paint@ == view_paint(
                self.grid@,
                selection_of(self.selection),
                area,
                bounds,
                area.height as int,
            ),
    {
        let mut paint: Vec<Paint> = Vec::new();
        let mut row: u16 = 0;
        while row < area.height
            invariant
                self.grid@.wf(),
                area.wf(),
                row <= area.height,
                paint@ == view_paint(
                    self.grid@,
                    selection_of(self.selection),
                    area,
                    bounds,
                    row as int,
                ),
            decreases area.height - row,
        {
            self.render_row(area, bounds, row, &mut paint);
            row = row + 1;
        }
        paint
    }
}

} // verus!
