//! Text selected with the mouse.

use crate::pane::state::{Cell, GridState};
use crate::pane::TerminalGrid;
use crate::text;
use crate::text::{join_of, to_text, trim_end_of};
use crate::ui::ActivePane;
use vstd::prelude::*;

verus! {

/// Text selection state for mouse drag.
#[derive(Clone, Copy, PartialEq, Eq, Structural, Debug)]
pub struct TextSelection {
    pub pane: ActivePane,
    pub start_col: u16,
    pub start_row: u16,
    pub end_col: u16,
    pub end_row: u16,
    pub active: bool,
}

/// A range of cells in reading order, both ends included.
#[derive(Clone, Copy, PartialEq, Eq, Structural, Debug)]
pub struct Span {
    pub first_col: u16,
    pub first_row: u16,
    pub last_col: u16,
    pub last_row: u16,
}

impl TextSelection {
    /// No selection.
    pub open spec fn nothing() -> TextSelection {
        TextSelection {
            pane: ActivePane::Orchestrator,
            start_col: 0,
            start_row: 0,
            end_col: 0,
            end_row: 0,
            active: false,
        }
    }

    /// The selected cells from the first to the last in reading order.
    pub open spec fn span(self) -> Span {
        if self.start_row < self.end_row || (self.start_row == self.end_row && self.start_col
            <= self.end_col) {
            Span {
                first_col: self.start_col,
                first_row: self.start_row,
                last_col: self.end_col,
                last_row: self.end_row,
            }
        } else {
            Span {
                first_col: self.end_col,
                first_row: self.end_row,
                last_col: self.start_col,
                last_row: self.start_row,
            }
        }
    }

    /// No selection.
    pub fn none() -> (sel: Self)
        ensures
            sel == TextSelection::nothing(),
    {
        TextSelection {
            pane: ActivePane::Orchestrator,
            start_col: 0,
            start_row: 0,
            end_col: 0,
            end_row: 0,
            active: false,
        }
    }

    /// Get normalized (top-left, bottom-right) range.
    pub fn normalized(&self) -> (r: (u16, u16, u16, u16))
        ensures
            r.0 == self.span().first_col,
            r.1 == self.span().first_row,
            r.2 == self.span().last_col,
            r.3 == self.span().last_row,
    {
        if self.start_row < self.end_row || (self.start_row == self.end_row && self.start_col
            <= self.end_col) {
            (self.start_col, self.start_row, self.end_col, self.end_row)
        } else {
            (self.end_col, self.end_row, self.start_col, self.start_row)
        }
    }
}

impl Span {
    /// Whether a cell is in the range.
    pub open spec fn covers(self, row: int, col: int) -> bool {
        &&& self.first_row <= row <= self.last_row
        &&& row == self.first_row ==> self.first_col <= col
        &&& row == self.last_row ==> col <= self.last_col
    }

    /// The column at which the range begins in a row.
    pub open spec fn from(self, row: int) -> int {
        if row == self.first_row {
            self.first_col as int
        } else {
            0
        }
    }

    /// The column behind the range in a row of `len` cells.
    pub open spec fn to(self, row: int, len: int) -> int {
        if row == self.last_row && self.last_col < len {
            self.last_col + 1
        } else {
            len
        }
    }
}

/// The first cell of a selection is not behind the last one, and which end the selection began
/// at makes no difference.
pub proof fn selection_has_no_direction(sel: TextSelection)
    ensures
        sel.span().first_row <= sel.span().last_row,
        sel.span().first_row == sel.span().last_row ==> sel.span().first_col
            <= sel.span().last_col,
        (TextSelection {
            start_col: sel.end_col,
            start_row: sel.end_row,
            end_col: sel.start_col,
            end_row: sel.start_row,
            ..sel
        }).span() == sel.span(),
{
}

/// The characters of cells, without those that were never filled.
pub open spec fn filled_chars(cells: Seq<Cell>) -> Seq<char>
    decreases cells.len(),
{
    if cells.len() == 0 {
        seq![]
    } else if cells.last().ch == '\0' {
        filled_chars(cells.drop_last())
    } else {
        filled_chars(cells.drop_last()).push(cells.last().ch)
    }
}

/// The selected text of a row, without the white space at its end.
pub open spec fn selected_in(span: Span, row: int, cells: Seq<Cell>) -> Seq<char> {
    let from = span.from(row);
    let to = span.to(row, cells.len() as int);
    if from < to {
        text::trim_end(filled_chars(cells.subrange(from, to)))
    } else {
        seq![]
    }
}

/// The selected text of the rows from the first selected one up to but not including `row`.
pub open spec fn selected_lines(grid: GridState, span: Span, row: int) -> Seq<Seq<char>>
    decreases row - span.first_row,
{
    if row <= span.first_row {
        seq![]
    } else {
        let before = selected_lines(grid, span, row - 1);
        match grid.viewed(row - 1) {
            Some(cells) => before.push(selected_in(span, row - 1, cells)),
            None => before,
        }
    }
}

/// `lines` without the empty lines at the end.
pub open spec fn without_empty_end(lines: Seq<Seq<char>>) -> Seq<Seq<char>>
    decreases lines.len(),
{
    if lines.len() > 0 && lines.last().len() == 0 {
        without_empty_end(lines.drop_last())
    } else {
        lines
    }
}

/// The text that a selection holds.
pub open spec fn selected_text(grid: GridState, span: Span) -> Seq<char> {
    text::join_lines(without_empty_end(selected_lines(grid, span, span.last_row + 1)))
}

/// The characters of cells `from` up to but not including `to`, without those that were never
/// filled and without the white space at the end.
fn chars_between(cells: &[Cell], from: usize, to: usize) -> (r: Vec<char>)
    requires
        from <= to <= cells.len(),
    ensures
        r@ == text::trim_end(filled_chars(cells@.subrange(from as int, to as int))),
{
    let mut chars: Vec<char> = Vec::new();
    let mut i: usize = from;
    while i < to
        invariant
            from <= i <= to <= cells.len(),
            chars@ == filled_chars(cells@.subrange(from as int, i as int)),
        decreases to - i,
    {
        assert(cells@.subrange(from as int, i + 1).drop_last() =~= cells@.subrange(
            from as int,
            i as int,
        ));
        if cells[i].ch != '\0' {
            chars.push(cells[i].ch);
        }
        i = i + 1;
    }
    trim_end_of(&chars)
}

/// Extract selected text from grid.
pub fn extract_selection(grid: &TerminalGrid, sel: &TextSelection) -> (r: String)
    requires
        grid@.wf(),
    ensures
        r@ == selected_text(grid@, sel.span()),
{
    let (sc, sr, ec, er) = sel.normalized();
    let ghost span = sel.span();
    proof {
        selection_has_no_direction(*sel);
    }
    let mut lines: Vec<Vec<char>> = Vec::new();
    let mut row: u32 = sr as u32;
    assert(text::nested(lines@) =~= selected_lines(grid@, span, row as int));
    while row <= er as u32
        invariant
            grid@.wf(),
            span == sel.span(),
            sc == span.first_col && sr == span.first_row && ec == span.last_col && er
                == span.last_row,
            sr <= row <= er + 1,
            text::nested(lines@) == selected_lines(grid@, span, row as int),
        decreases er + 1 - row,
    {
        let ghost before = text::nested(lines@);
        match grid.view_row(row as u16) {
            Some(cells) => {
                let from: usize = if row == sr as u32 {
                    sc as usize
                } else {
                    0
                };
                let to: usize = if row == er as u32 && (ec as usize) < cells.len() {
                    ec as usize + 1
                } else {
                    cells.len()
                };
                let line = if from < to {
                    chars_between(cells, from, to)
                } else {
                    Vec::new()
                };
                let ghost l = line@;
                assert(l =~= selected_in(span, row as int, cells@));
                lines.push(line);
                assert(text::nested(lines@) =~= before.push(l));
            },
            None => {},
        }
        row = row + 1;
    }
    let ghost all = text::nested(lines@);
    while lines.len() > 0 && lines[lines.len() - 1].len() == 0
        invariant
            without_empty_end(text::nested(lines@)) == without_empty_end(all),
        decreases lines.len(),
    {
        let ghost before = text::nested(lines@);
        assert(before.last() == lines@.last()@);
        lines.pop();
        assert(text::nested(lines@) =~= before.drop_last());
    }
    proof {
        let now = text::nested(lines@);
        if now.len() > 0 {
            assert(now.last() == lines@.last()@);
        }
    }
    to_text(&join_of(&lines))
}

/// The cells of a row whose text is copied are those that the selection covers.
pub proof fn copied_cells_are_covered(sel: TextSelection, row: int, col: int, len: int)
    requires
        sel.span().first_row <= row <= sel.span().last_row,
        0 <= col < len,
    ensures
        sel.span().from(row) <= col < sel.span().to(row, len) <==> sel.span().covers(row, col),
{
}

} // verus!
