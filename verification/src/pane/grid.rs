//! The screen of a pane: a grid of cells that the output of a program is written to.

use crate::pane::state;
use crate::pane::state::{Cell, CellAttr, GridState, MAX_SCROLLBACK};
use crate::style::Color;
use crate::text;
use crate::vt;
use crate::vt::VtAction;
use crate::width::{columns, wide};
use std::collections::VecDeque;
use vstd::prelude::*;

verus! {

impl Default for Cell {
    fn default() -> (r: Self)
        ensures
            r == state::blank(),
    {
        Cell {
            ch: ' ',
            fg: Color::Reset,
            bg: Color::Reset,
            bold: false,
            italic: false,
            underline: false,
            dim: false,
            strikethrough: false,
            reverse: false,
        }
    }
}

impl Default for CellAttr {
    fn default() -> (r: Self)
        ensures
            r == state::plain(),
    {
        CellAttr {
            fg: Color::Reset,
            bg: Color::Reset,
            bold: false,
            italic: false,
            underline: false,
            dim: false,
            strikethrough: false,
            reverse: false,
        }
    }
}

/// Position of the cursor, counted from the top left corner.
pub struct CursorPos {
    pub row: u16,
    pub col: u16,
}

/// A terminal screen with its scrollback.
pub struct TerminalGrid {
    pub cells: Vec<Vec<Cell>>,
    pub cursor: CursorPos,
    pub cols: u16,
    pub rows: u16,
    pub application_cursor_keys: bool,
    pub cursor_visible: bool,
    pub focus_tracking: bool,
    pub is_receiving_prompt: bool,
    pub response_buf: Vec<u8>,
    pub scrollback: VecDeque<Vec<Cell>>,
    pub scroll_offset: usize,
    pub current_attr: CellAttr,
    pub scroll_top: u16,
    pub scroll_bottom: u16,
    /// Row, column and pending wrap.
    pub saved_cursor: Option<(u16, u16, bool)>,
    pub last_char: Option<char>,
    pub max_scrollback: usize,
    pub pending_wrap: bool,
    pub auto_wrap: bool,
    /// Cells, row and column of the main screen while the alternate one is shown.
    pub saved_screen: Option<(Vec<Vec<Cell>>, u16, u16)>,
}

impl View for TerminalGrid {
    type V = GridState;

    open spec fn view(&self) -> GridState {
        GridState {
            cells: text::nested(self.cells@),
            row: self.cursor.row,
            col: self.cursor.col,
            cols: self.cols,
            rows: self.rows,
            application_cursor_keys: self.application_cursor_keys,
            cursor_visible: self.cursor_visible,
            focus_tracking: self.focus_tracking,
            is_receiving_prompt: self.is_receiving_prompt,
            response: self.response_buf@,
            scrollback: text::nested(self.scrollback@),
            scroll_offset: self.scroll_offset,
            attr: self.current_attr,
            scroll_top: self.scroll_top,
            scroll_bottom: self.scroll_bottom,
            saved_cursor: self.saved_cursor,
            last_char: self.last_char,
            max_scrollback: self.max_scrollback,
            pending_wrap: self.pending_wrap,
            auto_wrap: self.auto_wrap,
            saved_screen: match self.saved_screen {
                Some((cells, row, col)) => Some((text::nested(cells@), row, col)),
                None => None,
            },
        }
    }
}

/// A line of `cols` blank cells.
fn blank_row(cols: usize) -> (row: Vec<Cell>)
    ensures
        row@ == state::blank_line(cols as nat),
{
    let row = vec![Cell::default(); cols];
    assert(row@ =~= state::blank_line(cols as nat));
    row
}

/// A screen of blank cells.
fn blank_rows(cols: usize, rows: usize) -> (lines: Vec<Vec<Cell>>)
    ensures
        text::nested(lines@) == state::blank_lines(cols as nat, rows as nat),
{
    let mut lines: Vec<Vec<Cell>> = Vec::new();
    while lines.len() < rows
        invariant
            lines.len() <= rows,
            forall|r: int| 0 <= r < lines@.len() ==> (#[trigger] lines@[r])@ == state::blank_line(cols as nat),
        decreases rows - lines.len(),
    {
        lines.push(blank_row(cols));
    }
    assert(text::nested(lines@) =~= state::blank_lines(cols as nat, rows as nat));
    lines
}

/// A copy of a line.
fn copy_row(row: &Vec<Cell>) -> (copy: Vec<Cell>)
    ensures
        copy@ == row@,
{
    let copy = row.clone();
    assert(copy@ =~= row@);
    copy
}

/// A copy of a screen.
fn copy_rows(rows: &Vec<Vec<Cell>>) -> (copy: Vec<Vec<Cell>>)
    ensures
        text::nested(copy@) == text::nested(rows@),
{
    let mut copy: Vec<Vec<Cell>> = Vec::new();
    while copy.len() < rows.len()
        invariant
            copy.len() <= rows.len(),
            forall|r: int| 0 <= r < copy@.len() ==> (#[trigger] copy@[r])@ == rows@[r]@,
        decreases rows.len() - copy.len(),
    {
        copy.push(copy_row(&rows[copy.len()]));
    }
    assert(text::nested(copy@) =~= text::nested(rows@));
    copy
}

/// The cells of `lines` on a screen of another size.
fn fit_rows(lines: &Vec<Vec<Cell>>, cols: usize, rows: usize) -> (fitted: Vec<Vec<Cell>>)
    ensures
        text::nested(fitted@) == state::fit(text::nested(lines@), cols as nat, rows as nat),
{
    let mut fitted: Vec<Vec<Cell>> = Vec::new();
    let ghost want = state::fit(text::nested(lines@), cols as nat, rows as nat);
    while fitted.len() < rows
        invariant
            want == state::fit(text::nested(lines@), cols as nat, rows as nat),
            fitted.len() <= rows,
            forall|r: int| 0 <= r < fitted@.len() ==> (#[trigger] fitted@[r])@ == want[r],
        decreases rows - fitted.len(),
    {
        let r = fitted.len();
        let mut line: Vec<Cell> = Vec::new();
        while line.len() < cols
            invariant
                want == state::fit(text::nested(lines@), cols as nat, rows as nat),
                r < rows,
                line.len() <= cols,
                forall|c: int| 0 <= c < line@.len() ==> #[trigger] line@[c] == want[r as int][c],
            decreases cols - line.len(),
        {
            let c = line.len();
            if r < lines.len() && c < lines[r].len() {
                line.push(lines[r][c]);
            } else {
                line.push(Cell::default());
            }
        }
        assert(line@ =~= want[r as int]);
        fitted.push(line);
    }
    assert(text::nested(fitted@) =~= want);
    fitted
}

/// Blanks the cells of `row` from `from` up to but not including `to`.
fn blank_span(row: &mut Vec<Cell>, from: usize, to: usize)
    ensures
        final(row)@ == state::erase_span(old(row)@, from as int, to as int),
{
    let mut i: usize = from;
    while i < to && i < row.len()
        invariant
            from <= i,
            row@.len() == old(row)@.len(),
            forall|k: int| 0 <= k < row@.len() ==> #[trigger] row@[k] == (if from <= k < i && k < to {
                state::blank()
            } else {
                old(row)@[k]
            }),
        decreases row.len() - i,
    {
        row[i] = Cell::default();
        i = i + 1;
    }
    assert(row@ =~= state::erase_span(old(row)@, from as int, to as int));
}

/// Writes character `c` of `width` columns at column `x` of `row`.
fn put_char(
    row: &mut Vec<Cell>,
    x: usize,
    c: char,
    attr: CellAttr,
    width: u16,
    before_wide: bool,
    under_wide: bool,
)
    requires
        x < old(row).len(),
    ensures
        final(row)@ == state::line_with(
            old(row)@,
            x as int,
            c,
            attr,
            width,
            before_wide,
            under_wide,
        ),
{
    if x > 0 && before_wide {
        row[x - 1].ch = ' ';
    }
    if under_wide && x + 1 < row.len() {
        row[x + 1] = Cell::default();
    }
    row[x] = Cell {
        ch: c,
        fg: attr.fg,
        bg: attr.bg,
        bold: attr.bold,
        italic: attr.italic,
        underline: attr.underline,
        dim: attr.dim,
        strikethrough: attr.strikethrough,
        reverse: attr.reverse,
    };
    if width == 2 && x + 1 < row.len() {
        let mut second = Cell::default();
        second.fg = attr.fg;
        second.bg = attr.bg;
        row[x + 1] = second;
    }
    assert(row@ =~= state::line_with(old(row)@, x as int, c, attr, width, before_wide, under_wide));
}

/// Moves lines `top` to `bottom` up by `n`.
fn shift_up(lines: &mut Vec<Vec<Cell>>, top: usize, bottom: usize, n: usize, cols: usize)
    requires
        top <= bottom < old(lines).len(),
    ensures
        text::nested(final(lines)@) == state::lines_up(
            text::nested(old(lines)@),
            top as int,
            bottom as int,
            n as int,
            cols as nat,
        ),
{
    let ghost before = text::nested(old(lines)@);
    let ghost want = state::lines_up(before, top as int, bottom as int, n as int, cols as nat);
    let mut r: usize = top;
    while r <= bottom
        invariant
            top <= r <= bottom + 1,
            bottom < lines.len(),
            before.len() == lines.len(),
            want == state::lines_up(before, top as int, bottom as int, n as int, cols as nat),
            forall|k: int| 0 <= k < lines@.len() ==> (#[trigger] lines@[k])@ == (if k < r {
                want[k]
            } else {
                before[k]
            }),
        decreases bottom + 1 - r,
    {
        if n <= bottom - r {
            lines[r] = copy_row(&lines[r + n]);
        } else {
            lines[r] = blank_row(cols);
        }
        r = r + 1;
    }
    assert(text::nested(lines@) =~= want);
}

/// Moves lines `top` to `bottom` down by `n`.
fn shift_down(lines: &mut Vec<Vec<Cell>>, top: usize, bottom: usize, n: usize, cols: usize)
    requires
        top <= bottom < old(lines).len(),
    ensures
        text::nested(final(lines)@) == state::lines_down(
            text::nested(old(lines)@),
            top as int,
            bottom as int,
            n as int,
            cols as nat,
        ),
{
    let ghost before = text::nested(old(lines)@);
    let ghost want = state::lines_down(before, top as int, bottom as int, n as int, cols as nat);
    let mut left: usize = bottom - top + 1;
    while left > 0
        invariant
            top <= bottom < lines.len(),
            left <= bottom - top + 1,
            before.len() == lines.len(),
            want == state::lines_down(before, top as int, bottom as int, n as int, cols as nat),
            forall|k: int| 0 <= k < lines@.len() ==> (#[trigger] lines@[k])@ == (if k >= top + left {
                want[k]
            } else {
                before[k]
            }),
        decreases left,
    {
        let r = top + left - 1;
        if n <= r - top {
            lines[r] = copy_row(&lines[r - n]);
        } else {
            lines[r] = blank_row(cols);
        }
        left = left - 1;
    }
    assert(text::nested(lines@) =~= want);
}

/// Appends to the scrollback the lines that leave when lines `0` to `bottom` move up by `n`.
fn push_leaving(
    scrollback: &mut VecDeque<Vec<Cell>>,
    max: usize,
    lines: &Vec<Vec<Cell>>,
    bottom: usize,
    n: usize,
    cols: usize,
)
    requires
        bottom < lines.len(),
        old(scrollback).len() <= max,
        max < usize::MAX,
    ensures
        text::nested(final(scrollback)@) == state::keep_last(
            text::nested(old(scrollback)@) + state::lines_leaving(
                text::nested(lines@),
                bottom as int,
                n as nat,
                cols as nat,
            ),
            max as int,
        ),
{
    let ghost before = text::nested(old(scrollback)@);
    let ghost all = state::lines_leaving(text::nested(lines@), bottom as int, n as nat, cols as nat);
    let mut i: usize = 0;
    assert(text::nested(scrollback@) =~= state::keep_last(before + all.take(0), max as int));
    while i < n
        invariant
            i <= n,
            bottom < lines.len(),
            max < usize::MAX,
            all == state::lines_leaving(text::nested(lines@), bottom as int, n as nat, cols as nat),
            scrollback.len() <= max,
            text::nested(scrollback@) == state::keep_last(before + all.take(i as int), max as int),
        decreases n - i,
    {
        let line = if i <= bottom {
            copy_row(&lines[i])
        } else {
            blank_row(cols)
        };
        let ghost start = text::nested(scrollback@);
        assert(line@ =~= all[i as int]);
        scrollback.push_back(line);
        assert(text::nested(scrollback@) =~= start.push(all[i as int]));
        if scrollback.len() > max {
            let ghost full = text::nested(scrollback@);
            let _ = scrollback.pop_front();
            assert(text::nested(scrollback@) =~= full.subrange(1, full.len() as int));
        }
        assert(before + all.take(i + 1) =~= (before + all.take(i as int)).push(all[i as int]));
        assert(text::nested(scrollback@) =~= state::keep_last(before + all.take(i + 1), max as int));
        i = i + 1;
    }
    assert(all.take(n as int) =~= all);
}

impl TerminalGrid {
    /// A blank screen of `cols` by `rows` cells.
    pub fn new(cols: u16, rows: u16) -> (grid: Self)
        ensures
            grid@ == GridState::fresh(cols, rows),
            grid@.wf(),
    {
        let grid = TerminalGrid {
            cells: blank_rows(cols as usize, rows as usize),
            cursor: CursorPos { row: 0, col: 0 },
            cols,
            rows,
            application_cursor_keys: false,
            cursor_visible: true,
            focus_tracking: false,
            is_receiving_prompt: false,
            response_buf: Vec::new(),
            scrollback: VecDeque::new(),
            scroll_offset: 0,
            current_attr: CellAttr::default(),
            scroll_top: 0,
            scroll_bottom: rows.saturating_sub(1),
            saved_cursor: None,
            last_char: None,
            max_scrollback: MAX_SCROLLBACK,
            pending_wrap: false,
            auto_wrap: true,
            saved_screen: None,
        };
        assert(grid@ =~= GridState::fresh(cols, rows));
        grid
    }

    /// Gives the screen another size. What fits stays, and the cursor stays on the screen.
    pub fn resize(&mut self, cols: u16, rows: u16)
        requires
            old(self)@.wf(),
        ensures
            final(self)@ == old(self)@.resized(cols, rows),
            final(self)@.wf(),
    {
        self.cells = fit_rows(&self.cells, cols as usize, rows as usize);
        self.cols = cols;
        self.rows = rows;
        self.scroll_bottom = rows.saturating_sub(1);
        self.clamp_cursor();
        assert(self@ =~= old(self)@.resized(cols, rows));
    }

    /// Brings the cursor back onto the screen.
    fn clamp_cursor(&mut self)
        ensures
            final(self)@ == (GridState {
                row: state::clamp_index(old(self)@.row as int, old(self)@.rows),
                col: state::clamp_index(old(self)@.col as int, old(self)@.cols),
                ..old(self)@
            }),
    {
        self.cursor.row = at_most(self.cursor.row as u32, self.rows);
        self.cursor.col = at_most(self.cursor.col as u32, self.cols);
        assert(self@ =~= (GridState {
            row: state::clamp_index(old(self)@.row as int, old(self)@.rows),
            col: state::clamp_index(old(self)@.col as int, old(self)@.cols),
            ..old(self)@
        }));
    }

    /// First line of the scroll region.
    pub fn scroll_top(&self) -> (top: u16)
        ensures
            top == self@.scroll_top,
    {
        self.scroll_top
    }

    /// Last line of the scroll region.
    pub fn scroll_bottom(&self) -> (bottom: u16)
        ensures
            bottom == self@.scroll_bottom,
    {
        self.scroll_bottom
    }

    /// Get a row for rendering, accounting for scroll_offset.
    /// When scroll_offset > 0, earlier rows come from scrollback.
    pub fn view_row(&self, view_row: u16) -> (row: Option<&[Cell]>)
        requires
            self@.wf(),
        ensures
            match row {
                Some(cells) => self@.viewed(view_row as int) == Some(cells@),
                None => self@.viewed(view_row as int) is None,
            },
    {
        let start = self.scrollback.len() - self.scroll_offset;
        if (view_row as usize) < self.scroll_offset {
            Some(self.scrollback[start + view_row as usize].as_slice())
        } else {
            let r = view_row as usize - self.scroll_offset;
            if r < self.cells.len() {
                Some(self.cells[r].as_slice())
            } else {
                None
            }
        }
    }

    /// Moves the view up into the scrollback.
    pub fn scroll_view_up(&mut self, lines: usize)
        requires
            old(self)@.wf(),
        ensures
            final(self)@ == old(self)@.view_moved_up(lines as int),
            final(self)@.wf(),
    {
        let max = self.scrollback.len();
        if lines < max - self.scroll_offset {
            self.scroll_offset = self.scroll_offset + lines;
        } else {
            self.scroll_offset = max;
        }
        assert(self@ =~= old(self)@.view_moved_up(lines as int));
    }

    /// Moves the view down towards the screen.
    pub fn scroll_view_down(&mut self, lines: usize)
        requires
            old(self)@.wf(),
        ensures
            final(self)@ == old(self)@.view_moved_down(lines as int),
            final(self)@.wf(),
    {
        self.scroll_offset = self.scroll_offset.saturating_sub(lines);
        assert(self@ =~= old(self)@.view_moved_down(lines as int));
    }

    /// The cell at a position of the screen.
    pub fn cell_at(&self, row: usize, col: usize) -> (cell: &Cell)
        requires
            self@.wf(),
            row < self@.rows,
            col < self@.cols,
        ensures
            *cell == self@.cells[row as int][col as int],
    {
        assert(self@.cells[row as int].len() == self@.cols);
        &self.cells[row][col]
    }

    /// Moves the scroll region up by `n` lines.
    fn scroll_up_by(&mut self, n: usize)
        requires
            old(self)@.wf(),
        ensures
            final(self)@ == old(self)@.scrolled_up(n as int),
            final(self)@.wf(),
    {
        let top = self.scroll_top as usize;
        let bottom = self.scroll_bottom as usize;
        let cols = self.cols as usize;
        if top < bottom && bottom < self.cells.len() {
            if top == 0 {
                push_leaving(
                    &mut self.scrollback,
                    self.max_scrollback,
                    &self.cells,
                    bottom,
                    n,
                    cols,
                );
            }
            shift_up(&mut self.cells, top, bottom, n, cols);
        }
        self.scroll_offset = 0;
        assert(self@ =~= old(self)@.scrolled_up(n as int));
    }

    /// Moves the scroll region up by one line.
    pub fn scroll_up(&mut self)
        requires
            old(self)@.wf(),
        ensures
            final(self)@ == old(self)@.scrolled_up(1),
            final(self)@.wf(),
    {
        self.scroll_up_by(1);
    }

    /// Moves the scroll region down by `n` lines.
    fn scroll_down_by(&mut self, n: usize)
        requires
            old(self)@.wf(),
        ensures
            final(self)@ == old(self)@.scrolled_down(n as int),
            final(self)@.wf(),
    {
        let top = self.scroll_top as usize;
        let bottom = self.scroll_bottom as usize;
        if top < bottom && bottom < self.cells.len() {
            shift_down(&mut self.cells, top, bottom, n, self.cols as usize);
        }
        assert(self@ =~= old(self)@.scrolled_down(n as int));
    }

    /// Moves the scroll region down by one line.
    pub fn scroll_down(&mut self)
        requires
            old(self)@.wf(),
        ensures
            final(self)@ == old(self)@.scrolled_down(1),
            final(self)@.wf(),
    {
        self.scroll_down_by(1);
    }

    /// Moves the cursor to the next line and scrolls at the end of the scroll region.
    pub fn scroll_up_if_needed(&mut self)
        requires
            old(self)@.wf(),
        ensures
            final(self)@ == old(self)@.line_feed(),
            final(self)@.wf(),
    {
        if self.cursor.row == self.scroll_bottom {
            self.scroll_up();
        } else if self.cursor.row >= self.rows.saturating_sub(1) {
        } else {
            self.cursor.row = self.cursor.row + 1;
        }
        assert(self@ =~= old(self)@.line_feed());
    }
}

impl TerminalGrid {
    /// Moves the cursor to where a character of `width` columns goes.
    fn make_room(&mut self, width: u16)
        requires
            old(self)@.wf(),
        ensures
            final(self)@ == old(self)@.positioned(width),
            final(self)@.wf(),
    {
        self.scroll_offset = 0;
        let wrap = self.pending_wrap && self.auto_wrap;
        self.pending_wrap = false;
        if wrap {
            self.cursor.col = 0;
            self.scroll_up_if_needed();
        }
        if self.auto_wrap && self.cursor.col as u32 + width as u32 > self.cols as u32 {
            self.cursor.col = 0;
            self.scroll_up_if_needed();
        }
        assert(self@ =~= old(self)@.positioned(width));
    }

    /// Writes character `c` of `width` columns at the cursor and moves the cursor on.
    /// `before_wide` and `under_wide` say whether the cells in front of and under the cursor
    /// hold wide characters.
    pub fn place_char(&mut self, c: char, width: u16, before_wide: bool, under_wide: bool)
        requires
            old(self)@.wf(),
        ensures
            final(self)@ == old(self)@.placed(c, width, before_wide, under_wide),
            final(self)@.wf(),
    {
        let r = self.cursor.row as usize;
        let x = self.cursor.col as usize;
        if r < self.cells.len() && x < self.cols as usize {
            assert(self@.cells[r as int].len() == self.cols);
            put_char(
                &mut self.cells[r],
                x,
                c,
                self.current_attr,
                width,
                before_wide,
                under_wide,
            );
            assert(self@.cells =~= old(self)@.placed(c, width, before_wide, under_wide).cells);
        }
        let next = self.cursor.col as u32 + width as u32;
        if next >= self.cols as u32 {
            self.cursor.col = self.cols.saturating_sub(1);
            if self.auto_wrap {
                self.pending_wrap = true;
            }
        } else {
            self.cursor.col = next as u16;
        }
        self.last_char = Some(c);
        assert(self@ =~= old(self)@.placed(c, width, before_wide, under_wide));
    }

    /// Prints a character: wraps where it must, and keeps no half of a wide character.
    pub fn write_char(&mut self, c: char)
        requires
            old(self)@.wf(),
        ensures
            final(self)@ == old(self)@.printed(c),
            final(self)@.wf(),
    {
        let width = columns(c);
        self.make_room(width);
        let r = self.cursor.row as usize;
        let x = self.cursor.col as usize;
        let mut before_wide = false;
        let mut under_wide = false;
        if r < self.cells.len() && x < self.cols as usize {
            assert(self@.cells[r as int].len() == self.cols);
            if x > 0 {
                before_wide = wide(self.cells[r][x - 1].ch);
            }
            under_wide = wide(self.cells[r][x].ch);
        }
        self.place_char(c, width, before_wide, under_wide);
    }

    /// Erases in the screen: from the cursor on (0), up to the cursor (1) or all of it (2, 3).
    pub fn erase_in_display(&mut self, mode: u16)
        requires
            old(self)@.wf(),
        ensures
            final(self)@ == old(self)@.erased_in_display(mode),
            final(self)@.wf(),
    {
        let r = self.cursor.row as usize;
        let c = self.cursor.col as usize;
        let cols = self.cols as usize;
        if mode == 0 {
            if r < self.cells.len() {
                blank_span(&mut self.cells[r], c, cols);
                fill_blank(&mut self.cells, r + 1, self.rows as usize, cols);
            }
        } else if mode == 1 {
            fill_blank(&mut self.cells, 0, r, cols);
            if r < self.cells.len() {
                blank_span(&mut self.cells[r], 0, c + 1);
            }
        } else if mode == 2 || mode == 3 {
            self.cells = blank_rows(cols, self.rows as usize);
        }
        assert(self@.cells =~= old(self)@.erased_in_display(mode).cells);
        assert(self@ =~= old(self)@.erased_in_display(mode));
    }

    /// Erases in the cursor's line: from the cursor on (0), up to it (1) or all of it (2).
    pub fn erase_in_line(&mut self, mode: u16)
        requires
            old(self)@.wf(),
        ensures
            final(self)@ == old(self)@.erased_in_line(mode),
            final(self)@.wf(),
    {
        let r = self.cursor.row as usize;
        if r < self.cells.len() {
            let c = self.cursor.col as usize;
            if mode == 0 {
                blank_span(&mut self.cells[r], c, self.cols as usize);
            } else if mode == 1 {
                blank_span(&mut self.cells[r], 0, c + 1);
            } else if mode == 2 {
                self.cells[r] = blank_row(self.cols as usize);
            }
        }
        assert(self@.cells =~= old(self)@.erased_in_line(mode).cells);
        assert(self@ =~= old(self)@.erased_in_line(mode));
    }
}

/// Blanks the lines from `from` up to but not including `to`.
fn fill_blank(lines: &mut Vec<Vec<Cell>>, from: usize, to: usize, cols: usize)
    ensures
        final(lines)@.len() == old(lines)@.len(),
        forall|k: int|
            0 <= k < final(lines)@.len() ==> (#[trigger] final(lines)@[k])@ == (if from <= k < to {
                state::blank_line(cols as nat)
            } else {
                old(lines)@[k]@
            }),
{
    let mut i: usize = from;
    while i < to && i < lines.len()
        invariant
            from <= i,
            lines@.len() == old(lines)@.len(),
            forall|k: int|
                0 <= k < lines@.len() ==> (#[trigger] lines@[k])@ == (if from <= k < i && k < to {
                    state::blank_line(cols as nat)
                } else {
                    old(lines)@[k]@
                }),
        decreases lines.len() - i,
    {
        lines[i] = blank_row(cols);
        i = i + 1;
    }
}

/// The colour of a basic colour number.
pub fn ansi_to_color(idx: u16) -> (color: Color)
    ensures
        color == state::ansi_color(idx as int),
{
    match idx {
        0 => Color::Black,
        1 => Color::Red,
        2 => Color::Green,
        3 => Color::Yellow,
        4 => Color::Blue,
        5 => Color::Magenta,
        6 => Color::Cyan,
        7 => Color::White,
        _ => Color::Reset,
    }
}

/// The low byte of a parameter.
fn truncated(v: u16) -> (b: u8)
    ensures
        b == state::low_byte(v),
{
    (v % 256) as u8
}

/// First value of group `i`, if there is one.
fn first_of(groups: &Vec<Vec<u16>>, i: usize) -> (v: Option<u16>)
    ensures
        v == state::group_first(text::nested(groups@), i as int),
{
    if i < groups.len() && groups[i].len() > 0 {
        Some(groups[i][0])
    } else {
        None
    }
}

/// Where reading goes on after group `i` was asked for.
fn after(groups: &Vec<Vec<u16>>, i: usize) -> (next: usize)
    ensures
        next == state::group_after(text::nested(groups@), i as int),
{
    if i < groups.len() {
        i + 1
    } else {
        i
    }
}

/// Reads an extended colour from group `i` on; the second value is the group at which reading
/// goes on.
pub fn parse_extended_color(groups: &Vec<Vec<u16>>, i: usize) -> (r: (Option<Color>, usize))
    ensures
        r.0 == state::extended_color(text::nested(groups@), i as int).0,
        r.1 == state::extended_color(text::nested(groups@), i as int).1,
{
    let a1 = after(groups, i);
    match first_of(groups, i) {
        Some(5) => {
            let a2 = after(groups, a1);
            match first_of(groups, a1) {
                Some(idx) => (Some(Color::Indexed(truncated(idx))), a2),
                None => (None, a2),
            }
        },
        Some(2) => {
            let a2 = after(groups, a1);
            let a3 = after(groups, a2);
            let a4 = after(groups, a3);
            match first_of(groups, a1) {
                None => (None, a2),
                Some(red) => match first_of(groups, a2) {
                    None => (None, a3),
                    Some(green) => match first_of(groups, a3) {
                        None => (None, a4),
                        Some(blue) => (
                            Some(
                                Color::Rgb(truncated(red), truncated(green), truncated(blue)),
                            ),
                            a4,
                        ),
                    },
                },
            }
        },
        _ => (None, a1),
    }
}

/// Value `k` of a group, zero when it is missing.
fn value_at(group: &Vec<u16>, k: usize) -> (v: u16)
    ensures
        v == state::sub_value(group@, k as int),
{
    if k < group.len() {
        group[k]
    } else {
        0
    }
}

/// Reads the colour that `38` or `48` at group `i` selects.
fn select_color(groups: &Vec<Vec<u16>>, i: usize) -> (r: (Option<Color>, usize))
    requires
        i < groups.len(),
    ensures
        r.0 == state::selected_color(text::nested(groups@), i as int).0,
        r.1 == state::selected_color(text::nested(groups@), i as int).1,
{
    let g = &groups[i];
    if g.len() >= 3 && g[1] == 2 {
        let color = Color::Rgb(
            truncated(g[2]),
            truncated(value_at(g, 3)),
            truncated(value_at(g, 4)),
        );
        (Some(color), i + 1)
    } else if g.len() >= 3 && g[1] == 5 {
        (Some(Color::Indexed(truncated(g[2]))), i + 1)
    } else {
        parse_extended_color(groups, i + 1)
    }
}

/// What a single attribute parameter makes of `attr`.
fn simple_attr(attr: CellAttr, p: u16) -> (r: CellAttr)
    ensures
        r == state::sgr_simple(attr, p),
{
    let mut a = attr;
    match p {
        0 => {
            a = CellAttr::default();
        },
        1 => {
            a.bold = true;
        },
        2 => {
            a.dim = true;
        },
        3 => {
            a.italic = true;
        },
        4 => {
            a.underline = true;
        },
        7 => {
            a.reverse = true;
        },
        9 => {
            a.strikethrough = true;
        },
        22 => {
            a.bold = false;
            a.dim = false;
        },
        23 => {
            a.italic = false;
        },
        24 => {
            a.underline = false;
        },
        25 => {
            a.dim = false;
        },
        27 => {
            a.reverse = false;
        },
        29 => {
            a.strikethrough = false;
        },
        30..=37 => {
            a.fg = ansi_to_color(p - 30);
        },
        39 => {
            a.fg = Color::Reset;
        },
        40..=47 => {
            a.bg = ansi_to_color(p - 40);
        },
        49 => {
            a.bg = Color::Reset;
        },
        90..=97 => {
            a.fg = Color::Indexed((p - 90 + 8) as u8);
        },
        100..=107 => {
            a.bg = Color::Indexed((p - 100 + 8) as u8);
        },
        _ => {},
    }
    a
}

/// First value of parameter `idx`, with `default` for one that is missing or zero.
pub fn param_or(params: &Vec<Vec<u16>>, idx: usize, default: u16) -> (v: u16)
    ensures
        v == state::param_value(text::nested(params@), idx as int, default),
{
    match first_of(params, idx) {
        Some(v) => if v == 0 {
            default
        } else {
            v
        },
        None => default,
    }
}

/// Appends the decimal digits of `n`.
pub fn push_decimal(buf: &mut Vec<u8>, n: u32)
    ensures
        final(buf)@ == old(buf)@ + state::decimal(n as nat),
    decreases n,
{
    if n < 10 {
        buf.push((48 + n) as u8);
        assert(buf@ =~= old(buf)@ + state::decimal(n as nat));
    } else {
        push_decimal(buf, n / 10);
        buf.push((48 + n % 10) as u8);
        assert(buf@ =~= old(buf)@ + state::decimal(n as nat));
    }
}

/// Puts `n` blanks into `row` at `at`.
fn insert_into(row: &mut Vec<Cell>, at: usize, n: usize)
    ensures
        final(row)@ == state::insert_blanks(old(row)@, at as int, n as int),
{
    let mut i: usize = row.len();
    while i > at
        invariant
            i <= row@.len(),
            at < row@.len() ==> at <= i,
            row@.len() == old(row)@.len(),
            forall|k: int| 0 <= k < row@.len() ==> #[trigger] row@[k] == (if k >= i && k >= at {
                state::insert_blanks(old(row)@, at as int, n as int)[k]
            } else {
                old(row)@[k]
            }),
        decreases i,
    {
        i = i - 1;
        if i - at >= n {
            row[i] = row[i - n];
        } else {
            row[i] = Cell::default();
        }
    }
    assert(row@ =~= state::insert_blanks(old(row)@, at as int, n as int));
}

/// Takes `n` cells out of `row` at `at`.
fn delete_from(row: &mut Vec<Cell>, at: usize, n: usize)
    ensures
        final(row)@ == state::delete_cells(old(row)@, at as int, n as int),
{
    let mut i: usize = at;
    while i < row.len()
        invariant
            at <= i,
            row@.len() == old(row)@.len(),
            forall|k: int| 0 <= k < row@.len() ==> #[trigger] row@[k] == (if at <= k < i {
                state::delete_cells(old(row)@, at as int, n as int)[k]
            } else {
                old(row)@[k]
            }),
        decreases row.len() - i,
    {
        if n < row.len() - i {
            row[i] = row[i + n];
        } else {
            row[i] = Cell::default();
        }
        i = i + 1;
    }
    assert(row@ =~= state::delete_cells(old(row)@, at as int, n as int));
}

impl TerminalGrid {
    /// Takes over graphic rendition parameters.
    pub fn parse_sgr(&mut self, params: &Vec<Vec<u16>>)
        requires
            old(self)@.wf(),
        ensures
            final(self)@ == (GridState { attr: state::sgr(old(self)@.attr, text::nested(params@)), ..old(self)@ }),
            final(self)@.wf(),
    {
        let mut attr = self.current_attr;
        let mut i: usize = 0;
        let ghost groups = text::nested(params@);
        while i < params.len()
            invariant
                i <= params@.len(),
                groups == text::nested(params@),
                state::sgr_from(attr, groups, i as int) == state::sgr_from(old(self)@.attr, groups, 0),
            decreases params@.len() - i,
        {
            let p = value_at(&params[i], 0);
            if p == 38 || p == 48 {
                let (color, next) = select_color(params, i);
                match color {
                    Some(c) => if p == 38 {
                        attr.fg = c;
                    } else {
                        attr.bg = c;
                    },
                    None => {},
                }
                i = next;
            } else {
                attr = simple_attr(attr, p);
                i = i + 1;
            }
        }
        self.current_attr = attr;
        assert(self@ =~= (GridState { attr: state::sgr(old(self)@.attr, text::nested(params@)), ..old(self)@ }));
    }

    /// Puts `n` blank lines in at the cursor.
    fn insert_lines(&mut self, n: u16)
        requires
            old(self)@.wf(),
        ensures
            final(self)@ == old(self)@.lines_inserted(n as int),
            final(self)@.wf(),
    {
        let row = self.cursor.row as usize;
        let bottom = self.scroll_bottom as usize;
        if row <= bottom && bottom < self.cells.len() {
            shift_down(&mut self.cells, row, bottom, n as usize, self.cols as usize);
        }
        assert(self@ =~= old(self)@.lines_inserted(n as int));
    }

    /// Takes `n` lines out at the cursor.
    fn delete_lines(&mut self, n: u16)
        requires
            old(self)@.wf(),
        ensures
            final(self)@ == old(self)@.lines_deleted(n as int),
            final(self)@.wf(),
    {
        let row = self.cursor.row as usize;
        let bottom = self.scroll_bottom as usize;
        if row <= bottom && row < self.cells.len() {
            shift_up(&mut self.cells, row, bottom, n as usize, self.cols as usize);
        }
        assert(self@ =~= old(self)@.lines_deleted(n as int));
    }

    /// Blanks `n` cells from the cursor on.
    fn erase_chars(&mut self, n: u16)
        requires
            old(self)@.wf(),
        ensures
            final(self)@ == old(self)@.cells_erased(n as int),
            final(self)@.wf(),
    {
        let r = self.cursor.row as usize;
        let c = self.cursor.col as usize;
        if r < self.cells.len() {
            blank_span(&mut self.cells[r], c, c + n as usize);
        }
        assert(self@.cells =~= old(self)@.cells_erased(n as int).cells);
        assert(self@ =~= old(self)@.cells_erased(n as int));
    }

    /// Puts `n` blanks in at the cursor.
    fn insert_chars(&mut self, n: u16)
        requires
            old(self)@.wf(),
        ensures
            final(self)@ == old(self)@.blanks_inserted(n as int),
            final(self)@.wf(),
    {
        let r = self.cursor.row as usize;
        if r < self.cells.len() {
            insert_into(&mut self.cells[r], self.cursor.col as usize, n as usize);
        }
        assert(self@.cells =~= old(self)@.blanks_inserted(n as int).cells);
        assert(self@ =~= old(self)@.blanks_inserted(n as int));
    }

    /// Takes `n` cells out at the cursor.
    fn delete_chars(&mut self, n: u16)
        requires
            old(self)@.wf(),
        ensures
            final(self)@ == old(self)@.cells_deleted(n as int),
            final(self)@.wf(),
    {
        let r = self.cursor.row as usize;
        if r < self.cells.len() {
            delete_from(&mut self.cells[r], self.cursor.col as usize, n as usize);
        }
        assert(self@.cells =~= old(self)@.cells_deleted(n as int).cells);
        assert(self@ =~= old(self)@.cells_deleted(n as int));
    }

    /// Sets the scroll region and puts the cursor in the top left corner.
    fn set_scroll_region(&mut self, top: u16, bottom: u16)
        requires
            old(self)@.wf(),
        ensures
            final(self)@ == old(self)@.region_set(top, bottom),
            final(self)@.wf(),
    {
        self.pending_wrap = false;
        self.scroll_top = at_most(top as u32, self.rows);
        self.scroll_bottom = at_most(bottom as u32, self.rows);
        self.cursor.row = 0;
        self.cursor.col = 0;
        assert(self@ =~= old(self)@.region_set(top, bottom));
    }

    /// Shows the alternate screen and keeps the main one aside.
    fn enter_alternate(&mut self)
        requires
            old(self)@.wf(),
        ensures
            final(self)@ == old(self)@.alternate_entered(),
            final(self)@.wf(),
    {
        self.saved_screen = Some((copy_rows(&self.cells), self.cursor.row, self.cursor.col));
        self.cells = blank_rows(self.cols as usize, self.rows as usize);
        self.cursor.row = 0;
        self.cursor.col = 0;
        self.scroll_top = 0;
        self.scroll_bottom = self.rows.saturating_sub(1);
        self.pending_wrap = false;
        assert(self@ =~= old(self)@.alternate_entered());
    }

    /// Shows the main screen again, at the present size.
    fn leave_alternate(&mut self)
        requires
            old(self)@.wf(),
        ensures
            final(self)@ == old(self)@.alternate_left(),
            final(self)@.wf(),
    {
        match &self.saved_screen {
            Some((cells, row, col)) => {
                self.cells = fit_rows(cells, self.cols as usize, self.rows as usize);
                self.cursor.row = at_most(*row as u32, self.rows);
                self.cursor.col = at_most(*col as u32, self.cols);
            },
            None => {
                self.cells = blank_rows(self.cols as usize, self.rows as usize);
                self.cursor.row = 0;
                self.cursor.col = 0;
            },
        }
        self.saved_screen = None;
        self.scroll_top = 0;
        self.scroll_bottom = self.rows.saturating_sub(1);
        self.pending_wrap = false;
        assert(self@ =~= old(self)@.alternate_left());
    }

    /// Sets or resets a private mode.
    fn set_mode(&mut self, mode: u16, enable: bool)
        requires
            old(self)@.wf(),
        ensures
            final(self)@ == old(self)@.mode_set(mode, enable),
            final(self)@.wf(),
    {
        match mode {
            1 => {
                self.application_cursor_keys = enable;
            },
            7 => {
                self.auto_wrap = enable;
            },
            25 => {
                self.cursor_visible = enable;
            },
            1004 => {
                self.focus_tracking = enable;
            },
            1049 | 47 | 1047 => {
                if enable {
                    self.enter_alternate();
                } else {
                    self.leave_alternate();
                }
            },
            _ => {},
        }
        assert(self@ =~= old(self)@.mode_set(mode, enable));
    }

    /// Answers a status request.
    fn report_status(&mut self, mode: u16)
        requires
            old(self)@.wf(),
        ensures
            final(self)@ == old(self)@.status_reported(mode),
            final(self)@.wf(),
    {
        if mode == 6 {
            self.response_buf.push(27);
            self.response_buf.push(91);
            push_decimal(&mut self.response_buf, self.cursor.row as u32 + 1);
            self.response_buf.push(59);
            push_decimal(&mut self.response_buf, self.cursor.col as u32 + 1);
            self.response_buf.push(82);
        } else if mode == 5 {
            self.response_buf.push(27);
            self.response_buf.push(91);
            self.response_buf.push(48);
            self.response_buf.push(110);
        }
        assert(self@ =~= old(self)@.status_reported(mode));
    }

    /// Answers a request for device attributes: a VT220 with ANSI colour.
    fn report_attributes(&mut self)
        requires
            old(self)@.wf(),
        ensures
            final(self)@ == old(self)@.attributes_reported(),
            final(self)@.wf(),
    {
        self.response_buf.push(27);
        self.response_buf.push(91);
        self.response_buf.push(63);
        self.response_buf.push(54);
        self.response_buf.push(50);
        self.response_buf.push(59);
        self.response_buf.push(50);
        self.response_buf.push(50);
        self.response_buf.push(99);
        assert(self@ =~= old(self)@.attributes_reported());
    }

    /// Prints the last character `n` times more.
    fn repeat_last(&mut self, n: u16)
        requires
            old(self)@.wf(),
        ensures
            final(self)@ == old(self)@.last_repeated(n as nat),
            final(self)@.wf(),
    {
        match self.last_char {
            Some(c) => {
                let mut i: u16 = 0;
                while i < n
                    invariant
                        i <= n,
                        self@.wf(),
                        self@ == old(self)@.printed_times(c, i as nat),
                    decreases n - i,
                {
                    self.write_char(c);
                    i = i + 1;
                }
            },
            None => {},
        }
    }

    /// Moves the cursor to a row and a column, both clamped to the screen.
    fn move_to(&mut self, row: u32, col: u32)
        requires
            old(self)@.wf(),
        ensures
            final(self)@ == old(self)@.moved(
                state::clamp_index(row as int, old(self)@.rows),
                state::clamp_index(col as int, old(self)@.cols),
            ),
            final(self)@.wf(),
    {
        self.pending_wrap = false;
        self.cursor.row = at_most(row, self.rows);
        self.cursor.col = at_most(col, self.cols);
        assert(self@ =~= old(self)@.moved(
            state::clamp_index(row as int, old(self)@.rows),
            state::clamp_index(col as int, old(self)@.cols),
        ));
    }

    /// Moves the cursor within its column, or to the start of the line it comes to.
    fn move_row(&mut self, row: u16, to_start: bool)
        requires
            old(self)@.wf(),
        ensures
            final(self)@ == old(self)@.moved(
                row,
                if to_start {
                    0
                } else {
                    old(self)@.col
                },
            ),
            final(self)@.wf(),
    {
        self.pending_wrap = false;
        self.cursor.row = row;
        if to_start {
            self.cursor.col = 0;
        }
        assert(self@ =~= old(self)@.moved(
            row,
            if to_start {
                0
            } else {
                old(self)@.col
            },
        ));
    }

    /// Moves the cursor within its line.
    fn move_col(&mut self, col: u16)
        requires
            old(self)@.wf(),
        ensures
            final(self)@ == old(self)@.moved(old(self)@.row, col),
            final(self)@.wf(),
    {
        self.pending_wrap = false;
        self.cursor.col = col;
        assert(self@ =~= old(self)@.moved(old(self)@.row, col));
    }

    /// A printable character.
    pub fn print(&mut self, c: char)
        requires
            old(self)@.wf(),
        ensures
            final(self)@ == old(self)@.printed(c),
            final(self)@.wf(),
    {
        self.write_char(c);
    }

    /// A control character: line feed, carriage return, backspace or tab.
    pub fn execute(&mut self, byte: u8)
        requires
            old(self)@.wf(),
        ensures
            final(self)@ == old(self)@.executed(byte),
            final(self)@.wf(),
    {
        match byte {
            0x0A => {
                self.pending_wrap = false;
                self.scroll_up_if_needed();
            },
            0x0D => {
                self.pending_wrap = false;
                self.cursor.col = 0;
            },
            0x08 => {
                self.pending_wrap = false;
                self.cursor.col = self.cursor.col.saturating_sub(1);
            },
            0x09 => {
                let next_tab = (self.cursor.col as u32 / 8 + 1) * 8;
                self.cursor.col = at_most(next_tab, self.cols);
            },
            _ => {},
        }
        assert(self@ =~= old(self)@.executed(byte));
    }

    /// A `CSI` sequence.
    pub fn csi_dispatch(
        &mut self,
        params: &Vec<Vec<u16>>,
        intermediates: &Vec<u8>,
        _ignore: bool,
        action: char,
    )
        requires
            old(self)@.wf(),
        ensures
            final(self)@ == old(self)@.csi(text::nested(params@), intermediates@, action),
            final(self)@.wf(),
    {
        let n = param_or(params, 0, 1);
        let mode = param_or(params, 0, 0);
        let row = self.cursor.row;
        let col = self.cursor.col;
        match action {
            'm' => {
                if intermediates.len() == 0 {
                    self.parse_sgr(params);
                }
            },
            'H' | 'f' => {
                let to_col = param_or(params, 1, 1).saturating_sub(1);
                self.move_to(n.saturating_sub(1) as u32, to_col as u32);
            },
            'A' => {
                self.move_row(row.saturating_sub(n), false);
            },
            'B' => {
                self.move_row(at_most(row as u32 + n as u32, self.rows), false);
            },
            'C' => {
                self.move_col(at_most(col as u32 + n as u32, self.cols));
            },
            'D' => {
                self.move_col(col.saturating_sub(n));
            },
            'E' => {
                self.move_row(at_most(row as u32 + n as u32, self.rows), true);
            },
            'F' => {
                self.move_row(row.saturating_sub(n), true);
            },
            'J' => {
                self.pending_wrap = false;
                self.erase_in_display(mode);
            },
            'K' => {
                self.pending_wrap = false;
                self.erase_in_line(mode);
            },
            'L' => {
                self.insert_lines(n);
            },
            'M' => {
                self.delete_lines(n);
            },
            'r' => {
                let bottom = param_or(params, 1, self.rows).saturating_sub(1);
                self.set_scroll_region(n.saturating_sub(1), bottom);
            },
            'h' | 'l' => {
                if intermediates.len() == 1 && intermediates[0] == 63 {
                    assert(intermediates@ =~= seq![63u8]);
                    self.set_mode(mode, action == 'h');
                }
            },
            'd' => {
                self.move_row(at_most(n.saturating_sub(1) as u32, self.rows), false);
            },
            'G' => {
                self.move_col(at_most(n.saturating_sub(1) as u32, self.cols));
            },
            'X' => {
                self.erase_chars(n);
            },
            'S' => {
                self.scroll_up_by(n as usize);
            },
            'T' => {
                self.scroll_down_by(n as usize);
            },
            '@' => {
                self.insert_chars(n);
            },
            'P' => {
                self.delete_chars(n);
            },
            'b' => {
                self.repeat_last(n);
            },
            'n' => {
                if intermediates.len() == 0 {
                    self.report_status(mode);
                }
            },
            'c' => {
                if intermediates.len() == 0 {
                    self.report_attributes();
                }
            },
            _ => {},
        }
        assert(self@ == old(self)@.csi(text::nested(params@), intermediates@, action));
    }

    /// An operating system command: window titles and the like are not shown.
    pub fn osc_dispatch(&mut self, _params: &Vec<Vec<u8>>, _bell_terminated: bool)
        ensures
            *final(self) == *old(self),
    {
    }

    /// An escape sequence.
    pub fn esc_dispatch(&mut self, _intermediates: &Vec<u8>, _ignore: bool, byte: u8)
        requires
            old(self)@.wf(),
        ensures
            final(self)@ == old(self)@.esc(byte),
            final(self)@.wf(),
    {
        match byte {
            77 => {
                if self.cursor.row == self.scroll_top {
                    self.scroll_down();
                } else {
                    self.cursor.row = self.cursor.row.saturating_sub(1);
                }
            },
            55 => {
                self.saved_cursor = Some((self.cursor.row, self.cursor.col, self.pending_wrap));
            },
            56 => match self.saved_cursor {
                Some((row, col, wrap)) => {
                    self.cursor.row = row;
                    self.cursor.col = col;
                    self.pending_wrap = wrap;
                },
                None => {},
            },
            _ => {},
        }
        assert(self@ =~= old(self)@.esc(byte));
    }

    /// The start of a device control string, which is not acted on.
    pub fn hook(
        &mut self,
        _params: &Vec<Vec<u16>>,
        _intermediates: &Vec<u8>,
        _ignore: bool,
        _action: char,
    )
        ensures
            *final(self) == *old(self),
    {
    }

    /// The end of a device control string.
    pub fn unhook(&mut self)
        ensures
            *final(self) == *old(self),
    {
    }

    /// A byte of a device control string.
    pub fn put(&mut self, _byte: u8)
        ensures
            *final(self) == *old(self),
    {
    }

    /// Does what one action of the parser asks for.
    pub fn apply(&mut self, action: &VtAction)
        requires
            old(self)@.wf(),
        ensures
            final(self)@ == old(self)@.applied(action@),
            final(self)@.wf(),
    {
        match action {
            VtAction::Print(c) => self.print(*c),
            VtAction::Execute(byte) => self.execute(*byte),
            VtAction::Csi { params, intermediates, ignore, action } => {
                self.csi_dispatch(params, intermediates, *ignore, *action)
            },
            VtAction::Esc { intermediates, ignore, byte } => {
                self.esc_dispatch(intermediates, *ignore, *byte)
            },
            VtAction::Osc { strings, bell_terminated } => {
                self.osc_dispatch(strings, *bell_terminated)
            },
            VtAction::Hook { params, intermediates, ignore, action } => {
                self.hook(params, intermediates, *ignore, *action)
            },
            VtAction::Put(byte) => self.put(*byte),
            VtAction::Unhook => self.unhook(),
        }
    }

    /// Does what the actions ask for, in order.
    pub fn apply_actions(&mut self, actions: &Vec<VtAction>)
        requires
            old(self)@.wf(),
        ensures
            final(self)@ == old(self)@.applied_all(vt::action_views(actions@)),
            final(self)@.wf(),
    {
        let ghost views = vt::action_views(actions@);
        let mut i: usize = 0;
        while i < actions.len()
            invariant
                i <= actions@.len(),
                views == vt::action_views(actions@),
                self@.wf(),
                self@ == old(self)@.applied_all(views.take(i as int)),
            decreases actions@.len() - i,
        {
            self.apply(&actions[i]);
            assert(views.take(i + 1).drop_last() =~= views.take(i as int));
            i = i + 1;
        }
        assert(views.take(views.len() as int) =~= views);
    }
}

/// `v` brought down to the last index below `n`.
fn at_most(v: u32, n: u16) -> (r: u16)
    ensures
        r == state::clamp_index(v as int, n),
{
    let last = n.saturating_sub(1);
    if v < last as u32 {
        v as u16
    } else {
        last
    }
}

} // verus!
