//! Laws of the control functions, cell by cell: what each of them does to the screen, to the
//! cursor and to what a program is answered.

use crate::pane::state;
use crate::pane::state::{Cell, CellAttr, GridState};
use crate::style::Color;
use crate::vt::VtActionView;
use crate::width;
use vstd::prelude::*;

verus! {

/// A control character.
pub open spec fn control(byte: u8) -> VtActionView {
    VtActionView::Execute(byte)
}

/// A `CSI` sequence.
pub open spec fn csi(params: Seq<Seq<u16>>, intermediates: Seq<u8>, action: char) -> VtActionView {
    VtActionView::Csi { params, intermediates, ignore: false, action }
}

/// Whether the first parameter is `n`.
pub open spec fn first_is(params: Seq<Seq<u16>>, n: u16) -> bool {
    params.len() > 0 && params[0].len() > 0 && params[0][0] == n
}

/// Whether the second parameter is `n`.
pub open spec fn second_is(params: Seq<Seq<u16>>, n: u16) -> bool {
    params.len() > 1 && params[1].len() > 0 && params[1][0] == n
}

/// Whether a cell is a space in the colours of the terminal, without attributes.
pub open spec fn nothing_in(cell: Cell) -> bool {
    &&& cell.ch == ' '
    &&& cell.fg == Color::Reset
    &&& cell.bg == Color::Reset
    &&& !cell.bold
    &&& !cell.italic
    &&& !cell.underline
    &&& !cell.dim
    &&& !cell.strikethrough
    &&& !cell.reverse
}

/// Whether a line holds nothing.
pub open spec fn nothing_on(line: Seq<Cell>, cols: u16) -> bool {
    line.len() == cols && forall|c: int| 0 <= c < line.len() ==> nothing_in(#[trigger] line[c])
}

/// Whether a cell shows a character with given attributes.
pub open spec fn shows(cell: Cell, c: char, attr: CellAttr) -> bool {
    &&& cell.ch == c
    &&& cell.fg == attr.fg
    &&& cell.bg == attr.bg
    &&& cell.bold == attr.bold
    &&& cell.italic == attr.italic
    &&& cell.underline == attr.underline
    &&& cell.dim == attr.dim
    &&& cell.strikethrough == attr.strikethrough
    &&& cell.reverse == attr.reverse
}

/// Whether `t` differs from `s` in nothing but the place of the cursor, and waits for no wrap.
pub open spec fn only_moved(s: GridState, t: GridState) -> bool {
    t == GridState { row: t.row, col: t.col, pending_wrap: false, ..s }
}

/// Whether `t` differs from `s` in nothing but its cells, and both have lines of the same size.
pub open spec fn only_cells_differ(s: GridState, t: GridState) -> bool {
    &&& t == GridState { cells: t.cells, pending_wrap: t.pending_wrap, ..s }
    &&& t.wf()
}

/// A tab goes on to the next column that is a multiple of eight, or to the last column where
/// there is none, and changes nothing else.
pub proof fn tab_goes_to_the_next_stop(s: GridState)
    requires
        s.wf(),
        s.on_screen(),
    ensures
        ({
            let t = s.applied(control(9));
            &&& t == GridState { col: t.col, ..s }
            &&& s.col <= t.col < s.cols
            &&& t.col == s.cols - 1 || (t.col % 8 == 0 && s.col < t.col <= s.col + 8)
            &&& forall|stop: int| s.col < stop < s.cols && #[trigger] (stop % 8) == 0 ==> t.col
                <= stop
            &&& s.col + 8 < s.cols ==> t.col % 8 == 0 && t.col > s.col
        }),
{
}

/// From every column between two tab stops a tab comes to the same column.
pub proof fn tabs_line_up(s: GridState, col: u16, stop: int)
    requires
        s.wf(),
        s.on_screen(),
        stop % 8 == 0,
        0 <= stop <= s.col < stop + 8,
        stop <= col < stop + 8,
        stop + 8 < s.cols,
    ensures
        s.applied(control(9)).col == stop + 8,
        (GridState { col, ..s }).applied(control(9)).col == stop + 8,
{
}

/// A carriage return goes to the first column of the line, and a backspace one column back, as
/// far as that.
pub proof fn return_and_backspace(s: GridState)
    ensures
        only_moved(s, s.applied(control(13))),
        s.applied(control(13)).row == s.row,
        s.applied(control(13)).col == 0,
        only_moved(s, s.applied(control(8))),
        s.applied(control(8)).row == s.row,
        s.col == 0 ==> s.applied(control(8)).col == 0,
        s.col > 0 ==> s.applied(control(8)).col + 1 == s.col,
{
}

/// A line feed goes one line down in the same column. On the last line of the scroll region
/// the lines of the region move up by one, and the line that comes in holds nothing; a line
/// that leaves at the top of the screen is the newest one of the scrollback. On the last line
/// of the screen, outside the region, nothing happens.
pub proof fn line_feed_goes_down(s: GridState)
    requires
        s.wf(),
        s.on_screen(),
        s.scroll_top < s.scroll_bottom,
    ensures
        ({
            let t = s.applied(control(10));
            &&& t.col == s.col
            &&& !t.pending_wrap
            &&& t.attr == s.attr
            &&& t.cells.len() == s.cells.len()
            &&& s.row != s.scroll_bottom ==> {
                &&& only_moved(s, t)
                &&& t.row == if s.row + 1 < s.rows {
                    s.row + 1
                } else {
                    s.row as int
                }
            }
            &&& s.row == s.scroll_bottom ==> {
                &&& t.row == s.row
                &&& t.scroll_offset == 0
                &&& region_moved_up(s, t, 1)
                &&& s.scroll_top == 0 ==> t.scrollback.len() > 0 && t.scrollback.last()
                    == s.cells[0]
                &&& s.scroll_top == 0 && s.scrollback.len() < 10000 ==> t.scrollback
                    == s.scrollback.push(s.cells[0])
                &&& s.scroll_top == 0 && s.scrollback.len() == 10000 ==> t.scrollback
                    == s.scrollback.drop_first().push(s.cells[0])
                &&& s.scroll_top > 0 ==> t.scrollback == s.scrollback
            }
        }),
{
    let t = s.applied(control(10));
    if s.row == s.scroll_bottom && s.scroll_top == 0 {
        if s.scrollback.len() < 10000 {
            assert(t.scrollback =~= s.scrollback.push(s.cells[0]));
        } else {
            assert(t.scrollback =~= s.scrollback.drop_first().push(s.cells[0]));
        }
    }
}

/// Whether the lines of the scroll region of `s` stand `n` lines higher in `t`, with lines that
/// hold nothing below them, and the others where they were.
pub open spec fn region_moved_up(s: GridState, t: GridState, n: int) -> bool {
    &&& t.cells.len() == s.cells.len()
    &&& forall|r: int|
        #![trigger t.cells[r]]
        0 <= r < s.rows ==> if r < s.scroll_top || r > s.scroll_bottom {
            t.cells[r] == s.cells[r]
        } else if r + n <= s.scroll_bottom {
            t.cells[r] == s.cells[r + n]
        } else {
            nothing_on(t.cells[r], s.cols)
        }
}

/// Whether the lines of the scroll region of `s` stand `n` lines lower in `t`, with lines that
/// hold nothing above them, and the others where they were.
pub open spec fn region_moved_down(s: GridState, t: GridState, n: int) -> bool {
    &&& t.cells.len() == s.cells.len()
    &&& forall|r: int|
        #![trigger t.cells[r]]
        0 <= r < s.rows ==> if r < s.scroll_top || r > s.scroll_bottom {
            t.cells[r] == s.cells[r]
        } else if r - n >= s.scroll_top {
            t.cells[r] == s.cells[r - n]
        } else {
            nothing_on(t.cells[r], s.cols)
        }
}

/// Control characters but backspace, tab, line feed and carriage return do nothing.
pub proof fn other_controls_do_nothing(s: GridState, byte: u8)
    requires
        byte != 8 && byte != 9 && byte != 10 && byte != 13,
    ensures
        s.applied(control(byte)) == s,
{
}

/// A character that fits on the line stands where the cursor was, with the current attributes,
/// and the cursor goes on by its width. A wide character has the cell behind it to itself, in
/// its colours. A wide character that loses one of its two cells is gone. Nothing else on the
/// screen changes.
#[verifier::spinoff_prover]
#[verifier::rlimit(40)]
pub proof fn character_is_written(s: GridState, c: char)
    requires
        s.wf(),
        s.on_screen(),
        !s.pending_wrap,
        width::columns_of(c) > 0,
        s.col + width::columns_of(c) <= s.cols,
    ensures
        ({
            let t = s.applied(VtActionView::Print(c));
            let w = width::columns_of(c);
            let line = s.cells[s.row as int];
            let new = t.cells[s.row as int];
            &&& t.wf()
            &&& t.row == s.row
            &&& s.col + w < s.cols ==> t.col == s.col + w && !t.pending_wrap
            &&& s.col + w == s.cols ==> t.col == s.cols - 1 && t.pending_wrap == s.auto_wrap
            &&& t.attr == s.attr
            &&& t.scrollback == s.scrollback
            &&& t.scroll_offset == 0
            &&& t.last_char == Some(c)
            &&& shows(new[s.col as int], c, s.attr)
            &&& w == 2 ==> {
                let second = new[s.col + 1];
                second.ch == ' ' && second.fg == s.attr.fg && second.bg == s.attr.bg
                    && !second.underline && !second.reverse && !second.strikethrough
                    && !second.bold && !second.italic && !second.dim
            }
            &&& s.col > 0 ==> {
                let before = line[s.col - 1];
                new[s.col - 1] == if width::is_wide(before.ch) {
                    Cell { ch: ' ', ..before }
                } else {
                    before
                }
            }
            &&& w != 2 && s.col + 1 < s.cols ==> if width::is_wide(line[s.col as int].ch) {
                nothing_in(new[s.col + 1])
            } else {
                new[s.col + 1] == line[s.col + 1]
            }
            &&& forall|i: int|
                0 <= i < s.cols && (i < s.col - 1 || i > s.col + 1) ==> #[trigger] new[i]
                    == line[i]
            &&& forall|r: int| 0 <= r < s.rows && r != s.row ==> #[trigger] t.cells[r] == s.cells[r]
        }),
{
    let t = s.applied(VtActionView::Print(c));
    assert(s.cells[s.row as int].len() == s.cols);
    assert forall|r: int| 0 <= r < t.cells.len() implies (#[trigger] t.cells[r]).len()
        == t.cols by {
        assert(s.cells[r].len() == s.cols);
    }
}

/// Characters of printable ASCII are one column wide, as are control characters that come as
/// text, and a character is wide where its width is two.
pub proof fn widths_of_characters(c: char)
    ensures
        (c as u32) < 0xa0 ==> width::columns_of(c) == 1 && !width::is_wide(c),
        0xa0 <= c as u32 && width::table_width(c) <= 3 ==> width::columns_of(c)
            == width::table_width(c),
        width::is_wide(c) ==> width::columns_of(c) == 2,
{
}

/// Behind a full line, and where a character does not fit on the line any more, the character
/// is written as after a carriage return and a line feed.
#[verifier::spinoff_prover]
#[verifier::rlimit(40)]
pub proof fn full_line_goes_on_below(s: GridState, c: char)
    requires
        s.wf(),
        s.on_screen(),
        s.auto_wrap,
        width::columns_of(c) <= s.cols,
        s.pending_wrap || s.col + width::columns_of(c) > s.cols,
    ensures
        s.applied(VtActionView::Print(c)) == s.applied(control(13)).applied(control(10)).applied(
            VtActionView::Print(c),
        ),
{
}

/// A character without a width takes the place of the cell under the cursor, which stays.
pub proof fn character_without_width(s: GridState, c: char)
    requires
        s.wf(),
        s.on_screen(),
        !s.pending_wrap,
        width::columns_of(c) == 0,
    ensures
        s.applied(VtActionView::Print(c)).row == s.row,
        s.applied(VtActionView::Print(c)).col == s.col,
        shows(s.applied(VtActionView::Print(c)).cells[s.row as int][s.col as int], c, s.attr),
{
    assert(s.cells[s.row as int].len() == s.cols);
}

/// A parameter that is missing, empty or zero counts as one.
#[verifier::spinoff_prover]
#[verifier::rlimit(40)]
pub proof fn counts_begin_at_one(s: GridState, intermediates: Seq<u8>, action: char)
    requires
        "ABCDEFGHdfLMSTXPb@"@.contains(action),
    ensures
        s.applied(csi(seq![], intermediates, action)) == s.applied(
            csi(seq![seq![1u16]], intermediates, action),
        ),
        s.applied(csi(seq![seq![0u16]], intermediates, action)) == s.applied(
            csi(seq![seq![1u16]], intermediates, action),
        ),
        s.applied(csi(seq![Seq::empty()], intermediates, action)) == s.applied(
            csi(seq![seq![1u16]], intermediates, action),
        ),
{
    reveal_strlit("ABCDEFGHdfLMSTXPb@");
}

/// Where the cursor is put: at row and column counted from one, on the last row or column where
/// these are beyond the screen.
#[verifier::spinoff_prover]
#[verifier::rlimit(40)]
pub proof fn cursor_is_put(
    s: GridState,
    params: Seq<Seq<u16>>,
    intermediates: Seq<u8>,
    action: char,
    row: u16,
    col: u16,
)
    requires
        s.wf(),
        s.on_screen(),
        action == 'H' || action == 'f',
        first_is(params, row),
        second_is(params, col),
        row > 0,
        col > 0,
    ensures
        ({
            let t = s.applied(csi(params, intermediates, action));
            &&& only_moved(s, t)
            &&& row <= s.rows ==> t.row + 1 == row
            &&& row > s.rows ==> t.row + 1 == s.rows
            &&& col <= s.cols ==> t.col + 1 == col
            &&& col > s.cols ==> t.col + 1 == s.cols
        }),
{
}

/// The cursor put in a row or in a column, counted from one, keeps the other.
#[verifier::spinoff_prover]
#[verifier::rlimit(40)]
pub proof fn cursor_is_put_in_row_or_column(
    s: GridState,
    params: Seq<Seq<u16>>,
    intermediates: Seq<u8>,
    n: u16,
)
    requires
        s.wf(),
        s.on_screen(),
        first_is(params, n),
        n > 0,
    ensures
        ({
            let t = s.applied(csi(params, intermediates, 'd'));
            &&& only_moved(s, t)
            &&& t.col == s.col
            &&& n <= s.rows ==> t.row + 1 == n
            &&& n > s.rows ==> t.row + 1 == s.rows
        }),
        ({
            let t = s.applied(csi(params, intermediates, 'G'));
            &&& only_moved(s, t)
            &&& t.row == s.row
            &&& n <= s.cols ==> t.col + 1 == n
            &&& n > s.cols ==> t.col + 1 == s.cols
        }),
{
}

/// Without parameters the cursor is put in the top left corner, and without the second one in
/// the first column.
pub proof fn cursor_is_put_home(s: GridState, params: Seq<Seq<u16>>, intermediates: Seq<u8>)
    requires
        params.len() < 2,
    ensures
        s.applied(csi(params, intermediates, 'H')).col == 0,
        params.len() == 0 ==> s.applied(csi(params, intermediates, 'H')).row == 0,
{
}

/// The cursor moves up, down, right and left by as many cells as asked for, as far as the edge
/// of the screen, and to the first column where that is asked for.
#[verifier::spinoff_prover]
#[verifier::rlimit(40)]
pub proof fn cursor_is_moved(
    s: GridState,
    params: Seq<Seq<u16>>,
    intermediates: Seq<u8>,
    action: char,
    n: u16,
)
    requires
        s.wf(),
        s.on_screen(),
        "ABCDEF"@.contains(action),
        first_is(params, n),
        n > 0,
    ensures
        ({
            let t = s.applied(csi(params, intermediates, action));
            let up = action == 'A' || action == 'F';
            let down = action == 'B' || action == 'E';
            &&& only_moved(s, t)
            &&& t.row < s.rows && t.col < s.cols
            &&& up && n <= s.row ==> t.row + n == s.row
            &&& up && n > s.row ==> t.row == 0
            &&& down && s.row + n < s.rows ==> t.row == s.row + n
            &&& down && s.row + n >= s.rows ==> t.row == s.rows - 1
            &&& !up && !down ==> t.row == s.row
            &&& action == 'C' && s.col + n < s.cols ==> t.col == s.col + n
            &&& action == 'C' && s.col + n >= s.cols ==> t.col == s.cols - 1
            &&& action == 'D' && n <= s.col ==> t.col + n == s.col
            &&& action == 'D' && n > s.col ==> t.col == 0
            &&& action == 'E' || action == 'F' ==> t.col == 0
            &&& action == 'A' || action == 'B' ==> t.col == s.col
        }),
{
    reveal_strlit("ABCDEF");
}

/// A part of the screen erased holds nothing, and the rest stays: from the cursor on for zero
/// or no parameter, up to and with the cursor for one, all of it for two and three. The cursor
/// stays.
#[verifier::spinoff_prover]
#[verifier::rlimit(40)]
pub proof fn display_is_erased(
    s: GridState,
    params: Seq<Seq<u16>>,
    intermediates: Seq<u8>,
    mode: u16,
    r: int,
    c: int,
)
    requires
        s.wf(),
        s.on_screen(),
        first_is(params, mode) || (mode == 0 && params.len() == 0),
        0 <= r < s.rows,
        0 <= c < s.cols,
    ensures
        ({
            let t = s.applied(csi(params, intermediates, 'J'));
            let behind = r > s.row || (r == s.row && c >= s.col);
            let before = r < s.row || (r == s.row && c <= s.col);
            &&& only_cells_differ(s, t)
            &&& !t.pending_wrap
            &&& if (mode == 0 && behind) || (mode == 1 && before) || mode == 2 || mode == 3 {
                nothing_in(t.cells[r][c])
            } else {
                t.cells[r][c] == s.cells[r][c]
            }
        }),
{
    let t = s.applied(csi(params, intermediates, 'J'));
    assert(s.cells[r].len() == s.cols);
    assert forall|q: int| 0 <= q < t.cells.len() implies (#[trigger] t.cells[q]).len()
        == t.cols by {
        assert(s.cells[q].len() == s.cols);
    }
}

/// A part of the line of the cursor erased holds nothing, and the rest of the screen stays: from
/// the cursor on for zero or no parameter, up to and with the cursor for one, all of the line
/// for two. The cursor stays.
#[verifier::spinoff_prover]
#[verifier::rlimit(40)]
pub proof fn line_is_erased(
    s: GridState,
    params: Seq<Seq<u16>>,
    intermediates: Seq<u8>,
    mode: u16,
    r: int,
    c: int,
)
    requires
        s.wf(),
        s.on_screen(),
        first_is(params, mode) || (mode == 0 && params.len() == 0),
        0 <= r < s.rows,
        0 <= c < s.cols,
    ensures
        ({
            let t = s.applied(csi(params, intermediates, 'K'));
            &&& only_cells_differ(s, t)
            &&& !t.pending_wrap
            &&& if r == s.row && ((mode == 0 && c >= s.col) || (mode == 1 && c <= s.col) || mode
                == 2) {
                nothing_in(t.cells[r][c])
            } else {
                t.cells[r][c] == s.cells[r][c]
            }
        }),
{
    let t = s.applied(csi(params, intermediates, 'K'));
    assert(s.cells[r].len() == s.cols);
    assert forall|q: int| 0 <= q < t.cells.len() implies (#[trigger] t.cells[q]).len()
        == t.cols by {
        assert(s.cells[q].len() == s.cols);
    }
}

/// In the line of the cursor, as many cells as asked for are erased, pushed right by cells that
/// hold nothing, or taken out, from the cursor on; nothing else changes.
#[verifier::spinoff_prover]
#[verifier::rlimit(40)]
pub proof fn cells_are_erased_inserted_deleted(
    s: GridState,
    params: Seq<Seq<u16>>,
    intermediates: Seq<u8>,
    action: char,
    n: u16,
    r: int,
    c: int,
)
    requires
        s.wf(),
        s.on_screen(),
        action == 'X' || action == '@' || action == 'P',
        first_is(params, n),
        n > 0,
        0 <= r < s.rows,
        0 <= c < s.cols,
    ensures
        ({
            let t = s.applied(csi(params, intermediates, action));
            &&& only_cells_differ(s, t)
            &&& r != s.row || c < s.col ==> t.cells[r][c] == s.cells[r][c]
            &&& r == s.row && c >= s.col ==> {
                &&& action == 'X' && c - s.col < n ==> nothing_in(t.cells[r][c])
                &&& action == 'X' && c - s.col >= n ==> t.cells[r][c] == s.cells[r][c]
                &&& action == '@' && c - s.col < n ==> nothing_in(t.cells[r][c])
                &&& action == '@' && c - s.col >= n ==> t.cells[r][c] == s.cells[r][c - n]
                &&& action == 'P' && c + n < s.cols ==> t.cells[r][c] == s.cells[r][c + n]
                &&& action == 'P' && c + n >= s.cols ==> nothing_in(t.cells[r][c])
            }
        }),
{
    let t = s.applied(csi(params, intermediates, action));
    assert(s.cells[r].len() == s.cols);
    assert(s.cells[s.row as int].len() == s.cols);
    assert forall|q: int| 0 <= q < t.cells.len() implies (#[trigger] t.cells[q]).len()
        == t.cols by {
        assert(s.cells[q].len() == s.cols);
    }
}

/// Lines put in at the cursor hold nothing and push the lines below down, lines taken out let
/// them come up, both down to the end of the scroll region; what is above the cursor or below
/// the region stays, and so does everything where the cursor is below the region.
#[verifier::spinoff_prover]
#[verifier::rlimit(40)]
pub proof fn lines_are_inserted_and_deleted(
    s: GridState,
    params: Seq<Seq<u16>>,
    intermediates: Seq<u8>,
    action: char,
    n: u16,
    r: int,
)
    requires
        s.wf(),
        s.on_screen(),
        action == 'L' || action == 'M',
        first_is(params, n),
        n > 0,
        0 <= r < s.rows,
    ensures
        ({
            let t = s.applied(csi(params, intermediates, action));
            &&& t == GridState { cells: t.cells, ..s }
            &&& t.cells.len() == s.rows
            &&& r < s.row || r > s.scroll_bottom ==> t.cells[r] == s.cells[r]
            &&& s.row <= r <= s.scroll_bottom ==> {
                &&& action == 'L' && r - s.row < n ==> nothing_on(t.cells[r], s.cols)
                &&& action == 'L' && r - s.row >= n ==> t.cells[r] == s.cells[r - n]
                &&& action == 'M' && r + n <= s.scroll_bottom ==> t.cells[r] == s.cells[r + n]
                &&& action == 'M' && r + n > s.scroll_bottom ==> nothing_on(t.cells[r], s.cols)
            }
        }),
{
}

/// Scrolling moves the lines of the scroll region up or down by as many lines as asked for, and
/// lets lines come in that hold nothing; the cursor stays. Lines that leave at the top of the
/// screen are the newest ones of the scrollback, in order.
#[verifier::spinoff_prover]
#[verifier::rlimit(40)]
pub proof fn region_is_scrolled(
    s: GridState,
    params: Seq<Seq<u16>>,
    intermediates: Seq<u8>,
    n: u16,
)
    requires
        s.wf(),
        s.scroll_top < s.scroll_bottom,
        first_is(params, n),
        n > 0,
    ensures
        ({
            let t = s.applied(csi(params, intermediates, 'S'));
            &&& t.row == s.row && t.col == s.col && t.attr == s.attr
            &&& region_moved_up(s, t, n as int)
            &&& s.scroll_top > 0 ==> t.scrollback == s.scrollback
            &&& s.scroll_top == 0 && s.scrollback.len() + n <= 10000 ==> {
                &&& t.scrollback.len() == s.scrollback.len() + n
                &&& forall|i: int|
                    0 <= i < s.scrollback.len() ==> #[trigger] t.scrollback[i] == s.scrollback[i]
                &&& forall|i: int|
                    0 <= i < n && i <= s.scroll_bottom ==> #[trigger] t.scrollback[
                        s.scrollback.len() + i
                    ] == s.cells[i]
            }
        }),
        ({
            let t = s.applied(csi(params, intermediates, 'T'));
            &&& t == GridState { cells: t.cells, ..s }
            &&& region_moved_down(s, t, n as int)
        }),
{
}

/// Reverse index goes one line up, and on the first line of the scroll region it moves the lines
/// of the region down by one.
pub proof fn reverse_index_goes_up(s: GridState, intermediates: Seq<u8>, ignore: bool)
    requires
        s.wf(),
        s.scroll_top < s.scroll_bottom,
    ensures
        ({
            let t = s.applied(VtActionView::Esc { intermediates, ignore, byte: 77 });
            &&& t == GridState { cells: t.cells, row: t.row, ..s }
            &&& s.row == s.scroll_top ==> t.row == s.row && region_moved_down(s, t, 1)
            &&& s.row != s.scroll_top ==> t.cells == s.cells && t.row == if s.row > 0 {
                s.row - 1
            } else {
                0
            }
        }),
{
}

/// Saving the cursor changes nothing on the screen, and restoring it changes nothing but the
/// place of the cursor.
pub proof fn cursor_is_saved_and_restored(s: GridState, u: GridState)
    requires
        u.saved_cursor == s.applied(
            VtActionView::Esc { intermediates: seq![], ignore: false, byte: 55 },
        ).saved_cursor,
    ensures
        ({
            let save = VtActionView::Esc { intermediates: seq![], ignore: false, byte: 55 };
            let restore = VtActionView::Esc { intermediates: seq![], ignore: false, byte: 56 };
            let kept = s.applied(save);
            let back = u.applied(restore);
            &&& kept == GridState { saved_cursor: kept.saved_cursor, ..s }
            &&& back.row == s.row && back.col == s.col && back.pending_wrap == s.pending_wrap
            &&& back == GridState {
                row: back.row,
                col: back.col,
                pending_wrap: back.pending_wrap,
                ..u
            }
        }),
{
}

/// Escape sequences but reverse index, save and restore do nothing, and neither does anything
/// that is no character, control character, `CSI` or escape sequence.
pub proof fn other_sequences_do_nothing(s: GridState, action: VtActionView)
    requires
        match action {
            VtActionView::Print(_) | VtActionView::Execute(_) | VtActionView::Csi { .. } => false,
            VtActionView::Esc { intermediates, ignore, byte } => byte != 77 && byte != 55 && byte
                != 56,
            _ => true,
        },
    ensures
        s.applied(action) == s,
{
}

/// A `CSI` sequence with any other final character does nothing.
#[verifier::spinoff_prover]
#[verifier::rlimit(40)]
pub proof fn other_csi_does_nothing(
    s: GridState,
    params: Seq<Seq<u16>>,
    intermediates: Seq<u8>,
    action: char,
)
    requires
        !"ABCDEFGHJKLMPSTXbcdfhlmnr@"@.contains(action),
    ensures
        s.applied(csi(params, intermediates, action)) == s,
{
    let known = "ABCDEFGHJKLMPSTXbcdfhlmnr@"@;
    reveal_strlit("ABCDEFGHJKLMPSTXbcdfhlmnr@");
    assert(known[0] == 'A' && known[1] == 'B' && known[2] == 'C' && known[3] == 'D' && known[4]
        == 'E' && known[5] == 'F' && known[6] == 'G' && known[7] == 'H' && known[8] == 'J'
        && known[9] == 'K' && known[10] == 'L' && known[11] == 'M' && known[12] == 'P'
        && known[13] == 'S' && known[14] == 'T' && known[15] == 'X' && known[16] == 'b'
        && known[17] == 'c' && known[18] == 'd' && known[19] == 'f' && known[20] == 'h'
        && known[21] == 'l' && known[22] == 'm' && known[23] == 'n' && known[24] == 'r'
        && known[25] == '@');
}

/// A scroll region goes from its first to its last line, counted from one, as far as the screen
/// goes, and without parameters it is the screen. The cursor goes to the top left corner.
#[verifier::spinoff_prover]
#[verifier::rlimit(40)]
pub proof fn region_is_set(
    s: GridState,
    params: Seq<Seq<u16>>,
    intermediates: Seq<u8>,
    top: u16,
    bottom: u16,
)
    requires
        s.wf(),
        s.rows > 0,
        first_is(params, top),
        second_is(params, bottom),
        top > 0,
        bottom > 0,
    ensures
        ({
            let t = s.applied(csi(params, intermediates, 'r'));
            &&& t == GridState {
                scroll_top: t.scroll_top,
                scroll_bottom: t.scroll_bottom,
                row: 0,
                col: 0,
                pending_wrap: false,
                ..s
            }
            &&& top <= s.rows ==> t.scroll_top + 1 == top
            &&& top > s.rows ==> t.scroll_top + 1 == s.rows
            &&& bottom <= s.rows ==> t.scroll_bottom + 1 == bottom
            &&& bottom > s.rows ==> t.scroll_bottom + 1 == s.rows
        }),
        ({
            let t = s.applied(csi(seq![], intermediates, 'r'));
            t.scroll_top == 0 && t.scroll_bottom + 1 == s.rows && t.row == 0 && t.col == 0
        }),
{
}

/// The private modes: each sets or resets one property of the terminal and touches nothing
/// else, and without the mark of a private mode nothing happens.
#[verifier::spinoff_prover]
#[verifier::rlimit(40)]
pub proof fn modes_are_set(
    s: GridState,
    params: Seq<Seq<u16>>,
    intermediates: Seq<u8>,
    mode: u16,
    action: char,
)
    requires
        action == 'h' || action == 'l',
        first_is(params, mode),
    ensures
        ({
            let t = s.applied(csi(params, seq![63u8], action));
            let on = action == 'h';
            &&& mode == 1 ==> t == GridState { application_cursor_keys: on, ..s }
            &&& mode == 7 ==> t == GridState { auto_wrap: on, ..s }
            &&& mode == 25 ==> t == GridState { cursor_visible: on, ..s }
            &&& mode == 1004 ==> t == GridState { focus_tracking: on, ..s }
            &&& mode != 1 && mode != 7 && mode != 25 && mode != 1004 && mode != 47 && mode != 1047
                && mode != 1049 ==> t == s
        }),
        intermediates != seq![63u8] ==> s.applied(csi(params, intermediates, action)) == s,
{
}

/// The alternate screen holds nothing, with the cursor in its top left corner and no scroll
/// region, whatever was on the main screen. Left again, it gives the main screen and its cursor
/// back, whatever was done in between but for the size and the kept screen.
#[verifier::spinoff_prover]
#[verifier::rlimit(40)]
pub proof fn screens_are_switched(s: GridState, u: GridState, mode: u16)
    requires
        s.wf(),
        s.on_screen(),
        mode == 47 || mode == 1047 || mode == 1049,
        u.saved_screen == s.applied(csi(seq![seq![mode]], seq![63u8], 'h')).saved_screen,
        u.cols == s.cols,
        u.rows == s.rows,
    ensures
        ({
            let t = s.applied(csi(seq![seq![mode]], seq![63u8], 'h'));
            &&& t.wf()
            &&& forall|r: int| 0 <= r < s.rows ==> nothing_on(#[trigger] t.cells[r], s.cols)
            &&& t.row == 0 && t.col == 0 && !t.pending_wrap
            &&& t.scroll_top == 0 && t.scroll_bottom + 1 == s.rows
            &&& t.scrollback == s.scrollback && t.attr == s.attr
        }),
        ({
            let back = u.applied(csi(seq![seq![mode]], seq![63u8], 'l'));
            &&& back.cells == s.cells
            &&& back.row == s.row && back.col == s.col && !back.pending_wrap
            &&& back.scroll_top == 0 && back.scroll_bottom + 1 == s.rows
            &&& back.saved_screen is None
            &&& back.scrollback == u.scrollback && back.attr == u.attr
        }),
{
    let back = u.applied(csi(seq![seq![mode]], seq![63u8], 'l'));
    assert forall|r: int| 0 <= r < s.cells.len() implies back.cells[r] =~= s.cells[r] by {
        assert(s.cells[r].len() == s.cols);
    }
    assert(back.cells =~= s.cells);
}

/// The value of decimal digits.
pub open spec fn value_of(bytes: Seq<u8>) -> nat
    decreases bytes.len(),
{
    if bytes.len() == 0 {
        0
    } else {
        10 * value_of(bytes.drop_last()) + (bytes.last() - 48) as nat
    }
}

/// Whether bytes are a number in decimal, without zeros in front.
pub open spec fn is_number(bytes: Seq<u8>, n: nat) -> bool {
    &&& bytes.len() > 0
    &&& forall|i: int| 0 <= i < bytes.len() ==> 48 <= #[trigger] bytes[i] <= 57
    &&& n > 0 ==> bytes[0] != 48
    &&& value_of(bytes) == n
}

/// A number written in decimal has its value.
pub proof fn decimal_is_the_number(n: nat)
    ensures
        is_number(state::decimal(n), n),
    decreases n,
{
    let d = state::decimal(n);
    reveal_with_fuel(value_of, 2);
    if n < 10 {
        assert(d.drop_last() =~= Seq::empty());
    } else {
        decimal_is_the_number(n / 10);
        assert(d.drop_last() =~= state::decimal(n / 10));
    }
}

/// A program that asks for the cursor is told its row and column, counted from one, one that
/// asks for the state is told that all is well, and one that asks what the terminal is is told
/// that. Nothing else changes, and other questions are not answered.
#[verifier::spinoff_prover]
#[verifier::rlimit(40)]
pub proof fn questions_are_answered(s: GridState, params: Seq<Seq<u16>>, what: u16)
    requires
        first_is(params, what),
    ensures
        ({
            let t = s.applied(csi(params, seq![], 'n'));
            &&& t == GridState { response: t.response, ..s }
            &&& what == 6 ==> exists|row: Seq<u8>, col: Seq<u8>|
                #![trigger is_number(row, (s.row + 1) as nat), is_number(col, (s.col + 1) as nat)]
                is_number(row, (s.row + 1) as nat) && is_number(col, (s.col + 1) as nat)
                    && t.response == s.response + (seq![27u8, 91u8] + row + seq![59u8] + col
                    + seq![82u8])
            &&& what == 5 ==> t.response == s.response + seq![27u8, 91u8, 48u8, 110u8]
            &&& what != 5 && what != 6 ==> t == s
        }),
        s.applied(csi(params, seq![], 'c')) == (GridState {
            response: s.response + seq![27u8, 91u8, 63u8, 54u8, 50u8, 59u8, 50u8, 50u8, 99u8],
            ..s
        }),
{
    decimal_is_the_number((s.row + 1) as nat);
    decimal_is_the_number((s.col + 1) as nat);
}

/// Whether all actions print character `c`.
pub open spec fn all_print(actions: Seq<VtActionView>, c: char) -> bool {
    forall|i: int| 0 <= i < actions.len() ==> #[trigger] actions[i] == VtActionView::Print(c)
}

/// Repeating a character is printing it again as many times.
pub proof fn character_is_repeated(
    s: GridState,
    c: char,
    params: Seq<Seq<u16>>,
    n: u16,
    again: Seq<VtActionView>,
)
    requires
        first_is(params, n),
        n > 0,
        again.len() == n,
        all_print(again, c),
    ensures
        ({
            let t = s.applied(VtActionView::Print(c));
            t.applied(csi(params, seq![], 'b')) == t.applied_all(again)
        }),
        s.last_char is None ==> s.applied(csi(params, seq![], 'b')) == s,
{
    repeats(s.applied(VtActionView::Print(c)), c, again);
}

proof fn repeats(t: GridState, c: char, again: Seq<VtActionView>)
    requires
        all_print(again, c),
    ensures
        t.printed_times(c, again.len()) == t.applied_all(again),
    decreases again.len(),
{
    if again.len() > 0 {
        let before = again.drop_last();
        assert forall|i: int| 0 <= i < before.len() implies #[trigger] before[i]
            == VtActionView::Print(c) by {
            assert(before[i] == again[i]);
        }
        repeats(t, c, before);
        assert(again.last() == again[again.len() - 1]);
    }
}

/// A selection of graphic rendition.
pub open spec fn rendition(s: GridState, groups: Seq<Seq<u16>>) -> CellAttr {
    s.applied(csi(groups, seq![], 'm')).attr
}

/// A selection of graphic rendition changes the attributes of what is written next and nothing
/// else, and one with an intermediate byte changes nothing.
pub proof fn rendition_changes_attributes_only(
    s: GridState,
    groups: Seq<Seq<u16>>,
    intermediates: Seq<u8>,
)
    ensures
        s.applied(csi(groups, seq![], 'm')) == (GridState { attr: rendition(s, groups), ..s }),
        intermediates.len() > 0 ==> s.applied(csi(groups, intermediates, 'm')) == s,
{
}

/// The attributes that are switched on and off, one parameter for each, and all of them off for
/// zero. What a parameter does not name stays.
#[verifier::spinoff_prover]
#[verifier::rlimit(40)]
pub proof fn attributes_are_switched(s: GridState, group: Seq<u16>, p: u16)
    requires
        group.len() > 0,
        group[0] == p,
        p < 30,
    ensures
        ({
            let a = s.attr;
            let b = rendition(s, seq![group]);
            &&& p == 0 ==> b.fg == Color::Reset && b.bg == Color::Reset && !b.bold && !b.dim
                && !b.italic && !b.underline && !b.reverse && !b.strikethrough
            &&& p != 0 ==> b.fg == a.fg && b.bg == a.bg
            &&& p != 0 ==> b.bold == if p == 1 {
                true
            } else if p == 22 {
                false
            } else {
                a.bold
            }
            &&& p != 0 ==> b.dim == if p == 2 {
                true
            } else if p == 22 || p == 25 {
                false
            } else {
                a.dim
            }
            &&& p != 0 ==> b.italic == if p == 3 {
                true
            } else if p == 23 {
                false
            } else {
                a.italic
            }
            &&& p != 0 ==> b.underline == if p == 4 {
                true
            } else if p == 24 {
                false
            } else {
                a.underline
            }
            &&& p != 0 ==> b.reverse == if p == 7 {
                true
            } else if p == 27 {
                false
            } else {
                a.reverse
            }
            &&& p != 0 ==> b.strikethrough == if p == 9 {
                true
            } else if p == 29 {
                false
            } else {
                a.strikethrough
            }
        }),
{
    reveal_with_fuel(state::sgr_from, 2);
}

/// The eight basic colours, in the order of their parameters.
pub open spec fn is_basic(k: int, color: Color) -> bool {
    &&& k == 0 <==> color == Color::Black
    &&& k == 1 <==> color == Color::Red
    &&& k == 2 <==> color == Color::Green
    &&& k == 3 <==> color == Color::Yellow
    &&& k == 4 <==> color == Color::Blue
    &&& k == 5 <==> color == Color::Magenta
    &&& k == 6 <==> color == Color::Cyan
    &&& k == 7 <==> color == Color::White
}

/// Colours by one parameter: the basic and the bright ones of the foreground, those of the
/// background ten further on, and back to the colours of the terminal. A foreground leaves the
/// background alone and the other way round, and both leave the other attributes alone.
#[verifier::spinoff_prover]
#[verifier::rlimit(40)]
pub proof fn colors_are_set(s: GridState, group: Seq<u16>, p: u16)
    requires
        group.len() > 0,
        group[0] == p,
        30 <= p,
        p != 38,
        p != 48,
    ensures
        ({
            let a = s.attr;
            let b = rendition(s, seq![group]);
            let fore = 30 <= p <= 37 || p == 39 || 90 <= p <= 97;
            let back = 40 <= p <= 47 || p == 49 || 100 <= p <= 107;
            &&& b == CellAttr { fg: b.fg, bg: b.bg, ..a }
            &&& !fore ==> b.fg == a.fg
            &&& !back ==> b.bg == a.bg
            &&& 30 <= p <= 37 ==> is_basic(p - 30, b.fg)
            &&& 40 <= p <= 47 ==> is_basic(p - 40, b.bg)
            &&& 90 <= p <= 97 ==> b.fg == Color::Indexed((p - 82) as u8)
            &&& 100 <= p <= 107 ==> b.bg == Color::Indexed((p - 92) as u8)
            &&& p == 39 ==> b.fg == Color::Reset
            &&& p == 49 ==> b.bg == Color::Reset
        }),
{
    reveal_with_fuel(state::sgr_from, 2);
}

/// The attributes with another foreground, for 38, or background, for 48.
pub open spec fn colored(attr: CellAttr, k: u16, color: Color) -> CellAttr {
    if k == 38 {
        CellAttr { fg: color, ..attr }
    } else {
        CellAttr { bg: color, ..attr }
    }
}

proof fn rendition_is(s: GridState, groups: Seq<Seq<u16>>)
    ensures
        rendition(s, groups) == state::sgr(s.attr, groups),
{
}

/// A palette colour, written with separate parameters or within one, for the foreground behind
/// 38 and for the background behind 48.
#[verifier::spinoff_prover]
#[verifier::rlimit(40)]
pub proof fn palette_colors_are_set(s: GridState, k: u16, idx: u16)
    requires
        k == 38 || k == 48,
    ensures
        rendition(s, seq![seq![k], seq![5u16], seq![idx]]) == colored(
            s.attr,
            k,
            Color::Indexed((idx % 256) as u8),
        ),
        rendition(s, seq![seq![k, 5u16, idx]]) == colored(
            s.attr,
            k,
            Color::Indexed((idx % 256) as u8),
        ),
{
    reveal_with_fuel(state::sgr_from, 2);
    let a = seq![seq![k], seq![5u16], seq![idx]];
    let b = seq![seq![k, 5u16, idx]];
    rendition_is(s, a);
    rendition_is(s, b);
    assert(a[0][0] == k && a[1][0] == 5 && a[2][0] == idx);
    assert(b[0][0] == k && b[0][1] == 5 && b[0][2] == idx);
}

/// A colour by red, green and blue, written with separate parameters or within one, for the
/// foreground behind 38 and for the background behind 48.
#[verifier::spinoff_prover]
#[verifier::rlimit(40)]
pub proof fn direct_colors_are_set(s: GridState, k: u16, red: u16, green: u16, blue: u16)
    requires
        k == 38 || k == 48,
    ensures
        rendition(s, seq![seq![k], seq![2u16], seq![red], seq![green], seq![blue]]) == colored(
            s.attr,
            k,
            Color::Rgb((red % 256) as u8, (green % 256) as u8, (blue % 256) as u8),
        ),
        rendition(s, seq![seq![k, 2u16, red, green, blue]]) == colored(
            s.attr,
            k,
            Color::Rgb((red % 256) as u8, (green % 256) as u8, (blue % 256) as u8),
        ),
{
    reveal_with_fuel(state::sgr_from, 2);
    let a = seq![seq![k], seq![2u16], seq![red], seq![green], seq![blue]];
    let b = seq![seq![k, 2u16, red, green, blue]];
    rendition_is(s, a);
    rendition_is(s, b);
    assert(a[0][0] == k && a[1][0] == 2 && a[2][0] == red && a[3][0] == green && a[4][0] == blue);
    assert(b[0][0] == k && b[0][1] == 2 && b[0][2] == red && b[0][3] == green && b[0][4] == blue);
}

/// Whether a parameter stands for itself, and does not take others behind it in.
pub open spec fn stands_alone(group: Seq<u16>) -> bool {
    group.len() == 0 || (group[0] != 38 && group[0] != 48)
}

/// Parameters one behind the other do what they do one after the other.
pub proof fn renditions_add_up(s: GridState, group: Seq<u16>, rest: Seq<Seq<u16>>)
    requires
        stands_alone(group),
    ensures
        rendition(s, seq![group] + rest) == rendition(
            s.applied(csi(seq![group], seq![], 'm')),
            rest,
        ),
{
    reveal_with_fuel(state::sgr_from, 2);
    sgr_shifted(rendition(s, seq![group]), seq![group], rest, 0);
    assert((seq![group] + rest)[0] == group);
}

/// What parameters do does not depend on what stands in front of them.
proof fn sgr_shifted(attr: CellAttr, front: Seq<Seq<u16>>, rest: Seq<Seq<u16>>, i: int)
    requires
        0 <= i,
    ensures
        state::sgr_from(attr, front + rest, front.len() + i)
            == state::sgr_from(attr, rest, i),
    decreases rest.len() - i,
{
    let all = front + rest;
    let k = front.len() as int;
    if i < rest.len() {
        assert(all[k + i] == rest[i]);
        let p = state::sub_value(rest[i], 0);
        if p == 38 || p == 48 {
            assert forall|j: int| 0 <= j implies state::group_first(all, k + j)
                == #[trigger] state::group_first(rest, j) by {
                if j < rest.len() {
                    assert(all[k + j] == rest[j]);
                }
            }
            let (color, next) = state::selected_color(rest, i);
            let (color2, next2) = state::selected_color(all, k + i);
            let a1 = state::group_after(rest, i + 1);
            let a2 = state::group_after(rest, a1);
            let a3 = state::group_after(rest, a2);
            assert(state::group_first(all, k + i + 1)
                == state::group_first(rest, i + 1));
            assert(state::group_first(all, k + a1)
                == state::group_first(rest, a1));
            assert(state::group_first(all, k + a2)
                == state::group_first(rest, a2));
            assert(state::group_first(all, k + a3)
                == state::group_first(rest, a3));
            assert(color == color2);
            assert(next2 == k + next);
            let a = match color {
                Some(c) => if p == 38 {
                    CellAttr { fg: c, ..attr }
                } else {
                    CellAttr { bg: c, ..attr }
                },
                None => attr,
            };
            sgr_shifted(a, front, rest, next);
        } else {
            sgr_shifted(state::sgr_simple(attr, p), front, rest, i + 1);
        }
    }
}

/// No parameter at all changes nothing, and an empty one counts as zero.
pub proof fn empty_renditions(s: GridState)
    ensures
        rendition(s, seq![]) == s.attr,
        rendition(s, seq![Seq::empty()]) == rendition(s, seq![seq![0u16]]),
{
    reveal_with_fuel(state::sgr_from, 2);
}

/// A fresh screen holds nothing, with the cursor in its top left corner and the whole screen
/// as scroll region.
pub proof fn fresh_screen_holds_nothing(cols: u16, rows: u16, r: int)
    requires
        0 <= r < rows,
    ensures
        ({
            let s = GridState::fresh(cols, rows);
            &&& s.wf()
            &&& nothing_on(s.cells[r], cols)
            &&& s.row == 0 && s.col == 0 && !s.pending_wrap && s.auto_wrap && s.cursor_visible
            &&& s.scroll_top == 0 && s.scroll_bottom + 1 == rows
            &&& s.scrollback.len() == 0 && s.scroll_offset == 0 && s.response.len() == 0
            &&& !s.application_cursor_keys && !s.focus_tracking
            &&& s.saved_cursor is None && s.saved_screen is None && s.last_char is None
            &&& !s.attr.bold && !s.attr.dim && !s.attr.italic && !s.attr.underline
                && !s.attr.reverse && !s.attr.strikethrough && s.attr.fg == Color::Reset
                && s.attr.bg == Color::Reset
        }),
{
    let s = GridState::fresh(cols, rows);
    assert forall|q: int| 0 <= q < s.cells.len() implies (#[trigger] s.cells[q]).len()
        == s.cols by {}
}

/// A screen of another size holds what fits on it where it was, and nothing elsewhere. The
/// cursor stays as far as it is on it, the scroll region ends on its last line, and everything
/// else is as it was.
pub proof fn screen_is_resized(s: GridState, cols: u16, rows: u16, r: int, c: int)
    requires
        s.wf(),
        0 <= r < rows,
        0 <= c < cols,
    ensures
        ({
            let t = s.resized(cols, rows);
            &&& t.wf() && t.cols == cols && t.rows == rows
            &&& if r < s.rows && c < s.cols {
                t.cells[r][c] == s.cells[r][c]
            } else {
                nothing_in(t.cells[r][c])
            }
            &&& t.row == if s.row < rows {
                s.row as int
            } else {
                rows - 1
            }
            &&& t.col == if s.col < cols {
                s.col as int
            } else {
                cols - 1
            }
            &&& t.scroll_bottom + 1 == rows
            &&& t == GridState {
                cells: t.cells,
                cols,
                rows,
                row: t.row,
                col: t.col,
                scroll_bottom: t.scroll_bottom,
                ..s
            }
        }),
{
    let t = s.resized(cols, rows);
    if r < s.rows {
        assert(s.cells[r].len() == s.cols);
    }
    assert forall|q: int| 0 <= q < t.cells.len() implies (#[trigger] t.cells[q]).len()
        == t.cols by {}
}

/// The view shows the scrollback from as many lines before its end as it was scrolled back, and
/// below these the screen from its first line on.
pub proof fn view_shows(s: GridState, r: int)
    requires
        s.wf(),
        0 <= r,
    ensures
        r < s.scroll_offset ==> s.viewed(r) == Some(
            s.scrollback[s.scrollback.len() - s.scroll_offset + r],
        ),
        s.scroll_offset <= r < s.scroll_offset + s.rows ==> s.viewed(r) == Some(
            s.cells[r - s.scroll_offset],
        ),
        r >= s.scroll_offset + s.rows ==> s.viewed(r) is None,
{
}

/// The view moves up as far as the scrollback goes and down as far as the screen, and nothing
/// else changes.
pub proof fn view_is_moved(s: GridState, n: int)
    requires
        s.wf(),
        0 <= n,
    ensures
        ({
            let up = s.view_moved_up(n);
            &&& up == GridState { scroll_offset: up.scroll_offset, ..s }
            &&& s.scroll_offset + n <= s.scrollback.len() ==> up.scroll_offset == s.scroll_offset
                + n
            &&& s.scroll_offset + n > s.scrollback.len() ==> up.scroll_offset
                == s.scrollback.len()
            &&& up.wf()
        }),
        ({
            let down = s.view_moved_down(n);
            &&& down == GridState { scroll_offset: down.scroll_offset, ..s }
            &&& n <= s.scroll_offset ==> down.scroll_offset + n == s.scroll_offset
            &&& n > s.scroll_offset ==> down.scroll_offset == 0
            &&& down.wf()
        }),
{
}

/// Scrolling by one line more is scrolling by one line again, up and down.
#[verifier::spinoff_prover]
#[verifier::rlimit(40)]
pub proof fn region_is_scrolled_line_by_line(s: GridState, n: u16)
    requires
        s.wf(),
        0 < n < u16::MAX,
    ensures
        s.applied(csi(seq![seq![(n + 1) as u16]], seq![], 'S')) == s.applied(
            csi(seq![seq![n]], seq![], 'S'),
        ).applied(csi(seq![seq![1u16]], seq![], 'S')),
        s.applied(csi(seq![seq![(n + 1) as u16]], seq![], 'T')) == s.applied(
            csi(seq![seq![n]], seq![], 'T'),
        ).applied(csi(seq![seq![1u16]], seq![], 'T')),
{
    crate::pane::laws::scrolling_adds_up(s, n as nat, 1);
    let more = seq![seq![(n + 1) as u16]];
    let some = seq![seq![n]];
    let one = seq![seq![1u16]];
    assert(more[0][0] == n + 1 && some[0][0] == n && one[0][0] == 1);
    assert(s.applied(csi(more, seq![], 'S')) == s.scrolled_up(n + 1));
    assert(s.applied(csi(some, seq![], 'S')) == s.scrolled_up(n as int));
    assert(s.applied(csi(more, seq![], 'T')) == s.scrolled_down(n + 1));
    assert(s.applied(csi(some, seq![], 'T')) == s.scrolled_down(n as int));
}

/// A scroll region of fewer than two lines does not scroll.
pub proof fn small_regions_do_not_scroll(s: GridState, params: Seq<Seq<u16>>)
    requires
        s.scroll_top >= s.scroll_bottom,
    ensures
        s.applied(csi(params, seq![], 'S')) == (GridState { scroll_offset: 0, ..s }),
        s.applied(csi(params, seq![], 'T')) == s,
        s.row == s.scroll_bottom ==> s.applied(control(10)) == (GridState {
            scroll_offset: 0,
            pending_wrap: false,
            ..s
        }),
        s.row == s.scroll_top ==> s.applied(
            VtActionView::Esc { intermediates: seq![], ignore: false, byte: 77 },
        ) == s,
{
}

/// What stands behind an extended colour is done after it.
pub proof fn renditions_go_on_behind_colors(
    s: GridState,
    k: u16,
    idx: u16,
    red: u16,
    green: u16,
    blue: u16,
    rest: Seq<Seq<u16>>,
)
    requires
        k == 38 || k == 48,
    ensures
        ({
            let palette = seq![seq![k], seq![5u16], seq![idx]];
            let direct = seq![seq![k], seq![2u16], seq![red], seq![green], seq![blue]];
            &&& rendition(s, palette + rest) == rendition(
                GridState { attr: rendition(s, palette), ..s },
                rest,
            )
            &&& rendition(s, direct + rest) == rendition(
                GridState { attr: rendition(s, direct), ..s },
                rest,
            )
        }),
{
    let palette = seq![seq![k], seq![5u16], seq![idx]];
    let direct = seq![seq![k], seq![2u16], seq![red], seq![green], seq![blue]];
    palette_colors_are_set(s, k, idx);
    direct_colors_are_set(s, k, red, green, blue);
    behind_palette(s.attr, k, idx, rest);
    behind_direct(s.attr, k, red, green, blue, rest);
    rendition_is(s, palette + rest);
    rendition_is(s, direct + rest);
    rendition_is(GridState { attr: rendition(s, palette), ..s }, rest);
    rendition_is(GridState { attr: rendition(s, direct), ..s }, rest);
}

proof fn behind_palette(attr: CellAttr, k: u16, idx: u16, rest: Seq<Seq<u16>>)
    requires
        k == 38 || k == 48,
    ensures
        state::sgr(attr, seq![seq![k], seq![5u16], seq![idx]] + rest) == state::sgr(
            colored(attr, k, Color::Indexed((idx % 256) as u8)),
            rest,
        ),
{
    let front = seq![seq![k], seq![5u16], seq![idx]];
    let all = front + rest;
    assert(all[0] == front[0] && all[1] == front[1] && all[2] == front[2]);
    assert(all[0][0] == k && all[0].len() == 1 && all[1][0] == 5 && all[2][0] == idx);
    sgr_shifted(colored(attr, k, Color::Indexed((idx % 256) as u8)), front, rest, 0);
}

proof fn behind_direct(
    attr: CellAttr,
    k: u16,
    red: u16,
    green: u16,
    blue: u16,
    rest: Seq<Seq<u16>>,
)
    requires
        k == 38 || k == 48,
    ensures
        state::sgr(attr, seq![seq![k], seq![2u16], seq![red], seq![green], seq![blue]] + rest)
            == state::sgr(
            colored(
                attr,
                k,
                Color::Rgb((red % 256) as u8, (green % 256) as u8, (blue % 256) as u8),
            ),
            rest,
        ),
{
    let front = seq![seq![k], seq![2u16], seq![red], seq![green], seq![blue]];
    let all = front + rest;
    assert(all[0] == front[0] && all[1] == front[1] && all[2] == front[2] && all[3] == front[3]
        && all[4] == front[4]);
    assert(all[0][0] == k && all[0].len() == 1 && all[1][0] == 2 && all[2][0] == red && all[3][0]
        == green && all[4][0] == blue);
    sgr_shifted(
        colored(
            attr,
            k,
            Color::Rgb((red % 256) as u8, (green % 256) as u8, (blue % 256) as u8),
        ),
        front,
        rest,
        0,
    );
}

/// An extended colour that is not complete, or of neither way to give one, changes nothing.
pub proof fn incomplete_colors_change_nothing(s: GridState, k: u16, way: u16, red: u16, green: u16)
    requires
        k == 38 || k == 48,
    ensures
        rendition(s, seq![seq![k]]) == s.attr,
        rendition(s, seq![seq![k], seq![5u16]]) == s.attr,
        rendition(s, seq![seq![k], seq![2u16]]) == s.attr,
        rendition(s, seq![seq![k], seq![2u16], seq![red]]) == s.attr,
        rendition(s, seq![seq![k], seq![2u16], seq![red], seq![green]]) == s.attr,
        way != 2 && way != 5 ==> rendition(s, seq![seq![k], seq![way]]) == s.attr,
{
    incomplete_is_none(s, seq![seq![k]]);
    incomplete_is_none(s, seq![seq![k], seq![5u16]]);
    incomplete_is_none(s, seq![seq![k], seq![2u16]]);
    incomplete_is_none(s, seq![seq![k], seq![2u16], seq![red]]);
    incomplete_is_none(s, seq![seq![k], seq![2u16], seq![red], seq![green]]);
    if way != 2 && way != 5 {
        incomplete_is_none(s, seq![seq![k], seq![way]]);
    }
}

proof fn incomplete_is_none(s: GridState, g: Seq<Seq<u16>>)
    requires
        0 < g.len() <= 4,
        forall|i: int| 0 <= i < g.len() ==> (#[trigger] g[i]).len() == 1,
        g[0][0] == 38 || g[0][0] == 48,
        g.len() > 1 ==> (g[1][0] == 5 && g.len() == 2) || g[1][0] == 2 || (g[1][0] != 5
            && g.len() == 2),
    ensures
        rendition(s, g) == s.attr,
{
    rendition_is(s, g);
    assert(g[0].len() == 1);
    let (color, next) = state::selected_color(g, 0);
    if g.len() > 1 {
        assert(g[1].len() == 1);
    }
    if g.len() > 2 {
        assert(g[2].len() == 1);
    }
    if g.len() > 3 {
        assert(g[3].len() == 1);
    }
    assert(color is None && next >= g.len());
    assert(state::sgr_from(s.attr, g, next) == s.attr);
}

} // verus!
