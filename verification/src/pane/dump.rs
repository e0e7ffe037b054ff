//! A screen written down for debugging.

use crate::pane::grid::TerminalGrid;
use crate::pane::state::{Cell, GridState};
use crate::text;
use crate::text::{push_digits, push_text, to_text, trim_end_of};
use vstd::prelude::*;

verus! {

/// A number in decimal, with zeros in front up to three digits.
pub open spec fn three_digits(n: nat) -> Seq<char> {
    if n < 10 {
        "00"@ + text::digits(n)
    } else if n < 100 {
        "0"@ + text::digits(n)
    } else {
        text::digits(n)
    }
}

/// The characters of a line, without the white space at its end.
pub open spec fn line_text(line: Seq<Cell>) -> Seq<char> {
    text::trim_end(Seq::new(line.len(), |i: int| line[i].ch))
}

/// The lines that hold text, numbered from `first` on, with `tag` in front of the number.
pub open spec fn numbered(lines: Seq<Seq<Cell>>, tag: Seq<char>, first: nat) -> Seq<char>
    decreases lines.len(),
{
    if lines.len() == 0 {
        seq![]
    } else {
        let before = numbered(lines.drop_last(), tag, first);
        let line = line_text(lines.last());
        if line.len() == 0 {
            before
        } else {
            (before + tag + three_digits((first + lines.len() - 1) as nat) + "] "@ + line).push(
                '\n',
            )
        }
    }
}

/// The first lines of a dump: size, cursor, view and scroll region.
pub open spec fn heading(g: GridState) -> Seq<char> {
    "Grid: "@ + text::digits(g.cols as nat) + "x"@ + text::digits(g.rows as nat) + " cursor=("@
        + text::digits(g.row as nat) + ","@ + text::digits(g.col as nat) + ") scroll_offset="@
        + text::digits(g.scroll_offset as nat) + " scroll_top="@ + text::digits(
        g.scroll_top as nat,
    ) + " scroll_bottom="@ + text::digits(g.scroll_bottom as nat) + "\nScrollback lines: "@
        + text::digits(g.scrollback.len()) + "\n\n=== Grid contents (row: text) ===\n"@
}

/// The number of the first line of the scrollback that is written down.
pub open spec fn first_kept(g: GridState) -> int {
    if g.scrollback.len() < 20 {
        0
    } else {
        g.scrollback.len() - 20
    }
}

/// A screen written down: its lines and the last lines of the scrollback.
pub open spec fn dump(g: GridState) -> Seq<char> {
    heading(g) + numbered(g.cells, "["@, 0) + "\n=== Last 20 scrollback lines ===\n"@ + numbered(
        g.scrollback.skip(first_kept(g)),
        "[sb "@,
        first_kept(g) as nat,
    ) + "\nDump complete.\n"@
}

fn push_line(out: &mut String, line: &Vec<Cell>, tag: &str, n: usize)
    ensures
        final(out)@ == if line_text(line@).len() == 0 {
            old(out)@
        } else {
            (old(out)@ + tag@ + three_digits(n as nat) + "] "@ + line_text(line@)).push('\n')
        },
{
    let mut chars: Vec<char> = Vec::new();
    let mut i: usize = 0;
    while i < line.len()
        invariant
            i <= line.len(),
            chars.len() == i,
            forall|k: int| 0 <= k < i ==> #[trigger] chars@[k] == line@[k].ch,
        decreases line.len() - i,
    {
        chars.push(line[i].ch);
        i = i + 1;
    }
    assert(chars@ =~= Seq::new(line@.len(), |i: int| line@[i].ch));
    let trimmed = trim_end_of(&chars);
    if trimmed.len() > 0 {
        push_text(out, tag);
        if n < 10 {
            push_text(out, "00");
        } else if n < 100 {
            push_text(out, "0");
        }
        push_digits(out, n as u128);
        push_text(out, "] ");
        push_text(out, to_text(&trimmed).as_str());
        out.push('\n');
        assert(out@ =~= (old(out)@ + tag@ + three_digits(n as nat) + "] "@ + line_text(
            line@,
        )).push('\n'));
    }
}

fn push_heading(out: &mut String, grid: &TerminalGrid)
    ensures
        final(out)@ == old(out)@ + heading(grid@),
{
    push_text(out, "Grid: ");
    push_digits(out, grid.cols as u128);
    push_text(out, "x");
    push_digits(out, grid.rows as u128);
    push_text(out, " cursor=(");
    push_digits(out, grid.cursor.row as u128);
    push_text(out, ",");
    push_digits(out, grid.cursor.col as u128);
    push_text(out, ") scroll_offset=");
    push_digits(out, grid.scroll_offset as u128);
    push_text(out, " scroll_top=");
    push_digits(out, grid.scroll_top() as u128);
    push_text(out, " scroll_bottom=");
    push_digits(out, grid.scroll_bottom() as u128);
    push_text(out, "\nScrollback lines: ");
    push_digits(out, grid.scrollback.len() as u128);
    push_text(out, "\n\n=== Grid contents (row: text) ===\n");
    assert(out@ =~= old(out)@ + heading(grid@));
}

/// Dump grid contents for debugging.
pub fn dump_grid_debug(grid: &TerminalGrid) -> (out: String)
    requires
        grid@.wf(),
    ensures
        out@ == dump(grid@),
{
    let mut out = String::new();
    push_heading(&mut out, grid);
    assert(out@ =~= heading(grid@));
    let ghost cells = grid@.cells;
    let mut r: usize = 0;
    assert(out@ =~= heading(grid@) + numbered(cells.take(0), "["@, 0));
    while r < grid.cells.len()
        invariant
            r <= grid.cells.len(),
            cells == grid@.cells,
            out@ == heading(grid@) + numbered(cells.take(r as int), "["@, 0),
        decreases grid.cells.len() - r,
    {
        let ghost before = numbered(cells.take(r as int), "["@, 0);
        push_line(&mut out, &grid.cells[r], "[", r);
        assert(cells.take(r + 1).drop_last() =~= cells.take(r as int));
        assert(cells.take(r + 1).last() == grid.cells@[r as int]@);
        r = r + 1;
        assert(out@ =~= heading(grid@) + numbered(cells.take(r as int), "["@, 0));
    }
    assert(cells.take(cells.len() as int) =~= cells);
    push_text(&mut out, "\n=== Last 20 scrollback lines ===\n");
    let ghost head = out@;
    let n = grid.scrollback.len();
    let start: usize = if n < 20 {
        0
    } else {
        n - 20
    };
    let ghost kept = grid@.scrollback.skip(start as int);
    let mut i: usize = start;
    assert(out@ =~= head + numbered(kept.take(0), "[sb "@, start as nat));
    while i < n
        invariant
            start <= i <= n,
            n == grid.scrollback.len(),
            kept == grid@.scrollback.skip(start as int),
            out@ == head + numbered(kept.take(i - start), "[sb "@, start as nat),
        decreases n - i,
    {
        push_line(&mut out, &grid.scrollback[i], "[sb ", i);
        assert(kept.take(i - start + 1).drop_last() =~= kept.take(i - start));
        assert(kept.take(i - start + 1).last() == grid.scrollback@[i as int]@);
        i = i + 1;
        assert(out@ =~= head + numbered(kept.take(i - start), "[sb "@, start as nat));
    }
    assert(kept.take(n - start) =~= kept);
    push_text(&mut out, "\nDump complete.\n");
    out
}

} // verus!
