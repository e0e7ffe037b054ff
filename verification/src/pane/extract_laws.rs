//! Laws of the text on a screen.

use crate::pane::dump;
use crate::pane::extract;
use crate::pane::state::{Cell, GridState};
use crate::text;
use crate::text_laws;
use crate::width;
use vstd::prelude::*;

verus! {

/// The characters of a line are those of its cells, one after the other. A cell that was never
/// filled adds nothing, and neither does the space behind a wide character.
pub proof fn cells_add_their_characters(line: Seq<Cell>, cell: Cell)
    ensures
        ({
            let behind_wide = line.len() > 0 && width::is_wide(line.last().ch);
            extract::line_chars(line + seq![cell]) == if cell.ch == '\0' || (cell.ch == ' '
                && behind_wide) {
                extract::line_chars(line)
            } else {
                extract::line_chars(line) + seq![cell.ch]
            }
        }),
        extract::line_chars(Seq::empty()).len() == 0,
{
    let longer = line + seq![cell];
    assert(longer.drop_last() =~= line);
    assert(longer.last() == cell);
    assert(extract::line_chars(longer) =~= if extract::hidden(longer, longer.len() - 1) {
        extract::line_chars(line)
    } else {
        extract::line_chars(line) + seq![cell.ch]
    });
}

/// A line without wide characters and without cells that were never filled has the characters
/// of its cells.
pub proof fn narrow_lines_have_their_characters(line: Seq<Cell>)
    requires
        forall|i: int|
            0 <= i < line.len() ==> (#[trigger] line[i]).ch != '\0' && !width::is_wide(line[i].ch),
    ensures
        extract::line_chars(line) == Seq::new(line.len(), |i: int| line[i].ch),
    decreases line.len(),
{
    if line.len() > 0 {
        let front = line.drop_last();
        assert forall|i: int| 0 <= i < front.len() implies (#[trigger] front[i]).ch != '\0'
            && !width::is_wide(front[i].ch) by {
            assert(front[i] == line[i]);
        }
        narrow_lines_have_their_characters(front);
        assert(front + seq![line.last()] =~= line);
        cells_add_their_characters(front, line.last());
        assert(line[line.len() - 1].ch != '\0');
        if front.len() > 0 {
            assert(!width::is_wide(front[front.len() - 1].ch));
        }
    }
    assert(extract::line_chars(line) =~= Seq::new(line.len(), |i: int| line[i].ch));
}

/// The text of a screen with one line more is the text of the screen with the text of that line
/// behind it, without the white space at its end; a line without text adds nothing.
pub proof fn lines_add_their_text(cells: Seq<Seq<Cell>>, line: Seq<Cell>)
    ensures
        ({
            let t = text::trim_end(extract::line_chars(line));
            let before = extract::screen_text(cells);
            extract::screen_text(cells + seq![line]) == if t.len() == 0 {
                before
            } else if before.len() == 0 {
                t
            } else {
                before + seq!['\n'] + t
            }
        }),
        extract::screen_text(Seq::empty()).len() == 0,
{
    let longer = cells + seq![line];
    assert(longer.drop_last() =~= cells);
    assert(longer.last() == line);
    let lines = extract::text_lines(cells);
    let t = text::trim_end(extract::line_chars(line));
    lines_hold_text(cells);
    if t.len() > 0 {
        let more = lines.push(t);
        assert(extract::text_lines(longer) == more);
        assert(more.drop_last() =~= lines);
        assert(more.last() == t);
        if lines.len() == 0 {
            assert(text::join_lines(lines).len() == 0);
            assert(more[0] == t);
        } else {
            joined_is_not_empty(lines);
            assert(text::join_lines(more) =~= text::join_lines(lines) + seq!['\n'] + t);
        }
    }
}

proof fn lines_hold_text(cells: Seq<Seq<Cell>>)
    ensures
        forall|i: int|
            0 <= i < extract::text_lines(cells).len() ==> (#[trigger] extract::text_lines(
                cells,
            )[i]).len() > 0,
    decreases cells.len(),
{
    if cells.len() > 0 {
        let before = extract::text_lines(cells.drop_last());
        let all = extract::text_lines(cells);
        lines_hold_text(cells.drop_last());
        assert forall|i: int| 0 <= i < all.len() implies (#[trigger] all[i]).len() > 0 by {
            if i < before.len() {
                assert(all[i] == before[i]);
            }
        }
    }
}

proof fn joined_is_not_empty(lines: Seq<Seq<char>>)
    requires
        lines.len() > 0,
        forall|i: int| 0 <= i < lines.len() ==> (#[trigger] lines[i]).len() > 0,
    ensures
        text::join_lines(lines).len() > 0,
{
    assert(lines[lines.len() - 1].len() > 0);
}

/// Where a marker is missing, or nothing but white space is between them, there is nothing
/// between the markers.
pub proof fn nothing_is_between(s: Seq<char>, start: Seq<char>, end: Seq<char>)
    ensures
        !text_laws::has_inside(s, start) || !text_laws::has_inside(s, end)
            ==> extract::between(s, start, end) is None,
        extract::between(s, start, end) matches Some(content) ==> content.len() > 0
            && !text::is_space(content[0]) && !text::is_space(content.last()),
{
    text_laws::holding_is_having_inside(s, start);
    text_laws::holding_is_having_inside(s, end);
    text::first_at_is_first(s, start, 0);
    match text::first_at(s, start, 0) {
        Some(i) => {
            assert(text::occurs_at(s, start, i));
            text::first_at_is_first(s, end, i + start.len());
            match text::first_at(s, end, i + start.len()) {
                Some(j) => {
                    assert(text::occurs_at(s, end, j));
                    text_laws::trimming(s.subrange(i + start.len(), j));
                },
                None => {},
            }
        },
        None => {},
    }
}

/// A line number is written with three digits at least.
pub proof fn line_numbers_have_three_digits(n: nat)
    ensures
        text::number(dump::three_digits(n)) == n,
        dump::three_digits(n).len() >= 3,
        n < 1000 ==> dump::three_digits(n).len() == 3,
        n >= 100 ==> dump::three_digits(n) == text::digits(n),
{
    reveal_strlit("0");
    reveal_strlit("00");
    text_laws::numbers_are_read_back(n);
    let d = text::digits(n);
    digits_len(n);
    zero_in_front(d);
    assert("0"@ =~= seq!['0']);
    assert("00"@ =~= seq!['0', '0']);
    zero_in_front(seq!['0'] + d);
    assert(seq!['0', '0'] + d =~= seq!['0'] + (seq!['0'] + d));
}

proof fn digits_len(n: nat)
    ensures
        n < 10 ==> text::digits(n).len() == 1,
        10 <= n < 100 ==> text::digits(n).len() == 2,
        100 <= n < 1000 ==> text::digits(n).len() == 3,
        n >= 100 ==> text::digits(n).len() >= 3,
    decreases n,
{
    if n >= 10 {
        digits_len(n / 10);
    }
}

proof fn zero_in_front(d: Seq<char>)
    ensures
        text::number(seq!['0'] + d) == text::number(d),
    decreases d.len(),
{
    let z = seq!['0'] + d;
    if d.len() == 0 {
        assert(z.drop_last() =~= d);
        assert(z.last() == '0');
    } else {
        zero_in_front(d.drop_last());
        assert(z.drop_last() =~= seq!['0'] + d.drop_last());
        assert(z.last() == d.last());
    }
}

/// A line of a dump has its number and its text behind a tag; a line without text is left out.
pub proof fn dumped_lines_are_numbered(
    lines: Seq<Seq<Cell>>,
    line: Seq<Cell>,
    tag: Seq<char>,
    first: nat,
)
    ensures
        ({
            let t = text::trim_end(Seq::new(line.len(), |i: int| line[i].ch));
            let before = dump::numbered(lines, tag, first);
            dump::numbered(lines + seq![line], tag, first) == if t.len() == 0 {
                before
            } else {
                before + tag + dump::three_digits((first + lines.len()) as nat) + "] "@ + t + seq![
                    '\n',
                ]
            }
        }),
{
    let longer = lines + seq![line];
    assert(longer.drop_last() =~= lines);
    assert(longer.last() == line);
    let t = text::trim_end(Seq::new(line.len(), |i: int| line[i].ch));
    assert(dump::line_text(line) == t);
    let before = dump::numbered(lines, tag, first);
    let n = dump::three_digits((first + lines.len()) as nat);
    assert((before + tag + n + "] "@ + t).push('\n') =~= before + tag + n + "] "@ + t + seq![
        '\n',
    ]);
}

/// A dump tells the size, the cursor, the view and the scroll region, then the lines of the
/// screen, then the last twenty lines of the scrollback with their numbers.
pub proof fn dumps_tell_the_screen(g: GridState)
    ensures
        ({
            let first = if g.scrollback.len() < 20 {
                0nat
            } else {
                (g.scrollback.len() - 20) as nat
            };
            dump::dump(g) == "Grid: "@ + text::digits(g.cols as nat) + "x"@ + text::digits(
                g.rows as nat,
            ) + " cursor=("@ + text::digits(g.row as nat) + ","@ + text::digits(g.col as nat)
                + ") scroll_offset="@ + text::digits(g.scroll_offset as nat) + " scroll_top="@
                + text::digits(g.scroll_top as nat) + " scroll_bottom="@ + text::digits(
                g.scroll_bottom as nat,
            ) + "\nScrollback lines: "@ + text::digits(g.scrollback.len())
                + "\n\n=== Grid contents (row: text) ===\n"@ + dump::numbered(g.cells, "["@, 0)
                + "\n=== Last 20 scrollback lines ===\n"@ + dump::numbered(
                g.scrollback.skip(first as int),
                "[sb "@,
                first,
            ) + "\nDump complete.\n"@
        }),
{
}

} // verus!
