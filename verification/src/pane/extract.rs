//! The text that stands on a screen.

use crate::pane::grid::TerminalGrid;
use crate::pane::state::Cell;
use crate::text;
use crate::text::{chars_of, find_from, join_of, slice_of, to_text, trim_end_of, trim_of};
use crate::width;
use crate::width::wide;
use vstd::prelude::*;

verus! {

/// Whether cell `i` of a line holds no character of its own: it was never filled, or it is
/// the second cell of a wide character.
pub open spec fn hidden(line: Seq<Cell>, i: int) -> bool {
    line[i].ch == '\0' || (i > 0 && width::is_wide(line[i - 1].ch) && line[i].ch == ' ')
}

/// The characters of a line.
pub open spec fn line_chars(line: Seq<Cell>) -> Seq<char>
    decreases line.len(),
{
    if line.len() == 0 {
        Seq::empty()
    } else {
        let before = line_chars(line.drop_last());
        if hidden(line, line.len() - 1) {
            before
        } else {
            before.push(line.last().ch)
        }
    }
}

/// The lines of a screen that hold text, without the white space at their ends.
pub open spec fn text_lines(cells: Seq<Seq<Cell>>) -> Seq<Seq<char>>
    decreases cells.len(),
{
    if cells.len() == 0 {
        Seq::empty()
    } else {
        let before = text_lines(cells.drop_last());
        let line = text::trim_end(line_chars(cells.last()));
        if line.len() == 0 {
            before
        } else {
            before.push(line)
        }
    }
}

/// The text of a screen.
pub open spec fn screen_text(cells: Seq<Seq<Cell>>) -> Seq<char> {
    text::join_lines(text_lines(cells))
}

/// What stands in `text` between the first `start` and the first `end` behind it, without the
/// white space around it; `None` if a marker is missing or there is nothing between them.
pub open spec fn between(text: Seq<char>, start: Seq<char>, end: Seq<char>) -> Option<Seq<char>> {
    match text::first_at(text, start, 0) {
        Some(i) => match text::first_at(text, end, i + start.len()) {
            Some(j) => {
                let content = text::trim(text.subrange(i + start.len(), j));
                if content.len() == 0 {
                    None
                } else {
                    Some(content)
                }
            },
            None => None,
        },
        None => None,
    }
}

/// The characters of a line.
fn chars_of_line(line: &Vec<Cell>) -> (chars: Vec<char>)
    ensures
        chars@ == line_chars(line@),
{
    let mut chars: Vec<char> = Vec::new();
    let mut i: usize = 0;
    while i < line.len()
        invariant
            i <= line@.len(),
            chars@ == line_chars(line@.take(i as int)),
        decreases line@.len() - i,
    {
        let c = line[i].ch;
        let second = i > 0 && c == ' ' && wide(line[i - 1].ch);
        if c != '\0' && !second {
            chars.push(c);
        }
        assert(line@.take(i + 1).drop_last() =~= line@.take(i as int));
        i = i + 1;
    }
    assert(line@.take(line@.len() as int) =~= line@);
    chars
}

/// What stands between two markers in a text.
pub fn text_between(text: &str, start_marker: &str, end_marker: &str) -> (r: Option<String>)
    ensures
        match r {
            Some(s) => between(text@, start_marker@, end_marker@) == Some(s@),
            None => between(text@, start_marker@, end_marker@) is None,
        },
{
    let full = chars_of(text);
    let start = chars_of(start_marker);
    let end = chars_of(end_marker);
    match find_from(&full, &start, 0) {
        Some(i) => {
            let from = i + start.len();
            match find_from(&full, &end, from) {
                Some(j) => {
                    let content = trim_of(&slice_of(&full, from, j));
                    if content.len() == 0 {
                        None
                    } else {
                        Some(to_text(&content))
                    }
                },
                None => None,
            }
        },
        None => None,
    }
}

impl TerminalGrid {
    /// Extract all visible text from the grid (full alt screen scan).
    pub fn extract_all_text(&self) -> (text: String)
        requires
            self@.wf(),
        ensures
            text@ == screen_text(self@.cells),
    {
        let ghost cells = self@.cells;
        let mut lines: Vec<Vec<char>> = Vec::new();
        let mut r: usize = 0;
        assert(text::nested(lines@) =~= text_lines(cells.take(0)));
        while r < self.cells.len()
            invariant
                r <= self.cells@.len(),
                cells == text::nested(self.cells@),
                text::nested(lines@) == text_lines(cells.take(r as int)),
            decreases self.cells@.len() - r,
        {
            let line = trim_end_of(&chars_of_line(&self.cells[r]));
            assert(cells.take(r + 1).drop_last() =~= cells.take(r as int));
            let ghost before = text::nested(lines@);
            if line.len() > 0 {
                lines.push(line);
                assert(text::nested(lines@) =~= before.push(line@));
            }
            r = r + 1;
        }
        assert(cells.take(cells.len() as int) =~= cells);
        to_text(&join_of(&lines))
    }

    /// Extract text between sentinel markers from the full grid.
    pub fn extract_between_markers(&self, start_marker: &str, end_marker: &str) -> (r: Option<
        String,
    >)
        requires
            self@.wf(),
        ensures
            match r {
                Some(s) => between(screen_text(self@.cells), start_marker@, end_marker@) == Some(
                    s@,
                ),
                None => between(screen_text(self@.cells), start_marker@, end_marker@) is None,
            },
    {
        let full = self.extract_all_text();
        text_between(full.as_str(), start_marker, end_marker)
    }
}

} // verus!
