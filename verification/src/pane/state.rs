//! The mathematical model of a terminal screen: what each control function makes of it.

use crate::style::Color;
use crate::vt::VtActionView;
use crate::width;
use vstd::prelude::*;

verus! {

/// One character cell.
#[derive(Clone, Copy, PartialEq, Eq, Structural, Debug)]
pub struct Cell {
    pub ch: char,
    pub fg: Color,
    pub bg: Color,
    pub bold: bool,
    pub italic: bool,
    pub underline: bool,
    pub dim: bool,
    pub strikethrough: bool,
    pub reverse: bool,
}

/// The attributes that the next written character gets.
#[derive(Clone, Copy, PartialEq, Eq, Structural, Debug)]
pub struct CellAttr {
    pub fg: Color,
    pub bg: Color,
    pub bold: bool,
    pub italic: bool,
    pub underline: bool,
    pub dim: bool,
    pub strikethrough: bool,
    pub reverse: bool,
}

/// Lines that the scrollback keeps.
pub const MAX_SCROLLBACK: usize = 10000;

/// A cell with nothing written in it.
pub open spec fn blank() -> Cell {
    Cell {
        ch: ' ',
        fg: Color::Reset,
        bg: Color::Reset,
        bold: false,
        italic: false,
        underline: false,
        dim: false,
        strikethrough: false,
        reverse: false,
    }
}

/// The attributes of a fresh screen.
pub open spec fn plain() -> CellAttr {
    CellAttr {
        fg: Color::Reset,
        bg: Color::Reset,
        bold: false,
        italic: false,
        underline: false,
        dim: false,
        strikethrough: false,
        reverse: false,
    }
}

/// The cell that character `c` leaves with attributes `attr`.
pub open spec fn glyph(c: char, attr: CellAttr) -> Cell {
    Cell {
        ch: c,
        fg: attr.fg,
        bg: attr.bg,
        bold: attr.bold,
        italic: attr.italic,
        underline: attr.underline,
        dim: attr.dim,
        strikethrough: attr.strikethrough,
        reverse: attr.reverse,
    }
}

/// The second cell of a wide character.
pub open spec fn placeholder(attr: CellAttr) -> Cell {
    Cell { fg: attr.fg, bg: attr.bg, ..blank() }
}

/// A line of `cols` blanks.
pub open spec fn blank_line(cols: nat) -> Seq<Cell> {
    Seq::new(cols, |i: int| blank())
}

/// A screen of blanks.
pub open spec fn blank_lines(cols: nat, rows: nat) -> Seq<Seq<Cell>> {
    Seq::new(rows, |r: int| blank_line(cols))
}

/// `lines` cut or padded with blanks to `rows` lines of `cols` cells.
pub open spec fn fit(lines: Seq<Seq<Cell>>, cols: nat, rows: nat) -> Seq<Seq<Cell>> {
    Seq::new(
        rows,
        |r: int|
            Seq::new(
                cols,
                |c: int|
                    if r < lines.len() && c < lines[r].len() {
                        lines[r][c]
                    } else {
                        blank()
                    },
            ),
    )
}

/// `line` with the cells from `from` up to but not including `to` blank.
pub open spec fn erase_span(line: Seq<Cell>, from: int, to: int) -> Seq<Cell> {
    Seq::new(
        line.len(),
        |i: int|
            if from <= i < to {
                blank()
            } else {
                line[i]
            },
    )
}

/// `line` with `n` blanks put in at `at`; what is pushed over the right edge is lost.
pub open spec fn insert_blanks(line: Seq<Cell>, at: int, n: int) -> Seq<Cell> {
    Seq::new(
        line.len(),
        |i: int|
            if i < at {
                line[i]
            } else if i < at + n {
                blank()
            } else {
                line[i - n]
            },
    )
}

/// `line` with `n` cells taken out at `at`; blanks come in at the right edge.
pub open spec fn delete_cells(line: Seq<Cell>, at: int, n: int) -> Seq<Cell> {
    Seq::new(
        line.len(),
        |i: int|
            if i < at {
                line[i]
            } else if i + n < line.len() {
                line[i + n]
            } else {
                blank()
            },
    )
}

/// `line` with character `c` of `width` columns at column `x`. A wide character in front that
/// is cut in half becomes a space, and so does the half left of one written over.
pub open spec fn line_with(
    line: Seq<Cell>,
    x: int,
    c: char,
    attr: CellAttr,
    width: u16,
    before_wide: bool,
    under_wide: bool,
) -> Seq<Cell> {
    Seq::new(
        line.len(),
        |i: int|
            if i == x {
                glyph(c, attr)
            } else if i == x + 1 && width == 2 {
                placeholder(attr)
            } else if i == x + 1 && under_wide {
                blank()
            } else if i == x - 1 && before_wide {
                Cell { ch: ' ', ..line[i] }
            } else {
                line[i]
            },
    )
}

/// Lines `top` to `bottom` moved up by `n`, with lines of `cols` blanks coming in below.
pub open spec fn lines_up(
    lines: Seq<Seq<Cell>>,
    top: int,
    bottom: int,
    n: int,
    cols: nat,
) -> Seq<Seq<Cell>> {
    Seq::new(
        lines.len(),
        |r: int|
            if top <= r <= bottom {
                if r + n <= bottom {
                    lines[r + n]
                } else {
                    blank_line(cols)
                }
            } else {
                lines[r]
            },
    )
}

/// Lines `top` to `bottom` moved down by `n`, with lines of `cols` blanks coming in above.
pub open spec fn lines_down(
    lines: Seq<Seq<Cell>>,
    top: int,
    bottom: int,
    n: int,
    cols: nat,
) -> Seq<Seq<Cell>> {
    Seq::new(
        lines.len(),
        |r: int|
            if top <= r <= bottom {
                if r - n >= top {
                    lines[r - n]
                } else {
                    blank_line(cols)
                }
            } else {
                lines[r]
            },
    )
}

/// The lines that leave at the top when lines `0` to `bottom` move up by `n`, in order.
pub open spec fn lines_leaving(lines: Seq<Seq<Cell>>, bottom: int, n: nat, cols: nat) -> Seq<
    Seq<Cell>,
> {
    Seq::new(
        n,
        |i: int|
            if i <= bottom {
                lines[i]
            } else {
                blank_line(cols)
            },
    )
}

/// The last `max` elements of `s`, all of it when it has no more.
pub open spec fn keep_last<T>(s: Seq<T>, max: int) -> Seq<T> {
    if s.len() > max {
        s.subrange(s.len() - max, s.len() as int)
    } else {
        s
    }
}

/// The last index below `n`, zero when there is none.
pub open spec fn last_index(n: u16) -> u16 {
    if n == 0 {
        0
    } else {
        (n - 1) as u16
    }
}

/// `v` brought down to the last index below `n`.
pub open spec fn clamp_index(v: int, n: u16) -> u16 {
    if v < last_index(n) {
        v as u16
    } else {
        last_index(n)
    }
}

/// `a - b`, zero when `b` is larger.
pub open spec fn minus(a: u16, b: u16) -> u16 {
    if a < b {
        0
    } else {
        (a - b) as u16
    }
}

/// The decimal digits of `n`, as ASCII bytes.
pub open spec fn decimal(n: nat) -> Seq<u8>
    decreases n,
{
    if n < 10 {
        seq![(48 + n) as u8]
    } else {
        decimal(n / 10).push((48 + n % 10) as u8)
    }
}

/// First value of parameter `idx`, with `default` for one that is missing or zero.
pub open spec fn param_value(params: Seq<Seq<u16>>, idx: int, default: u16) -> u16 {
    if 0 <= idx < params.len() && params[idx].len() > 0 && params[idx][0] != 0 {
        params[idx][0]
    } else {
        default
    }
}

/// The eight basic colours.
pub open spec fn ansi_color(idx: int) -> Color {
    if idx == 0 {
        Color::Black
    } else if idx == 1 {
        Color::Red
    } else if idx == 2 {
        Color::Green
    } else if idx == 3 {
        Color::Yellow
    } else if idx == 4 {
        Color::Blue
    } else if idx == 5 {
        Color::Magenta
    } else if idx == 6 {
        Color::Cyan
    } else if idx == 7 {
        Color::White
    } else {
        Color::Reset
    }
}

/// The low byte of a parameter.
pub open spec fn low_byte(v: u16) -> u8 {
    (v % 256) as u8
}

/// First value of group `i`, `None` when there is no such group or it is empty.
pub open spec fn group_first(groups: Seq<Seq<u16>>, i: int) -> Option<u16> {
    if 0 <= i < groups.len() && groups[i].len() > 0 {
        Some(groups[i][0])
    } else {
        None
    }
}

/// Where reading goes on after group `i` was asked for.
pub open spec fn group_after(groups: Seq<Seq<u16>>, i: int) -> int {
    if i < groups.len() {
        i + 1
    } else {
        i
    }
}

/// An extended colour written as separate parameters from group `i` on (`5;index` or
/// `2;red;green;blue`), and the group at which reading goes on. An incomplete colour is none,
/// and reading goes on behind the group that was found missing or empty.
pub open spec fn extended_color(groups: Seq<Seq<u16>>, i: int) -> (Option<Color>, int) {
    let a1 = group_after(groups, i);
    match group_first(groups, i) {
        Some(5u16) => match group_first(groups, a1) {
            Some(idx) => (Some(Color::Indexed(low_byte(idx))), group_after(groups, a1)),
            None => (None, group_after(groups, a1)),
        },
        Some(2u16) => {
            let a2 = group_after(groups, a1);
            let a3 = group_after(groups, a2);
            let a4 = group_after(groups, a3);
            match (
                group_first(groups, a1),
                group_first(groups, a2),
                group_first(groups, a3),
            ) {
                (None, _, _) => (None, a2),
                (Some(_), None, _) => (None, a3),
                (Some(_), Some(_), None) => (None, a4),
                (Some(r), Some(g), Some(b)) => (
                    Some(Color::Rgb(low_byte(r), low_byte(g), low_byte(b))),
                    a4,
                ),
            }
        },
        _ => (None, a1),
    }
}

/// Value `k` of a group, zero when it is missing.
pub open spec fn sub_value(group: Seq<u16>, k: int) -> u16 {
    if 0 <= k < group.len() {
        group[k]
    } else {
        0
    }
}

/// The colour that `38` or `48` at group `i` selects, and the group at which reading goes on.
/// Sub-parameters of the same group (`38:2:red:green:blue`, `38:5:index`) come first.
pub open spec fn selected_color(groups: Seq<Seq<u16>>, i: int) -> (Option<Color>, int) {
    let g = groups[i];
    if g.len() >= 3 && g[1] == 2 {
        (
            Some(
                Color::Rgb(low_byte(g[2]), low_byte(sub_value(g, 3)), low_byte(sub_value(g, 4))),
            ),
            i + 1,
        )
    } else if g.len() >= 3 && g[1] == 5 {
        (Some(Color::Indexed(low_byte(g[2]))), i + 1)
    } else {
        extended_color(groups, i + 1)
    }
}

/// What the single attribute parameter `p` makes of `attr`; `38` and `48` are not among them.
pub open spec fn sgr_simple(attr: CellAttr, p: u16) -> CellAttr {
    if p == 0 {
        plain()
    } else if p == 1 {
        CellAttr { bold: true, ..attr }
    } else if p == 2 {
        CellAttr { dim: true, ..attr }
    } else if p == 3 {
        CellAttr { italic: true, ..attr }
    } else if p == 4 {
        CellAttr { underline: true, ..attr }
    } else if p == 7 {
        CellAttr { reverse: true, ..attr }
    } else if p == 9 {
        CellAttr { strikethrough: true, ..attr }
    } else if p == 22 {
        CellAttr { bold: false, dim: false, ..attr }
    } else if p == 23 {
        CellAttr { italic: false, ..attr }
    } else if p == 24 {
        CellAttr { underline: false, ..attr }
    } else if p == 25 {
        CellAttr { dim: false, ..attr }
    } else if p == 27 {
        CellAttr { reverse: false, ..attr }
    } else if p == 29 {
        CellAttr { strikethrough: false, ..attr }
    } else if 30 <= p <= 37 {
        CellAttr { fg: ansi_color(p - 30), ..attr }
    } else if p == 39 {
        CellAttr { fg: Color::Reset, ..attr }
    } else if 40 <= p <= 47 {
        CellAttr { bg: ansi_color(p - 40), ..attr }
    } else if p == 49 {
        CellAttr { bg: Color::Reset, ..attr }
    } else if 90 <= p <= 97 {
        CellAttr { fg: Color::Indexed((p - 90 + 8) as u8), ..attr }
    } else if 100 <= p <= 107 {
        CellAttr { bg: Color::Indexed((p - 100 + 8) as u8), ..attr }
    } else {
        attr
    }
}

/// Attributes after the graphic rendition parameters from group `i` on.
pub open spec fn sgr_from(attr: CellAttr, groups: Seq<Seq<u16>>, i: int) -> CellAttr
    decreases groups.len() - i,
{
    if i < 0 || i >= groups.len() {
        attr
    } else {
        let p = sub_value(groups[i], 0);
        if p == 38 || p == 48 {
            let (color, next) = selected_color(groups, i);
            let a = match color {
                Some(c) => if p == 38 {
                    CellAttr { fg: c, ..attr }
                } else {
                    CellAttr { bg: c, ..attr }
                },
                None => attr,
            };
            sgr_from(a, groups, next)
        } else {
            sgr_from(sgr_simple(attr, p), groups, i + 1)
        }
    }
}

/// Attributes after a `SGR` sequence.
pub open spec fn sgr(attr: CellAttr, groups: Seq<Seq<u16>>) -> CellAttr {
    sgr_from(attr, groups, 0)
}

/// State of a terminal screen.
#[verifier::ext_equal]
pub struct GridState {
    pub cells: Seq<Seq<Cell>>,
    pub row: u16,
    pub col: u16,
    pub cols: u16,
    pub rows: u16,
    pub application_cursor_keys: bool,
    pub cursor_visible: bool,
    pub focus_tracking: bool,
    pub is_receiving_prompt: bool,
    pub response: Seq<u8>,
    pub scrollback: Seq<Seq<Cell>>,
    pub scroll_offset: usize,
    pub attr: CellAttr,
    pub scroll_top: u16,
    pub scroll_bottom: u16,
    pub saved_cursor: Option<(u16, u16, bool)>,
    pub last_char: Option<char>,
    pub max_scrollback: usize,
    pub pending_wrap: bool,
    pub auto_wrap: bool,
    pub saved_screen: Option<(Seq<Seq<Cell>>, u16, u16)>,
}

impl GridState {
    /// A blank screen of the given size.
    pub open spec fn fresh(cols: u16, rows: u16) -> GridState {
        GridState {
            cells: blank_lines(cols as nat, rows as nat),
            row: 0,
            col: 0,
            cols,
            rows,
            application_cursor_keys: false,
            cursor_visible: true,
            focus_tracking: false,
            is_receiving_prompt: false,
            response: Seq::empty(),
            scrollback: Seq::empty(),
            scroll_offset: 0,
            attr: plain(),
            scroll_top: 0,
            scroll_bottom: last_index(rows),
            saved_cursor: None,
            last_char: None,
            max_scrollback: MAX_SCROLLBACK,
            pending_wrap: false,
            auto_wrap: true,
            saved_screen: None,
        }
    }

    /// The screen is `rows` lines of `cols` cells, the scroll region ends on it, and the
    /// scrollback and the view into it are within bounds.
    pub open spec fn wf(self) -> bool {
        &&& self.cells.len() == self.rows
        &&& forall|r: int|
            0 <= r < self.cells.len() ==> (#[trigger] self.cells[r]).len() == self.cols
        &&& self.scroll_bottom <= last_index(self.rows)
        &&& self.max_scrollback == MAX_SCROLLBACK
        &&& self.scrollback.len() <= self.max_scrollback
        &&& self.scroll_offset <= self.scrollback.len()
    }

    /// Whether the cursor is on a cell of the screen.
    pub open spec fn on_screen(self) -> bool {
        self.row < self.rows && self.col < self.cols
    }

    /// The line of the cursor replaced by `line`.
    pub open spec fn with_line(self, line: Seq<Cell>) -> GridState {
        GridState { cells: self.cells.update(self.row as int, line), ..self }
    }

    /// The same contents on a screen of another size.
    pub open spec fn resized(self, cols: u16, rows: u16) -> GridState {
        GridState {
            cells: fit(self.cells, cols as nat, rows as nat),
            cols,
            rows,
            scroll_bottom: last_index(rows),
            row: clamp_index(self.row as int, rows),
            col: clamp_index(self.col as int, cols),
            ..self
        }
    }

    /// Line `r` of the view: the screen, or, when the view is scrolled back, the lines from
    /// `scroll_offset` lines above it on.
    pub open spec fn viewed(self, r: int) -> Option<Seq<Cell>> {
        let abs = self.scrollback.len() - self.scroll_offset + r;
        if abs < self.scrollback.len() {
            Some(self.scrollback[abs])
        } else if abs - self.scrollback.len() < self.cells.len() {
            Some(self.cells[abs - self.scrollback.len()])
        } else {
            None
        }
    }

    /// The view moved up by `n` lines, as far as the scrollback goes.
    pub open spec fn view_moved_up(self, n: int) -> GridState {
        GridState {
            scroll_offset: if self.scroll_offset + n < self.scrollback.len() {
                (self.scroll_offset + n) as usize
            } else {
                self.scrollback.len() as usize
            },
            ..self
        }
    }

    /// The view moved down by `n` lines, as far as the screen.
    pub open spec fn view_moved_down(self, n: int) -> GridState {
        GridState {
            scroll_offset: if self.scroll_offset < n {
                0
            } else {
                (self.scroll_offset - n) as usize
            },
            ..self
        }
    }

    /// The scroll region moved up by `n` lines. Lines that leave at the top of the screen go
    /// to the scrollback.
    pub open spec fn scrolled_up(self, n: int) -> GridState {
        let top = self.scroll_top as int;
        let bottom = self.scroll_bottom as int;
        if top < bottom < self.cells.len() {
            GridState {
                cells: lines_up(self.cells, top, bottom, n, self.cols as nat),
                scrollback: if top == 0 {
                    keep_last(
                        self.scrollback + lines_leaving(
                            self.cells,
                            bottom,
                            n as nat,
                            self.cols as nat,
                        ),
                        self.max_scrollback as int,
                    )
                } else {
                    self.scrollback
                },
                scroll_offset: 0,
                ..self
            }
        } else {
            GridState { scroll_offset: 0, ..self }
        }
    }

    /// The scroll region moved down by `n` lines.
    pub open spec fn scrolled_down(self, n: int) -> GridState {
        let top = self.scroll_top as int;
        let bottom = self.scroll_bottom as int;
        if top < bottom < self.cells.len() {
            GridState {
                cells: lines_down(self.cells, top, bottom, n, self.cols as nat),
                ..self
            }
        } else {
            self
        }
    }

    /// The cursor on the next line, with the region scrolled where it stood on its last line.
    pub open spec fn line_feed(self) -> GridState {
        if self.row == self.scroll_bottom {
            self.scrolled_up(1)
        } else if self.row >= last_index(self.rows) {
            self
        } else {
            GridState { row: (self.row + 1) as u16, ..self }
        }
    }

    /// The start of the next line.
    pub open spec fn wrapped(self) -> GridState {
        GridState { col: 0, ..self }.line_feed()
    }

    /// Where a character of `width` columns goes: after a wrap that was left pending, and on
    /// the next line when it does not fit on this one.
    pub open spec fn positioned(self, width: u16) -> GridState {
        let s = GridState { scroll_offset: 0, pending_wrap: false, ..self };
        let s1 = if self.pending_wrap && self.auto_wrap {
            s.wrapped()
        } else {
            s
        };
        if s1.auto_wrap && s1.col + width > s1.cols {
            s1.wrapped()
        } else {
            s1
        }
    }

    /// Character `c` written at the cursor, which moves on by `width` columns and stays on the
    /// last column at the right edge, with a wrap pending if wrapping is on.
    pub open spec fn placed(
        self,
        c: char,
        width: u16,
        before_wide: bool,
        under_wide: bool,
    ) -> GridState {
        let s = if self.on_screen() {
            self.with_line(
                line_with(
                    self.cells[self.row as int],
                    self.col as int,
                    c,
                    self.attr,
                    width,
                    before_wide,
                    under_wide,
                ),
            )
        } else {
            self
        };
        if self.col + width >= self.cols {
            GridState {
                col: last_index(self.cols),
                pending_wrap: self.pending_wrap || self.auto_wrap,
                last_char: Some(c),
                ..s
            }
        } else {
            GridState { col: (self.col + width) as u16, last_char: Some(c), ..s }
        }
    }

    /// Whether the cell in front of the cursor holds a wide character.
    pub open spec fn before_wide(self) -> bool {
        self.on_screen() && self.col > 0 && width::is_wide(self.cells[self.row as int][self.col - 1].ch)
    }

    /// Whether the cell under the cursor holds a wide character.
    pub open spec fn under_wide(self) -> bool {
        self.on_screen() && width::is_wide(self.cells[self.row as int][self.col as int].ch)
    }

    /// Character `c` printed.
    pub open spec fn printed(self, c: char) -> GridState {
        let s = self.positioned(width::columns_of(c));
        s.placed(c, width::columns_of(c), s.before_wide(), s.under_wide())
    }

    /// Character `c` printed `n` times.
    pub open spec fn printed_times(self, c: char, n: nat) -> GridState
        decreases n,
    {
        if n == 0 {
            self
        } else {
            self.printed_times(c, (n - 1) as nat).printed(c)
        }
    }

    /// Erase in line: from the cursor on, up to the cursor, or all of it.
    pub open spec fn erased_in_line(self, mode: u16) -> GridState {
        if self.row >= self.rows {
            self
        } else {
            let line = self.cells[self.row as int];
            if mode == 0 {
                self.with_line(erase_span(line, self.col as int, line.len() as int))
            } else if mode == 1 {
                self.with_line(erase_span(line, 0, self.col + 1))
            } else if mode == 2 {
                self.with_line(blank_line(self.cols as nat))
            } else {
                self
            }
        }
    }

    /// Erase in display: from the cursor on, up to the cursor, or all of it.
    pub open spec fn erased_in_display(self, mode: u16) -> GridState {
        let row = self.row as int;
        let col = self.col as int;
        if mode == 0 && row < self.rows {
            GridState {
                cells: Seq::new(
                    self.cells.len(),
                    |r: int|
                        if r < row {
                            self.cells[r]
                        } else if r == row {
                            erase_span(self.cells[r], col, self.cells[r].len() as int)
                        } else {
                            blank_line(self.cols as nat)
                        },
                ),
                ..self
            }
        } else if mode == 1 {
            GridState {
                cells: Seq::new(
                    self.cells.len(),
                    |r: int|
                        if r < row {
                            blank_line(self.cols as nat)
                        } else if r == row {
                            erase_span(self.cells[r], 0, col + 1)
                        } else {
                            self.cells[r]
                        },
                ),
                ..self
            }
        } else if mode == 2 || mode == 3 {
            GridState { cells: blank_lines(self.cols as nat, self.rows as nat), ..self }
        } else {
            self
        }
    }

    /// `n` blank lines put in at the cursor, down to the end of the scroll region.
    pub open spec fn lines_inserted(self, n: int) -> GridState {
        if self.row <= self.scroll_bottom < self.cells.len() {
            GridState {
                cells: lines_down(
                    self.cells,
                    self.row as int,
                    self.scroll_bottom as int,
                    n,
                    self.cols as nat,
                ),
                ..self
            }
        } else {
            self
        }
    }

    /// `n` lines taken out at the cursor, with blank lines at the end of the scroll region.
    pub open spec fn lines_deleted(self, n: int) -> GridState {
        if self.row <= self.scroll_bottom && self.row < self.cells.len() {
            GridState {
                cells: lines_up(
                    self.cells,
                    self.row as int,
                    self.scroll_bottom as int,
                    n,
                    self.cols as nat,
                ),
                ..self
            }
        } else {
            self
        }
    }

    /// `n` cells from the cursor on blank.
    pub open spec fn cells_erased(self, n: int) -> GridState {
        if self.row < self.rows {
            self.with_line(
                erase_span(self.cells[self.row as int], self.col as int, self.col + n),
            )
        } else {
            self
        }
    }

    /// `n` blanks put in at the cursor.
    pub open spec fn blanks_inserted(self, n: int) -> GridState {
        if self.row < self.rows {
            self.with_line(insert_blanks(self.cells[self.row as int], self.col as int, n))
        } else {
            self
        }
    }

    /// `n` cells taken out at the cursor.
    pub open spec fn cells_deleted(self, n: int) -> GridState {
        if self.row < self.rows {
            self.with_line(delete_cells(self.cells[self.row as int], self.col as int, n))
        } else {
            self
        }
    }

    /// The scroll region set, with the cursor in the top left corner.
    pub open spec fn region_set(self, top: u16, bottom: u16) -> GridState {
        GridState {
            scroll_top: clamp_index(top as int, self.rows),
            scroll_bottom: clamp_index(bottom as int, self.rows),
            row: 0,
            col: 0,
            pending_wrap: false,
            ..self
        }
    }

    /// The alternate screen: blank, with the screen that was left kept aside.
    pub open spec fn alternate_entered(self) -> GridState {
        GridState {
            saved_screen: Some((self.cells, self.row, self.col)),
            cells: blank_lines(self.cols as nat, self.rows as nat),
            row: 0,
            col: 0,
            scroll_top: 0,
            scroll_bottom: last_index(self.rows),
            pending_wrap: false,
            ..self
        }
    }

    /// The screen that was kept aside, at the present size; a blank one if there is none.
    pub open spec fn alternate_left(self) -> GridState {
        let (cells, row, col) = match self.saved_screen {
            Some((cells, row, col)) => (
                fit(cells, self.cols as nat, self.rows as nat),
                clamp_index(row as int, self.rows),
                clamp_index(col as int, self.cols),
            ),
            None => (blank_lines(self.cols as nat, self.rows as nat), 0u16, 0u16),
        };
        GridState {
            saved_screen: None,
            cells,
            row,
            col,
            scroll_top: 0,
            scroll_bottom: last_index(self.rows),
            pending_wrap: false,
            ..self
        }
    }

    /// Private mode `mode` set or reset.
    pub open spec fn mode_set(self, mode: u16, enable: bool) -> GridState {
        if mode == 1 {
            GridState { application_cursor_keys: enable, ..self }
        } else if mode == 7 {
            GridState { auto_wrap: enable, ..self }
        } else if mode == 25 {
            GridState { cursor_visible: enable, ..self }
        } else if mode == 1004 {
            GridState { focus_tracking: enable, ..self }
        } else if mode == 1049 || mode == 47 || mode == 1047 {
            if enable {
                self.alternate_entered()
            } else {
                self.alternate_left()
            }
        } else {
            self
        }
    }

    /// `bytes` queued as an answer to the program in the pane.
    pub open spec fn responded(self, bytes: Seq<u8>) -> GridState {
        GridState { response: self.response + bytes, ..self }
    }

    /// Answer to a status request: the cursor position for 6, all well for 5.
    pub open spec fn status_reported(self, mode: u16) -> GridState {
        if mode == 6 {
            self.responded(
                seq![27u8, 91u8] + decimal((self.row + 1) as nat) + seq![59u8] + decimal(
                    (self.col + 1) as nat,
                ) + seq![82u8],
            )
        } else if mode == 5 {
            self.responded(seq![27u8, 91u8, 48u8, 110u8])
        } else {
            self
        }
    }

    /// Answer to a request for device attributes: a VT220 with ANSI colour.
    pub open spec fn attributes_reported(self) -> GridState {
        self.responded(seq![27u8, 91u8, 63u8, 54u8, 50u8, 59u8, 50u8, 50u8, 99u8])
    }

    /// The character printed last printed `n` times more.
    pub open spec fn last_repeated(self, n: nat) -> GridState {
        match self.last_char {
            Some(c) => self.printed_times(c, n),
            None => self,
        }
    }

    /// The cursor at another place, with no wrap pending.
    pub open spec fn moved(self, row: u16, col: u16) -> GridState {
        GridState { row, col, pending_wrap: false, ..self }
    }

    /// What a `CSI` sequence with final character `action` does.
    pub open spec fn csi(
        self,
        params: Seq<Seq<u16>>,
        intermediates: Seq<u8>,
        action: char,
    ) -> GridState {
        let n = param_value(params, 0, 1);
        let settled = GridState { pending_wrap: false, ..self };
        if action == 'm' {
            if intermediates.len() == 0 {
                GridState { attr: sgr(self.attr, params), ..self }
            } else {
                self
            }
        } else if action == 'H' || action == 'f' {
            self.moved(
                clamp_index(minus(n, 1) as int, self.rows),
                clamp_index(minus(param_value(params, 1, 1), 1) as int, self.cols),
            )
        } else if action == 'A' {
            self.moved(minus(self.row, n), self.col)
        } else if action == 'B' {
            self.moved(clamp_index(self.row + n, self.rows), self.col)
        } else if action == 'C' {
            self.moved(self.row, clamp_index(self.col + n, self.cols))
        } else if action == 'D' {
            self.moved(self.row, minus(self.col, n))
        } else if action == 'E' {
            self.moved(clamp_index(self.row + n, self.rows), 0)
        } else if action == 'F' {
            self.moved(minus(self.row, n), 0)
        } else if action == 'J' {
            settled.erased_in_display(param_value(params, 0, 0))
        } else if action == 'K' {
            settled.erased_in_line(param_value(params, 0, 0))
        } else if action == 'L' {
            self.lines_inserted(n as int)
        } else if action == 'M' {
            self.lines_deleted(n as int)
        } else if action == 'r' {
            self.region_set(minus(n, 1), minus(param_value(params, 1, self.rows), 1))
        } else if action == 'h' || action == 'l' {
            if intermediates == seq![63u8] {
                self.mode_set(param_value(params, 0, 0), action == 'h')
            } else {
                self
            }
        } else if action == 'd' {
            self.moved(clamp_index(minus(n, 1) as int, self.rows), self.col)
        } else if action == 'G' {
            self.moved(self.row, clamp_index(minus(n, 1) as int, self.cols))
        } else if action == 'X' {
            self.cells_erased(n as int)
        } else if action == 'S' {
            self.scrolled_up(n as int)
        } else if action == 'T' {
            self.scrolled_down(n as int)
        } else if action == '@' {
            self.blanks_inserted(n as int)
        } else if action == 'P' {
            self.cells_deleted(n as int)
        } else if action == 'b' {
            self.last_repeated(n as nat)
        } else if action == 'n' {
            if intermediates.len() == 0 {
                self.status_reported(param_value(params, 0, 0))
            } else {
                self
            }
        } else if action == 'c' {
            if intermediates.len() == 0 {
                self.attributes_reported()
            } else {
                self
            }
        } else {
            self
        }
    }

    /// What control character `byte` does.
    pub open spec fn executed(self, byte: u8) -> GridState {
        if byte == 0x0a {
            GridState { pending_wrap: false, ..self }.line_feed()
        } else if byte == 0x0d {
            GridState { pending_wrap: false, col: 0, ..self }
        } else if byte == 0x08 {
            GridState { pending_wrap: false, col: minus(self.col, 1), ..self }
        } else if byte == 0x09 {
            GridState { col: clamp_index((self.col as int / 8 + 1) * 8, self.cols), ..self }
        } else {
            self
        }
    }

    /// What an escape sequence with final byte `byte` does: `M` reverse index, `7` save
    /// cursor, `8` restore cursor.
    pub open spec fn esc(self, byte: u8) -> GridState {
        if byte == 77 {
            if self.row == self.scroll_top {
                self.scrolled_down(1)
            } else {
                GridState { row: minus(self.row, 1), ..self }
            }
        } else if byte == 55 {
            GridState {
                saved_cursor: Some((self.row, self.col, self.pending_wrap)),
                ..self
            }
        } else if byte == 56 {
            match self.saved_cursor {
                Some((row, col, wrap)) => GridState { row, col, pending_wrap: wrap, ..self },
                None => self,
            }
        } else {
            self
        }
    }

    /// What one action of the escape sequence parser does.
    pub open spec fn applied(self, action: VtActionView) -> GridState {
        match action {
            VtActionView::Print(c) => self.printed(c),
            VtActionView::Execute(byte) => self.executed(byte),
            VtActionView::Csi { params, intermediates, ignore, action } => self.csi(
                params,
                intermediates,
                action,
            ),
            VtActionView::Esc { intermediates, ignore, byte } => self.esc(byte),
            _ => self,
        }
    }

    /// What a sequence of parser actions does.
    pub open spec fn applied_all(self, actions: Seq<VtActionView>) -> GridState
        decreases actions.len(),
    {
        if actions.len() == 0 {
            self
        } else {
            self.applied_all(actions.drop_last()).applied(actions.last())
        }
    }
}

} // verus!
