//! Where the panes stand on the terminal.

use vstd::prelude::*;

verus! {

/// A rectangle of terminal cells.
#[derive(Clone, Copy, PartialEq, Eq, Structural, Debug)]
pub struct Rect {
    pub x: u16,
    pub y: u16,
    pub width: u16,
    pub height: u16,
}

impl Rect {
    /// Right and bottom edge are within the coordinates.
    pub open spec fn wf(self) -> bool {
        self.x + self.width <= u16::MAX && self.y + self.height <= u16::MAX
    }

    /// The rectangle at a place, with width and height cut to what the coordinates allow.
    pub open spec fn at(x: u16, y: u16, width: u16, height: u16) -> Rect {
        Rect {
            x,
            y,
            width: if x + width > u16::MAX {
                (u16::MAX - x) as u16
            } else {
                width
            },
            height: if y + height > u16::MAX {
                (u16::MAX - y) as u16
            } else {
                height
            },
        }
    }

    /// Whether a cell is inside.
    pub open spec fn holds(self, column: u16, row: u16) -> bool {
        self.x <= column < self.x + self.width && self.y <= row < self.y + self.height
    }

    /// The rectangle at a place, with width and height cut to what the coordinates allow.
    pub fn new(x: u16, y: u16, width: u16, height: u16) -> (r: Self)
        ensures
            r == Rect::at(x, y, width, height),
            r.wf(),
    {
        let max_width = u16::MAX - x;
        let max_height = u16::MAX - y;
        Rect {
            x,
            y,
            width: if width > max_width {
                max_width
            } else {
                width
            },
            height: if height > max_height {
                max_height
            } else {
                height
            },
        }
    }

    /// Whether a cell is inside.
    pub fn contains(&self, column: u16, row: u16) -> (r: bool)
        ensures
            r == self.holds(column, row),
    {
        column >= self.x && column - self.x < self.width && row >= self.y && row - self.y
            < self.height
    }
}

/// Which pane is currently focused.
#[derive(Clone, Copy, PartialEq, Eq, Structural, Debug)]
pub enum ActivePane {
    Orchestrator,
    Worker(usize),
}

/// Computed layout rectangles.
pub struct Layout {
    pub worker_rects: Vec<Rect>,
    pub orch_rect: Rect,
}

/// The smaller of two heights.
pub open spec fn lesser(a: int, b: int) -> int {
    if a < b {
        a
    } else {
        b
    }
}

/// The larger of two heights.
pub open spec fn greater(a: int, b: int) -> int {
    if a < b {
        b
    } else {
        a
    }
}

/// Rows of the orchestrator: all of them without workers, else a fifth, at least six.
pub open spec fn orch_height(height: u16, workers: nat) -> u16 {
    if workers == 0 {
        height
    } else {
        lesser(greater(height as int * 20 / 100, 6), height as int) as u16
    }
}

/// The rectangle of the orchestrator, at the bottom.
pub open spec fn orch_place(area: Rect, workers: nat) -> Rect {
    let h = orch_height(area.height, workers);
    Rect { x: area.x, y: (area.y + area.height - h) as u16, width: area.width, height: h }
}

/// The rectangle of worker `i`: an equal share of the width above the orchestrator; the last
/// worker also has what does not divide.
pub open spec fn worker_place(area: Rect, workers: nat, i: int) -> Rect {
    let share = area.width as int / workers as int;
    Rect {
        x: (area.x + i * share) as u16,
        y: area.y,
        width: if i == workers - 1 {
            (area.width - i * share) as u16
        } else {
            share as u16
        },
        height: (area.height - orch_height(area.height, workers)) as u16,
    }
}

/// The rectangles of all workers.
pub open spec fn worker_places(area: Rect, workers: nat) -> Seq<Rect> {
    Seq::new(workers, |i: int| worker_place(area, workers, i))
}

/// The sizes for which a layout can be computed.
pub open spec fn can_lay_out(area: Rect, workers: nat) -> bool {
    &&& area.wf()
    &&& workers > 0 ==> area.height * 20 <= u16::MAX
    &&& workers <= u16::MAX
}

/// The shares of the workers before worker `i` fit into the width, and more so with its own.
proof fn shares_fit(width: u16, workers: nat, i: int)
    requires
        0 <= i < workers,
    ensures
        0 <= width as int / workers as int <= width,
        0 <= i * (width as int / workers as int),
        i * (width as int / workers as int) + (width as int / workers as int) <= width,
        (i + 1) * (width as int / workers as int) == i * (width as int / workers as int) + (
        width as int / workers as int),
        width as int / workers as int == 0 ==> i * (width as int / workers as int) == 0,
{
    let n = workers as int;
    let w = width as int;
    let share = w / n;
    vstd::arithmetic::div_mod::lemma_fundamental_div_mod(w, n);
    vstd::arithmetic::div_mod::lemma_div_nonincreasing(w, n);
    vstd::arithmetic::div_mod::lemma_div_pos_is_pos(w, n);
    assert(i * share + share == (i + 1) * share) by (nonlinear_arith);
    assert((i + 1) * share <= n * share) by (nonlinear_arith)
        requires
            i + 1 <= n,
            0 <= share,
    ;
    assert(0 <= i * share) by (nonlinear_arith)
        requires
            0 <= i,
            0 <= share,
    ;
}

/// Compute layout given the total area and number of workers.
///
/// - 0 workers: orchestrator fills the entire area.
/// - 1+ workers: workers tile horizontally in the top ~80%, orchestrator occupies the bottom
///   ~20%.
pub fn compute_layout(area: Rect, num_workers: usize) -> (layout: Layout)
    requires
        can_lay_out(area, num_workers as nat),
    ensures
        layout.orch_rect == orch_place(area, num_workers as nat),
        layout.worker_rects@ == worker_places(area, num_workers as nat),
{
    if num_workers == 0 {
        return Layout { worker_rects: Vec::new(), orch_rect: area };
    }
    let share_h = area.height * 20 / 100;
    let at_least_h = if share_h < 6 {
        6
    } else {
        share_h
    };
    let orch_h = if at_least_h < area.height {
        at_least_h
    } else {
        area.height
    };
    let worker_h = area.height - orch_h;
    let orch_rect = Rect::new(area.x, area.y + worker_h, area.width, orch_h);
    proof {
        shares_fit(area.width, num_workers as nat, 0);
    }
    let base_w = area.width / num_workers as u16;
    let mut worker_rects: Vec<Rect> = Vec::new();
    let mut i: usize = 0;
    while i < num_workers
        invariant
            can_lay_out(area, num_workers as nat),
            0 < num_workers,
            i <= num_workers,
            base_w == area.width as int / num_workers as int,
            worker_h == area.height - orch_height(area.height, num_workers as nat),
            worker_rects@ == worker_places(area, num_workers as nat).take(i as int),
        decreases num_workers - i,
    {
        proof {
            shares_fit(area.width, num_workers as nat, i as int);
        }
        let before: u16 = i as u16 * base_w;
        let width = if i == num_workers - 1 {
            area.width - before
        } else {
            base_w
        };
        worker_rects.push(Rect::new(area.x + before, area.y, width, worker_h));
        i = i + 1;
        assert(worker_rects@ =~= worker_places(area, num_workers as nat).take(i as int));
    }
    assert(worker_rects@ =~= worker_places(area, num_workers as nat));
    Layout { worker_rects, orch_rect }
}

/// The area inside a border of one cell.
pub open spec fn inside(rect: Rect) -> Rect {
    Rect {
        x: (rect.x + 1) as u16,
        y: (rect.y + 1) as u16,
        width: shrunk(rect.width, rect.x),
        height: shrunk(rect.height, rect.y),
    }
}

/// A side of the area inside a border, for an outer side that begins at `start`.
pub open spec fn shrunk(side: u16, start: u16) -> u16 {
    let less = if side < 2 {
        0
    } else {
        side - 2
    };
    lesser(less, u16::MAX - start - 1) as u16
}

/// Return the inner area of a bordered rect (1-cell border on each side).
pub fn inner_rect(rect: Rect) -> (r: Rect)
    requires
        rect.x < u16::MAX,
        rect.y < u16::MAX,
    ensures
        r == inside(rect),
        r.wf(),
{
    Rect::new(
        rect.x + 1,
        rect.y + 1,
        rect.width.saturating_sub(2),
        rect.height.saturating_sub(2),
    )
}

/// The coordinates of a worker, as whole numbers.
proof fn worker_is_inside(area: Rect, workers: nat, i: int)
    requires
        can_lay_out(area, workers),
        0 <= i < workers,
    ensures
        ({
            let share = area.width as int / workers as int;
            let r = worker_place(area, workers, i);
            &&& 0 <= share
            &&& r.x == area.x + i * share
            &&& (i + 1) * share == i * share + share
            &&& i * share + share <= area.width
            &&& r.width == if i == workers - 1 {
                area.width - i * share
            } else {
                share
            }
            &&& r.wf()
            &&& r.y == area.y
            &&& r.height == area.height - orch_height(area.height, workers)
        }),
{
    shares_fit(area.width, workers, i);
}

/// Workers and orchestrator tile the area: the orchestrator has its lower rows over the whole
/// width, the workers the upper rows, each beginning where the one before ends, from the left
/// edge to the right edge.
pub proof fn layout_tiles_the_area(area: Rect, workers: nat)
    requires
        can_lay_out(area, workers),
    ensures
        orch_place(area, workers).wf(),
        orch_place(area, workers).x == area.x,
        orch_place(area, workers).width == area.width,
        orch_place(area, workers).y + orch_place(area, workers).height == area.y + area.height,
        workers == 0 ==> orch_place(area, workers) == area,
        forall|i: int|
            0 <= i < workers ==> {
                let r = #[trigger] worker_place(area, workers, i);
                &&& r.wf()
                &&& r.y == area.y
                &&& r.y + r.height == orch_place(area, workers).y
                &&& i == 0 ==> r.x == area.x
                &&& i < workers - 1 ==> worker_place(area, workers, i + 1).x == r.x + r.width
                &&& i == workers - 1 ==> r.x + r.width == area.x + area.width
            },
{
    assert forall|i: int| 0 <= i < workers implies {
        let r = #[trigger] worker_place(area, workers, i);
        &&& r.wf()
        &&& r.y == area.y
        &&& r.y + r.height == orch_place(area, workers).y
        &&& i == 0 ==> r.x == area.x
        &&& i < workers - 1 ==> worker_place(area, workers, i + 1).x == r.x + r.width
        &&& i == workers - 1 ==> r.x + r.width == area.x + area.width
    } by {
        worker_is_inside(area, workers, i);
        if i < workers - 1 {
            worker_is_inside(area, workers, i + 1);
        }
    }
}

/// In a terminal, whose area begins at the origin, every rectangle of a layout has room for a
/// border within the coordinates.
pub proof fn layout_leaves_room(area: Rect, workers: nat)
    requires
        can_lay_out(area, workers),
        area.x == 0,
        area.y == 0,
    ensures
        orch_place(area, workers).x < u16::MAX,
        orch_place(area, workers).y < u16::MAX,
        forall|i: int|
            0 <= i < workers ==> (#[trigger] worker_place(area, workers, i)).x < u16::MAX
                && worker_place(area, workers, i).y < u16::MAX,
{
    assert forall|i: int| 0 <= i < workers implies (#[trigger] worker_place(area, workers, i)).x
        < u16::MAX && worker_place(area, workers, i).y < u16::MAX by {
        worker_is_inside(area, workers, i);
        shares_fit(area.width, workers, i);
    }
}

/// The inner area lies within the rectangle and leaves a cell on each side, if the rectangle
/// is large enough to have an inside.
pub proof fn inside_leaves_a_border(rect: Rect, column: u16, row: u16)
    requires
        rect.wf(),
        rect.x < u16::MAX,
        rect.y < u16::MAX,
        inside(rect).holds(column, row),
    ensures
        rect.holds(column, row),
        rect.x < column < rect.x + rect.width - 1,
        rect.y < row < rect.y + rect.height - 1,
{
}

/// The orchestrator has a fifth of the rows, rounded down, but six at least as far as there are
/// so many. Every worker but the last has an equal share of the columns, rounded down, and the
/// last one what is left.
pub proof fn shares_are_equal(area: Rect, workers: nat, i: int)
    requires
        can_lay_out(area, workers),
        0 <= i < workers,
    ensures
        ({
            let h = orch_place(area, workers).height;
            &&& area.height >= 30 ==> 5 * h <= area.height < 5 * (h + 1)
            &&& 6 <= area.height < 30 ==> h == 6
            &&& area.height < 6 ==> h == area.height
        }),
        ({
            let w = worker_place(area, workers, 0).width;
            &&& i < workers - 1 ==> worker_place(area, workers, i).width == w
            &&& workers > 1 ==> w * workers <= area.width < (w + 1) * workers
            &&& i == workers - 1 && workers > 1 ==> worker_place(area, workers, i).width + w * (
            workers - 1) == area.width
            &&& workers == 1 ==> w == area.width
        }),
{
    let n = workers as int;
    let width = area.width as int;
    let share = width / n;
    worker_is_inside(area, workers, i);
    worker_is_inside(area, workers, 0);
    vstd::arithmetic::div_mod::lemma_fundamental_div_mod(width, n);
    assert(n * share == share * n) by (nonlinear_arith);
    assert((share + 1) * n == share * n + n) by (nonlinear_arith);
    assert(share * (n - 1) == (n - 1) * share) by (nonlinear_arith);
    assert(0 * share == 0);
}

/// The inner area of a rectangle that has an inside begins one cell further right and down, and
/// has two columns and two rows less; a smaller rectangle has nothing inside.
pub proof fn inside_is_two_smaller(rect: Rect)
    requires
        rect.wf(),
        rect.x < u16::MAX,
        rect.y < u16::MAX,
    ensures
        ({
            let r = inside(rect);
            &&& r.x == rect.x + 1
            &&& r.y == rect.y + 1
            &&& rect.width >= 2 ==> r.width + 2 == rect.width
            &&& rect.width < 2 ==> r.width == 0
            &&& rect.height >= 2 ==> r.height + 2 == rect.height
            &&& rect.height < 2 ==> r.height == 0
        }),
{
}

/// A rectangle keeps its place, and its size as far as the coordinates go.
pub proof fn rectangles_stay_within_coordinates(x: u16, y: u16, width: u16, height: u16)
    ensures
        ({
            let r = Rect::at(x, y, width, height);
            &&& r.x == x && r.y == y
            &&& x + width <= u16::MAX ==> r.width == width
            &&& x + width > u16::MAX ==> r.x + r.width == u16::MAX
            &&& y + height <= u16::MAX ==> r.height == height
            &&& y + height > u16::MAX ==> r.y + r.height == u16::MAX
        }),
{
}

/// A cell is inside a rectangle where it is neither left nor right of it, nor above nor below.
pub proof fn cells_are_inside(rect: Rect, column: u16, row: u16)
    ensures
        rect.holds(column, row) <==> !(column < rect.x || row < rect.y || column >= rect.x
            + rect.width || row >= rect.y + rect.height),
        rect.width == 0 || rect.height == 0 ==> !rect.holds(column, row),
{
}

/// The places of the workers are those of each of them, in order.
pub proof fn every_worker_has_a_place(area: Rect, workers: nat, i: int)
    requires
        0 <= i < workers,
    ensures
        worker_places(area, workers).len() == workers,
        worker_places(area, workers)[i] == worker_place(area, workers, i),
{
}

} // verus!
