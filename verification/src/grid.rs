//! Occupancy grid of log-odds cells (one `i8` per cell), stored row by row.

use vstd::prelude::*;

verus! {

/// The mathematical content of an occupancy grid: its size and its cells, row by row.
pub struct GridView {
    pub width: int,
    pub height: int,
    pub cells: Seq<i8>,
}

impl GridView {
    /// Flat index of cell `(x, y)`, when it lies in the grid.
    pub open spec fn index_of(self, x: int, y: int) -> Option<int> {
        if 0 <= x < self.width && 0 <= y < self.height {
            Some(y * self.width + x)
        } else {
            None
        }
    }

    /// Value of cell `(x, y)`, when it lies in the grid.
    pub open spec fn get(self, x: int, y: int) -> Option<i8> {
        match self.index_of(x, y) {
            Some(i) => Some(self.cells[i]),
            None => None,
        }
    }
}

/// The cells after overwriting cell `(x, y)` with `value`; unchanged when the
/// cell lies outside the grid.
pub open spec fn cells_after_set(g: GridView, x: int, y: int, value: i8) -> Seq<i8> {
    match g.index_of(x, y) {
        Some(i) => g.cells.update(i, value),
        None => g.cells,
    }
}

/// Reading a cell after writing one gives the written value at the written cell
/// and the old value everywhere else.
pub proof fn lemma_get_after_set(g: GridView, x: int, y: int, value: i8, x2: int, y2: int)
    requires
        g.cells.len() == g.width * g.height,
    ensures
        ({
            let g2 = GridView { cells: cells_after_set(g, x, y, value), ..g };
            &&& g2.cells.len() == g.cells.len()
            &&& (x2 == x && y2 == y && g.index_of(x, y) is Some) ==> g2.get(x2, y2) == Some(value)
            &&& !(x2 == x && y2 == y) ==> g2.get(x2, y2) == g.get(x2, y2)
        }),
{
    if let Some(i) = g.index_of(x, y) {
        lemma_index_in_range(x, y, g.width, g.height);
        if let Some(j) = g.index_of(x2, y2) {
            lemma_index_in_range(x2, y2, g.width, g.height);
            if i == j {
                lemma_index_injective(x, y, x2, y2, g.width);
            }
        }
    }
}

/// `v` limited to the range `lo ..= hi`.
pub open spec fn clamp_spec(v: int, lo: int, hi: int) -> int {
    if v < lo {
        lo
    } else if v > hi {
        hi
    } else {
        v
    }
}

/// The cells after adding `delta` to cell `(x, y)` and clamping it to `min ..= max`;
/// unchanged when the cell lies outside the grid.
pub open spec fn cells_after_add(g: GridView, x: int, y: int, delta: i8, min: i8, max: i8) -> Seq<
    i8,
> {
    match g.index_of(x, y) {
        Some(i) => g.cells.update(i, clamp_spec(g.cells[i] + delta, min as int, max as int) as i8),
        None => g.cells,
    }
}

/// One step of the integer line walk towards the target: `a` and `b` are the
/// absolute x and y distances from start to target, `sx` and `sy` the step
/// directions, and `err` the running error term. The walk moves in x when
/// `2 * err >= -b`, in y when `2 * err <= a` (both tested on the error before the step).
pub open spec fn ray_step(x: int, y: int, err: int, a: int, b: int, sx: int, sy: int) -> (
    int,
    int,
    int,
) {
    let e2 = 2 * err;
    let err1 = if e2 >= -b {
        err - b
    } else {
        err
    };
    let nx = if e2 >= -b {
        x + sx
    } else {
        x
    };
    let err2 = if e2 <= a {
        err1 + a
    } else {
        err1
    };
    let ny = if e2 <= a {
        y + sy
    } else {
        y
    };
    (nx, ny, err2)
}

/// Whether `(x, y)` lies outside a grid of `w` by `h` cells, with the sizes
/// taken as signed machine integers as the walk compares them.
pub open spec fn outside_grid(x: int, y: int, w: int, h: int) -> bool {
    x < 0 || y < 0 || x >= (w as isize) as int || y >= (h as isize) as int
}

/// The cells visited by the walk from `(x, y)` (with error `err`) towards
/// `(tx, ty)`: every cell before the target, stopping early once a step leaves
/// the grid. `fuel` bounds the number of steps.
pub open spec fn ray_cells(
    x: int,
    y: int,
    err: int,
    tx: int,
    ty: int,
    a: int,
    b: int,
    sx: int,
    sy: int,
    w: int,
    h: int,
    fuel: nat,
) -> Seq<(int, int)>
    decreases fuel,
{
    if fuel == 0 || (x == tx && y == ty) {
        Seq::empty()
    } else {
        let (nx, ny, ne) = ray_step(x, y, err, a, b, sx, sy);
        let rest = if outside_grid(nx, ny, w, h) {
            Seq::empty()
        } else {
            ray_cells(nx, ny, ne, tx, ty, a, b, sx, sy, w, h, (fuel - 1) as nat)
        };
        seq![(x, y)] + rest
    }
}

/// Absolute value.
pub open spec fn abs_int(v: int) -> int {
    if v < 0 {
        -v
    } else {
        v
    }
}

/// Step direction from `from` towards `to` (`-1` when they are equal).
pub open spec fn dir(from: int, to: int) -> int {
    if from < to {
        1
    } else {
        -1
    }
}

/// The cells that the line walk from `(x0, y0)` to `(x1, y1)` marks in a grid of
/// `w` by `h` cells: the integer line from the start, up to but not including the
/// target, cut short when it leaves the grid.
pub open spec fn ray_line(x0: int, y0: int, x1: int, y1: int, w: int, h: int) -> Seq<(int, int)> {
    let a = abs_int(x1 - x0);
    let b = abs_int(y1 - y0);
    ray_cells(x0, y0, a - b, x1, y1, a, b, dir(x0, x1), dir(y0, y1), w, h, (a + b + 1) as nat)
}

/// The cells after adding `delta` (clamped to `min ..= max`) at each listed cell in turn.
pub open spec fn cells_after_adds(g: GridView, cs: Seq<(int, int)>, delta: i8, min: i8, max: i8) -> Seq<
    i8,
>
    decreases cs.len(),
{
    if cs.len() == 0 {
        g.cells
    } else {
        let g1 = GridView { cells: cells_after_add(g, cs[0].0, cs[0].1, delta, min, max), ..g };
        cells_after_adds(g1, cs.drop_first(), delta, min, max)
    }
}

/// Whether every cell's log-odds value lies in `min ..= max`.
pub open spec fn cells_within(cells: Seq<i8>, min: i8, max: i8) -> bool {
    forall|i: int| 0 <= i < cells.len() ==> min <= #[trigger] cells[i] <= max
}

/// A clamped update keeps every log-odds value within the clamping bounds.
pub proof fn lemma_add_keeps_bounds(g: GridView, x: int, y: int, delta: i8, min: i8, max: i8)
    requires
        min <= max,
        cells_within(g.cells, min, max),
        g.cells.len() == g.width * g.height,
    ensures
        cells_within(cells_after_add(g, x, y, delta, min, max), min, max),
        cells_after_add(g, x, y, delta, min, max).len() == g.cells.len(),
{
    if let Some(i) = g.index_of(x, y) {
        lemma_index_in_range(x, y, g.width, g.height);
        let v = clamp_spec(g.cells[i] + delta, min as int, max as int);
        assert(min <= v <= max);
        assert((v as i8) as int == v);
    }
}

/// Clamped updates keep log-odds within their bounds: when every cell lies in
/// `min ..= max`, it still does after any sequence of updates clamped to those
/// bounds (such as the free-space walk of a beam and its hit).
pub proof fn lemma_adds_keep_bounds(g: GridView, cs: Seq<(int, int)>, delta: i8, min: i8, max: i8)
    requires
        min <= max,
        cells_within(g.cells, min, max),
        g.cells.len() == g.width * g.height,
    ensures
        cells_within(cells_after_adds(g, cs, delta, min, max), min, max),
        cells_after_adds(g, cs, delta, min, max).len() == g.cells.len(),
    decreases cs.len(),
{
    if cs.len() > 0 {
        lemma_add_keeps_bounds(g, cs[0].0, cs[0].1, delta, min, max);
        let g1 = GridView { cells: cells_after_add(g, cs[0].0, cs[0].1, delta, min, max), ..g };
        lemma_adds_keep_bounds(g1, cs.drop_first(), delta, min, max);
    }
}

/// The arithmetic of one walk step: it never passes the target coordinate, it
/// moves in at least one coordinate, and it keeps the error term exact and bounded.
pub proof fn lemma_ray_step_arith(a: int, b: int, i: int, j: int, err: int)
    requires
        a >= 0,
        b >= 0,
        0 <= i <= a,
        0 <= j <= b,
        !(i == a && j == b),
        err == a * (1 + j) - b * (1 + i),
        -2 * b <= err <= 2 * a,
    ensures
        2 * err >= -b ==> i < a,
        2 * err <= a ==> j < b,
        2 * err >= -b || 2 * err <= a,
        ({
            let xs = 2 * err >= -b;
            let ys = 2 * err <= a;
            let ni = if xs { i + 1 } else { i };
            let nj = if ys { j + 1 } else { j };
            let e1 = if xs { err - b } else { err };
            let e2 = if ys { e1 + a } else { e1 };
            &&& e2 == a * (1 + nj) - b * (1 + ni)
            &&& -2 * b <= e2 <= 2 * a
        }),
{
    if 2 * err >= -b && i == a {
        assert(j + 1 <= b);
        assert(a * (1 + j) <= a * b) by (nonlinear_arith)
            requires
                a >= 0,
                1 + j <= b,
        ;
        assert(b * (1 + i) == b + a * b) by (nonlinear_arith)
            requires
                i == a,
        ;
    }
    if 2 * err <= a && j == b {
        assert(i + 1 <= a);
        assert(b * (1 + i) <= b * a) by (nonlinear_arith)
            requires
                b >= 0,
                1 + i <= a,
        ;
        assert(a * (1 + j) == a + a * b) by (nonlinear_arith)
            requires
                j == b,
        ;
    }
    assert(a * (1 + (j + 1)) == a * (1 + j) + a) by (nonlinear_arith);
    assert(b * (1 + (i + 1)) == b * (1 + i) + b) by (nonlinear_arith);
}

/// Whether cell `c` lies in the rectangle spanned by `(x0, y0)` and `(x1, y1)`.
pub open spec fn in_box(c: (int, int), x0: int, y0: int, x1: int, y1: int) -> bool {
    &&& (if x0 <= x1 { x0 <= c.0 <= x1 } else { x1 <= c.0 <= x0 })
    &&& (if y0 <= y1 { y0 <= c.1 <= y1 } else { y1 <= c.1 <= y0 })
}

/// Whether two distinct cells touch by a side or a corner.
pub open spec fn neighbours(p: (int, int), q: (int, int)) -> bool {
    &&& abs_int(p.0 - q.0) <= 1
    &&& abs_int(p.1 - q.1) <= 1
    &&& p != q
}

/// Whether cell `(x, y)` lies in a grid of `w` by `h` cells.
pub open spec fn in_grid(x: int, y: int, w: int, h: int) -> bool {
    0 <= x < w && 0 <= y < h
}

/// Positions along one axis of the walk: after `i` of the `a` steps from `c0`
/// towards `c1`, the position lies between them, and equals `c1` exactly when
/// `i == a`.
pub proof fn lemma_axis(c0: int, c1: int, a: int, i: int)
    requires
        a == abs_int(c1 - c0),
        0 <= i <= a,
    ensures
        ({
            let s = dir(c0, c1);
            let c = c0 + s * i;
            &&& s == 1 || s == -1
            &&& c1 == c0 + s * a
            &&& (c == c1 <==> i == a)
            &&& (if c0 <= c1 { c0 <= c <= c1 } else { c1 <= c <= c0 })
            &&& c0 + s * (i + 1) == c + s
        }),
{
    let s = dir(c0, c1);
    if c0 < c1 {
        assert(s == 1);
        assert(s * i == i);
        assert(s * a == a);
        assert(s * (i + 1) == i + 1);
    } else {
        assert(s == -1);
        assert(s * i == -i);
        assert(s * a == -a);
        assert(s * (i + 1) == -(i + 1));
    }
}

/// The shape of the walk from an intermediate state: its cells lie in the
/// rectangle and are not the target, follow each other as neighbours, start at the
/// current cell, and (when both ends lie in the grid) the last one touches the target.
#[verifier::rlimit(40)]
pub proof fn lemma_ray_cells_shape(
    x0: int,
    y0: int,
    x1: int,
    y1: int,
    a: int,
    b: int,
    i: int,
    j: int,
    err: int,
    w: int,
    h: int,
    fuel: nat,
)
    requires
        a == abs_int(x1 - x0),
        b == abs_int(y1 - y0),
        0 <= i <= a,
        0 <= j <= b,
        err == a * (1 + j) - b * (1 + i),
        -2 * b <= err <= 2 * a,
        fuel >= (a - i) + (b - j) + 1,
    ensures
        ({
            let sx = dir(x0, x1);
            let sy = dir(y0, y1);
            let cs = ray_cells(x0 + sx * i, y0 + sy * j, err, x1, y1, a, b, sx, sy, w, h, fuel);
            &&& forall|k: int| 0 <= k < cs.len() ==> in_box(#[trigger] cs[k], x0, y0, x1, y1)
            &&& forall|k: int| 0 <= k < cs.len() ==> #[trigger] cs[k] != (x1, y1)
            &&& forall|k: int| 0 <= k < cs.len() - 1 ==> neighbours(#[trigger] cs[k], cs[k + 1])
            &&& (i == a && j == b) <==> cs.len() == 0
            &&& cs.len() > 0 ==> cs[0] == (x0 + sx * i, y0 + sy * j)
            &&& (in_grid(x0, y0, w, h) && in_grid(x1, y1, w, h) && w <= isize::MAX && h <= isize::MAX
                && cs.len() > 0) ==> neighbours(cs.last(), (x1, y1))
        }),
    decreases fuel,
{
    let sx = dir(x0, x1);
    let sy = dir(y0, y1);
    let x = x0 + sx * i;
    let y = y0 + sy * j;
    let cs = ray_cells(x, y, err, x1, y1, a, b, sx, sy, w, h, fuel);
    lemma_axis(x0, x1, a, i);
    lemma_axis(y0, y1, b, j);
    if i == a && j == b {
        return;
    }
    lemma_ray_step_arith(a, b, i, j, err);
    let (nx, ny, ne) = ray_step(x, y, err, a, b, sx, sy);
    let xs = 2 * err >= -b;
    let ys = 2 * err <= a;
    let ni = if xs { i + 1 } else { i };
    let nj = if ys { j + 1 } else { j };
    assert(nx == x0 + sx * ni);
    assert(ny == y0 + sy * nj);
    lemma_axis(x0, x1, a, ni);
    lemma_axis(y0, y1, b, nj);
    let f1 = (fuel - 1) as nat;
    if outside_grid(nx, ny, w, h) {
        assert(cs =~= seq![(x, y)]);
    } else {
        lemma_ray_cells_shape(x0, y0, x1, y1, a, b, ni, nj, ne, w, h, f1);
        let rest = ray_cells(nx, ny, ne, x1, y1, a, b, sx, sy, w, h, f1);
        assert(cs == seq![(x, y)] + rest);
        assert forall|k: int| 0 <= k < cs.len() implies in_box(#[trigger] cs[k], x0, y0, x1, y1) && cs[k] != (x1, y1) by {
            if k > 0 {
                assert(cs[k] == rest[k - 1]);
            }
        }
        assert forall|k: int| 0 <= k < cs.len() - 1 implies neighbours(#[trigger] cs[k], cs[k + 1]) by {
            if k > 0 {
                assert(cs[k] == rest[k - 1]);
                assert(cs[k + 1] == rest[k]);
            } else {
                assert(cs[1] == rest[0]);
            }
        }
        if rest.len() == 0 {
            assert(cs.last() == (x, y));
        } else {
            assert(cs.last() == rest.last());
        }
    }
}

/// The cells marked by a ray lie in the rectangle spanned by its two ends and do
/// not include the target; they follow each other as neighbours and begin at the
/// start cell (there are none exactly when start and target coincide); and when
/// both ends lie in the grid the last marked cell touches the target.
pub proof fn lemma_ray_line_shape(x0: int, y0: int, x1: int, y1: int, w: int, h: int)
    ensures
        ({
            let cs = ray_line(x0, y0, x1, y1, w, h);
            &&& forall|k: int| 0 <= k < cs.len() ==> in_box(#[trigger] cs[k], x0, y0, x1, y1)
            &&& forall|k: int| 0 <= k < cs.len() ==> #[trigger] cs[k] != (x1, y1)
            &&& forall|k: int| 0 <= k < cs.len() - 1 ==> neighbours(#[trigger] cs[k], cs[k + 1])
            &&& (x0 == x1 && y0 == y1) <==> cs.len() == 0
            &&& cs.len() > 0 ==> cs[0] == (x0, y0)
            &&& (in_grid(x0, y0, w, h) && in_grid(x1, y1, w, h) && w <= isize::MAX && h <= isize::MAX
                && cs.len() > 0) ==> neighbours(cs.last(), (x1, y1))
        }),
{
    let a = abs_int(x1 - x0);
    let b = abs_int(y1 - y0);
    assert(a * (1 + 0int) - b * (1 + 0int) == a - b) by (nonlinear_arith);
    lemma_ray_cells_shape(x0, y0, x1, y1, a, b, 0, 0, a - b, w, h, (a + b + 1) as nat);
    lemma_axis(x0, x1, a, 0);
    lemma_axis(y0, y1, b, 0);
}

/// The cells of the integer line walk from `(x0, y0)` towards `(x1, y1)` that
/// lie before the target, cut short once a step leaves a grid of `width` by
/// `height` cells (see `ray_line`). When both ends lie in the grid the walk never
/// leaves it (see `lemma_ray_line_shape`), so this is the whole line up to the target.
pub fn line_cells(x0: isize, y0: isize, x1: isize, y1: isize, width: usize, height: usize) -> (cells: Vec<(isize, isize)>)
    requires
        4 * abs_int(x1 - x0) <= isize::MAX,
        4 * abs_int(y1 - y0) <= isize::MAX,
    ensures
        cells@.map_values(|c: (isize, isize)| (c.0 as int, c.1 as int)) == ray_line(
            x0 as int,
            y0 as int,
            x1 as int,
            y1 as int,
            width as int,
            height as int,
        ),
{
    let ghost w = width as int;
    let ghost h = height as int;
    let ghost line = ray_line(x0 as int, y0 as int, x1 as int, y1 as int, w, h);
    let ddx: isize = x1 - x0;
    let ddy: isize = y1 - y0;
    let dx: isize = if ddx < 0 { -ddx } else { ddx };
    let dy: isize = if ddy < 0 { ddy } else { -ddy };
    let sx: isize = if x0 < x1 { 1 } else { -1 };
    let sy: isize = if y0 < y1 { 1 } else { -1 };
    let ghost a: int = dx as int;
    let ghost b: int = -(dy as int);
    let mut err: isize = dx + dy;
    let mut x: isize = x0;
    let mut y: isize = y0;
    let wi: isize = width as isize;
    let hi: isize = height as isize;
    let ghost mut i: int = 0;
    let ghost mut j: int = 0;
    let ghost mut fuel: nat = (a + b + 1) as nat;
    let mut out: Vec<(isize, isize)> = Vec::new();
    assert(a * (1 + 0int) - b * (1 + 0int) == a - b) by (nonlinear_arith);
    loop
        invariant_except_break
            wi as int == (w as isize) as int,
            hi as int == (h as isize) as int,
            a == abs_int(x1 - x0),
            b == abs_int(y1 - y0),
            dx as int == a,
            dy as int == -b,
            4 * a <= isize::MAX,
            4 * b <= isize::MAX,
            sx as int == dir(x0 as int, x1 as int),
            sy as int == dir(y0 as int, y1 as int),
            x1 as int == x0 as int + sx * a,
            y1 as int == y0 as int + sy * b,
            0 <= i <= a,
            0 <= j <= b,
            x as int == x0 as int + sx * i,
            y as int == y0 as int + sy * j,
            err as int == a * (1 + j) - b * (1 + i),
            -2 * b <= err <= 2 * a,
            fuel >= (a - i) + (b - j) + 1,
            out@.map_values(|c: (isize, isize)| (c.0 as int, c.1 as int)) + ray_cells(
                x as int,
                y as int,
                err as int,
                x1 as int,
                y1 as int,
                a,
                b,
                sx as int,
                sy as int,
                w,
                h,
                fuel,
            ) == line,
        ensures
            out@.map_values(|c: (isize, isize)| (c.0 as int, c.1 as int)) == line,
        decreases (a - i) + (b - j),
    {
        let ghost cs = ray_cells(x as int, y as int, err as int, x1 as int, y1 as int, a, b, sx as int, sy as int, w, h, fuel);
        let ghost before = out@.map_values(|c: (isize, isize)| (c.0 as int, c.1 as int));
        if x == x1 && y == y1 {
            assert(before + cs =~= before);
            break;
        }
        proof {
            if i == a && j == b {
                assert(false);
            }
            lemma_ray_step_arith(a, b, i, j, err as int);
            assert(cs.len() > 0);
            assert(cs[0] == (x as int, y as int));
        }
        out.push((x, y));
        assert(out@.map_values(|c: (isize, isize)| (c.0 as int, c.1 as int)) =~= before.push(cs[0]));
        let e2: isize = 2 * err;
        if e2 >= dy {
            err = err + dy;
            x = x + sx;
            proof { i = i + 1; }
        }
        if e2 <= dx {
            err = err + dx;
            y = y + sy;
            proof { j = j + 1; }
        }
        proof {
            fuel = (fuel - 1) as nat;
        }
        if x < 0 || y < 0 || x >= wi || y >= hi {
            proof {
                assert(outside_grid(x as int, y as int, w, h));
                assert(cs =~= seq![cs[0]]);
                assert(before.push(cs[0]) =~= before + cs);
            }
            break;
        }
        proof {
            let rest = ray_cells(x as int, y as int, err as int, x1 as int, y1 as int, a, b, sx as int, sy as int, w, h, fuel);
            assert(cs =~= seq![cs[0]] + rest);
            assert(before.push(cs[0]) + rest =~= before + cs);
        }
    }
    out
}

/// The cells that a ray from `(x0, y0)` to `(x1, y1)` passes before reaching its
/// target, for two cells of a grid of `width` by `height` cells, walked with
/// 32-bit arithmetic; each visited cell is kept only when it lies in the grid,
/// and the walk also ends if a step would move past the target's column or row.
/// It is the same integer line as `line_cells` draws (see `ray_line`).
pub fn trace_ray_cells(x0: usize, y0: usize, x1: usize, y1: usize, width: usize, height: usize) -> (cells: Vec<(usize, usize)>)
    requires
        x0 < width,
        x1 < width,
        y0 < height,
        y1 < height,
        4 * width <= i32::MAX,
        4 * height <= i32::MAX,
    ensures
        cells@.map_values(|c: (usize, usize)| (c.0 as int, c.1 as int)) == ray_line(
            x0 as int,
            y0 as int,
            x1 as int,
            y1 as int,
            width as int,
            height as int,
        ),
{
    let ghost w = width as int;
    let ghost h = height as int;
    let ghost line = ray_line(x0 as int, y0 as int, x1 as int, y1 as int, w, h);
    let tx: i32 = x1 as i32;
    let ty: i32 = y1 as i32;
    let wi: i32 = width as i32;
    let hi: i32 = height as i32;
    let mut x: i32 = x0 as i32;
    let mut y: i32 = y0 as i32;
    let ddx: i32 = tx - x;
    let ddy: i32 = ty - y;
    let dx: i32 = if ddx < 0 { -ddx } else { ddx };
    let dy: i32 = if ddy < 0 { ddy } else { -ddy };
    let sx: i32 = if x < tx { 1 } else { -1 };
    let sy: i32 = if y < ty { 1 } else { -1 };
    let ghost a: int = dx as int;
    let ghost b: int = -(dy as int);
    let mut err: i32 = dx + dy;
    let ghost mut i: int = 0;
    let ghost mut j: int = 0;
    let ghost mut fuel: nat = (a + b + 1) as nat;
    let mut out: Vec<(usize, usize)> = Vec::new();
    assert(a * (1 + 0int) - b * (1 + 0int) == a - b) by (nonlinear_arith);
    assert((w as isize) as int == w);
    assert((h as isize) as int == h);
    loop
        invariant_except_break
            w == width,
            h == height,
            x0 < w,
            x1 < w,
            y0 < h,
            y1 < h,
            4 * w <= i32::MAX,
            4 * h <= i32::MAX,
            (w as isize) as int == w,
            (h as isize) as int == h,
            wi == w,
            hi == h,
            tx == x1,
            ty == y1,
            a == abs_int(x1 - x0),
            b == abs_int(y1 - y0),
            dx as int == a,
            dy as int == -b,
            sx as int == dir(x0 as int, x1 as int),
            sy as int == dir(y0 as int, y1 as int),
            0 <= i <= a,
            0 <= j <= b,
            x as int == x0 as int + sx * i,
            y as int == y0 as int + sy * j,
            err as int == a * (1 + j) - b * (1 + i),
            -2 * b <= err <= 2 * a,
            fuel >= (a - i) + (b - j) + 1,
            out@.map_values(|c: (usize, usize)| (c.0 as int, c.1 as int)) + ray_cells(
                x as int,
                y as int,
                err as int,
                x1 as int,
                y1 as int,
                a,
                b,
                sx as int,
                sy as int,
                w,
                h,
                fuel,
            ) == line,
        ensures
            out@.map_values(|c: (usize, usize)| (c.0 as int, c.1 as int)) == line,
        decreases (a - i) + (b - j),
    {
        let ghost cs = ray_cells(x as int, y as int, err as int, x1 as int, y1 as int, a, b, sx as int, sy as int, w, h, fuel);
        let ghost before = out@.map_values(|c: (usize, usize)| (c.0 as int, c.1 as int));
        proof {
            lemma_axis(x0 as int, x1 as int, a, i);
            lemma_axis(y0 as int, y1 as int, b, j);
        }
        if x == tx && y == ty {
            assert(before + cs =~= before);
            break;
        }
        proof {
            if i == a && j == b {
                assert(false);
            }
            lemma_ray_step_arith(a, b, i, j, err as int);
            assert(cs.len() > 0);
            assert(cs[0] == (x as int, y as int));
        }
        if x >= 0 && x < wi && y >= 0 && y < hi {
            out.push((x as usize, y as usize));
        }
        assert(out@.map_values(|c: (usize, usize)| (c.0 as int, c.1 as int)) =~= before.push(cs[0]));
        let e2: i32 = 2 * err;
        if e2 >= dy {
            if x == tx {
                break;
            }
            err = err + dy;
            x = x + sx;
            proof { i = i + 1; }
        }
        if e2 <= dx {
            if y == ty {
                break;
            }
            err = err + dx;
            y = y + sy;
            proof { j = j + 1; }
        }
        proof {
            lemma_axis(x0 as int, x1 as int, a, i);
            lemma_axis(y0 as int, y1 as int, b, j);
            assert(!outside_grid(x as int, y as int, w, h));
            let rest = ray_cells(x as int, y as int, err as int, x1 as int, y1 as int, a, b, sx as int, sy as int, w, h, (fuel - 1) as nat);
            assert(cs =~= seq![cs[0]] + rest);
            assert(before.push(cs[0]) + rest =~= before + cs);
            fuel = (fuel - 1) as nat;
        }
    }
    out
}

/// The cells after the free-space pass of a beam from `start` to `hit`: the walk
/// of `raytrace_free` with `miss_delta`, or no change when the start lies outside the map.
pub open spec fn beam_free_cells(
    g: GridView,
    start: Option<(isize, isize)>,
    hit: (isize, isize),
    miss_delta: i8,
    min: i8,
    max: i8,
) -> Seq<i8> {
    match start {
        Some(s) => cells_after_adds(
            g,
            ray_line(s.0 as int, s.1 as int, hit.0 as int, hit.1 as int, g.width, g.height),
            miss_delta,
            min,
            max,
        ),
        None => g.cells,
    }
}

/// The contribution of one beam to a scan's score: the cell's log-odds when the
/// beam ends inside the map, minus one when it ends outside (`None`).
pub open spec fn hit_score(g: GridView, hit: Option<(isize, isize)>) -> int {
    match hit {
        Some(h) => match g.get(h.0 as int, h.1 as int) {
            Some(c) => c as int,
            None => 0,
        },
        None => -1,
    }
}

/// The score of a scan: the sum of its beams' contributions.
pub open spec fn hits_score(g: GridView, hits: Seq<Option<(isize, isize)>>) -> int
    decreases hits.len(),
{
    if hits.len() == 0 {
        0
    } else {
        hits_score(g, hits.drop_last()) + hit_score(g, hits.last())
    }
}

/// Whether every running total of a scan's score (after each beam) fits in an `i32`.
pub open spec fn score_fits(g: GridView, hits: Seq<Option<(isize, isize)>>) -> bool {
    forall|k: int| 0 <= k <= hits.len() ==> i32::MIN <= #[trigger] hits_score(g, hits.take(k)) <= i32::MAX
}

/// Occupancy state of a map cell.
#[derive(Debug, Clone, Copy, PartialEq, Eq)]
pub enum CellState {
    /// Not observed.
    Unknown,
    /// Known to be free.
    Free,
    /// Known to hold an obstacle.
    Occupied,
}

/// Occupancy grid storing log-odds values.
#[derive(Clone, Debug)]
pub struct OccupancyGrid {
    width: usize,
    height: usize,
    cells: Vec<i8>,
}

/// `y * w + x` lies below `w * h` when `x < w` and `y < h`.
pub proof fn lemma_index_in_range(x: int, y: int, w: int, h: int)
    requires
        0 <= x < w,
        0 <= y < h,
    ensures
        0 <= y * w + x < w * h,
{
    assert(0 <= y * w) by (nonlinear_arith)
        requires
            0 <= y,
            0 <= w,
    ;
    assert(y * w + x < w * h) by (nonlinear_arith)
        requires
            0 <= x < w,
            0 <= y < h,
    ;
}

/// Distinct cells of the grid have distinct flat indices.
pub proof fn lemma_index_injective(x1: int, y1: int, x2: int, y2: int, w: int)
    requires
        0 <= x1 < w,
        0 <= x2 < w,
        0 <= y1,
        0 <= y2,
        y1 * w + x1 == y2 * w + x2,
    ensures
        x1 == x2,
        y1 == y2,
{
    if y1 < y2 {
        assert(y1 * w + x1 < y2 * w + x2) by (nonlinear_arith)
            requires
                0 <= x1 < w,
                0 <= x2,
                y1 < y2,
        ;
    } else if y2 < y1 {
        assert(y2 * w + x2 < y1 * w + x1) by (nonlinear_arith)
            requires
                0 <= x2 < w,
                0 <= x1,
                y2 < y1,
        ;
    }
}

impl View for OccupancyGrid {
    type V = GridView;

    closed spec fn view(&self) -> GridView {
        GridView { width: self.width as int, height: self.height as int, cells: self.cells@ }
    }
}

impl OccupancyGrid {
    /// Well-formedness: there are exactly `width * height` cells.
    pub open spec fn wf(&self) -> bool {
        self@.cells.len() == self@.width * self@.height
    }

    /// A grid of `width * height` cells, all zero.
    pub fn new(width: usize, height: usize) -> (g: Self)
        requires
            width * height <= usize::MAX,
        ensures
            g.wf(),
            g@.width == width,
            g@.height == height,
            g@.cells == Seq::new((width * height) as nat, |i: int| 0i8),
    {
        let n: usize = width * height;
        let cells: Vec<i8> = vec![0i8; n];
        assert(cells@ =~= Seq::new((width * height) as nat, |i: int| 0i8));
        OccupancyGrid { width, height, cells }
    }

    /// Number of cells per row.
    pub fn width(&self) -> (w: usize)
        ensures
            w == self@.width,
    {
        self.width
    }

    /// Number of rows.
    pub fn height(&self) -> (h: usize)
        ensures
            h == self@.height,
    {
        self.height
    }

    /// Flat index `y * width + x` of cell `(x, y)`, or `None` outside the grid.
    pub fn index_of(&self, x: usize, y: usize) -> (r: Option<usize>)
        requires
            self.wf(),
        ensures
            r matches Some(i) ==> self@.index_of(x as int, y as int) == Some(i as int),
            r is None ==> self@.index_of(x as int, y as int) is None,
            r matches Some(i) ==> i < self@.cells.len(),
    {
        let n = self.cells.len();
        if x < self.width && y < self.height {
            proof {
                lemma_index_in_range(x as int, y as int, self.width as int, self.height as int);
            }
            Some(y * self.width + x)
        } else {
            None
        }
    }

    /// Value of cell `(x, y)`, or `None` outside the grid.
    pub fn get(&self, x: usize, y: usize) -> (r: Option<i8>)
        requires
            self.wf(),
        ensures
            r == self@.get(x as int, y as int),
    {
        match self.index_of(x, y) {
            Some(i) => Some(self.cells[i]),
            None => None,
        }
    }

    /// Overwrite cell `(x, y)`; nothing happens outside the grid.
    pub fn set(&mut self, x: usize, y: usize, value: i8)
        requires
            old(self).wf(),
        ensures
            final(self).wf(),
            final(self)@.width == old(self)@.width,
            final(self)@.height == old(self)@.height,
            final(self)@.cells == cells_after_set(old(self)@, x as int, y as int, value),
    {
        if let Some(i) = self.index_of(x, y) {
            self.cells.set(i, value);
        }
    }

    /// Add `delta` to cell `(x, y)` and clamp the sum to `min ..= max`; nothing
    /// happens when a coordinate is negative or the cell lies outside the grid.
    pub fn add_log_odds(&mut self, x: isize, y: isize, delta: i8, min: i8, max: i8)
        requires
            old(self).wf(),
            old(self)@.index_of(x as int, y as int) is Some ==> min <= max,
        ensures
            final(self).wf(),
            final(self)@.width == old(self)@.width,
            final(self)@.height == old(self)@.height,
            final(self)@.cells == cells_after_add(old(self)@, x as int, y as int, delta, min, max),
    {
        if x < 0 || y < 0 {
            return;
        }
        let xu = x as usize;
        let yu = y as usize;
        if let Some(idx) = self.index_of(xu, yu) {
            let sum: i16 = (self.cells[idx] as i16) + (delta as i16);
            let clamped: i16 = if sum < min as i16 {
                min as i16
            } else if sum > max as i16 {
                max as i16
            } else {
                sum
            };
            self.cells.set(idx, clamped as i8);
        }
    }

    /// Walk the integer line from `(x0, y0)` towards `(x1, y1)` and add `delta`
    /// (clamped to `min ..= max`) to every cell on it before the target; the walk
    /// stops at the target or as soon as a step leaves the grid.
    pub fn raytrace_free(
        &mut self,
        x0: isize,
        y0: isize,
        x1: isize,
        y1: isize,
        delta: i8,
        min: i8,
        max: i8,
    )
        requires
            old(self).wf(),
            4 * abs_int(x1 - x0) <= isize::MAX,
            4 * abs_int(y1 - y0) <= isize::MAX,
            min > max ==> forall|k: int|
                0 <= k < ray_line(x0 as int, y0 as int, x1 as int, y1 as int, old(self)@.width, old(self)@.height).len()
                    ==> old(self)@.index_of(
                    #[trigger] ray_line(x0 as int, y0 as int, x1 as int, y1 as int, old(self)@.width, old(self)@.height)[k].0,
                    ray_line(x0 as int, y0 as int, x1 as int, y1 as int, old(self)@.width, old(self)@.height)[k].1,
                ) is None,
        ensures
            final(self).wf(),
            final(self)@.width == old(self)@.width,
            final(self)@.height == old(self)@.height,
            final(self)@.cells == cells_after_adds(
                old(self)@,
                ray_line(x0 as int, y0 as int, x1 as int, y1 as int, old(self)@.width, old(self)@.height),
                delta,
                min,
                max,
            ),
    {
        let ghost g0 = self@;
        let ghost w = g0.width;
        let ghost h = g0.height;
        let ghost line = ray_line(x0 as int, y0 as int, x1 as int, y1 as int, w, h);
        let ghost target = cells_after_adds(g0, line, delta, min, max);
        let ddx: isize = x1 - x0;
        let ddy: isize = y1 - y0;
        let dx: isize = if ddx < 0 { -ddx } else { ddx };
        let dy: isize = if ddy < 0 { ddy } else { -ddy };
        let sx: isize = if x0 < x1 { 1 } else { -1 };
        let sy: isize = if y0 < y1 { 1 } else { -1 };
        let ghost a: int = dx as int;
        let ghost b: int = -(dy as int);
        let mut err: isize = dx + dy;
        let mut x: isize = x0;
        let mut y: isize = y0;
        let wi: isize = self.width as isize;
        let hi: isize = self.height as isize;
        let ghost mut i: int = 0;
        let ghost mut j: int = 0;
        let ghost mut fuel: nat = (a + b + 1) as nat;
        assert(a * (1 + 0int) - b * (1 + 0int) == a - b) by (nonlinear_arith);
        loop
            invariant_except_break
                self.wf(),
                self@.width == w,
                self@.height == h,
                wi as int == (w as isize) as int,
                hi as int == (h as isize) as int,
                a == abs_int(x1 - x0),
                b == abs_int(y1 - y0),
                dx as int == a,
                dy as int == -b,
                4 * a <= isize::MAX,
                4 * b <= isize::MAX,
                sx as int == dir(x0 as int, x1 as int),
                sy as int == dir(y0 as int, y1 as int),
                x1 as int == x0 as int + sx * a,
                y1 as int == y0 as int + sy * b,
                0 <= i <= a,
                0 <= j <= b,
                x as int == x0 as int + sx * i,
                y as int == y0 as int + sy * j,
                err as int == a * (1 + j) - b * (1 + i),
                -2 * b <= err <= 2 * a,
                fuel >= (a - i) + (b - j) + 1,
                cells_after_adds(
                    self@,
                    ray_cells(x as int, y as int, err as int, x1 as int, y1 as int, a, b, sx as int, sy as int, w, h, fuel),
                    delta,
                    min,
                    max,
                ) == target,
                min > max ==> forall|k: int|
                    0 <= k < ray_cells(x as int, y as int, err as int, x1 as int, y1 as int, a, b, sx as int, sy as int, w, h, fuel).len()
                        ==> self@.index_of(
                        #[trigger] ray_cells(x as int, y as int, err as int, x1 as int, y1 as int, a, b, sx as int, sy as int, w, h, fuel)[k].0,
                        ray_cells(x as int, y as int, err as int, x1 as int, y1 as int, a, b, sx as int, sy as int, w, h, fuel)[k].1,
                    ) is None,
            ensures
                self.wf(),
                self@.width == w,
                self@.height == h,
                self@.cells == target,
            decreases (a - i) + (b - j),
        {
            let ghost cs = ray_cells(x as int, y as int, err as int, x1 as int, y1 as int, a, b, sx as int, sy as int, w, h, fuel);
            if x == x1 && y == y1 {
                break;
            }
            proof {
                if i == a && j == b {
                    assert(false);
                }
                lemma_ray_step_arith(a, b, i, j, err as int);
                assert(cs.len() > 0);
                assert(cs[0] == (x as int, y as int));
                if min > max {
                    assert(self@.index_of(cs[0].0, cs[0].1) is None);
                }
            }
            let ghost before = self@;
            self.add_log_odds(x, y, delta, min, max);
            let e2: isize = 2 * err;
            if e2 >= dy {
                err = err + dy;
                x = x + sx;
                proof { i = i + 1; }
            }
            if e2 <= dx {
                err = err + dx;
                y = y + sy;
                proof { j = j + 1; }
            }
            let ghost g1 = GridView { cells: cells_after_add(before, cs[0].0, cs[0].1, delta, min, max), ..before };
            proof {
                assert(self@ == g1);
                assert(cells_after_adds(before, cs, delta, min, max) == cells_after_adds(g1, cs.drop_first(), delta, min, max));
                fuel = (fuel - 1) as nat;
            }
            if x < 0 || y < 0 || x >= wi || y >= hi {
                proof {
                    assert(outside_grid(x as int, y as int, w, h));
                    assert(cs.drop_first() =~= Seq::<(int, int)>::empty());
                    assert(cells_after_adds(g1, Seq::<(int, int)>::empty(), delta, min, max) == g1.cells);
                }
                break;
            }
            proof {
                let rest = ray_cells(x as int, y as int, err as int, x1 as int, y1 as int, a, b, sx as int, sy as int, w, h, fuel);
                assert(cs.drop_first() =~= rest);
                if min > max {
                    assert forall|k: int| 0 <= k < rest.len() implies self@.index_of(#[trigger] rest[k].0, rest[k].1) is None by {
                        assert(rest[k] == cs[k + 1]);
                    }
                }
            }
        }
    }

    /// Integrate one beam observed from `start` (the sensor's cell, if it lies in
    /// the map) to `hit`: the cells on the way get `miss_delta`, then the hit cell
    /// gets `hit_delta`, each clamped to `min ..= max`.
    pub fn integrate_beam(
        &mut self,
        start: Option<(isize, isize)>,
        hit: (isize, isize),
        hit_delta: i8,
        miss_delta: i8,
        min: i8,
        max: i8,
    )
        requires
            old(self).wf(),
            start matches Some(s) ==> 4 * abs_int(hit.0 - s.0) <= isize::MAX && 4 * abs_int(hit.1 - s.1)
                <= isize::MAX,
            min > max ==> old(self)@.index_of(hit.0 as int, hit.1 as int) is None,
            min > max ==> (start matches Some(s) ==> forall|k: int|
                0 <= k < ray_line(s.0 as int, s.1 as int, hit.0 as int, hit.1 as int, old(self)@.width, old(self)@.height).len()
                    ==> old(self)@.index_of(
                    #[trigger] ray_line(s.0 as int, s.1 as int, hit.0 as int, hit.1 as int, old(self)@.width, old(self)@.height)[k].0,
                    ray_line(s.0 as int, s.1 as int, hit.0 as int, hit.1 as int, old(self)@.width, old(self)@.height)[k].1,
                ) is None),
        ensures
            final(self).wf(),
            final(self)@.width == old(self)@.width,
            final(self)@.height == old(self)@.height,
            final(self)@.cells == cells_after_add(
                GridView { cells: beam_free_cells(old(self)@, start, hit, miss_delta, min, max), ..old(self)@ },
                hit.0 as int,
                hit.1 as int,
                hit_delta,
                min,
                max,
            ),
    {
        if let Some((sx, sy)) = start {
            self.raytrace_free(sx, sy, hit.0, hit.1, miss_delta, min, max);
        }
        self.add_log_odds(hit.0, hit.1, hit_delta, min, max);
    }

    /// Score of a scan against the map: for each beam, the log-odds of the cell
    /// its end falls in, or minus one when it falls outside the map (`None`),
    /// added up in an `i32`; `None` when a running total leaves the `i32` range.
    pub fn score_hits(&self, hits: &[Option<(isize, isize)>]) -> (score: Option<i32>)
        requires
            self.wf(),
        ensures
            score matches Some(s) ==> score_fits(self@, hits@) && s == hits_score(self@, hits@),
            score is None ==> !score_fits(self@, hits@),
    {
        let mut score: i32 = 0;
        let mut i: usize = 0;
        assert(hits_score(self@, hits@.take(0)) == 0) by {
            assert(hits@.take(0) =~= Seq::<Option<(isize, isize)>>::empty());
        }
        while i < hits.len()
            invariant
                self.wf(),
                i <= hits@.len(),
                score == hits_score(self@, hits@.take(i as int)),
                forall|k: int|
                    0 <= k <= i ==> i32::MIN <= #[trigger] hits_score(self@, hits@.take(k))
                        <= i32::MAX,
            decreases hits@.len() - i,
        {
            proof {
                assert(hits@.take(i + 1).drop_last() =~= hits@.take(i as int));
            }
            let delta: i32 = match hits[i] {
                Some((x, y)) => {
                    if x >= 0 && y >= 0 {
                        match self.get(x as usize, y as usize) {
                            Some(c) => c as i32,
                            None => 0,
                        }
                    } else {
                        0
                    }
                },
                None => -1,
            };
            assert(hits_score(self@, hits@.take(i + 1)) == score + delta);
            match score.checked_add(delta) {
                Some(v) => {
                    score = v;
                },
                None => {
                    return None;
                },
            }
            i = i + 1;
        }
        proof {
            assert(hits@.take(hits@.len() as int) =~= hits@);
            assert forall|k: int| 0 <= k <= hits@.len() implies i32::MIN <= #[trigger] hits_score(
                self@,
                hits@.take(k),
            ) <= i32::MAX by {
                assert(hits@.take(k) == hits@.take(hits@.len() as int).take(k));
            }
        }
        Some(score)
    }

    /// All cells, row by row.
    pub fn cells(&self) -> (c: &[i8])
        requires
            self.wf(),
        ensures
            c@ == self@.cells,
    {
        self.cells.as_slice()
    }
}

} // verus!
