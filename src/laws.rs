//! Laws of the traced path.

use vstd::prelude::*;
use crate::cell::{Dir, Pix, shift, start_heading, shape_of, next_heading, uniform};
use crate::grid::{cell_at, grid_of, grid_wf, in_grid, lemma_grid_of_wf, window};
use crate::raster::Raster;
use crate::trace::{
    Outcome, first_stop_from, is_first_open, lemma_first_stop_bounds, lemma_open_is_inner,
    lemma_start_of, precedes, start_of, step_limit, stops_at, trace_len, trace_outcome, trace_path,
    walk,
};

verus! {

/// `a` and `b` are one unit apart on exactly one axis.
pub open spec fn unit_step(a: (int, int), b: (int, int)) -> bool {
    ||| a.0 == b.0 && (a.1 - b.1 == 1 || b.1 - a.1 == 1)
    ||| a.1 == b.1 && (a.0 - b.0 == 1 || b.0 - a.0 == 1)
}

/// A traced path starts at a first non-uniform cell.
proof fn lemma_start_open(g: Seq<Seq<Pix>>)
    requires
        start_of(g) is Some,
    ensures
        is_first_open(g, start_of(g)->0),
{
}

/// From a non-uniform start the walker always has a heading.
proof fn lemma_heading_set(g: Seq<Seq<Pix>>, s: (int, int), k: nat)
    requires
        !uniform(cell_at(g, s)),
    ensures
        walk(g, s, k).1 != Dir::Unset,
    decreases k,
{
    if k > 0 {
        lemma_heading_set(g, s, (k - 1) as nat);
    }
}

/// Consecutive vertices of a traced path are one step apart on exactly one axis.
pub proof fn law_path_steps(g: Seq<Seq<Pix>>, i: int)
    requires
        grid_wf(g),
        0 <= i,
        i + 1 < trace_path(g).len(),
    ensures
        unit_step(trace_path(g)[i], trace_path(g)[i + 1]),
{
    let s = start_of(g)->0;
    lemma_start_open(g);
    lemma_heading_set(g, s, i as nat);
    assert(walk(g, s, (i + 1) as nat).0 == shift(walk(g, s, i as nat).0, walk(g, s, i as nat).1));
}

/// Every vertex of a traced path is a non-uniform cell off the grid's outer ring.
pub proof fn law_path_cells(g: Seq<Seq<Pix>>, i: int)
    requires
        grid_wf(g),
        0 <= i < trace_path(g).len(),
    ensures
        !uniform(cell_at(g, trace_path(g)[i])),
        1 <= trace_path(g)[i].0 < g[0].len() - 1,
        1 <= trace_path(g)[i].1 < g.len() - 1,
{
    let s = start_of(g)->0;
    lemma_start_open(g);
    lemma_first_stop_bounds(g, s, 1, step_limit(g));
    if i > 0 {
        assert(!stops_at(g, s, i as nat));
    }
    lemma_open_is_inner(g, trace_path(g)[i]);
}

/// The parity of x + y changes with every step of the walk.
proof fn lemma_walk_parity(g: Seq<Seq<Pix>>, s: (int, int), k: nat)
    requires
        !uniform(cell_at(g, s)),
    ensures
        (walk(g, s, k).0.0 + walk(g, s, k).0.1 - s.0 - s.1 - k) % 2 == 0,
    decreases k,
{
    if k > 0 {
        lemma_walk_parity(g, s, (k - 1) as nat);
        lemma_heading_set(g, s, (k - 1) as nat);
    }
}

/// Two cells side by side that share a column of samples: a walk heading right
/// from the left one never turns back on entering the right one.
proof fn lemma_no_reversal_right(a: u8, b: u8, c: u8, d: u8, e: u8, f: u8)
    requires
        start_heading(shape_of((a, b, d, e))) == Dir::Right,
    ensures
        next_heading(Dir::Right, (b, c, e, f)) != Dir::Left,
{
}

/// Two cells one above the other that share a row of samples: a walk heading
/// down from the upper one never turns back on entering the lower one.
proof fn lemma_no_reversal_down(a: u8, b: u8, c: u8, d: u8, e: u8, f: u8)
    requires
        start_heading(shape_of((a, d, b, e))) == Dir::Down,
    ensures
        next_heading(Dir::Down, (b, e, c, f)) != Dir::Up,
{
}

/// A contour traced from an image that closes has at least four vertices, and
/// the step from its last vertex under the final heading leads back to its first.
pub proof fn law_closed_path(img: Raster)
    requires
        img.wf(),
        (img.height + 2) * (img.width + 2) * 4 <= isize::MAX,
        trace_outcome(grid_of(img)) == Outcome::Closed,
    ensures
        trace_path(grid_of(img)).len() >= 4,
        shift(
            trace_path(grid_of(img))[trace_path(grid_of(img)).len() - 1],
            walk(grid_of(img), trace_path(grid_of(img))[0], (trace_path(grid_of(img)).len() - 1) as nat).1,
        ) == trace_path(grid_of(img))[0],
{
    let g = grid_of(img);
    lemma_grid_of_wf(img);
    let s = start_of(g)->0;
    lemma_start_open(g);
    let n = trace_len(g);
    lemma_first_stop_bounds(g, s, 1, step_limit(g));
    assert(walk(g, s, n).0 == s);
    assert(n >= 1);
    lemma_walk_parity(g, s, n);
    assert(n % 2 == 0);
    lemma_open_is_inner(g, s);
    let d0 = walk(g, s, 0).1;
    let v1 = walk(g, s, 1).0;
    if n == 2 {
        assert(!stops_at(g, s, 1));
        lemma_open_is_inner(g, v1);
        lemma_heading_set(g, s, 1);
        let x = s.0 - 1;
        let y = s.1 - 1;
        assert(cell_at(g, s) == window(img, x, y));
        assert(cell_at(g, v1) == window(img, v1.0 - 1, v1.1 - 1));
        if d0 == Dir::Up || d0 == Dir::Left {
            assert(precedes(v1, s));
        } else if d0 == Dir::Right {
            lemma_no_reversal_right(
                img.sample(x, y),
                img.sample(x + 1, y),
                img.sample(x + 2, y),
                img.sample(x, y + 1),
                img.sample(x + 1, y + 1),
                img.sample(x + 2, y + 1),
            );
        } else {
            lemma_no_reversal_down(
                img.sample(x, y),
                img.sample(x, y + 1),
                img.sample(x, y + 2),
                img.sample(x + 1, y),
                img.sample(x + 1, y + 1),
                img.sample(x + 1, y + 2),
            );
        }
    }
    assert(trace_path(g)[0] == s);
}

/// `v` moved by (dx, dy).
pub open spec fn moved(v: (int, int), dx: int, dy: int) -> (int, int) {
    (v.0 + dx, v.1 + dy)
}

/// No ink on the image's top row or left column: the grid's empty outer ring
/// then agrees with the windows there.
pub open spec fn clear_of_top_left(img: Raster) -> bool {
    &&& forall|x: int| !#[trigger] img.ink(x, 0)
    &&& forall|y: int| !#[trigger] img.ink(0, y)
}

/// On such an image every cell, inside the grid or not, is the window one
/// pixel up and to the left.
proof fn lemma_cell_is_window(img: Raster, v: (int, int))
    requires
        img.wf(),
        clear_of_top_left(img),
    ensures
        cell_at(grid_of(img), v) == window(img, v.0 - 1, v.1 - 1),
{
    let g = grid_of(img);
    let (x, y) = (v.0 - 1, v.1 - 1);
    if !(1 <= v.1 <= img.height && 1 <= v.0 <= img.width) {
        assert(!img.ink(x + 1, 0));
        assert(!img.ink(0, y + 1));
        assert(!img.ink(x, 0));
        assert(!img.ink(0, y));
        if in_grid(g, v) {
            assert(g[v.1][v.0] == crate::grid::empty_pix());
        }
    } else {
        assert(in_grid(g, v));
    }
}

/// Cells of `b` are those of `a` moved by (dx, dy).
proof fn lemma_cells_moved(a: Raster, b: Raster, dx: int, dy: int, v: (int, int))
    requires
        a.wf(),
        b.wf(),
        clear_of_top_left(a),
        clear_of_top_left(b),
        forall|x: int, y: int| #[trigger] b.ink(x + dx, y + dy) == a.ink(x, y),
    ensures
        cell_at(grid_of(b), (v.0 + dx, v.1 + dy)) == cell_at(grid_of(a), v),
{
    lemma_cell_is_window(a, v);
    lemma_cell_is_window(b, (v.0 + dx, v.1 + dy));
    let (x, y) = (v.0 - 1, v.1 - 1);
    assert(b.ink(x + dx, y + dy) == a.ink(x, y));
    assert(b.ink((x + 1) + dx, y + dy) == a.ink(x + 1, y));
    assert(b.ink(x + dx, (y + 1) + dy) == a.ink(x, y + 1));
    assert(b.ink((x + 1) + dx, (y + 1) + dy) == a.ink(x + 1, y + 1));
}

proof fn lemma_walk_moved(a: Raster, b: Raster, dx: int, dy: int, s: (int, int), k: nat)
    requires
        a.wf(),
        b.wf(),
        clear_of_top_left(a),
        clear_of_top_left(b),
        forall|x: int, y: int| #[trigger] b.ink(x + dx, y + dy) == a.ink(x, y),
    ensures
        walk(grid_of(b), moved(s, dx, dy), k) == (
            moved(walk(grid_of(a), s, k).0, dx, dy),
            walk(grid_of(a), s, k).1,
        ),
    decreases k,
{
    let (ga, gb) = (grid_of(a), grid_of(b));
    if k == 0 {
        lemma_cells_moved(a, b, dx, dy, s);
    } else {
        lemma_walk_moved(a, b, dx, dy, s, (k - 1) as nat);
        let prev = walk(ga, s, (k - 1) as nat);
        lemma_cells_moved(a, b, dx, dy, shift(prev.0, prev.1));
    }
}

proof fn lemma_first_stop_moved(a: Raster, b: Raster, dx: int, dy: int, s: (int, int), k: nat, limit: nat)
    requires
        a.wf(),
        b.wf(),
        clear_of_top_left(a),
        clear_of_top_left(b),
        forall|x: int, y: int| #[trigger] b.ink(x + dx, y + dy) == a.ink(x, y),
    ensures
        first_stop_from(grid_of(b), (s.0 + dx, s.1 + dy), k, limit) == first_stop_from(grid_of(a), s, k, limit),
        stops_at(grid_of(b), (s.0 + dx, s.1 + dy), k) == stops_at(grid_of(a), s, k),
    decreases limit - k,
{
    lemma_walk_moved(a, b, dx, dy, s, k);
    lemma_cells_moved(a, b, dx, dy, walk(grid_of(a), s, k).0);
    if k < limit {
        lemma_first_stop_moved(a, b, dx, dy, s, k + 1, limit);
    }
}

/// Where `a` has its first non-uniform cell at `v`, `b` has it at `v` moved.
proof fn lemma_first_open_moved(a: Raster, b: Raster, dx: int, dy: int, v: (int, int))
    requires
        a.wf(),
        b.wf(),
        clear_of_top_left(a),
        clear_of_top_left(b),
        forall|x: int, y: int| #[trigger] b.ink(x + dx, y + dy) == a.ink(x, y),
        is_first_open(grid_of(a), v),
    ensures
        is_first_open(grid_of(b), (v.0 + dx, v.1 + dy)),
{
    lemma_cells_moved(a, b, dx, dy, v);
    assert forall|w: (int, int)| precedes(w, (v.0 + dx, v.1 + dy)) implies uniform(#[trigger] cell_at(grid_of(b), w)) by {
        let u = (w.0 - dx, w.1 - dy);
        lemma_cells_moved(a, b, dx, dy, u);
        assert(precedes(u, v));
        assert((u.0 + dx, u.1 + dy) == w);
    }
}

/// Translating the ink of an image by (dx, dy) on a canvas of the same size
/// translates every vertex of the traced path by (dx, dy) and keeps how the
/// trace ends, provided the ink touches the top row and the left column in
/// neither image.
pub proof fn law_translation(a: Raster, b: Raster, dx: int, dy: int)
    requires
        a.wf(),
        b.wf(),
        a.width == b.width,
        a.height == b.height,
        clear_of_top_left(a),
        clear_of_top_left(b),
        forall|x: int, y: int| #[trigger] b.ink(x + dx, y + dy) == a.ink(x, y),
    ensures
        trace_path(grid_of(b)).len() == trace_path(grid_of(a)).len(),
        forall|i: int|
            0 <= i < trace_path(grid_of(a)).len() ==> #[trigger] trace_path(grid_of(b))[i] == (
                trace_path(grid_of(a))[i].0 + dx,
                trace_path(grid_of(a))[i].1 + dy,
            ),
        trace_outcome(grid_of(b)) == trace_outcome(grid_of(a)),
{
    let (ga, gb) = (grid_of(a), grid_of(b));
    assert(ga[0].len() == gb[0].len());
    assert(step_limit(ga) == step_limit(gb));
    assert forall|x: int, y: int| #[trigger] a.ink(x + (-dx), y + (-dy)) == b.ink(x, y) by {
        assert(b.ink((x - dx) + dx, (y - dy) + dy) == a.ink(x - dx, y - dy));
    }
    match start_of(ga) {
        Some(sa) => {
            lemma_start_open(ga);
            lemma_first_open_moved(a, b, dx, dy, sa);
            let sb = (sa.0 + dx, sa.1 + dy);
            lemma_start_of(gb, sb);
            lemma_first_stop_moved(a, b, dx, dy, sa, 1, step_limit(ga));
            let n = trace_len(ga);
            lemma_first_stop_moved(a, b, dx, dy, sa, n, step_limit(ga));
            lemma_walk_moved(a, b, dx, dy, sa, n);
            assert forall|i: int| 0 <= i < trace_path(ga).len() implies #[trigger] trace_path(gb)[i] == (
                trace_path(ga)[i].0 + dx,
                trace_path(ga)[i].1 + dy,
            ) by {
                lemma_walk_moved(a, b, dx, dy, sa, i as nat);
            }
        },
        None => {
            if start_of(gb) is Some {
                lemma_start_open(gb);
                let sb = start_of(gb)->0;
                lemma_first_open_moved(b, a, -dx, -dy, sb);
                lemma_start_of(ga, (sb.0 - dx, sb.1 - dy));
            }
        },
    }
}

} // verus!
