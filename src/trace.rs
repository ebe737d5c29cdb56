//! Start discovery and the boundary walk.

use vstd::prelude::*;
use crate::cell::{
    Dir, Pix, Vertice, as_point, get_next_direction, get_next_point, is_uniform, next_heading,
    shape_of, shift, start_direction, start_heading, uniform,
};
use crate::grid::{CellGrid, cell_at, get_pix, grid_wf, in_grid};

verus! {

/// Row-major order on (col, row) positions.
pub open spec fn precedes(a: (int, int), b: (int, int)) -> bool {
    a.1 < b.1 || (a.1 == b.1 && a.0 < b.0)
}

/// `v` is the first non-uniform cell of `g` in row-major order.
pub open spec fn is_first_open(g: Seq<Seq<Pix>>, v: (int, int)) -> bool {
    &&& !uniform(cell_at(g, v))
    &&& forall|w: (int, int)| precedes(w, v) ==> uniform(#[trigger] cell_at(g, w))
}

/// Where the walk starts: the first non-uniform cell, if there is one.
pub open spec fn start_of(g: Seq<Seq<Pix>>) -> Option<(int, int)> {
    if exists|v: (int, int)| is_first_open(g, v) {
        Some(choose|v: (int, int)| is_first_open(g, v))
    } else {
        None
    }
}

/// The walker's position and heading after `k` steps from `s`.
pub open spec fn walk(g: Seq<Seq<Pix>>, s: (int, int), k: nat) -> ((int, int), Dir)
    decreases k,
{
    if k == 0 {
        (s, start_heading(shape_of(cell_at(g, s))))
    } else {
        let prev = walk(g, s, (k - 1) as nat);
        let v = shift(prev.0, prev.1);
        (v, next_heading(prev.1, cell_at(g, v)))
    }
}

/// The walk ends at step `k`: it is back at the start or on a uniform cell.
pub open spec fn stops_at(g: Seq<Seq<Pix>>, s: (int, int), k: nat) -> bool {
    let v = walk(g, s, k).0;
    v == s || uniform(cell_at(g, v))
}

/// The first step from `k` on where the walk ends, or `limit` if none comes before.
pub open spec fn first_stop_from(g: Seq<Seq<Pix>>, s: (int, int), k: nat, limit: nat) -> nat
    decreases limit - k,
{
    if k >= limit || stops_at(g, s, k) {
        k
    } else {
        first_stop_from(g, s, k + 1, limit)
    }
}

/// How many steps the walk may take: four per cell, one per (cell, heading)
/// state. A walk that has not ended by then has repeated a state, and so would
/// never end.
pub open spec fn step_limit(g: Seq<Seq<Pix>>) -> nat {
    (g.len() * g[0].len() * 4) as nat
}

/// The number of vertices of the traced path.
pub open spec fn trace_len(g: Seq<Seq<Pix>>) -> nat {
    match start_of(g) {
        Some(s) => first_stop_from(g, s, 1, step_limit(g)),
        None => 0,
    }
}

/// The traced path: the walker's positions before it ends.
pub open spec fn trace_path(g: Seq<Seq<Pix>>) -> Seq<(int, int)> {
    match start_of(g) {
        Some(s) => Seq::new(trace_len(g), |k: int| walk(g, s, k as nat).0),
        None => Seq::empty(),
    }
}

/// How a trace ended.
#[derive(Clone, Copy, PartialEq, Eq, Structural, Debug)]
pub enum Outcome {
    /// No cell lies on a contour; the path is empty.
    NoContour,
    /// The walk came back to its start.
    Closed,
    /// The walk stepped onto a uniform cell; the path holds what came before.
    Open,
    /// The walk reached the step limit without ending.
    Unfinished,
}

pub open spec fn trace_outcome(g: Seq<Seq<Pix>>) -> Outcome {
    match start_of(g) {
        None => Outcome::NoContour,
        Some(s) => {
            let n = trace_len(g);
            if !stops_at(g, s, n) {
                Outcome::Unfinished
            } else if walk(g, s, n).0 == s {
                Outcome::Closed
            } else {
                Outcome::Open
            }
        },
    }
}

/// The traced path and how the walk ended.
pub struct Trace {
    pub path: Vec<Vertice>,
    pub outcome: Outcome,
}

pub open spec fn points_of(p: Seq<Vertice>) -> Seq<(int, int)> {
    Seq::new(p.len(), |i: int| as_point(p[i]))
}

/// Two first non-uniform cells are the same cell.
pub proof fn lemma_first_open_unique(g: Seq<Seq<Pix>>, v: (int, int), w: (int, int))
    requires
        is_first_open(g, v),
        is_first_open(g, w),
    ensures
        v == w,
{
    if precedes(w, v) {
        assert(uniform(cell_at(g, w)));
    } else if precedes(v, w) {
        assert(uniform(cell_at(g, v)));
    }
}

pub proof fn lemma_start_of(g: Seq<Seq<Pix>>, v: (int, int))
    requires
        is_first_open(g, v),
    ensures
        start_of(g) == Some(v),
{
    let c = choose|w: (int, int)| is_first_open(g, w);
    lemma_first_open_unique(g, v, c);
}

/// A non-uniform cell of a well-formed grid lies off its outer ring.
pub proof fn lemma_open_is_inner(g: Seq<Seq<Pix>>, v: (int, int))
    requires
        grid_wf(g),
        !uniform(cell_at(g, v)),
    ensures
        1 <= v.0 < g[0].len() - 1,
        1 <= v.1 < g.len() - 1,
        in_grid(g, v),
{
    if in_grid(g, v) {
        assert(g[v.1].len() == g[0].len());
        if v.1 == 0 || v.0 == 0 || v.1 == g.len() - 1 || v.0 == g[0].len() - 1 {
            assert(shape_of(g[v.1][v.0]) == crate::cell::Shape::Empty);
        }
    }
}

/// The first non-uniform cell of the grid in row-major order, if any.
pub fn get_start(grid: &CellGrid) -> (r: Option<Vertice>)
    requires
        grid.wf(),
    ensures
        match r {
            Some(v) => start_of(grid@) == Some(as_point(v)),
            None => start_of(grid@) is None,
        },
{
    let ghost g = grid@;
    let mut y: usize = 0;
    while y < grid.rows
        invariant
            grid.wf(),
            g == grid@,
            y <= grid.rows,
            forall|w: (int, int)| w.1 < y ==> uniform(#[trigger] cell_at(g, w)),
        decreases grid.rows - y,
    {
        let mut x: usize = 0;
        while x < grid.cols
            invariant
                grid.wf(),
                g == grid@,
                y < grid.rows,
                x <= grid.cols,
                forall|w: (int, int)| precedes(w, (x as int, y as int)) ==> uniform(#[trigger] cell_at(g, w)),
            decreases grid.cols - x,
        {
            let pix = get_pix(grid, &(x, y));
            assert(g[y as int].len() == g[0].len());
            let p = pix.unwrap();
            if !is_uniform(&p) {
                proof {
                    lemma_start_of(g, (x as int, y as int));
                }
                return Some((x, y));
            }
            x = x + 1;
        }
        assert forall|w: (int, int)| w.1 < y + 1 implies uniform(#[trigger] cell_at(g, w)) by {
            if w.1 == y && w.0 >= grid.cols {
                assert(!in_grid(g, w));
            }
            if w.1 == y && w.0 < 0 {
                assert(!in_grid(g, w));
            }
        }
        y = y + 1;
    }
    assert forall|v: (int, int)| !is_first_open(g, v) by {
        if v.1 >= grid.rows || v.1 < 0 {
            assert(!in_grid(g, v));
        }
    }
    None
}

/// Skipping steps on which the walk does not end leaves its first end unchanged.
pub proof fn lemma_first_stop_skip(g: Seq<Seq<Pix>>, s: (int, int), i: nat, j: nat, limit: nat)
    requires
        i <= j <= limit,
        forall|m: nat| i <= m < j ==> !#[trigger] stops_at(g, s, m),
    ensures
        first_stop_from(g, s, i, limit) == first_stop_from(g, s, j, limit),
    decreases j - i,
{
    if i < j {
        assert(!stops_at(g, s, i));
        lemma_first_stop_skip(g, s, i + 1, j, limit);
    }
}

/// The first end from `k` on comes no earlier than `k`, no later than `limit`
/// (when `k <= limit`), and every step before it does not end the walk.
pub proof fn lemma_first_stop_bounds(g: Seq<Seq<Pix>>, s: (int, int), k: nat, limit: nat)
    ensures
        first_stop_from(g, s, k, limit) >= k,
        k <= limit ==> first_stop_from(g, s, k, limit) <= limit,
        forall|m: nat|
            k <= m < first_stop_from(g, s, k, limit) ==> !#[trigger] stops_at(g, s, m),
        first_stop_from(g, s, k, limit) < limit ==> stops_at(g, s, first_stop_from(g, s, k, limit)),
    decreases limit - k,
{
    if !(k >= limit || stops_at(g, s, k)) {
        lemma_first_stop_bounds(g, s, k + 1, limit);
    }
}

/// Traces the contour that starts at the first non-uniform cell.
///
/// The path holds the walker's positions in order, without the closing return
/// to the start. It is empty when no cell lies on a contour, and ends before
/// the first uniform cell that the walk steps onto.
pub fn create_path(grid: &CellGrid) -> (r: Trace)
    requires
        grid.wf(),
    ensures
        points_of(r.path@) == trace_path(grid@),
        r.outcome == trace_outcome(grid@),
{
    let ghost g = grid@;
    let first = match get_start(grid) {
        None => {
            let path: Vec<Vertice> = Vec::new();
            proof {
                assert(points_of(path@) =~= trace_path(g));
            }
            return Trace { path, outcome: Outcome::NoContour };
        },
        Some(v) => v,
    };
    let ghost s = as_point(first);
    let ghost limit = step_limit(g);
    proof {
        lemma_open_is_inner(g, s);
        assert(g[s.1].len() == g[0].len());
    }
    let mut point = first;
    let pix = get_pix(grid, &point).unwrap();
    let mut dir = start_direction(&pix);
    let mut path: Vec<Vertice> = Vec::new();
    path.push(point);
    let max_steps = grid.rows * grid.cols * 4;
    let mut k: usize = 0;
    let mut outcome = Outcome::Unfinished;
    proof {
        let (rr, cc) = (grid.rows as int, grid.cols as int);
        assert(rr * cc * 4 > 0) by (nonlinear_arith)
            requires
                rr >= 2,
                cc >= 2,
        ;
        assert(points_of(path@) =~= Seq::new((k + 1) as nat, |i: int| walk(g, s, i as nat).0));
    }
    loop
        invariant_except_break
            k < max_steps,
            (as_point(point), dir) == walk(g, s, k as nat),
            !uniform(cell_at(g, as_point(point))),
            forall|m: nat| 1 <= m <= k ==> !#[trigger] stops_at(g, s, m),
            path@.len() == k + 1,
            points_of(path@) == Seq::new((k + 1) as nat, |i: int| walk(g, s, i as nat).0),
        invariant
            grid.wf(),
            g == grid@,
            start_of(g) == Some(s),
            s == as_point(first),
            max_steps == limit,
            limit == step_limit(g),
        ensures
            points_of(path@) == Seq::new(
                first_stop_from(g, s, 1, limit),
                |i: int| walk(g, s, i as nat).0,
            ),
            outcome == trace_outcome(g),
        decreases max_steps - k,
    {
        proof {
            lemma_open_is_inner(g, as_point(point));
        }
        let next = get_next_point(&point, &dir).unwrap();
        let ghost nv = as_point(next);
        assert(nv == walk(g, s, (k + 1) as nat).0);
        proof {
            assert(g[nv.1].len() == g[0].len());
        }
        if next.0 == first.0 && next.1 == first.1 {
            proof {
                lemma_first_stop_skip(g, s, 1, (k + 1) as nat, limit);
            }
            outcome = Outcome::Closed;
            break;
        }
        let npix = get_pix(grid, &next).unwrap();
        if is_uniform(&npix) {
            proof {
                lemma_first_stop_skip(g, s, 1, (k + 1) as nat, limit);
            }
            outcome = Outcome::Open;
            break;
        }
        if k + 1 == max_steps {
            proof {
                lemma_first_stop_skip(g, s, 1, (k + 1) as nat, limit);
            }
            outcome = Outcome::Unfinished;
            break;
        }
        let ghost before = path@;
        path.push(next);
        dir = get_next_direction(&dir, &npix);
        point = next;
        k = k + 1;
        proof {
            assert(path@ == before.push(next));
            assert forall|i: int| 0 <= i < k + 1 implies #[trigger] points_of(path@)[i] == walk(
                g,
                s,
                i as nat,
            ).0 by {
                if i < k {
                    assert(points_of(before)[i] == walk(g, s, i as nat).0);
                    assert(path@[i] == before[i]);
                } else {
                    assert(path@[i] == next);
                }
            }
            assert(points_of(path@) =~= Seq::new((k + 1) as nat, |i: int| walk(g, s, i as nat).0));
        }
    }
    proof {
        assert(points_of(path@) =~= trace_path(g));
    }
    Trace { path, outcome }
}

} // verus!
