//! Pictures of a grid and of a traced path, one pixel per cell.

use vstd::prelude::*;
use crate::cell::{Pix, Shape, Vertice, as_point, classify, shape_of};
use crate::grid::{CellGrid, cell_at, get_pix};
use crate::raster::{Color, Raster, black, is_black, is_white, white};
use crate::trace::points_of;

verus! {

/// A white picture the size of the grid with a black pixel at each vertex of
/// the path.
pub fn render_path(grid: &CellGrid, path: &Vec<Vertice>) -> (img: Raster)
    requires
        grid.wf(),
        grid.rows <= u32::MAX,
        grid.cols <= u32::MAX,
        forall|i: int| 0 <= i < path@.len() ==> (#[trigger] path@[i]).0 < grid.cols && path@[i].1 < grid.rows,
    ensures
        img.wf(),
        img.width == grid.cols,
        img.height == grid.rows,
        forall|x: int, y: int|
            img.in_bounds(x, y) ==> (if points_of(path@).contains((x, y)) {
                is_black(#[trigger] img.pixel(x, y))
            } else {
                is_white(img.pixel(x, y))
            }),
{
    let mut img = Raster::filled(grid.cols as u32, grid.rows as u32, white());
    let ink = black();
    let mut i: usize = 0;
    while i < path.len()
        invariant
            img.wf(),
            img.width == grid.cols,
            img.height == grid.rows,
            i <= path@.len(),
            is_black(ink),
            forall|j: int| 0 <= j < path@.len() ==> (#[trigger] path@[j]).0 < grid.cols && path@[j].1 < grid.rows,
            forall|x: int, y: int|
                img.in_bounds(x, y) ==> (if exists|j: int| 0 <= j < i && as_point(path@[j]) == (x, y) {
                    is_black(#[trigger] img.pixel(x, y))
                } else {
                    is_white(img.pixel(x, y))
                }),
        decreases path@.len() - i,
    {
        let p = path[i];
        assert(p == path@[i as int]);
        let ghost prev = img;
        img.set_pixel(p.0 as u32, p.1 as u32, ink);
        assert forall|x: int, y: int| img.in_bounds(x, y) implies (if exists|j: int|
            0 <= j < i + 1 && as_point(path@[j]) == (x, y) {
            is_black(#[trigger] img.pixel(x, y))
        } else {
            is_white(img.pixel(x, y))
        }) by {
            if x == p.0 && y == p.1 {
                assert(as_point(path@[i as int]) == (x, y));
            } else {
                assert(prev.in_bounds(x, y));
                if exists|j: int| 0 <= j < i + 1 && as_point(path@[j]) == (x, y) {
                    let j = choose|j: int| 0 <= j < i + 1 && as_point(path@[j]) == (x, y);
                    assert(j < i);
                }
            }
        }
        i = i + 1;
    }
    assert forall|x: int, y: int| img.in_bounds(x, y) implies (if points_of(path@).contains((x, y)) {
        is_black(#[trigger] img.pixel(x, y))
    } else {
        is_white(img.pixel(x, y))
    }) by {
        if points_of(path@).contains((x, y)) {
            let j = choose|j: int| 0 <= j < points_of(path@).len() && points_of(path@)[j] == (x, y);
            assert(as_point(path@[j]) == (x, y));
        } else {
            if exists|j: int| 0 <= j < path@.len() && as_point(path@[j]) == (x, y) {
                let j = choose|j: int| 0 <= j < path@.len() && as_point(path@[j]) == (x, y);
                assert(points_of(path@)[j] == (x, y));
            }
        }
    }
    img
}

/// A picture the size of the grid: white where the cell is empty, black elsewhere.
pub fn render_grid(grid: &CellGrid) -> (img: Raster)
    requires
        grid.wf(),
        grid.rows <= u32::MAX,
        grid.cols <= u32::MAX,
    ensures
        img.wf(),
        img.width == grid.cols,
        img.height == grid.rows,
        forall|x: int, y: int|
            img.in_bounds(x, y) ==> (if shape_of(cell_at(grid@, (x, y))) == Shape::Empty {
                is_white(#[trigger] img.pixel(x, y))
            } else {
                is_black(img.pixel(x, y))
            }),
{
    let ghost g = grid@;
    let mut rows: Vec<Vec<Color>> = Vec::new();
    let mut y: usize = 0;
    while y < grid.rows
        invariant
            grid.wf(),
            g == grid@,
            y <= grid.rows,
            rows@.len() == y,
            forall|j: int| 0 <= j < y ==> (#[trigger] rows@[j])@.len() == grid.cols,
            forall|j: int, x: int|
                0 <= j < y && 0 <= x < grid.cols ==> (if shape_of(cell_at(g, (x, j))) == Shape::Empty {
                    is_white(#[trigger] rows@[j]@[x])
                } else {
                    is_black(rows@[j]@[x])
                }),
        decreases grid.rows - y,
    {
        let mut row: Vec<Color> = Vec::new();
        let mut x: usize = 0;
        assert(g[y as int].len() == g[0].len());
        while x < grid.cols
            invariant
                grid.wf(),
                g == grid@,
                y < grid.rows,
                x <= grid.cols,
                g[y as int].len() == grid.cols,
                row@.len() == x,
                forall|i: int|
                    0 <= i < x ==> (if shape_of(cell_at(g, (i, y as int))) == Shape::Empty {
                        is_white(#[trigger] row@[i])
                    } else {
                        is_black(row@[i])
                    }),
            decreases grid.cols - x,
        {
            let pix: Pix = get_pix(grid, &(x, y)).unwrap();
            let c = if classify(&pix) == Shape::Empty {
                white()
            } else {
                black()
            };
            row.push(c);
            x = x + 1;
        }
        rows.push(row);
        y = y + 1;
    }
    Raster { width: grid.cols as u32, height: grid.rows as u32, rows }
}

} // verus!
