//! The padded grid of 2x2 cells, held in an `array2d::Array2D`.

use vstd::prelude::*;
use array2d::Array2D;
use crate::cell::{Pix, Shape, shape_of};
use crate::raster::{Raster, get_bw};

verus! {

#[verifier::external_type_specification]
#[verifier::external_body]
#[verifier::reject_recursive_types(T)]
pub struct ExArray2D<T>(Array2D<T>);

#[verifier::external_type_specification]
#[verifier::external_body]
pub struct ExArray2DError(array2d::Error);

/// What an `Array2D` of cells holds, as its rows from the top.
pub uninterp spec fn array_rows(a: Array2D<Pix>) -> Seq<Seq<Pix>>;

/// Whether (row, column) lies within the rows `t`.
pub open spec fn has_index(t: Seq<Seq<Pix>>, row: int, column: int) -> bool {
    0 <= row < t.len() && 0 <= column < t[row].len()
}

/// Relies on `Array2D::filled_with`: `num_rows` rows of `num_columns` copies of
/// `element`. It computes `num_rows * num_columns` and allocates that many cells.
#[verifier::external_body]
fn array_filled(element: Pix, num_rows: usize, num_columns: usize) -> (a: Array2D<Pix>)
    requires
        num_rows * num_columns * 4 <= isize::MAX,
    ensures
        array_rows(a) == Seq::new(
            num_rows as nat,
            |r: int| Seq::new(num_columns as nat, |c: int| element),
        ),
{
    Array2D::filled_with(element, num_rows, num_columns)
}

/// Relies on `Array2D::get`: the element at (row, column) when both are in
/// bounds, else `None`.
#[verifier::external_body]
fn array_get(a: &Array2D<Pix>, row: usize, column: usize) -> (r: Option<Pix>)
    ensures
        r == (if has_index(array_rows(*a), row as int, column as int) {
            Some(array_rows(*a)[row as int][column as int])
        } else {
            None
        }),
{
    a.get(row, column).copied()
}

/// Relies on `Array2D::set`: where (row, column) is in bounds the element there
/// is replaced and `Ok` returned; elsewhere nothing changes and `Err` is returned.
#[verifier::external_body]
fn array_set(a: &mut Array2D<Pix>, row: usize, column: usize, element: Pix) -> (r: Result<
    (),
    array2d::Error,
>)
    ensures
        has_index(array_rows(*old(a)), row as int, column as int) ==> r is Ok && array_rows(
            *final(a),
        ) == array_rows(*old(a)).update(
            row as int,
            array_rows(*old(a))[row as int].update(column as int, element),
        ),
        !has_index(array_rows(*old(a)), row as int, column as int) ==> r is Err && array_rows(
            *final(a),
        ) == array_rows(*old(a)),
{
    a.set(row, column, element)
}

/// The all-background window.
pub open spec fn empty_pix() -> Pix {
    (0, 0, 0, 0)
}

/// Whether (col, row) lies in a grid of rows `g`.
pub open spec fn in_grid(g: Seq<Seq<Pix>>, v: (int, int)) -> bool {
    0 <= v.1 < g.len() && 0 <= v.0 < g[v.1].len()
}

/// The cell at (col, row); outside the grid the empty window.
pub open spec fn cell_at(g: Seq<Seq<Pix>>, v: (int, int)) -> Pix {
    if in_grid(g, v) {
        g[v.1][v.0]
    } else {
        empty_pix()
    }
}

/// A rectangular grid of at least 2x2 cells whose outer ring is empty, small
/// enough that four times its number of cells fits in a `usize`.
pub open spec fn grid_wf(g: Seq<Seq<Pix>>) -> bool {
    &&& g.len() >= 2
    &&& g[0].len() >= 2
    &&& forall|r: int| 0 <= r < g.len() ==> (#[trigger] g[r]).len() == g[0].len()
    &&& g.len() * g[0].len() * 4 <= isize::MAX
    &&& forall|c: int, r: int|
        0 <= r < g.len() && 0 <= c < g[0].len() && (r == 0 || c == 0 || r == g.len() - 1 || c
            == g[0].len() - 1) ==> shape_of(#[trigger] g[r][c]) == Shape::Empty
}

/// The window whose top left sample is (x, y).
pub open spec fn window(img: Raster, x: int, y: int) -> Pix {
    (img.sample(x, y), img.sample(x + 1, y), img.sample(x, y + 1), img.sample(x + 1, y + 1))
}

/// The cell grid of an image: (height + 2) rows of (width + 2) cells; the cell
/// at row y + 1 and column x + 1 is the window at pixel (x, y), and every other
/// cell is empty.
pub open spec fn grid_of(img: Raster) -> Seq<Seq<Pix>> {
    Seq::new(
        (img.height + 2) as nat,
        |r: int|
            Seq::new(
                (img.width + 2) as nat,
                |c: int|
                    if 1 <= r <= img.height && 1 <= c <= img.width {
                        window(img, c - 1, r - 1)
                    } else {
                        empty_pix()
                    },
            ),
    )
}

/// The cell grid of an image that is small enough is well formed.
pub proof fn lemma_grid_of_wf(img: Raster)
    requires
        img.wf(),
        (img.height + 2) * (img.width + 2) * 4 <= isize::MAX,
    ensures
        grid_wf(grid_of(img)),
        grid_of(img).len() == img.height + 2,
        grid_of(img)[0].len() == img.width + 2,
{
    let g = grid_of(img);
    assert(g[0].len() == img.width + 2);
    assert forall|r: int| 0 <= r < g.len() implies (#[trigger] g[r]).len() == g[0].len() by {}
}

/// The cells of an image, with the number of rows and columns they span.
pub struct CellGrid {
    pub cells: Array2D<Pix>,
    pub rows: usize,
    pub cols: usize,
}

impl View for CellGrid {
    type V = Seq<Seq<Pix>>;

    open spec fn view(&self) -> Seq<Seq<Pix>> {
        array_rows(self.cells)
    }
}

impl CellGrid {
    pub open spec fn wf(&self) -> bool {
        &&& grid_wf(self@)
        &&& self@.len() == self.rows
        &&& self@[0].len() == self.cols
    }
}

/// The cell at `point` = (col, row), or `None` outside the grid.
pub fn get_pix(grid: &CellGrid, point: &(usize, usize)) -> (r: Option<Pix>)
    requires
        grid.wf(),
    ensures
        r == (if in_grid(grid@, (point.0 as int, point.1 as int)) {
            Some(cell_at(grid@, (point.0 as int, point.1 as int)))
        } else {
            None
        }),
{
    array_get(&grid.cells, point.1, point.0)
}

/// Builds the padded cell grid of an image.
pub fn create_grid(img: &Raster) -> (grid: CellGrid)
    requires
        img.wf(),
        (img.height + 2) * (img.width + 2) * 4 <= isize::MAX,
    ensures
        grid.wf(),
        grid@ == grid_of(*img),
        grid.rows == img.height + 2,
        grid.cols == img.width + 2,
{
    proof {
        let h = img.height as int;
        let w = img.width as int;
        assert(h + 2 <= isize::MAX && w + 2 <= isize::MAX) by (nonlinear_arith)
            requires
                (h + 2) * (w + 2) * 4 <= isize::MAX,
                h >= 0,
                w >= 0,
        ;
    }
    let width = img.width as usize;
    let height = img.height as usize;
    let rows = height + 2;
    let cols = width + 2;
    let mut cells = array_filled((0, 0, 0, 0), rows, cols);
    let ghost g = grid_of(*img);
    let mut y: u32 = 0;
    while y < img.height
        invariant
            img.wf(),
            rows == img.height + 2,
            cols == img.width + 2,
            y <= img.height,
            g == grid_of(*img),
            array_rows(cells).len() == rows,
            forall|r: int| 0 <= r < rows ==> (#[trigger] array_rows(cells)[r]).len() == cols,
            forall|r: int, c: int|
                0 <= r < rows && 0 <= c < cols ==> (#[trigger] array_rows(cells)[r][c]) == (if r <= y {
                    g[r][c]
                } else {
                    empty_pix()
                }),
        decreases img.height - y,
    {
        let mut x: u32 = 0;
        while x < img.width
            invariant
                img.wf(),
                rows == img.height + 2,
                cols == img.width + 2,
                y < img.height,
                x <= img.width,
                g == grid_of(*img),
                array_rows(cells).len() == rows,
                forall|r: int| 0 <= r < rows ==> (#[trigger] array_rows(cells)[r]).len() == cols,
                forall|r: int, c: int|
                    0 <= r < rows && 0 <= c < cols ==> (#[trigger] array_rows(cells)[r][c]) == (if r
                        <= y || (r == y + 1 && c <= x) {
                        g[r][c]
                    } else {
                        empty_pix()
                    }),
            decreases img.width - x,
        {
            let pix: Pix = (
                get_bw(img, x, y),
                get_bw(img, x + 1, y),
                get_bw(img, x, y + 1),
                get_bw(img, x + 1, y + 1),
            );
            let res = array_set(&mut cells, (y + 1) as usize, (x + 1) as usize, pix);
            x = x + 1;
        }
        y = y + 1;
    }
    let grid = CellGrid { cells, rows, cols };
    assert(grid@ =~~= g);
    grid
}

} // verus!
