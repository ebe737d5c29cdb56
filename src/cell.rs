//! Cell patterns, walking directions and the transition rules of the walker.

use vstd::prelude::*;

verus! {

/// A 2x2 window of samples, in the order (top left, top right, bottom left,
/// bottom right). A sample is ink where it is not zero.
pub type Pix = (u8, u8, u8, u8);

/// A position in the padded cell grid, as (column, row).
pub type Vertice = (usize, usize);

/// The sixteen shapes that a 2x2 window can take.
#[derive(Clone, Copy, PartialEq, Eq, Structural, Debug)]
pub enum Shape {
    /// No sample is ink.
    Empty,
    /// Every sample is ink.
    Full,
    /// Top row ink.
    EdgeTop,
    /// Bottom row ink.
    EdgeBottom,
    /// Left column ink.
    EdgeLeft,
    /// Right column ink.
    EdgeRight,
    /// All but the bottom right sample.
    CornerRightBottom,
    /// All but the bottom left sample.
    CornerLeftBottom,
    /// All but the top left sample.
    CornerLeftTop,
    /// All but the top right sample.
    CornerRightTop,
    /// Only the top left sample.
    IsolatedLeftTop,
    /// Only the top right sample.
    IsolatedRightTop,
    /// Only the bottom right sample.
    IsolatedRightBottom,
    /// Only the bottom left sample.
    IsolatedLeftBottom,
    /// Top right and bottom left.
    DiagonalLeft,
    /// Top left and bottom right.
    DiagonalRight,
}

/// A walking direction; `Unset` is the sentinel before the first step.
#[derive(Clone, Copy, PartialEq, Eq, Structural, Debug)]
pub enum Dir {
    Unset,
    Up,
    Down,
    Left,
    Right,
}

pub open spec fn shape_of_bits(tl: bool, tr: bool, bl: bool, br: bool) -> Shape {
    if !tl && !tr && !bl && !br {
        Shape::Empty
    } else if tl && tr && bl && br {
        Shape::Full
    } else if tl && tr && !bl && !br {
        Shape::EdgeTop
    } else if !tl && !tr && bl && br {
        Shape::EdgeBottom
    } else if tl && !tr && bl && !br {
        Shape::EdgeLeft
    } else if !tl && tr && !bl && br {
        Shape::EdgeRight
    } else if tl && tr && bl && !br {
        Shape::CornerRightBottom
    } else if tl && tr && !bl && br {
        Shape::CornerLeftBottom
    } else if !tl && tr && bl && br {
        Shape::CornerLeftTop
    } else if tl && !tr && bl && br {
        Shape::CornerRightTop
    } else if tl && !tr && !bl && !br {
        Shape::IsolatedLeftTop
    } else if !tl && tr && !bl && !br {
        Shape::IsolatedRightTop
    } else if !tl && !tr && !bl && br {
        Shape::IsolatedRightBottom
    } else if !tl && !tr && bl && !br {
        Shape::IsolatedLeftBottom
    } else if !tl && tr && bl && !br {
        Shape::DiagonalLeft
    } else {
        Shape::DiagonalRight
    }
}

/// The shape of a window.
pub open spec fn shape_of(p: Pix) -> Shape {
    shape_of_bits(p.0 != 0, p.1 != 0, p.2 != 0, p.3 != 0)
}

/// A uniform window lies strictly inside background or ink.
pub open spec fn uniform(p: Pix) -> bool {
    shape_of(p) == Shape::Empty || shape_of(p) == Shape::Full
}

/// Classifies a window by its four samples.
pub fn classify(p: &Pix) -> (r: Shape)
    ensures
        r == shape_of(*p),
{
    let mask: u8 = (if p.0 != 0 { 1u8 } else { 0u8 }) + (if p.1 != 0 { 2u8 } else { 0u8 }) + (
    if p.2 != 0 {
        4u8
    } else {
        0u8
    }) + (if p.3 != 0 { 8u8 } else { 0u8 });
    match mask {
        0 => Shape::Empty,
        1 => Shape::IsolatedLeftTop,
        2 => Shape::IsolatedRightTop,
        3 => Shape::EdgeTop,
        4 => Shape::IsolatedLeftBottom,
        5 => Shape::EdgeLeft,
        6 => Shape::DiagonalLeft,
        7 => Shape::CornerRightBottom,
        8 => Shape::IsolatedRightBottom,
        9 => Shape::DiagonalRight,
        10 => Shape::EdgeRight,
        11 => Shape::CornerLeftBottom,
        12 => Shape::EdgeBottom,
        13 => Shape::CornerRightTop,
        14 => Shape::CornerLeftTop,
        _ => Shape::Full,
    }
}

/// Whether a window is uniform.
pub fn is_uniform(p: &Pix) -> (r: bool)
    ensures
        r == uniform(*p),
{
    let s = classify(p);
    s == Shape::Empty || s == Shape::Full
}

/// Turns the window a quarter turn counter-clockwise.
pub fn rot_left(pix: &Pix) -> (r: Pix)
    ensures
        r == (pix.1, pix.3, pix.0, pix.2),
{
    (pix.1, pix.3, pix.0, pix.2)
}

/// Turns the window a quarter turn clockwise.
pub fn rot_right(pix: &Pix) -> (r: Pix)
    ensures
        r == (pix.2, pix.0, pix.3, pix.1),
{
    (pix.2, pix.0, pix.3, pix.1)
}

/// The window as a walker heading in `d` sees it, with its heading turned to up.
pub open spec fn rotated(p: Pix, d: Dir) -> Pix {
    match d {
        Dir::Unset | Dir::Up => p,
        Dir::Left => (p.2, p.0, p.3, p.1),
        Dir::Right => (p.1, p.3, p.0, p.2),
        Dir::Down => (p.3, p.2, p.1, p.0),
    }
}

/// Rotates a window into the frame of a walker heading in `dir`.
pub fn rot(pix: &Pix, dir: &Dir) -> (r: Pix)
    ensures
        r == rotated(*pix, *dir),
{
    match dir {
        Dir::Unset => *pix,
        Dir::Up => *pix,
        Dir::Left => rot_right(pix),
        Dir::Right => rot_left(pix),
        Dir::Down => rot_left(&rot_left(pix)),
    }
}

pub open spec fn left_of(d: Dir) -> Dir {
    match d {
        Dir::Unset => Dir::Left,
        Dir::Up => Dir::Left,
        Dir::Left => Dir::Down,
        Dir::Down => Dir::Right,
        Dir::Right => Dir::Up,
    }
}

pub open spec fn right_of(d: Dir) -> Dir {
    match d {
        Dir::Unset => Dir::Right,
        Dir::Up => Dir::Right,
        Dir::Right => Dir::Down,
        Dir::Down => Dir::Left,
        Dir::Left => Dir::Up,
    }
}

/// The direction a quarter turn to the left.
pub fn turn_left(dir: &Dir) -> (r: Dir)
    ensures
        r == left_of(*dir),
{
    match dir {
        Dir::Unset => Dir::Left,
        Dir::Down => Dir::Right,
        Dir::Left => Dir::Down,
        Dir::Right => Dir::Up,
        Dir::Up => Dir::Left,
    }
}

/// The direction a quarter turn to the right.
pub fn turn_right(dir: &Dir) -> (r: Dir)
    ensures
        r == right_of(*dir),
{
    match dir {
        Dir::Unset => Dir::Right,
        Dir::Down => Dir::Left,
        Dir::Left => Dir::Up,
        Dir::Right => Dir::Down,
        Dir::Up => Dir::Right,
    }
}

/// The heading that the walk starts with from a start cell of shape `s`.
pub open spec fn start_heading(s: Shape) -> Dir {
    match s {
        Shape::EdgeTop => Dir::Right,
        Shape::EdgeBottom => Dir::Left,
        Shape::EdgeRight => Dir::Down,
        Shape::EdgeLeft => Dir::Up,
        Shape::CornerRightBottom => Dir::Right,
        Shape::CornerLeftBottom => Dir::Down,
        Shape::CornerLeftTop => Dir::Left,
        Shape::CornerRightTop => Dir::Up,
        Shape::IsolatedLeftTop => Dir::Up,
        Shape::IsolatedRightTop => Dir::Right,
        Shape::IsolatedRightBottom => Dir::Down,
        Shape::IsolatedLeftBottom => Dir::Left,
        Shape::DiagonalLeft => Dir::Left,
        Shape::DiagonalRight => Dir::Up,
        Shape::Empty | Shape::Full => Dir::Unset,
    }
}

/// The heading after entering a cell `p` while heading in `d`: the cell is
/// seen rotated into the walker's frame, and its shape there picks a relative
/// turn, an absolute direction, or no change.
pub open spec fn next_heading(d: Dir, p: Pix) -> Dir {
    match shape_of(rotated(p, d)) {
        Shape::CornerRightBottom => right_of(d),
        Shape::IsolatedLeftBottom => left_of(d),
        Shape::CornerLeftBottom => Dir::Down,
        Shape::CornerLeftTop => Dir::Left,
        Shape::CornerRightTop => Dir::Up,
        Shape::IsolatedLeftTop => Dir::Up,
        Shape::IsolatedRightTop => Dir::Right,
        Shape::IsolatedRightBottom => Dir::Down,
        Shape::DiagonalLeft => left_of(d),
        Shape::DiagonalRight => right_of(d),
        _ => d,
    }
}

/// The heading that the walk starts with from a non-uniform start cell.
pub fn start_direction(pix: &Pix) -> (r: Dir)
    requires
        !uniform(*pix),
    ensures
        r == start_heading(shape_of(*pix)),
        r != Dir::Unset,
{
    match classify(pix) {
        Shape::EdgeTop => Dir::Right,
        Shape::EdgeBottom => Dir::Left,
        Shape::EdgeRight => Dir::Down,
        Shape::EdgeLeft => Dir::Up,
        Shape::CornerRightBottom => Dir::Right,
        Shape::CornerLeftBottom => Dir::Down,
        Shape::CornerLeftTop => Dir::Left,
        Shape::CornerRightTop => Dir::Up,
        Shape::IsolatedLeftTop => Dir::Up,
        Shape::IsolatedRightTop => Dir::Right,
        Shape::IsolatedRightBottom => Dir::Down,
        Shape::IsolatedLeftBottom => Dir::Left,
        Shape::DiagonalLeft => Dir::Left,
        Shape::DiagonalRight => Dir::Up,
        Shape::Empty => Dir::Unset,
        Shape::Full => Dir::Unset,
    }
}

/// The heading after entering the cell `pix` while heading in `dir`.
pub fn get_next_direction(dir: &Dir, pix: &Pix) -> (r: Dir)
    ensures
        r == next_heading(*dir, *pix),
{
    let rpix = rot(pix, dir);
    match classify(&rpix) {
        Shape::CornerRightBottom => turn_right(dir),
        Shape::IsolatedLeftBottom => turn_left(dir),
        Shape::CornerLeftBottom => Dir::Down,
        Shape::CornerLeftTop => Dir::Left,
        Shape::CornerRightTop => Dir::Up,
        Shape::IsolatedLeftTop => Dir::Up,
        Shape::IsolatedRightTop => Dir::Right,
        Shape::IsolatedRightBottom => Dir::Down,
        Shape::DiagonalLeft => turn_left(dir),
        Shape::DiagonalRight => turn_right(dir),
        _ => *dir,
    }
}

pub open spec fn delta_x(d: Dir) -> int {
    match d {
        Dir::Left => -1,
        Dir::Right => 1,
        _ => 0,
    }
}

pub open spec fn delta_y(d: Dir) -> int {
    match d {
        Dir::Up => -1,
        Dir::Down => 1,
        _ => 0,
    }
}

/// The position one step from `v` in direction `d`.
pub open spec fn shift(v: (int, int), d: Dir) -> (int, int) {
    (v.0 + delta_x(d), v.1 + delta_y(d))
}

pub open spec fn as_point(v: Vertice) -> (int, int) {
    (v.0 as int, v.1 as int)
}

/// The vertex one step from `point` in direction `dir`, or `None` where a
/// coordinate would leave the range of `usize`.
pub fn get_next_point(point: &Vertice, dir: &Dir) -> (r: Option<Vertice>)
    ensures
        match r {
            Some(q) => as_point(q) == shift(as_point(*point), *dir),
            None => !(0 <= shift(as_point(*point), *dir).0 <= usize::MAX && 0 <= shift(
                as_point(*point),
                *dir,
            ).1 <= usize::MAX),
        },
{
    let (x, y) = *point;
    match dir {
        Dir::Unset => Some((x, y)),
        Dir::Up => if y == 0 {
            None
        } else {
            Some((x, y - 1))
        },
        Dir::Down => if y == usize::MAX {
            None
        } else {
            Some((x, y + 1))
        },
        Dir::Left => if x == 0 {
            None
        } else {
            Some((x - 1, y))
        },
        Dir::Right => if x == usize::MAX {
            None
        } else {
            Some((x + 1, y))
        },
    }
}

} // verus!
