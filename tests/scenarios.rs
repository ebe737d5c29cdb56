use drawlings::cell::{
    classify, get_next_direction, get_next_point, rot, rot_left, rot_right, turn_left, turn_right,
    Dir, Shape, Vertice,
};
use drawlings::grid::{create_grid, get_pix, CellGrid};
use drawlings::raster::{black, get_bw, white, Color, Raster};
use drawlings::render::{render_grid, render_path};
use drawlings::trace::{create_path, get_start, Outcome, Trace};

fn canvas(width: u32, height: u32, ink: &[(u32, u32)]) -> Raster {
    let mut img = Raster::filled(width, height, white());
    for &(x, y) in ink {
        img.set_pixel(x, y, black());
    }
    img
}

fn trace_of(img: &Raster) -> (CellGrid, Trace) {
    let grid = create_grid(img);
    let trace = create_path(&grid);
    (grid, trace)
}

fn is_unit_step(a: Vertice, b: Vertice) -> bool {
    let dx = (a.0 as i64 - b.0 as i64).abs();
    let dy = (a.1 as i64 - b.1 as i64).abs();
    dx + dy == 1
}

#[test]
fn one_pixel_square() {
    let (_, t) = trace_of(&canvas(3, 3, &[(1, 1)]));
    assert_eq!(t.path, vec![(1, 1), (1, 2), (2, 2), (2, 1)]);
    assert_eq!(t.outcome, Outcome::Closed);
}

#[test]
fn two_by_two_square() {
    let (_, t) = trace_of(&canvas(4, 4, &[(1, 1), (2, 1), (1, 2), (2, 2)]));
    assert_eq!(
        t.path,
        vec![(1, 1), (1, 2), (1, 3), (2, 3), (3, 3), (3, 2), (3, 1), (2, 1)]
    );
    assert_eq!(t.outcome, Outcome::Closed);
}

#[test]
fn horizontal_line() {
    let ink: Vec<(u32, u32)> = (1..6).map(|x| (x, 1)).collect();
    let (_, t) = trace_of(&canvas(7, 3, &ink));
    assert_eq!(
        t.path,
        vec![
            (1, 1),
            (1, 2),
            (2, 2),
            (3, 2),
            (4, 2),
            (5, 2),
            (6, 2),
            (6, 1),
            (5, 1),
            (4, 1),
            (3, 1),
            (2, 1)
        ]
    );
    assert_eq!(t.outcome, Outcome::Closed);
}

#[test]
fn all_white_image() {
    let (grid, t) = trace_of(&canvas(4, 3, &[]));
    assert!(t.path.is_empty());
    assert_eq!(t.outcome, Outcome::NoContour);
    assert_eq!(get_start(&grid), None);
    let out = render_path(&grid, &t.path);
    assert_eq!((out.width, out.height), (6, 5));
    for y in 0..5 {
        for x in 0..6 {
            assert_eq!(out.get_pixel(x, y), white());
        }
    }
}

#[test]
fn all_black_image() {
    let ink: Vec<(u32, u32)> = (0..3).flat_map(|y| (0..3).map(move |x| (x, y))).collect();
    let (grid, t) = trace_of(&canvas(3, 3, &ink));
    assert_eq!(get_pix(&grid, &(1, 1)), Some((1, 1, 1, 1)));
    assert_eq!(get_pix(&grid, &(3, 1)), Some((1, 0, 1, 0)));
    assert_eq!(get_pix(&grid, &(3, 3)), Some((1, 0, 0, 0)));
    assert_eq!(t.path, vec![(3, 1)]);
    assert_eq!(t.outcome, Outcome::Open);
}

#[test]
fn diagonal_from_corner() {
    let (grid, t) = trace_of(&canvas(3, 3, &[(0, 0), (1, 1), (2, 2)]));
    assert_eq!(classify(&get_pix(&grid, &(1, 1)).unwrap()), Shape::DiagonalRight);
    assert_eq!(classify(&get_pix(&grid, &(2, 2)).unwrap()), Shape::DiagonalRight);
    assert_eq!(t.path, vec![(1, 1)]);
    assert_eq!(t.outcome, Outcome::Open);
}

#[test]
fn diagonal_with_margin() {
    let (grid, t) = trace_of(&canvas(5, 5, &[(1, 1), (2, 2), (3, 3)]));
    assert_eq!(classify(&get_pix(&grid, &(2, 2)).unwrap()), Shape::DiagonalRight);
    assert_eq!(t.path, vec![(1, 1), (1, 2), (2, 2), (2, 1)]);
    assert_eq!(t.outcome, Outcome::Closed);
}

#[test]
fn closed_paths_are_connected_and_on_contour() {
    let ink: Vec<(u32, u32)> = (1..6).map(|x| (x, 1)).collect();
    let (grid, t) = trace_of(&canvas(7, 3, &ink));
    assert!(t.path.len() >= 4);
    for i in 0..t.path.len() {
        let next = t.path[(i + 1) % t.path.len()];
        assert!(is_unit_step(t.path[i], next));
        let s = classify(&get_pix(&grid, &t.path[i]).unwrap());
        assert!(s != Shape::Empty && s != Shape::Full);
        assert!(t.path[i].0 >= 1 && t.path[i].0 <= 6);
        assert!(t.path[i].1 >= 1 && t.path[i].1 <= 3);
    }
}

#[test]
fn translation_moves_every_vertex() {
    let (_, a) = trace_of(&canvas(5, 5, &[(1, 1)]));
    let (_, b) = trace_of(&canvas(5, 5, &[(2, 3)]));
    let moved: Vec<Vertice> = a.path.iter().map(|v| (v.0 + 1, v.1 + 2)).collect();
    assert_eq!(b.path, moved);
    assert_eq!(b.outcome, a.outcome);
}

#[test]
fn ink_on_top_left_edge_is_not_translation_invariant() {
    let (_, t) = trace_of(&canvas(3, 3, &[(0, 0)]));
    assert_eq!(t.path, vec![(1, 1)]);
    assert_eq!(t.outcome, Outcome::Open);
}

#[test]
fn half_turn_keeps_the_contour() {
    let (_, a) = trace_of(&canvas(4, 4, &[(1, 1), (1, 2), (2, 2)]));
    assert_eq!(
        a.path,
        vec![(1, 1), (1, 2), (1, 3), (2, 3), (3, 3), (3, 2), (2, 2), (2, 1)]
    );
    let (_, b) = trace_of(&canvas(4, 4, &[(2, 2), (2, 1), (1, 1)]));
    assert_eq!(
        b.path,
        vec![(1, 1), (1, 2), (2, 2), (2, 3), (3, 3), (3, 2), (3, 1), (2, 1)]
    );
    let turned: Vec<Vertice> = a.path.iter().map(|v| (4 - v.0, 4 - v.1)).collect();
    let start = b.path.iter().position(|v| *v == turned[0]).unwrap();
    let mut cycled = b.path[start..].to_vec();
    cycled.extend_from_slice(&b.path[..start]);
    assert_eq!(cycled, turned);
}

#[test]
fn binarizer_ink_predicate() {
    let mut img = canvas(3, 1, &[]);
    img.set_pixel(0, 0, Color { r: 255, g: 255, b: 255, a: 0 });
    img.set_pixel(1, 0, Color { r: 254, g: 255, b: 255, a: 255 });
    assert_eq!(get_bw(&img, 0, 0), 1);
    assert_eq!(get_bw(&img, 1, 0), 1);
    assert_eq!(get_bw(&img, 2, 0), 0);
    assert_eq!(get_bw(&img, 3, 0), 0);
    assert_eq!(get_bw(&img, 0, 1), 0);
}

#[test]
fn grid_is_padded_windows() {
    let img = canvas(3, 3, &[(1, 1)]);
    let grid = create_grid(&img);
    assert_eq!((grid.rows, grid.cols), (5, 5));
    assert_eq!(get_pix(&grid, &(1, 1)), Some((0, 0, 0, 1)));
    assert_eq!(get_pix(&grid, &(2, 1)), Some((0, 0, 1, 0)));
    assert_eq!(get_pix(&grid, &(1, 2)), Some((0, 1, 0, 0)));
    assert_eq!(get_pix(&grid, &(2, 2)), Some((1, 0, 0, 0)));
    assert_eq!(get_pix(&grid, &(0, 0)), Some((0, 0, 0, 0)));
    assert_eq!(get_pix(&grid, &(4, 4)), Some((0, 0, 0, 0)));
    assert_eq!(get_pix(&grid, &(5, 0)), None);
    assert_eq!(get_start(&grid), Some((1, 1)));
}

#[test]
fn rotations_permute_samples() {
    assert_eq!(rot_left(&(1, 2, 3, 4)), (2, 4, 1, 3));
    assert_eq!(rot_right(&(1, 2, 3, 4)), (3, 1, 4, 2));
    assert_eq!(rot(&(1, 2, 3, 4), &Dir::Down), (4, 3, 2, 1));
    assert_eq!(rot(&(1, 2, 3, 4), &Dir::Left), (3, 1, 4, 2));
    assert_eq!(rot(&(1, 2, 3, 4), &Dir::Right), (2, 4, 1, 3));
    assert_eq!(rot(&(1, 2, 3, 4), &Dir::Up), (1, 2, 3, 4));
}

#[test]
fn turns_and_steps() {
    assert_eq!(turn_left(&Dir::Up), Dir::Left);
    assert_eq!(turn_left(&Dir::Unset), Dir::Left);
    assert_eq!(turn_right(&Dir::Up), Dir::Right);
    assert_eq!(turn_right(&Dir::Left), Dir::Up);
    assert_eq!(get_next_point(&(0, 0), &Dir::Up), None);
    assert_eq!(get_next_point(&(0, 0), &Dir::Left), None);
    assert_eq!(get_next_point(&(3, 4), &Dir::Right), Some((4, 4)));
    assert_eq!(get_next_point(&(3, 4), &Dir::Up), Some((3, 3)));
    assert_eq!(get_next_point(&(usize::MAX, 4), &Dir::Right), None);
}

#[test]
fn transition_table() {
    assert_eq!(get_next_direction(&Dir::Up, &(1, 1, 1, 0)), Dir::Right);
    assert_eq!(get_next_direction(&Dir::Up, &(0, 0, 1, 0)), Dir::Left);
    assert_eq!(get_next_direction(&Dir::Right, &(1, 1, 0, 0)), Dir::Right);
    assert_eq!(get_next_direction(&Dir::Left, &(1, 0, 1, 1)), Dir::Up);
    assert_eq!(get_next_direction(&Dir::Up, &(1, 1, 0, 1)), Dir::Down);
    assert_eq!(get_next_direction(&Dir::Down, &(0, 1, 0, 0)), Dir::Right);
}

#[test]
fn render_path_marks_vertices() {
    let (grid, t) = trace_of(&canvas(3, 3, &[(1, 1)]));
    let out = render_path(&grid, &t.path);
    assert_eq!((out.width, out.height), (5, 5));
    for y in 0..5u32 {
        for x in 0..5u32 {
            let on_path = t.path.contains(&(x as usize, y as usize));
            let expected = if on_path { black() } else { white() };
            assert_eq!(out.get_pixel(x, y), expected);
        }
    }
}

#[test]
fn render_grid_marks_non_empty_cells() {
    let grid = create_grid(&canvas(3, 3, &[(1, 1)]));
    let out = render_grid(&grid);
    assert_eq!(out.get_pixel(1, 1), black());
    assert_eq!(out.get_pixel(2, 2), black());
    assert_eq!(out.get_pixel(3, 3), white());
    assert_eq!(out.get_pixel(0, 0), white());
}
