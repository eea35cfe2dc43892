use falling_sand::grid::{grid_cell, grid_coord, Cell, CELL_SIZE, MAX_COORD, MIN_COORD};

#[test]
fn origin_maps_to_the_origin_cell() {
    assert_eq!(grid_cell(0, 0), Cell { x: 0, y: 0 });
}

#[test]
fn coordinates_round_to_the_nearest_cell() {
    assert_eq!(grid_coord(0), 0);
    assert_eq!(grid_coord(2), 0);
    assert_eq!(grid_coord(3), 1);
    assert_eq!(grid_coord(5), 1);
    assert_eq!(grid_coord(7), 1);
    assert_eq!(grid_coord(8), 2);
    assert_eq!(grid_coord(-2), 0);
    assert_eq!(grid_coord(-3), -1);
    assert_eq!(grid_coord(-5), -1);
    assert_eq!(grid_coord(-7), -1);
    assert_eq!(grid_coord(-8), -2);
}

#[test]
fn each_axis_is_mapped_on_its_own() {
    assert_eq!(grid_cell(7, -8), Cell { x: 1, y: -2 });
    assert_eq!(grid_cell(-300, 4), Cell { x: -60, y: 1 });
    assert_eq!(grid_cell(12, -294), Cell { x: 2, y: -59 });
}

#[test]
fn ground_level_lies_in_row_minus_sixty() {
    assert_eq!(grid_coord(-300), -60);
    assert_eq!(grid_coord(-298), -60);
    assert_eq!(grid_coord(-302), -60);
    assert_eq!(grid_coord(-297), -59);
    assert_eq!(grid_coord(-303), -61);
}

#[test]
fn cell_is_the_nearest_multiple_of_the_cell_size() {
    let mut p: i32 = -2000;
    while p <= 2000 {
        let c = grid_coord(p);
        assert!((p - CELL_SIZE * c).abs() <= 2, "{} is not nearest to {}", c, p);
        p += 1;
    }
}

#[test]
fn cell_agrees_with_rounding_the_quotient() {
    let mut p: i32 = -2000;
    while p <= 2000 {
        let expected = (p as f64 / 5.0).round() as i32;
        assert_eq!(grid_coord(p), expected);
        p += 1;
    }
}

#[test]
fn identical_positions_yield_identical_cells() {
    let mut p: i32 = -50;
    while p <= 50 {
        assert_eq!(grid_cell(p, -p), grid_cell(p, -p));
        assert_eq!(grid_coord(p), grid_coord(p));
        p += 1;
    }
}

#[test]
fn the_extremes_of_the_world_map_to_the_extremes_of_the_grid() {
    assert_eq!(grid_coord(i32::MAX), 429_496_729);
    assert_eq!(grid_coord(i32::MIN), -429_496_730);
    assert_eq!(grid_coord(i32::MAX), MAX_COORD);
    assert_eq!(grid_coord(i32::MIN), MIN_COORD);
    assert_eq!(grid_coord(i32::MAX - 2), 429_496_729);
    assert_eq!(grid_coord(i32::MAX - 5), 429_496_728);
    assert_eq!(grid_coord(i32::MIN + 1), -429_496_729);
}
