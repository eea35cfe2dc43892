use falling_sand::grid::Cell;
use falling_sand::occupancy::Occupancy;

#[test]
fn a_new_snapshot_holds_nothing() {
    let occupied = Occupancy::new();
    assert!(!occupied.contains(Cell { x: 0, y: 0 }));
    assert_eq!(occupied.occupant(Cell { x: 0, y: 0 }), None);
    assert!(!occupied.occupied_at(0, 0));
}

#[test]
fn a_registered_cell_is_occupied_by_its_particle() {
    let mut occupied = Occupancy::new();
    occupied.insert(Cell { x: 3, y: -60 }, 7);
    assert!(occupied.contains(Cell { x: 3, y: -60 }));
    assert!(occupied.occupied_at(3, -60));
    assert_eq!(occupied.occupant(Cell { x: 3, y: -60 }), Some(7));
    assert!(!occupied.contains(Cell { x: 3, y: -59 }));
    assert!(!occupied.contains(Cell { x: -60, y: 3 }));
    assert_eq!(occupied.occupant(Cell { x: 4, y: -60 }), None);
}

#[test]
fn the_last_particle_registered_in_a_cell_holds_it() {
    let mut occupied = Occupancy::new();
    occupied.insert(Cell { x: 1, y: 1 }, 0);
    occupied.insert(Cell { x: 1, y: 1 }, 5);
    assert_eq!(occupied.occupant(Cell { x: 1, y: 1 }), Some(5));
    occupied.insert(Cell { x: 1, y: 1 }, 2);
    assert_eq!(occupied.occupant(Cell { x: 1, y: 1 }), Some(2));
}

#[test]
fn neighbouring_cells_are_told_apart() {
    let mut occupied = Occupancy::new();
    occupied.insert(Cell { x: 0, y: -1 }, 1);
    occupied.insert(Cell { x: -1, y: 0 }, 2);
    occupied.insert(Cell { x: 0, y: 0 }, 3);
    occupied.insert(Cell { x: -1, y: -1 }, 4);
    assert_eq!(occupied.occupant(Cell { x: 0, y: -1 }), Some(1));
    assert_eq!(occupied.occupant(Cell { x: -1, y: 0 }), Some(2));
    assert_eq!(occupied.occupant(Cell { x: 0, y: 0 }), Some(3));
    assert_eq!(occupied.occupant(Cell { x: -1, y: -1 }), Some(4));
    assert_eq!(occupied.occupant(Cell { x: 1, y: -1 }), None);
    assert_eq!(occupied.occupant(Cell { x: 1, y: 0 }), None);
}

#[test]
fn the_corners_of_the_grid_are_told_apart() {
    let corners = [
        Cell { x: i32::MIN, y: i32::MIN },
        Cell { x: i32::MIN, y: i32::MAX },
        Cell { x: i32::MAX, y: i32::MIN },
        Cell { x: i32::MAX, y: i32::MAX },
        Cell { x: i32::MIN + 1, y: i32::MIN },
        Cell { x: i32::MIN, y: i32::MIN + 1 },
        Cell { x: i32::MAX - 1, y: i32::MAX },
        Cell { x: i32::MAX, y: i32::MAX - 1 },
    ];
    let mut occupied = Occupancy::new();
    let mut index = 0;
    while index < corners.len() {
        assert!(!occupied.contains(corners[index]));
        occupied.insert(corners[index], index);
        index += 1;
    }
    index = 0;
    while index < corners.len() {
        assert_eq!(occupied.occupant(corners[index]), Some(index));
        index += 1;
    }
}

#[test]
fn coordinates_beyond_the_grid_are_never_occupied() {
    let mut occupied = Occupancy::new();
    occupied.insert(Cell { x: i32::MIN, y: i32::MIN }, 0);
    occupied.insert(Cell { x: i32::MAX, y: i32::MAX }, 1);
    occupied.insert(Cell { x: 0, y: 0 }, 2);
    assert!(occupied.occupied_at(i32::MIN as i64, i32::MIN as i64));
    assert!(occupied.occupied_at(i32::MAX as i64, i32::MAX as i64));
    assert!(!occupied.occupied_at(i32::MIN as i64 - 1, i32::MIN as i64));
    assert!(!occupied.occupied_at(i32::MIN as i64, i32::MIN as i64 - 1));
    assert!(!occupied.occupied_at(i32::MAX as i64 + 1, i32::MAX as i64));
    assert!(!occupied.occupied_at(i32::MAX as i64, i32::MAX as i64 + 1));
    assert!(!occupied.occupied_at(1 << 32, 0));
    assert!(!occupied.occupied_at(0, 1 << 32));
    assert!(!occupied.occupied_at(i64::MIN, i64::MAX));
}
