use tetris::playfield::{Location, PlayField, Shape};
use tetris::tetrominos;

#[test]
fn test_has_collission_empty() {
    let pf = PlayField::new(10, 10).unwrap();
    let shape: Shape = [[1, 1, 1, 1], [1, 1, 1, 1], [1, 1, 1, 1], [1, 1, 1, 1]];

    assert_eq!(false, pf.has_collission(5, 5, &shape));
}

#[test]
fn test_has_collission_hit() {
    let mut pf = PlayField::new(10, 10).unwrap();
    pf.matrix[0][0] = Location::Filled(tetrominos::Kind::Hook);
    let shape: Shape = [[1, 1, 1, 1], [1, 1, 1, 1], [1, 1, 1, 1], [1, 1, 1, 1]];

    assert_eq!(true, pf.has_collission(0, 0, &shape));
}

#[test]
fn collision_true_when_fully_out_of_range() {
    let pf = PlayField::new(10, 10).unwrap();
    let empty_shape: Shape = [[0; 4]; 4];
    let full_shape: Shape = [[1; 4]; 4];

    // any shape at a position fully outside the matrix collides
    assert!(pf.has_collission(1000, 5, &full_shape));
    assert!(pf.has_collission(5, 1000, &full_shape));
    assert!(pf.has_collission(1000, 1000, &empty_shape));
    assert!(pf.has_collission(usize::MAX, usize::MAX, &empty_shape));
}

#[test]
fn collision_with_edge_padding() {
    let pf = PlayField::new(10, 10).unwrap();
    let dot: Shape = [[1, 0, 0, 0], [0, 0, 0, 0], [0, 0, 0, 0], [0, 0, 0, 0]];

    // column 0 is edge padding below the spawn rows
    assert!(pf.has_collission(8, 0, &dot));
    // the same bit inside the well is free
    assert!(!pf.has_collission(8, 3, &dot));
}

#[test]
fn new_rejects_small_wells() {
    assert!(PlayField::new(3, 10).is_err());
    assert!(PlayField::new(10, 3).is_err());
    assert!(PlayField::new(4, 4).is_ok());
}

#[test]
fn clear_full_bottom_row() {
    // a full bottom well row is cleared and counted exactly once
    let mut pf = PlayField::new(22, 10).unwrap();
    let well_y = pf.well_y();
    let well_x = pf.well_x();
    let bottom = well_y + 21;
    for c in 0..10 {
        pf.matrix[bottom][well_x + c] = Location::Filled(tetrominos::Kind::Square);
    }

    let cleared = pf.clear_full_rows();

    assert_eq!(cleared, 1);
    for c in 0..10 {
        assert_eq!(pf.matrix[bottom][well_x + c], Location::Empty);
    }
}

#[test]
fn partial_row_is_never_cleared() {
    let mut pf = PlayField::new(22, 10).unwrap();
    let well_y = pf.well_y();
    let well_x = pf.well_x();
    let row = well_y + 21;
    // fill all but one cell
    for c in 0..9 {
        pf.matrix[row][well_x + c] = Location::Filled(tetrominos::Kind::Zig);
    }

    let cleared = pf.clear_full_rows();

    assert_eq!(cleared, 0);
    for c in 0..9 {
        assert_eq!(pf.matrix[row][well_x + c], Location::Filled(tetrominos::Kind::Zig));
    }
}

#[test]
fn clear_counts_each_full_row_once() {
    let mut pf = PlayField::new(22, 10).unwrap();
    let well_y = pf.well_y();
    let well_x = pf.well_x();
    for r in [well_y + 19, well_y + 21] {
        for c in 0..10 {
            pf.matrix[r][well_x + c] = Location::Filled(tetrominos::Kind::Stick);
        }
    }
    // a partial row between them
    pf.matrix[well_y + 20][well_x] = Location::Filled(tetrominos::Kind::Stick);

    assert_eq!(pf.clear_full_rows(), 2);
}

#[test]
fn collapse_settles_gravity_fully() {
    let mut pf = PlayField::new(22, 10).unwrap();
    let well_y = pf.well_y();
    let well_x = pf.well_x();
    // a block high up with several empty rows beneath it
    pf.matrix[well_y + 2][well_x + 4] = Location::Filled(tetrominos::Kind::Pyramid);
    pf.matrix[well_y + 5][well_x + 7] = Location::Filled(tetrominos::Kind::Snake);

    pf.clear_full_rows();
    pf.collapse();

    // no empty well row may sit below a row holding a block
    let mut seen_block = false;
    for r in 0..22 {
        let row_has_block =
            (0..10).any(|c| pf.matrix[well_y + r][well_x + c] != Location::Empty);
        if seen_block {
            assert!(row_has_block, "empty row below a filled row after collapse");
        }
        if row_has_block {
            seen_block = true;
        }
    }
    // the two blocks settled to the bottom rows, order kept
    assert_eq!(
        pf.matrix[well_y + 20][well_x + 4],
        Location::Filled(tetrominos::Kind::Pyramid)
    );
    assert_eq!(
        pf.matrix[well_y + 21][well_x + 7],
        Location::Filled(tetrominos::Kind::Snake)
    );
}

#[test]
fn clear_then_collapse_drops_stack_one_row() {
    let mut pf = PlayField::new(22, 10).unwrap();
    let well_y = pf.well_y();
    let well_x = pf.well_x();
    // a full bottom row with one block resting on it
    for c in 0..10 {
        pf.matrix[well_y + 21][well_x + c] = Location::Filled(tetrominos::Kind::Square);
    }
    pf.matrix[well_y + 20][well_x + 3] = Location::Filled(tetrominos::Kind::Hook);

    assert_eq!(pf.clear_full_rows(), 1);
    pf.collapse();

    assert_eq!(
        pf.matrix[well_y + 21][well_x + 3],
        Location::Filled(tetrominos::Kind::Hook)
    );
    assert_eq!(pf.matrix[well_y + 20][well_x + 3], Location::Empty);
}
