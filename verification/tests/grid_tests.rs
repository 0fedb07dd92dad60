use rdiff::grid::Grid;
use rdiff::grid::IndexError;

#[test]
fn new_grid_is_zeroed() {
    let g = Grid::new(3, 2);
    assert_eq!(g.size(), (3, 2));
    for row in 0..3 {
        for col in 0..2 {
            assert_eq!(g.get(row, col), Ok(0));
        }
    }
}

#[test]
fn set_then_get_round_trip() {
    let mut g = Grid::new(4, 4);
    assert_eq!(g.set(2, 3, 17), Ok(()));
    assert_eq!(g.set(0, 0, 5), Ok(()));
    assert_eq!(g.get(2, 3), Ok(17));
    assert_eq!(g.get(0, 0), Ok(5));
    assert_eq!(g.get(2, 2), Ok(0));
}

#[test]
fn set_leaves_other_cells_alone() {
    let mut g = Grid::new(2, 2);
    assert_eq!(g.set(0, 1, 9), Ok(()));
    assert_eq!(g.get(0, 0), Ok(0));
    assert_eq!(g.get(1, 0), Ok(0));
    assert_eq!(g.get(1, 1), Ok(0));
    assert_eq!(g.get(0, 1), Ok(9));
}

#[test]
fn get_out_of_bounds_fails() {
    let g = Grid::new(3, 2);
    assert_eq!(g.get(3, 0), Err(IndexError));
    assert_eq!(g.get(0, 2), Err(IndexError));
    assert_eq!(g.get(3, 2), Err(IndexError));
    assert_eq!(g.get(usize::MAX, 0), Err(IndexError));
    assert_eq!(g.get(0, usize::MAX), Err(IndexError));
}

#[test]
fn set_out_of_bounds_fails() {
    let mut g = Grid::new(3, 2);
    assert_eq!(g.set(3, 0, 1), Err(IndexError));
    assert_eq!(g.set(0, 2, 1), Err(IndexError));
    assert_eq!(g.set(3, 2, 1), Err(IndexError));
    assert_eq!(g.set(usize::MAX, usize::MAX, 1), Err(IndexError));
    for row in 0..3 {
        for col in 0..2 {
            assert_eq!(g.get(row, col), Ok(0));
        }
    }
}

#[test]
fn empty_grid_rejects_every_access() {
    let mut g = Grid::new(0, 0);
    assert_eq!(g.size(), (0, 0));
    assert_eq!(g.get(0, 0), Err(IndexError));
    assert_eq!(g.set(0, 0, 1), Err(IndexError));
}
