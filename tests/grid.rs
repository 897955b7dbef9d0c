use sandfall::grid::ParticleGrid;

#[test]
fn new_grid_is_empty() {
    let g = ParticleGrid::new(4, 3);
    assert_eq!(g.width(), 4);
    assert_eq!(g.height(), 3);
    assert_eq!(g.len(), 12);
    for i in 0..12 {
        assert!(!g.is_occupied(i));
    }
}

#[test]
fn set_and_read_back() {
    let mut g = ParticleGrid::new(4, 3);
    g.set(6, true);
    assert!(g.is_occupied(6));
    assert!(g.is_occupied_at(2, 1));
    assert!(!g.is_occupied(5));
    g.set(6, false);
    assert!(!g.is_occupied(6));
}

#[test]
fn bottom_row_has_nothing_below() {
    let g = ParticleGrid::new(4, 3);
    for i in 8..12 {
        assert_eq!(g.neighbor_below(i), None);
        assert_eq!(g.neighbor_below_left(i), None);
        assert_eq!(g.neighbor_below_right(i), None);
    }
}

#[test]
fn left_column_has_nothing_below_left() {
    let g = ParticleGrid::new(4, 3);
    for y in 0..3 {
        assert_eq!(g.neighbor_below_left(y * 4), None);
    }
}

#[test]
fn right_column_has_nothing_below_right() {
    let g = ParticleGrid::new(4, 3);
    for y in 0..3 {
        assert_eq!(g.neighbor_below_right(y * 4 + 3), None);
    }
}

#[test]
fn inner_cell_neighbors() {
    let g = ParticleGrid::new(4, 3);
    assert_eq!(g.neighbor_below(5), Some(9));
    assert_eq!(g.neighbor_below_left(5), Some(8));
    assert_eq!(g.neighbor_below_right(5), Some(10));
    assert_eq!(g.neighbor_below(0), Some(4));
    assert_eq!(g.neighbor_below_right(0), Some(5));
    assert_eq!(g.neighbor_below_left(3), Some(6));
}

#[test]
fn single_column_grid_has_no_diagonals() {
    let g = ParticleGrid::new(1, 3);
    assert_eq!(g.neighbor_below(0), Some(1));
    assert_eq!(g.neighbor_below_left(0), None);
    assert_eq!(g.neighbor_below_right(0), None);
    assert_eq!(g.neighbor_below(2), None);
}
