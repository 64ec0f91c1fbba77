use neural_ca::grid::{LIVENESS_THRESHOLD, MAX_CELLS};
use neural_ca::{Cell, CellularGrid, Gradient, GridError, ONE};

fn cell_of(v: i32) -> Cell {
    Cell { channels: [v, v, v, v] }
}

fn at(grid: &CellularGrid, x: usize, y: usize) -> Cell {
    let (w, _) = grid.size();
    grid.grid_as_ref()[y * w + x]
}

#[test]
fn new_grid_is_all_zero() {
    let g = CellularGrid::new(4, 3).unwrap();
    assert_eq!(g.size(), (4, 3));
    assert_eq!(g.grid_as_ref().len(), 12);
    assert!(g.grid_as_ref().iter().all(|c| *c == Cell::new()));
}

#[test]
fn zero_dimensions_are_rejected() {
    assert!(matches!(CellularGrid::new(0, 5), Err(GridError::ZeroDimension)));
    assert!(matches!(CellularGrid::new(5, 0), Err(GridError::ZeroDimension)));
    assert!(matches!(CellularGrid::new_with_seed(0, 0), Err(GridError::ZeroDimension)));
    assert!(matches!(CellularGrid::new_with_noise(0, 3), Err(GridError::ZeroDimension)));
}

#[test]
fn oversized_dimensions_are_rejected() {
    assert!(matches!(CellularGrid::new(usize::MAX, 2), Err(GridError::TooLarge)));
    assert!(matches!(CellularGrid::new(100_000, 100_000), Err(GridError::TooLarge)));
    assert!(MAX_CELLS < 100_000 * 100_000);
}

#[test]
fn seed_sits_at_the_centre() {
    let g = CellularGrid::new_with_seed(5, 5).unwrap();
    for y in 0..5 {
        for x in 0..5 {
            let expected = if x == 2 && y == 2 { Cell::new_ones() } else { Cell::new() };
            assert_eq!(at(&g, x, y), expected);
        }
    }
    assert_eq!(Cell::new_ones(), cell_of(ONE));
}

#[test]
fn seed_on_an_even_grid_uses_integer_halves() {
    let g = CellularGrid::new_with_seed(4, 6).unwrap();
    let ones: Vec<usize> = (0..24).filter(|&i| g.grid_as_ref()[i] == Cell::new_ones()).collect();
    assert_eq!(ones, vec![3 * 4 + 2]);
}

#[test]
fn noise_channels_lie_in_unit_range() {
    let g = CellularGrid::new_with_noise(10, 10).unwrap();
    assert_eq!(g.grid_as_ref().len(), 100);
    for c in g.grid_as_ref() {
        for v in c.channels {
            assert!((0..ONE).contains(&v));
        }
    }
}

#[test]
fn random_cells_lie_in_unit_range() {
    for _ in 0..50 {
        let c = Cell::new_rand();
        assert!(c.channels.iter().all(|v| (0..ONE).contains(v)));
    }
}

#[test]
fn set_wraps_negative_and_large_coordinates() {
    let mut g = CellularGrid::new(5, 4).unwrap();
    g.set_xy(-1, -1, cell_of(7));
    assert_eq!(at(&g, 4, 3), cell_of(7));
    g.set_xy(12, 0, cell_of(8));
    assert_eq!(at(&g, 2, 0), cell_of(8));
    g.set_xy(-10, 9, cell_of(9));
    assert_eq!(at(&g, 0, 1), cell_of(9));
    let set: usize = g.grid_as_ref().iter().filter(|c| **c != Cell::new()).count();
    assert_eq!(set, 3);
}

#[test]
fn wrapping_is_periodic() {
    for k in -3i64..=3 {
        let mut g = CellularGrid::new(7, 3).unwrap();
        g.set_xy(-2 + 7 * k, 1 + 3 * k, cell_of(1));
        assert_eq!(at(&g, 5, 1), cell_of(1));
    }
}

#[test]
fn has_died_reports_extinction() {
    let mut g = CellularGrid::new(3, 3).unwrap();
    assert!(g.has_died());
    g.set_xy(1, 1, Cell { channels: [LIVENESS_THRESHOLD - 1, ONE, ONE, ONE] });
    assert!(g.has_died());
    g.set_xy(2, 2, Cell { channels: [LIVENESS_THRESHOLD, 0, 0, 0] });
    assert!(!g.has_died());
    assert!(!CellularGrid::new_with_seed(5, 5).unwrap().has_died());
}

#[test]
fn zero_rule_clears_every_site() {
    let mut g = CellularGrid::new_with_noise(6, 5).unwrap();
    g.update(|_c: &Cell, _x: &Gradient, _y: &Gradient| Cell::new());
    assert!(g.grid_as_ref().iter().all(|c| *c == Cell::new()));
}

#[test]
fn identity_rule_keeps_the_grid() {
    let mut g = CellularGrid::new_with_noise(6, 5).unwrap();
    let before = g.grid_as_ref().clone();
    g.update(|c: &Cell, _x: &Gradient, _y: &Gradient| *c);
    assert_eq!(g.grid_as_ref(), &before);
}

#[test]
fn buffer_size_is_kept_across_updates() {
    let mut g = CellularGrid::new_with_seed(7, 4).unwrap();
    for _ in 0..5 {
        g.update(|c: &Cell, x: &Gradient, _y: &Gradient| Cell {
            channels: [c.channels[0], (x.channels[0] / 8) as i32, 0, 1],
        });
        assert_eq!(g.grid_as_ref().len(), 28);
        assert_eq!(g.size(), (7, 4));
    }
}

fn gradients_as_cells(g: &mut CellularGrid, y_axis: bool) {
    g.update(move |_c: &Cell, x: &Gradient, y: &Gradient| {
        let s = if y_axis { y } else { x };
        Cell { channels: [s.channels[0] as i32, s.channels[1] as i32, s.channels[2] as i32, s.channels[3] as i32] }
    });
}

#[test]
fn x_gradient_of_a_seed_follows_the_sobel_mask() {
    let mut g = CellularGrid::new_with_seed(5, 5).unwrap();
    gradients_as_cells(&mut g, false);
    // The seed sits at offset (mx, my) from site (2 - mx, 2 - my) and weighs
    // SOBEL_X[my + 1][mx + 1] there.
    assert_eq!(at(&g, 1, 2), cell_of(2 * ONE));
    assert_eq!(at(&g, 3, 2), cell_of(-2 * ONE));
    assert_eq!(at(&g, 1, 1), cell_of(ONE));
    assert_eq!(at(&g, 3, 3), cell_of(-ONE));
    assert_eq!(at(&g, 2, 1), cell_of(0));
    assert_eq!(at(&g, 2, 2), cell_of(0));
    assert_eq!(at(&g, 0, 0), cell_of(0));
}

#[test]
fn y_gradient_of_a_seed_follows_the_sobel_mask() {
    let mut g = CellularGrid::new_with_seed(5, 5).unwrap();
    gradients_as_cells(&mut g, true);
    assert_eq!(at(&g, 2, 1), cell_of(-2 * ONE));
    assert_eq!(at(&g, 2, 3), cell_of(2 * ONE));
    assert_eq!(at(&g, 1, 1), cell_of(-ONE));
    assert_eq!(at(&g, 3, 3), cell_of(ONE));
    assert_eq!(at(&g, 1, 2), cell_of(0));
    assert_eq!(at(&g, 2, 2), cell_of(0));
}

#[test]
fn gradients_wrap_across_the_edges() {
    let mut g = CellularGrid::new(5, 5).unwrap();
    g.set_xy(0, 0, cell_of(ONE));
    gradients_as_cells(&mut g, false);
    // Site (4, 0) sees the seed at offset (+1, 0) through the right edge.
    assert_eq!(at(&g, 4, 0), cell_of(2 * ONE));
    // Site (1, 4) sees it at offset (-1, +1) through the bottom edge.
    assert_eq!(at(&g, 1, 4), cell_of(-ONE));
}

#[test]
fn uniform_grid_has_zero_gradients() {
    for y_axis in [false, true] {
        let mut g = CellularGrid::new(4, 4).unwrap();
        for i in 0..16i64 {
            g.set_xy(i % 4, i / 4, Cell { channels: [ONE, 3, -5, i32::MAX] });
        }
        gradients_as_cells(&mut g, y_axis);
        assert!(g.grid_as_ref().iter().all(|c| *c == Cell::new()));
    }
}

#[test]
fn tiny_grids_repeat_neighbours_without_error() {
    let mut one = CellularGrid::new(1, 1).unwrap();
    one.set_xy(0, 0, cell_of(ONE));
    gradients_as_cells(&mut one, false);
    assert_eq!(at(&one, 0, 0), cell_of(0));

    let mut two = CellularGrid::new(2, 1).unwrap();
    two.set_xy(1, 0, cell_of(ONE));
    gradients_as_cells(&mut two, false);
    // Offsets -1 and +1 both land on the other column: weights cancel.
    assert_eq!(at(&two, 0, 0), cell_of(0));
    assert_eq!(at(&two, 1, 0), cell_of(0));
}

#[test]
fn extreme_channels_do_not_overflow_the_gradient() {
    let mut g = CellularGrid::new(3, 3).unwrap();
    g.set_xy(2, 0, cell_of(i32::MAX));
    g.set_xy(2, 1, cell_of(i32::MAX));
    g.set_xy(2, 2, cell_of(i32::MAX));
    let probe = std::cell::Cell::new(0i64);
    g.update(|c: &Cell, x: &Gradient, _y: &Gradient| {
        if probe.get() == 0 {
            probe.set(x.channels[0]);
        }
        *c
    });
    // Site (0, 0): column +1 is column 1 (zero), column -1 wraps to column 2.
    assert_eq!(probe.get(), -4 * i32::MAX as i64);
}

#[test]
fn wrap_xy_takes_true_remainders() {
    let g = CellularGrid::new(5, 3).unwrap();
    assert_eq!(g.wrap_xy(0, 0), (0, 0));
    assert_eq!(g.wrap_xy(-1, -1), (4, 2));
    assert_eq!(g.wrap_xy(5, 3), (0, 0));
    assert_eq!(g.wrap_xy(-5, -3), (0, 0));
    assert_eq!(g.wrap_xy(-6, -4), (4, 2));
    assert_eq!(g.wrap_xy(i64::MIN, i64::MAX), (2, 1));
    assert_eq!(g.wrap_xy(i64::MAX, i64::MIN), (2, 1));
}

#[test]
fn wrap_xy_is_periodic_and_in_range() {
    let g = CellularGrid::new(7, 4).unwrap();
    for x in -30i64..30 {
        for k in -5i64..=5 {
            let (wx, wy) = g.wrap_xy(x, x);
            assert!(wx < 7 && wy < 4);
            assert_eq!(g.wrap_xy(x + 7 * k, x).0, wx);
            assert_eq!(g.wrap_xy(x, x + 4 * k).1, wy);
        }
    }
}

#[test]
fn neighbours_are_distinct_on_a_three_by_three_grid() {
    let g = CellularGrid::new(3, 3).unwrap();
    for (x, y) in [(0i64, 0i64), (1, 1), (2, 2), (0, 2)] {
        let mut seen = Vec::new();
        for mx in -1..=1 {
            for my in -1..=1 {
                let p = g.wrap_xy(x + mx, y + my);
                assert!(!seen.contains(&p));
                seen.push(p);
            }
        }
        assert_eq!(seen.len(), 9);
    }
}
