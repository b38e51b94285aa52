use hexapod::grid::{line_cells, trace_ray_cells, OccupancyGrid};

#[test]
fn grid_new_is_zeroed() {
    let g = OccupancyGrid::new(4, 3);
    assert_eq!(g.width(), 4);
    assert_eq!(g.height(), 3);
    assert_eq!(g.cells().len(), 12);
    assert!(g.cells().iter().all(|&c| c == 0));
}

#[test]
fn grid_index_is_row_major() {
    let g = OccupancyGrid::new(4, 3);
    assert_eq!(g.index_of(0, 0), Some(0));
    assert_eq!(g.index_of(3, 0), Some(3));
    assert_eq!(g.index_of(1, 2), Some(9));
    assert_eq!(g.index_of(4, 0), None);
    assert_eq!(g.index_of(0, 3), None);
}

#[test]
fn grid_set_then_get() {
    let mut g = OccupancyGrid::new(4, 3);
    g.set(2, 1, 7);
    assert_eq!(g.get(2, 1), Some(7));
    assert_eq!(g.get(1, 2), Some(0));
    assert_eq!(g.cells()[6], 7);
    // Outside the grid nothing changes.
    g.set(9, 9, 5);
    assert_eq!(g.get(9, 9), None);
    assert_eq!(g.cells().iter().filter(|&&c| c != 0).count(), 1);
}

#[test]
fn grid_add_log_odds_clamps() {
    let mut g = OccupancyGrid::new(3, 3);
    g.add_log_odds(1, 1, 40, -50, 50);
    assert_eq!(g.get(1, 1), Some(40));
    g.add_log_odds(1, 1, 40, -50, 50);
    assert_eq!(g.get(1, 1), Some(50));
    g.add_log_odds(0, 2, -30, -50, 50);
    g.add_log_odds(0, 2, -30, -50, 50);
    assert_eq!(g.get(0, 2), Some(-50));
}

#[test]
fn grid_add_log_odds_ignores_outside_cells() {
    let mut g = OccupancyGrid::new(3, 3);
    g.add_log_odds(-1, 0, 10, -50, 50);
    g.add_log_odds(0, -1, 10, -50, 50);
    g.add_log_odds(3, 0, 10, -50, 50);
    assert!(g.cells().iter().all(|&c| c == 0));
}

#[test]
fn line_cells_stop_before_target() {
    assert_eq!(line_cells(0, 0, 3, 1, 5, 5), vec![(0, 0), (1, 0), (2, 1)]);
    assert_eq!(line_cells(2, 2, 2, 2, 5, 5), Vec::<(isize, isize)>::new());
    assert_eq!(line_cells(4, 0, 0, 0, 5, 5), vec![(4, 0), (3, 0), (2, 0), (1, 0)]);
}

#[test]
fn line_cells_stop_when_leaving_the_grid() {
    assert_eq!(line_cells(3, 3, 10, 3, 5, 5), vec![(3, 3), (4, 3)]);
}

#[test]
fn raytrace_marks_cells_on_the_line() {
    let mut g = OccupancyGrid::new(5, 5);
    g.raytrace_free(0, 0, 3, 1, -1, -5, 5);
    assert_eq!(g.get(0, 0), Some(-1));
    assert_eq!(g.get(1, 0), Some(-1));
    assert_eq!(g.get(2, 1), Some(-1));
    // The target cell itself is left alone.
    assert_eq!(g.get(3, 1), Some(0));
    assert_eq!(g.cells().iter().filter(|&&c| c != 0).count(), 3);
}

#[test]
fn raytrace_agrees_with_line_cells() {
    let mut g = OccupancyGrid::new(8, 8);
    g.raytrace_free(7, 1, 1, 6, -2, -10, 10);
    let line = line_cells(7, 1, 1, 6, 8, 8);
    assert!(!line.is_empty());
    for y in 0..8usize {
        for x in 0..8usize {
            let on_line = line.contains(&(x as isize, y as isize));
            let expected = if on_line { -2 } else { 0 };
            assert_eq!(g.get(x, y), Some(expected));
        }
    }
}

#[test]
fn raytrace_stops_at_grid_edge() {
    let mut g = OccupancyGrid::new(5, 5);
    g.raytrace_free(3, 3, 10, 3, -1, -5, 5);
    assert_eq!(g.get(3, 3), Some(-1));
    assert_eq!(g.get(4, 3), Some(-1));
    assert_eq!(g.cells().iter().filter(|&&c| c != 0).count(), 2);
}

#[test]
fn raytrace_clamps_repeated_updates() {
    let mut g = OccupancyGrid::new(5, 5);
    for _ in 0..10 {
        g.raytrace_free(0, 2, 4, 2, -1, -3, 3);
    }
    assert_eq!(g.get(0, 2), Some(-3));
    assert_eq!(g.get(3, 2), Some(-3));
    assert_eq!(g.get(4, 2), Some(0));
}

#[test]
fn trace_ray_cells_match_line_cells() {
    assert_eq!(trace_ray_cells(0, 0, 3, 1, 5, 5), vec![(0, 0), (1, 0), (2, 1)]);
    assert_eq!(trace_ray_cells(2, 2, 2, 2, 5, 5), Vec::<(usize, usize)>::new());
    for &(x0, y0, x1, y1) in &[(7usize, 1usize, 1usize, 6usize), (0, 7, 7, 0), (3, 3, 3, 0), (5, 2, 0, 2)] {
        let traced: Vec<(isize, isize)> =
            trace_ray_cells(x0, y0, x1, y1, 8, 8).into_iter().map(|(x, y)| (x as isize, y as isize)).collect();
        assert_eq!(traced, line_cells(x0 as isize, y0 as isize, x1 as isize, y1 as isize, 8, 8));
    }
}

#[test]
fn integrate_beam_frees_then_hits() {
    let mut g = OccupancyGrid::new(6, 6);
    g.integrate_beam(Some((0, 0)), (3, 1), 6, -2, -90, 90);
    assert_eq!(g.get(0, 0), Some(-2));
    assert_eq!(g.get(1, 0), Some(-2));
    assert_eq!(g.get(2, 1), Some(-2));
    assert_eq!(g.get(3, 1), Some(6));
    assert_eq!(g.cells().iter().filter(|&&c| c != 0).count(), 4);
    // Without a start cell only the hit is recorded.
    let mut h = OccupancyGrid::new(6, 6);
    h.integrate_beam(None, (5, 5), 6, -2, -90, 90);
    assert_eq!(h.get(5, 5), Some(6));
    assert_eq!(h.cells().iter().filter(|&&c| c != 0).count(), 1);
}

#[test]
fn score_hits_sums_cells_and_penalises_misses() {
    let mut g = OccupancyGrid::new(4, 4);
    g.set(1, 1, 10);
    g.set(2, 3, -4);
    assert_eq!(g.score_hits(&[]), Some(0));
    assert_eq!(g.score_hits(&[Some((1, 1)), Some((2, 3)), None, Some((0, 0))]), Some(5));
    assert_eq!(g.score_hits(&[None, None]), Some(-2));
    assert_eq!(g.score_hits(&[Some((-1, 0)), Some((9, 9))]), Some(0));
}

#[test]
fn integrates_hit_cell() {
    // A beam of 1 m straight ahead from the centre of an 800-cell map of 5 cm cells.
    let mut map = OccupancyGrid::new(800, 800);
    map.integrate_beam(Some((400, 400)), (420, 400), 6, -2, -90, 90);
    let cell = map.get(420, 400).expect("cell in map");
    assert!(cell > 0);
    assert_eq!(map.get(410, 400), Some(-2));
}
