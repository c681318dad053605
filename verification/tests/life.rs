use game_of_life::Universe;

fn sorted_cells(u: &Universe) -> Vec<(u32, u32)> {
    let mut v = u.get_cells().clone();
    v.sort();
    v
}

fn sorted(mut v: Vec<(u32, u32)>) -> Vec<(u32, u32)> {
    v.sort();
    v
}

fn decode_pairs(buf: &Vec<u32>) -> Vec<(u32, u32)> {
    assert_eq!(buf.len() % 2, 0);
    let mut v = Vec::new();
    let mut i = 0;
    while i + 1 < buf.len() {
        v.push((buf[i], buf[i + 1]));
        i += 2;
    }
    v
}

#[test]
fn new_starts_empty() {
    let u = Universe::new(8, 8);
    assert_eq!(u.get_width(), 8);
    assert_eq!(u.get_height(), 8);
    assert!(u.get_cells().is_empty());
    assert_eq!(u.get_new_alive_len(), 0);
    assert_eq!(u.get_new_dead_len(), 0);
}

#[test]
fn seed_is_idempotent() {
    let mut u = Universe::new(8, 8);
    u.set_cells(&[(2, 1), (2, 1), (3, 3)]);
    assert_eq!(sorted_cells(&u), vec![(2, 1), (3, 3)]);
    u.set_cells(&[(2, 1)]);
    assert_eq!(sorted_cells(&u), vec![(2, 1), (3, 3)]);
}

#[test]
fn neighbor_counts_around_blinker() {
    let mut u = Universe::new(8, 8);
    u.set_cells(&[(2, 1), (2, 2), (2, 3)]);
    assert_eq!(u.live_neighbor_count((2, 2)), 2);
    assert_eq!(u.live_neighbor_count((1, 2)), 3);
    assert_eq!(u.live_neighbor_count((3, 2)), 3);
    assert_eq!(u.live_neighbor_count((2, 1)), 1);
    assert_eq!(u.live_neighbor_count((1, 1)), 2);
    assert_eq!(u.live_neighbor_count((0, 0)), 0);
}

#[test]
fn rule_holds_for_every_cell_of_a_small_grid() {
    let mut u = Universe::new(8, 8);
    u.set_cells(&[(0, 1), (1, 2), (2, 0), (2, 1), (2, 2)]);
    let pre = u.get_cells().clone();
    let mut counts = Vec::new();
    for row in 0..8u32 {
        for col in 0..8u32 {
            counts.push(u.live_neighbor_count((row, col)));
        }
    }
    u.tick();
    let post = u.get_cells().clone();
    for row in 0..8u32 {
        for col in 0..8u32 {
            let n = counts[(row * 8 + col) as usize];
            let was_live = pre.contains(&(row, col));
            let is_live = post.contains(&(row, col));
            let expected = if was_live { n == 2 || n == 3 } else { n == 3 };
            assert_eq!(is_live, expected, "cell ({}, {})", row, col);
        }
    }
}

#[test]
fn block_is_a_still_life() {
    let mut u = Universe::new(8, 8);
    u.set_cells(&[(3, 3), (3, 4), (4, 3), (4, 4)]);
    let before = sorted_cells(&u);
    u.tick();
    assert_eq!(sorted_cells(&u), before);
    assert_eq!(u.get_new_alive_len(), 0);
    assert_eq!(u.get_new_dead_len(), 0);
}

#[test]
fn blinker_has_period_two() {
    let mut u = Universe::new(8, 8);
    u.set_cells(&[(2, 1), (2, 2), (2, 3)]);
    u.tick();
    assert_eq!(sorted_cells(&u), vec![(1, 2), (2, 2), (3, 2)]);
    u.tick();
    assert_eq!(sorted_cells(&u), vec![(2, 1), (2, 2), (2, 3)]);
}

#[test]
fn blinker_wraps_around_the_top_edge() {
    let mut u = Universe::new(8, 8);
    u.set_cells(&[(0, 1), (0, 2), (0, 3)]);
    u.tick();
    assert_eq!(sorted_cells(&u), vec![(0, 2), (1, 2), (7, 2)]);
    u.tick();
    assert_eq!(sorted_cells(&u), vec![(0, 1), (0, 2), (0, 3)]);
}

#[test]
fn deltas_replay_the_tick() {
    let mut u = Universe::new(8, 8);
    u.set_cells(&[(0, 1), (1, 2), (2, 0), (2, 1), (2, 2)]);
    for _ in 0..4 {
        let mut replay = u.get_cells().clone();
        u.tick();
        for cell in decode_pairs(u.get_new_alive()) {
            assert!(!replay.contains(&cell));
            replay.push(cell);
        }
        for cell in decode_pairs(u.get_new_dead()) {
            assert!(replay.contains(&cell));
            replay.retain(|c| *c != cell);
        }
        assert_eq!(sorted(replay), sorted_cells(&u));
    }
}

#[test]
fn deltas_are_disjoint() {
    let mut u = Universe::new(8, 8);
    u.set_cells(&[(0, 1), (1, 2), (2, 0), (2, 1), (2, 2)]);
    for _ in 0..4 {
        u.tick();
        let alive = decode_pairs(u.get_new_alive());
        let dead = decode_pairs(u.get_new_dead());
        for cell in &alive {
            assert!(!dead.contains(cell));
        }
    }
}

#[test]
fn live_cells_stay_in_bounds() {
    let mut u = Universe::new(4, 4);
    u.set_cells(&[(0, 1), (1, 2), (2, 0), (2, 1), (2, 2)]);
    for _ in 0..12 {
        u.tick();
        for &(row, col) in u.get_cells() {
            assert!(row < 4 && col < 4);
        }
    }
}

#[test]
fn set_width_clears_the_board() {
    let mut u = Universe::new(8, 8);
    u.set_cells(&[(2, 1), (2, 2), (2, 3)]);
    u.set_width(5);
    assert!(u.get_cells().is_empty());
    assert_eq!(u.get_width(), 5);
    assert_eq!(u.get_height(), 8);
}

#[test]
fn set_height_clears_the_board() {
    let mut u = Universe::new(8, 8);
    u.set_cells(&[(2, 1), (2, 2), (2, 3)]);
    u.set_height(11);
    assert!(u.get_cells().is_empty());
    assert_eq!(u.get_width(), 8);
    assert_eq!(u.get_height(), 11);
}

#[test]
fn clear_keeps_dimensions_and_deltas() {
    let mut u = Universe::new(6, 7);
    u.set_cells(&[(1, 1), (2, 2)]);
    u.toggle_cell(3, 3);
    u.clear();
    assert!(u.get_cells().is_empty());
    assert_eq!(u.get_width(), 6);
    assert_eq!(u.get_height(), 7);
    assert_eq!(*u.get_new_alive(), vec![3, 3]);
}

#[test]
fn toggle_flips_liveness_and_records_the_delta() {
    let mut u = Universe::new(8, 8);
    u.toggle_cell(4, 5);
    assert_eq!(sorted_cells(&u), vec![(4, 5)]);
    assert_eq!(*u.get_new_alive(), vec![4, 5]);
    assert_eq!(u.get_new_dead_len(), 0);
}

#[test]
fn toggling_twice_restores_liveness_with_inverse_deltas() {
    let mut u = Universe::new(8, 8);
    u.toggle_cell(4, 4);
    u.toggle_cell(4, 4);
    assert!(u.get_cells().is_empty());
    assert_eq!(*u.get_new_alive(), vec![4, 4]);
    assert_eq!(*u.get_new_dead(), vec![4, 4]);

    let mut v = Universe::new(8, 8);
    v.set_cells(&[(1, 1)]);
    v.toggle_cell(1, 1);
    v.toggle_cell(1, 1);
    assert_eq!(sorted_cells(&v), vec![(1, 1)]);
    assert_eq!(*v.get_new_alive(), vec![1, 1]);
    assert_eq!(*v.get_new_dead(), vec![1, 1]);
}

#[test]
fn blinker_tick_reports_exact_deltas() {
    let mut u = Universe::new(8, 8);
    u.set_cells(&[(2, 1), (2, 2), (2, 3)]);
    u.tick();
    assert_eq!(sorted_cells(&u), vec![(1, 2), (2, 2), (3, 2)]);
    assert_eq!(sorted(decode_pairs(u.get_new_alive())), vec![(1, 2), (3, 2)]);
    assert_eq!(sorted(decode_pairs(u.get_new_dead())), vec![(2, 1), (2, 3)]);
    assert_eq!(*u.get_new_alive(), vec![1, 2, 3, 2]);
    assert_eq!(*u.get_new_dead(), vec![2, 1, 2, 3]);
}

#[test]
fn tick_on_an_empty_grid_changes_nothing() {
    let mut u = Universe::new(8, 8);
    u.tick();
    assert!(u.get_cells().is_empty());
    assert_eq!(u.get_new_alive_len(), 0);
    assert_eq!(u.get_new_dead_len(), 0);
}
