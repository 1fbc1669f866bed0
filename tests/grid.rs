use life_grid::universe::Universe;

fn dead(width: u32, height: u32) -> Universe {
    let draws = vec![false; (width * height) as usize];
    Universe::new(width, height, &draws)
}

fn live_cells(u: &Universe) -> Vec<(u32, u32)> {
    let mut out = Vec::new();
    for row in 0..u.height() {
        for col in 0..u.width() {
            if u.get_cells().contains(u.get_index(row, col)) {
                out.push((row, col));
            }
        }
    }
    out
}

#[test]
fn center_cell_is_every_border_cells_single_neighbor() {
    let mut u = dead(3, 3);
    u.turn_cell_on(1, 1);
    for row in 0..3 {
        for col in 0..3 {
            if (row, col) != (1, 1) {
                assert_eq!(u.live_neighbor_count(row, col), 1, "cell ({}, {})", row, col);
            }
        }
    }
    assert_eq!(u.live_neighbor_count(1, 1), 0);
}

#[test]
fn center_sees_eight_live_border_cells() {
    let mut u = dead(3, 3);
    u.set_cells(&[(0, 0), (0, 1), (0, 2), (1, 0), (1, 2), (2, 0), (2, 1), (2, 2)]);
    assert_eq!(u.live_neighbor_count(1, 1), 8);
}

#[test]
fn single_cell_torus_counts_itself_eight_times() {
    let mut u = Universe::new(1, 1, &[true]);
    assert_eq!(u.live_neighbor_count(0, 0), 8);
    u.tick();
    assert_eq!(live_cells(&u), vec![]);
}

#[test]
fn neighbor_count_wraps_across_edges() {
    let mut u = dead(5, 4);
    u.set_cells(&[(3, 4), (0, 4), (3, 0)]);
    assert_eq!(u.live_neighbor_count(0, 0), 3);
    assert_eq!(u.live_neighbor_count(1, 1), 0);
}

#[test]
fn blinker_has_period_two() {
    let mut u = dead(5, 5);
    u.set_cells(&[(2, 1), (2, 2), (2, 3)]);
    u.tick();
    assert_eq!(live_cells(&u), vec![(1, 2), (2, 2), (3, 2)]);
    u.tick();
    assert_eq!(live_cells(&u), vec![(2, 1), (2, 2), (2, 3)]);
}

#[test]
fn block_is_a_still_life() {
    let mut u = dead(6, 6);
    u.set_cells(&[(2, 2), (2, 3), (3, 2), (3, 3)]);
    for _ in 0..5 {
        u.tick();
        assert_eq!(live_cells(&u), vec![(2, 2), (2, 3), (3, 2), (3, 3)]);
    }
}

#[test]
fn block_across_the_corner_is_a_still_life() {
    let mut u = dead(6, 6);
    u.set_cells(&[(5, 5), (5, 0), (0, 5), (0, 0)]);
    for _ in 0..4 {
        u.tick();
        assert_eq!(live_cells(&u), vec![(0, 0), (0, 5), (5, 0), (5, 5)]);
    }
}

#[test]
fn glider_moves_one_cell_diagonally_in_four_generations() {
    let mut u = dead(8, 8);
    u.set_cells(&[(0, 1), (1, 2), (2, 0), (2, 1), (2, 2)]);
    for _ in 0..4 {
        u.tick();
    }
    assert_eq!(live_cells(&u), vec![(1, 2), (2, 3), (3, 1), (3, 2), (3, 3)]);
}

#[test]
fn reproduction_needs_exactly_three() {
    let mut u = dead(6, 6);
    u.set_cells(&[(1, 1), (1, 3), (3, 2)]);
    u.tick();
    assert_eq!(live_cells(&u), vec![(2, 2)]);
}

#[test]
fn overpopulated_cell_dies() {
    let mut u = dead(7, 7);
    u.set_cells(&[(3, 3), (2, 2), (2, 3), (2, 4), (3, 2)]);
    assert_eq!(u.live_neighbor_count(3, 3), 4);
    u.tick();
    assert!(!u.get_cells().contains(u.get_index(3, 3)));
}

#[test]
fn set_width_clears_every_cell() {
    let mut u = Universe::new(3, 2, &[true, true, false, true, false, true]);
    u.set_width(4);
    assert_eq!(u.width(), 4);
    assert_eq!(u.height(), 2);
    assert_eq!(u.get_cells().len(), 8);
    assert_eq!(u.get_cells().count_ones(..), 0);
}

#[test]
fn set_height_clears_every_cell() {
    let mut u = Universe::new(3, 2, &[true, true, true, true, true, true]);
    u.set_height(5);
    assert_eq!(u.width(), 3);
    assert_eq!(u.height(), 5);
    assert_eq!(u.get_cells().len(), 15);
    assert_eq!(live_cells(&u), vec![]);
}

#[test]
fn resize_to_zero_gives_an_empty_grid() {
    let mut u = Universe::new(2, 2, &[true, false, false, true]);
    u.set_width(0);
    assert_eq!(u.get_cells().len(), 0);
    assert_eq!(u.render(), "");
    u.tick();
    assert_eq!(u.get_cells().len(), 0);
}

#[test]
fn set_cells_only_adds() {
    let mut u = dead(4, 3);
    u.turn_cell_on(0, 0);
    u.turn_cell_on(2, 3);
    u.set_cells(&[(1, 1), (2, 3), (1, 1)]);
    assert_eq!(live_cells(&u), vec![(0, 0), (1, 1), (2, 3)]);
}

#[test]
fn render_has_height_lines_of_width_glyphs() {
    let u = Universe::new(3, 2, &[true, false, false, false, true, false]);
    let text = u.render();
    assert_eq!(text, "\u{25FB}\u{25FC}\u{25FC}\n\u{25FC}\u{25FB}\u{25FC}");
    let lines: Vec<&str> = text.split('\n').collect();
    assert_eq!(lines.len(), 2);
    for line in &lines {
        assert_eq!(line.chars().count(), 3);
    }
    let mut glyphs: Vec<char> = text.chars().filter(|c| *c != '\n').collect();
    glyphs.sort();
    glyphs.dedup();
    assert_eq!(glyphs.len(), 2);
}

#[test]
fn render_of_one_row_has_no_newline() {
    let u = Universe::new(4, 1, &[false, true, true, false]);
    assert_eq!(u.render(), "\u{25FC}\u{25FB}\u{25FB}\u{25FC}");
}

#[test]
fn clear_twice_equals_clear_once() {
    let mut u = Universe::new(3, 3, &[true, false, true, false, true, false, true, true, true]);
    u.clear();
    let once = u.render();
    assert_eq!(live_cells(&u), vec![]);
    u.clear();
    assert_eq!(u.render(), once);
    assert_eq!(live_cells(&u), vec![]);
    assert_eq!((u.width(), u.height()), (3, 3));
}

#[test]
fn get_index_is_row_major() {
    let u = dead(5, 4);
    assert_eq!(u.get_index(0, 0), 0);
    assert_eq!(u.get_index(2, 3), 13);
    assert_eq!(u.get_index(3, 4), 19);
}

#[test]
fn new_takes_cells_from_draws() {
    let u = Universe::new(2, 3, &[false, true, true, false, false, true]);
    assert_eq!(u.width(), 2);
    assert_eq!(u.height(), 3);
    assert_eq!(live_cells(&u), vec![(0, 1), (1, 0), (2, 1)]);
}

#[test]
fn random_seed_redraws_every_cell() {
    let mut u = Universe::new(2, 2, &[true, true, true, true]);
    u.random_seed(&[false, true, false, false]);
    assert_eq!(live_cells(&u), vec![(0, 1)]);
    assert_eq!((u.width(), u.height()), (2, 2));
}

#[test]
fn toggle_and_turn_on_off() {
    let mut u = dead(3, 3);
    u.toggle_cell(1, 2);
    assert_eq!(live_cells(&u), vec![(1, 2)]);
    u.toggle_cell(1, 2);
    assert_eq!(live_cells(&u), vec![]);
    u.turn_cell_on(2, 0);
    u.turn_cell_on(2, 0);
    assert_eq!(live_cells(&u), vec![(2, 0)]);
    u.turn_cell_off(2, 0);
    u.turn_cell_off(0, 0);
    assert_eq!(live_cells(&u), vec![]);
}

#[test]
fn cells_exposes_packed_blocks() {
    let mut u = dead(8, 5);
    u.set_cells(&[(0, 0), (0, 3), (4, 1)]);
    assert_eq!(u.cells(), &[9u32, 2u32][..]);
}
