use game_of_life::grid::live_neighbor_count;
use game_of_life::{height, width, Cell, Universe, HEIGHT, WIDTH};

fn alive_positions(u: &Universe) -> Vec<(u32, u32)> {
    let mut out = Vec::new();
    for row in 0..u.height() {
        for col in 0..u.width() {
            if u.get_cells()[u.get_index(row, col)] == Cell::Alive {
                out.push((row, col));
            }
        }
    }
    out
}

#[test]
fn index_is_row_major() {
    let u = Universe::new();
    assert_eq!(u.get_index(0, 0), 0);
    assert_eq!(u.get_index(0, 255), 255);
    assert_eq!(u.get_index(1, 0), 256);
    assert_eq!(u.get_index(127, 255), 256 * 128 - 1);
    assert_eq!(u.get_index(3, 7), 3 * 256 + 7);
}

#[test]
fn index_is_injective_on_small_grid() {
    let u = Universe::with_size(5, 3);
    let mut seen = vec![false; 15];
    for row in 0..3 {
        for col in 0..5 {
            let i = u.get_index(row, col);
            assert!(!seen[i]);
            seen[i] = true;
        }
    }
    assert!(seen.iter().all(|s| *s));
}

#[test]
fn default_dimensions() {
    assert_eq!(width(), 256);
    assert_eq!(height(), 128);
    assert_eq!(WIDTH, 256);
    assert_eq!(HEIGHT, 128);
    let u = Universe::new();
    assert_eq!(u.width(), 256);
    assert_eq!(u.height(), 128);
    assert_eq!(u.get_cells().len(), 256 * 128);
    assert!(u.get_cells().iter().all(|c| *c == Cell::Dead));
}

#[test]
fn corner_sees_opposite_corner() {
    let mut u = Universe::new();
    u.toggle_cell(HEIGHT - 1, WIDTH - 1);
    assert_eq!(u.live_neighbor_count(0, 0), 1);
    assert_eq!(u.live_neighbor_count(HEIGHT - 1, 0), 1);
    assert_eq!(u.live_neighbor_count(0, WIDTH - 1), 1);
    assert_eq!(u.live_neighbor_count(HEIGHT - 2, WIDTH - 2), 1);
    assert_eq!(u.live_neighbor_count(1, 1), 0);
    assert_eq!(u.live_neighbor_count(HEIGHT - 1, WIDTH - 1), 0);
}

#[test]
fn every_corner_wraps() {
    let mut u = Universe::with_size(6, 5);
    u.set_cells(&[(0, 0), (0, 5), (4, 0), (4, 5)]);
    assert_eq!(u.live_neighbor_count(0, 0), 3);
    assert_eq!(u.live_neighbor_count(0, 5), 3);
    assert_eq!(u.live_neighbor_count(4, 0), 3);
    assert_eq!(u.live_neighbor_count(4, 5), 3);
    assert_eq!(u.live_neighbor_count(2, 0), 0);
}

#[test]
fn edges_wrap() {
    let mut u = Universe::with_size(6, 5);
    u.set_cells(&[(2, 5)]);
    assert_eq!(u.live_neighbor_count(2, 0), 1);
    assert_eq!(u.live_neighbor_count(1, 0), 1);
    assert_eq!(u.live_neighbor_count(3, 0), 1);
    u.set_cells(&[(4, 3)]);
    assert_eq!(u.live_neighbor_count(0, 3), 1);
    assert_eq!(u.live_neighbor_count(0, 2), 1);
    assert_eq!(u.live_neighbor_count(0, 4), 1);
}

#[test]
fn all_alive_counts_eight() {
    let mut u = Universe::with_size(3, 3);
    let mut coords = Vec::new();
    for row in 0..3 {
        for col in 0..3 {
            coords.push((row, col));
        }
    }
    u.set_cells(&coords);
    let cells = u.get_cells();
    assert_eq!(live_neighbor_count(cells, 3, 3, 1, 1), 8);
    assert_eq!(live_neighbor_count(cells, 3, 3, 0, 0), 8);
}

#[test]
fn rule_table() {
    for n in 0..=8u8 {
        let alive_next = Cell::Alive.next_state(n);
        let dead_next = Cell::Dead.next_state(n);
        if n == 2 || n == 3 {
            assert_eq!(alive_next, Cell::Alive);
        } else {
            assert_eq!(alive_next, Cell::Dead);
        }
        if n == 3 {
            assert_eq!(dead_next, Cell::Alive);
        } else {
            assert_eq!(dead_next, Cell::Dead);
        }
    }
}

#[test]
fn lone_cell_dies() {
    let mut u = Universe::with_size(8, 8);
    u.set_cells(&[(4, 4)]);
    u.tick();
    assert!(alive_positions(&u).is_empty());
}

#[test]
fn cell_with_one_neighbor_dies() {
    let mut u = Universe::with_size(8, 8);
    u.set_cells(&[(4, 4), (4, 5)]);
    u.tick();
    assert!(alive_positions(&u).is_empty());
}

#[test]
fn cell_with_two_or_three_neighbors_survives() {
    let mut u = Universe::with_size(8, 8);
    u.set_cells(&[(4, 3), (4, 4), (4, 5)]);
    u.tick();
    assert_eq!(alive_positions(&u), vec![(3, 4), (4, 4), (5, 4)]);
    let mut v = Universe::with_size(8, 8);
    v.set_cells(&[(3, 3), (3, 5), (4, 4), (5, 4)]);
    v.tick();
    assert_eq!(v.get_cells()[v.get_index(4, 4)], Cell::Alive);
}

#[test]
fn crowded_cell_dies() {
    let mut u = Universe::with_size(8, 8);
    u.set_cells(&[(4, 4), (3, 3), (3, 5), (5, 3), (5, 5)]);
    u.tick();
    assert_eq!(u.get_cells()[u.get_index(4, 4)], Cell::Dead);
}

#[test]
fn dead_cell_with_three_neighbors_is_born() {
    let mut u = Universe::with_size(8, 8);
    u.set_cells(&[(3, 3), (3, 5), (5, 4)]);
    u.tick();
    assert_eq!(u.get_cells()[u.get_index(4, 4)], Cell::Alive);
    let mut v = Universe::with_size(8, 8);
    v.set_cells(&[(3, 3), (3, 5), (5, 4), (5, 5)]);
    v.tick();
    assert_eq!(v.get_cells()[v.get_index(4, 4)], Cell::Dead);
}

#[test]
fn block_is_stable_on_default_grid() {
    let mut u = Universe::new();
    let block = vec![(0, 0), (0, 255), (127, 0), (127, 255)];
    u.set_cells(&block);
    let mut expected = block.clone();
    expected.sort();
    for _ in 0..5 {
        u.tick();
        assert_eq!(alive_positions(&u), expected);
    }
}

#[test]
fn block_on_four_by_four_stays_for_three_ticks() {
    let mut u = Universe::with_size(4, 4);
    u.set_cells(&[(1, 1), (1, 2), (2, 1), (2, 2)]);
    for _ in 0..3 {
        u.tick();
        for row in 0..4 {
            for col in 0..4 {
                let alive = (row == 1 || row == 2) && (col == 1 || col == 2);
                let expected = if alive { Cell::Alive } else { Cell::Dead };
                assert_eq!(u.get_cells()[u.get_index(row, col)], expected);
            }
        }
    }
}

#[test]
fn initialize_seeds_even_and_sevens() {
    let mut u = Universe::new();
    u.initialize();
    let cells = u.get_cells();
    assert_eq!(cells.len(), 256 * 128);
    for (i, c) in cells.iter().enumerate() {
        let expected = if i % 2 == 0 || i % 7 == 0 { Cell::Alive } else { Cell::Dead };
        assert_eq!(*c, expected);
    }
    assert_eq!(cells[7], Cell::Alive);
    assert_eq!(cells[9], Cell::Dead);
    assert_eq!(cells[21], Cell::Alive);
}

#[test]
fn initialize_is_reproducible() {
    let mut a = Universe::new();
    a.initialize();
    let mut b = Universe::new();
    b.initialize();
    b.initialize();
    assert_eq!(a.get_cells(), b.get_cells());
    a.tick();
    a.initialize();
    assert_eq!(a.get_cells(), b.get_cells());
}

#[test]
fn tick_reads_only_the_old_generation() {
    let mut u = Universe::with_size(6, 6);
    u.set_cells(&[(2, 1), (2, 2), (2, 3)]);
    let before = u.get_cells().to_vec();
    u.tick();
    let after = u.get_cells().to_vec();
    assert_eq!(alive_positions(&u), vec![(1, 2), (2, 2), (3, 2)]);
    u.toggle_cell(0, 0);
    assert_eq!(u.get_cells()[0], Cell::Alive);
    for i in 1..after.len() {
        assert_eq!(u.get_cells()[i], after[i]);
    }
    let mut w = Universe::with_size(6, 6);
    w.set_cells(&[(2, 1), (2, 2), (2, 3)]);
    assert_eq!(w.get_cells(), &before[..]);
    w.tick();
    assert_eq!(w.get_cells(), &after[..]);
}

#[test]
fn blinker_oscillates() {
    let mut u = Universe::with_size(5, 5);
    u.set_cells(&[(2, 1), (2, 2), (2, 3)]);
    u.tick();
    assert_eq!(alive_positions(&u), vec![(1, 2), (2, 2), (3, 2)]);
    u.tick();
    assert_eq!(alive_positions(&u), vec![(2, 1), (2, 2), (2, 3)]);
}

#[test]
fn set_cells_sets_only_listed() {
    let mut u = Universe::with_size(4, 3);
    u.toggle_cell(0, 0);
    u.set_cells(&[(1, 2), (1, 2), (2, 3)]);
    assert_eq!(alive_positions(&u), vec![(0, 0), (1, 2), (2, 3)]);
    u.set_cells(&[(0, 0)]);
    assert_eq!(alive_positions(&u), vec![(0, 0), (1, 2), (2, 3)]);
    u.set_cells(&[]);
    assert_eq!(alive_positions(&u), vec![(0, 0), (1, 2), (2, 3)]);
}

#[test]
fn toggle_cell_flips_twice_back() {
    let mut u = Universe::with_size(4, 3);
    u.toggle_cell(2, 3);
    assert_eq!(u.get_cells()[11], Cell::Alive);
    assert_eq!(alive_positions(&u), vec![(2, 3)]);
    u.toggle_cell(2, 3);
    assert!(alive_positions(&u).is_empty());
}

#[test]
fn cell_toggle_and_byte() {
    let mut c = Cell::Dead;
    assert_eq!(c.as_u8(), 0);
    c.toggle();
    assert_eq!(c, Cell::Alive);
    assert_eq!(c.as_u8(), 1);
    c.toggle();
    assert_eq!(c, Cell::Dead);
}
