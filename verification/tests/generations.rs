use game_of_life::{Cell, Universe};

fn grid_with(width: u32, height: u32, alive: &[(u32, u32)]) -> Universe {
    let mut universe = Universe::new_empty(width, height).ok().expect("valid dimensions");
    for &(row, col) in alive {
        universe.toggle_cell(row, col);
    }
    universe
}

fn alive_coordinates(universe: &Universe) -> Vec<(u32, u32)> {
    let mut found: Vec<(u32, u32)> = Vec::new();
    let mut row: u32 = 0;
    while row < universe.height() {
        let mut col: u32 = 0;
        while col < universe.width() {
            if universe.cells()[universe.index(row, col)] == Cell::Alive {
                found.push((row, col));
            }
            col += 1;
        }
        row += 1;
    }
    found
}

#[test]
fn advance_keeps_the_dimensions() {
    let shapes: [(u32, u32); 6] = [(1, 1), (1, 9), (9, 1), (2, 2), (8, 8), (13, 5)];
    for &(width, height) in shapes.iter() {
        let mut universe = Universe::new_empty(width, height).ok().expect("valid dimensions");
        universe.toggle_cell(0, 0);
        let cells = (width * height) as usize;
        assert_eq!(universe.cells().len(), cells);
        let mut generation: u32 = 0;
        while generation < 5 {
            universe.tick();
            assert_eq!(universe.width(), width);
            assert_eq!(universe.height(), height);
            assert_eq!(universe.cells().len(), cells);
            generation += 1;
        }
    }
}

#[test]
fn advance_keeps_the_dimensions_of_a_seeded_grid() {
    let mut seed: Vec<Cell> = Vec::new();
    let mut position: u32 = 0;
    while position < 63 {
        seed.push(if (position * 7 + 3) % 5 < 2 { Cell::Alive } else { Cell::Dead });
        position += 1;
    }
    let mut universe = Universe::new(9, 7, seed).ok().expect("9 by 7 fits the glider");
    let mut generation: u32 = 0;
    while generation < 20 {
        universe.tick();
        assert_eq!(universe.width(), 9u32);
        assert_eq!(universe.height(), 7u32);
        assert_eq!(universe.cells().len(), 63usize);
        generation += 1;
    }
}

#[test]
fn origin_is_a_neighbor_across_every_edge() {
    let shapes: [(u32, u32); 4] = [(3, 3), (5, 4), (4, 7), (8, 8)];
    for &(width, height) in shapes.iter() {
        let universe = grid_with(width, height, &[(0, 0)]);
        let last_row = height - 1;
        let last_col = width - 1;
        assert_eq!(universe.live_neighbors(last_row, last_col), 1u8);
        assert_eq!(universe.live_neighbors(last_row, 0), 1u8);
        assert_eq!(universe.live_neighbors(last_row, 1), 1u8);
        assert_eq!(universe.live_neighbors(0, last_col), 1u8);
        assert_eq!(universe.live_neighbors(0, 1), 1u8);
        assert_eq!(universe.live_neighbors(1, last_col), 1u8);
        assert_eq!(universe.live_neighbors(1, 0), 1u8);
        assert_eq!(universe.live_neighbors(1, 1), 1u8);
        assert_eq!(universe.live_neighbors(0, 0), 0u8);
    }
}

#[test]
fn origin_is_no_neighbor_of_distant_cells() {
    let universe = grid_with(6, 6, &[(0, 0)]);
    assert_eq!(universe.live_neighbors(2, 2), 0u8);
    assert_eq!(universe.live_neighbors(3, 0), 0u8);
    assert_eq!(universe.live_neighbors(0, 3), 0u8);
    assert_eq!(universe.live_neighbors(4, 4), 0u8);
}

#[test]
fn live_neighbors_counts_a_full_ring() {
    let ring: [(u32, u32); 8] =
        [(1, 1), (1, 2), (1, 3), (2, 1), (2, 3), (3, 1), (3, 2), (3, 3)];
    let universe = grid_with(5, 5, &ring);
    assert_eq!(universe.live_neighbors(2, 2), 8u8);
    assert_eq!(universe.live_neighbors(1, 1), 2u8);
    assert_eq!(universe.live_neighbors(1, 2), 4u8);
    assert_eq!(universe.live_neighbors(0, 0), 1u8);
}

#[test]
fn live_neighbors_does_not_count_the_cell_itself() {
    let universe = grid_with(5, 5, &[(2, 2)]);
    assert_eq!(universe.live_neighbors(2, 2), 0u8);
}

#[test]
fn live_neighbors_on_a_single_cell_grid() {
    // Every offset leads back to the only cell; the offsets that are zero on
    // both axes are skipped, which leaves five.
    let universe = grid_with(1, 1, &[(0, 0)]);
    assert_eq!(universe.live_neighbors(0, 0), 5u8);
    let empty = grid_with(1, 1, &[]);
    assert_eq!(empty.live_neighbors(0, 0), 0u8);
}

#[test]
fn live_neighbors_on_a_single_row() {
    let universe = grid_with(4, 1, &[(0, 1)]);
    // left and right neighbors are reached through three row offsets each,
    // the cell itself through the one row offset that is not zero
    assert_eq!(universe.live_neighbors(0, 0), 3u8);
    assert_eq!(universe.live_neighbors(0, 2), 3u8);
    assert_eq!(universe.live_neighbors(0, 1), 1u8);
    assert_eq!(universe.live_neighbors(0, 3), 0u8);
}

#[test]
fn live_neighbors_on_two_by_two() {
    let universe = grid_with(2, 2, &[(0, 0)]);
    assert_eq!(universe.live_neighbors(0, 0), 0u8);
    assert_eq!(universe.live_neighbors(0, 1), 2u8);
    assert_eq!(universe.live_neighbors(1, 0), 2u8);
    assert_eq!(universe.live_neighbors(1, 1), 4u8);
}

#[test]
fn single_cell_grid_dies_of_overpopulation() {
    let mut universe = grid_with(1, 1, &[(0, 0)]);
    universe.tick();
    assert_eq!(universe.cells(), &[Cell::Dead][..]);
}

#[test]
fn block_is_a_still_life() {
    let mut universe = grid_with(4, 4, &[(1, 1), (1, 2), (2, 1), (2, 2)]);
    let before: Vec<Cell> = universe.cells().to_vec();
    let mut generation: u32 = 0;
    while generation < 3 {
        universe.tick();
        assert_eq!(universe.cells(), &before[..]);
        generation += 1;
    }
}

#[test]
fn block_cells_have_three_live_neighbors() {
    let universe = grid_with(6, 5, &[(2, 3), (2, 4), (3, 3), (3, 4)]);
    assert_eq!(universe.live_neighbors(2, 3), 3u8);
    assert_eq!(universe.live_neighbors(2, 4), 3u8);
    assert_eq!(universe.live_neighbors(3, 3), 3u8);
    assert_eq!(universe.live_neighbors(3, 4), 3u8);
    let mut row: u32 = 0;
    while row < 5 {
        let mut col: u32 = 0;
        while col < 6 {
            let in_block = (row == 2 || row == 3) && (col == 3 || col == 4);
            if !in_block {
                assert_ne!(universe.live_neighbors(row, col), 3u8);
            }
            col += 1;
        }
        row += 1;
    }
}

#[test]
fn block_across_the_edges_is_a_still_life() {
    let mut universe = grid_with(5, 4, &[(3, 4), (3, 0), (0, 4), (0, 0)]);
    let before: Vec<Cell> = universe.cells().to_vec();
    universe.tick();
    assert_eq!(universe.cells(), &before[..]);
}

#[test]
fn block_is_a_still_life_wherever_it_lies() {
    let mut top: u32 = 0;
    while top < 6 {
        let mut left: u32 = 0;
        while left < 7 {
            let below = (top + 1) % 6;
            let right = (left + 1) % 7;
            let mut universe =
                grid_with(7, 6, &[(top, left), (top, right), (below, left), (below, right)]);
            let before: Vec<Cell> = universe.cells().to_vec();
            universe.tick();
            assert_eq!(universe.cells(), &before[..]);
            left += 1;
        }
        top += 1;
    }
}

#[test]
fn blinker_oscillates_with_period_two() {
    let mut universe = grid_with(5, 5, &[(2, 1), (2, 2), (2, 3)]);
    universe.tick();
    assert_eq!(alive_coordinates(&universe), vec![(1u32, 2u32), (2, 2), (3, 2)]);
    universe.tick();
    assert_eq!(alive_coordinates(&universe), vec![(2u32, 1u32), (2, 2), (2, 3)]);
}

#[test]
fn glider_moves_one_row_and_one_column_in_four_generations() {
    let mut universe = Universe::new(8, 8, vec![Cell::Dead; 64]).ok().expect("8 by 8 fits the glider");
    assert_eq!(alive_coordinates(&universe), vec![(1u32, 2u32), (2, 3), (3, 1), (3, 2), (3, 3)]);
    let mut generation: u32 = 0;
    while generation < 4 {
        universe.tick();
        generation += 1;
    }
    assert_eq!(alive_coordinates(&universe), vec![(2u32, 3u32), (3, 4), (4, 2), (4, 3), (4, 4)]);
}

#[test]
fn glider_generations_one_by_one() {
    let mut universe = Universe::new(8, 8, vec![Cell::Dead; 64]).ok().expect("8 by 8 fits the glider");
    universe.tick();
    assert_eq!(alive_coordinates(&universe), vec![(2u32, 1u32), (2, 3), (3, 2), (3, 3), (4, 2)]);
    universe.tick();
    assert_eq!(alive_coordinates(&universe), vec![(2u32, 3u32), (3, 1), (3, 3), (4, 2), (4, 3)]);
    universe.tick();
    assert_eq!(alive_coordinates(&universe), vec![(2u32, 2u32), (3, 3), (3, 4), (4, 2), (4, 3)]);
    universe.tick();
    assert_eq!(alive_coordinates(&universe), vec![(2u32, 3u32), (3, 4), (4, 2), (4, 3), (4, 4)]);
}

#[test]
fn glider_wraps_around_the_grid() {
    let mut universe = Universe::new(8, 8, vec![Cell::Dead; 64]).ok().expect("8 by 8 fits the glider");
    let seed: Vec<Cell> = universe.cells().to_vec();
    // eight moves of one row and one column bring it back to where it began
    let mut generation: u32 = 0;
    while generation < 32 {
        universe.tick();
        generation += 1;
    }
    assert_eq!(universe.cells(), &seed[..]);
    let mut generation: u32 = 0;
    while generation < 24 {
        universe.tick();
        generation += 1;
    }
    // fourteen moves in all: the same shape, six rows and six columns on
    assert_eq!(alive_coordinates(&universe), vec![(0u32, 1u32), (1, 0), (1, 1), (1, 7), (7, 0)]);
}

#[test]
fn toggle_flips_one_cell_and_no_other() {
    let mut universe = Universe::new(6, 5, vec![Cell::Dead; 30]).ok().expect("6 by 5 fits the glider");
    let before: Vec<Cell> = universe.cells().to_vec();
    universe.toggle_cell(4, 5);
    let after: Vec<Cell> = universe.cells().to_vec();
    let mut position: usize = 0;
    while position < 30 {
        if position == 29 {
            assert_eq!(before[position], Cell::Dead);
            assert_eq!(after[position], Cell::Alive);
        } else {
            assert_eq!(before[position], after[position]);
        }
        position += 1;
    }
}

#[test]
fn toggle_turns_a_live_cell_dead() {
    let mut universe = Universe::new(6, 5, vec![Cell::Dead; 30]).ok().expect("6 by 5 fits the glider");
    universe.toggle_cell(1, 2);
    assert_eq!(universe.cells()[8], Cell::Dead);
    assert_eq!(alive_coordinates(&universe), vec![(2u32, 3u32), (3, 1), (3, 2), (3, 3)]);
}

#[test]
fn toggle_twice_restores_the_grid() {
    let mut universe = Universe::new(6, 5, vec![Cell::Dead; 30]).ok().expect("6 by 5 fits the glider");
    let before: Vec<Cell> = universe.cells().to_vec();
    let mut row: u32 = 0;
    while row < 5 {
        let mut col: u32 = 0;
        while col < 6 {
            universe.toggle_cell(row, col);
            assert_ne!(universe.cells(), &before[..]);
            universe.toggle_cell(row, col);
            assert_eq!(universe.cells(), &before[..]);
            col += 1;
        }
        row += 1;
    }
}

#[test]
fn toggle_changes_the_snapshot_in_exactly_one_place() {
    let mut universe = Universe::new(6, 5, vec![Cell::Dead; 30]).ok().expect("6 by 5 fits the glider");
    let before: Vec<char> = universe.render().chars().collect();
    universe.toggle_cell(2, 4);
    let after: Vec<char> = universe.render().chars().collect();
    assert_eq!(before.len(), after.len());
    let differing: Vec<usize> =
        (0..before.len()).filter(|place| before[*place] != after[*place]).collect();
    // row 2, column 4, seven characters to a line
    assert_eq!(differing, vec![18usize]);
    universe.toggle_cell(2, 4);
    let restored: Vec<char> = universe.render().chars().collect();
    assert_eq!(restored, before);
}

#[test]
fn empty_grid_stays_empty() {
    let shapes: [(u32, u32); 5] = [(1, 1), (2, 3), (4, 4), (8, 8), (17, 3)];
    for &(width, height) in shapes.iter() {
        let mut universe = Universe::new_empty(width, height).ok().expect("valid dimensions");
        let mut generation: u32 = 0;
        while generation < 10 {
            universe.tick();
            assert!(universe.cells().iter().all(|cell| *cell == Cell::Dead));
            generation += 1;
        }
    }
}

#[test]
fn lone_cell_dies() {
    let mut universe = grid_with(5, 5, &[(2, 2)]);
    universe.tick();
    assert!(universe.cells().iter().all(|cell| *cell == Cell::Dead));
}

#[test]
fn three_cells_in_a_corner_give_birth_to_a_block() {
    let mut universe = grid_with(6, 6, &[(1, 1), (1, 2), (2, 1)]);
    universe.tick();
    assert_eq!(alive_coordinates(&universe), vec![(1u32, 1u32), (1, 2), (2, 1), (2, 2)]);
}

#[test]
fn crowded_cell_dies() {
    // a plus sign: the center has four live neighbors
    let mut universe = grid_with(7, 7, &[(2, 3), (3, 2), (3, 3), (3, 4), (4, 3)]);
    assert_eq!(universe.live_neighbors(3, 3), 4u8);
    universe.tick();
    assert_eq!(universe.cells()[universe.index(3, 3)], Cell::Dead);
    assert_eq!(
        alive_coordinates(&universe),
        vec![(2u32, 2u32), (2, 3), (2, 4), (3, 2), (3, 4), (4, 2), (4, 3), (4, 4)]
    );
}

#[test]
fn every_cell_is_judged_by_the_generation_before() {
    // Updated in place from the top left, the middle row of a blinker would
    // see its left end already dead and the result would differ.
    let mut universe = grid_with(5, 5, &[(2, 1), (2, 2), (2, 3)]);
    universe.tick();
    assert_eq!(universe.cells()[universe.index(1, 2)], Cell::Alive);
    assert_eq!(universe.cells()[universe.index(2, 2)], Cell::Alive);
    assert_eq!(universe.cells()[universe.index(3, 2)], Cell::Alive);
    assert_eq!(universe.cells()[universe.index(2, 1)], Cell::Dead);
    assert_eq!(universe.cells()[universe.index(2, 3)], Cell::Dead);
}

#[test]
fn full_grid_dies_at_once() {
    let mut universe = Universe::new(5, 5, vec![Cell::Alive; 25]).ok().expect("5 by 5 fits the glider");
    assert_eq!(universe.live_neighbors(0, 0), 8u8);
    assert_eq!(universe.live_neighbors(4, 2), 8u8);
    universe.tick();
    assert!(universe.cells().iter().all(|cell| *cell == Cell::Dead));
}

#[test]
fn neighbors_wrap_on_a_tall_narrow_grid() {
    let universe = grid_with(1, 5, &[(0, 0)]);
    // the row below the last is the first, reached through all three column offsets
    assert_eq!(universe.live_neighbors(4, 0), 3u8);
    assert_eq!(universe.live_neighbors(1, 0), 3u8);
    assert_eq!(universe.live_neighbors(2, 0), 0u8);
    // the cell itself, through the one column offset that is not zero
    assert_eq!(universe.live_neighbors(0, 0), 1u8);
}
