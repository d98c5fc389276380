use your_game_of_life::Cell;
use your_game_of_life::CellNeighbors;
use your_game_of_life::Life;

fn classic_rule(same: Cell, others: [Cell; 8], _x: usize, _y: usize) -> Cell {
    let alive = others.alive();
    if alive < 2 {
        Cell::dead()
    } else if alive == 2 {
        same
    } else if alive == 3 {
        Cell::alive()
    } else {
        Cell::dead()
    }
}

#[test]
fn new_grid_is_all_dead() {
    let life = Life::new(4, 3);
    assert_eq!(life.width, 4);
    assert_eq!(life.height, 3);
    assert_eq!(life.out_of_bounds, Cell::dead());
    for y in 0..3 {
        for x in 0..4 {
            assert_eq!(life.get(x, y), Cell::dead());
        }
    }
}

#[test]
fn set_then_get_changes_only_that_position() {
    let mut life = Life::new(5, 4);
    let c = Cell { r: 1, g: 2, b: 3 };
    life.set(3, 2, c);
    assert_eq!(life.get(3, 2), c);
    for y in 0..4 {
        for x in 0..5 {
            if (x, y) != (3, 2) {
                assert_eq!(life.get(x, y), Cell::dead());
            }
        }
    }
}

#[test]
fn get_ref_and_get_mut_access_the_same_cell() {
    let mut life = Life::new(2, 2);
    *life.get_mut(1, 0) = Cell::red();
    assert_eq!(*life.get_ref(1, 0), Cell::red());
    assert_eq!(life.get(1, 0), Cell::red());
    assert_eq!(life.get(0, 0), Cell::dead());
    assert_eq!(life.get(0, 1), Cell::dead());
    assert_eq!(life.get(1, 1), Cell::dead());
}

#[test]
fn neighbors_come_in_fixed_order() {
    let mut life = Life::new(3, 3);
    for y in 0..3 {
        for x in 0..3 {
            life.set(x, y, Cell::all((10 + y * 3 + x) as u8));
        }
    }
    let around = life.get_surrounding(1, 1);
    assert_eq!(around[0], life.get(0, 0)); // top-left
    assert_eq!(around[1], life.get(1, 0)); // top
    assert_eq!(around[2], life.get(2, 0)); // top-right
    assert_eq!(around[3], life.get(0, 1)); // left
    assert_eq!(around[4], life.get(2, 1)); // right
    assert_eq!(around[5], life.get(0, 2)); // bottom-left
    assert_eq!(around[6], life.get(1, 2)); // bottom
    assert_eq!(around[7], life.get(2, 2)); // bottom-right
    assert_eq!(around.top_left(), life.get(0, 0));
    assert_eq!(around.bottom_right(), life.get(2, 2));
}

#[test]
fn corner_neighbors_substitute_out_of_bounds() {
    let mut life = Life::new(4, 3);
    let fill = Cell { r: 7, g: 8, b: 9 };
    life.out_of_bounds = fill;
    life.set(1, 0, Cell::all(1));
    life.set(0, 1, Cell::all(2));
    life.set(1, 1, Cell::all(3));
    let around = life.get_surrounding(0, 0);
    assert_eq!(around[0], fill); // top-left is outside
    assert_eq!(around[1], fill); // top is outside
    assert_eq!(around[2], fill); // top-right is outside
    assert_eq!(around[3], fill); // left is outside
    assert_eq!(around[4], Cell::all(1)); // right is (1, 0)
    assert_eq!(around[5], fill); // bottom-left is outside
    assert_eq!(around[6], Cell::all(2)); // bottom is (0, 1)
    assert_eq!(around[7], Cell::all(3)); // bottom-right is (1, 1)
}

#[test]
fn bottom_edge_is_checked_against_height() {
    // A wide, short grid: for a cell on the bottom row the bottom neighbor
    // is outside even though y + 1 < width.
    let mut life = Life::new(5, 2);
    let fill = Cell { r: 99, g: 0, b: 0 };
    life.out_of_bounds = fill;
    life.set(2, 0, Cell::all(20));
    let around = life.get_surrounding(2, 1);
    assert_eq!(around[1], Cell::all(20)); // top is (2, 0)
    assert_eq!(around[5], fill); // bottom-left is outside
    assert_eq!(around[6], fill); // bottom is outside
    assert_eq!(around[7], fill); // bottom-right is outside
}

#[test]
fn classic_life_one_step_from_x_pattern() {
    let alive = Cell::alive();
    let dead = Cell::dead();
    let mut life = Life::from_rows(
        3,
        3,
        &vec![
            vec![alive, dead, alive],
            vec![dead, alive, dead],
            vec![alive, dead, alive],
        ],
    );
    life.play(&classic_rule);
    // Corners have 1 alive neighbor: die. Edges have 3: become alive.
    // The center has 4: dies.
    let expected = [
        [dead, alive, dead],
        [alive, dead, alive],
        [dead, alive, dead],
    ];
    for y in 0..3 {
        for x in 0..3 {
            assert_eq!(life.get(x, y), expected[y][x], "at ({x}, {y})");
        }
    }
}

#[test]
fn play_for_equals_repeated_play() {
    let rows = vec![
        vec![false, true, false, false],
        vec![false, false, true, false],
        vec![true, true, true, false],
        vec![false, false, false, false],
    ];
    let mut batched = Life::from_rows(4, 4, &rows);
    let mut manual = Life::from_rows(4, 4, &rows);
    batched.play_for(3, &classic_rule);
    manual.play(&classic_rule);
    manual.play(&classic_rule);
    manual.play(&classic_rule);
    assert_eq!(batched, manual);
}

#[test]
fn play_for_zero_is_a_no_op() {
    let rows = vec![vec![true, false], vec![false, true]];
    let mut life = Life::from_rows(2, 2, &rows);
    let before = life.clone();
    life.play_for(0, &classic_rule);
    assert_eq!(life, before);
}

#[test]
fn still_life_block_is_unchanged() {
    // A 2x2 block of alive cells inside a 4x4 grid is a still life under
    // the classic rule.
    let rows = vec![
        vec![false, false, false, false],
        vec![false, true, true, false],
        vec![false, true, true, false],
        vec![false, false, false, false],
    ];
    let mut life = Life::from_rows(4, 4, &rows);
    let before = life.clone();
    for _ in 0..5 {
        life.play(&classic_rule);
        assert_eq!(life, before);
    }
    life.play_for(7, &classic_rule);
    assert_eq!(life, before);
}

#[test]
fn blinker_oscillates_with_period_two() {
    let rows = vec![
        vec![false, false, false, false, false],
        vec![false, false, false, false, false],
        vec![false, true, true, true, false],
        vec![false, false, false, false, false],
        vec![false, false, false, false, false],
    ];
    let horizontal = Life::from_rows(5, 5, &rows);
    let mut life = horizontal.clone();
    life.play(&classic_rule);
    // After one step the row becomes a column.
    for y in 0..5 {
        for x in 0..5 {
            let expected = x == 2 && (1..=3).contains(&y);
            assert_eq!(life.get(x, y).is_alive(), expected, "at ({x}, {y})");
        }
    }
    life.play(&classic_rule);
    assert_eq!(life, horizontal);
    // play_for goes through the intermediate generation too: an odd count
    // leaves the column, an even count the row.
    let mut batched = horizontal.clone();
    batched.play_for(5, &classic_rule);
    assert_eq!(batched.get(2, 1).is_alive(), true);
    assert_eq!(batched.get(1, 2).is_alive(), false);
    batched.play_for(5, &classic_rule);
    assert_eq!(batched, horizontal);
}

#[test]
fn rule_receives_its_own_coordinates() {
    let mut life = Life::new(3, 2);
    life.play(&|_c: Cell, _ns: [Cell; 8], x: usize, y: usize| Cell {
        r: x as u8,
        g: y as u8,
        b: 0,
    });
    for y in 0..2 {
        for x in 0..3 {
            assert_eq!(life.get(x, y), Cell { r: x as u8, g: y as u8, b: 0 });
        }
    }
}

#[test]
fn rule_reads_the_previous_generation_only() {
    // Each cell becomes its right neighbor; with a distinct color per
    // column this shows every position read the old generation, whatever
    // order the engine visited the positions in.
    let mut life = Life::new(3, 1);
    life.set(0, 0, Cell::all(1));
    life.set(1, 0, Cell::all(2));
    life.set(2, 0, Cell::all(3));
    life.out_of_bounds = Cell::all(50);
    life.play(&|_c: Cell, ns: [Cell; 8], _x: usize, _y: usize| ns.right());
    assert_eq!(life.get(0, 0), Cell::all(2));
    assert_eq!(life.get(1, 0), Cell::all(3));
    assert_eq!(life.get(2, 0), Cell::all(50));
}

#[test]
fn from_rows_truncates_larger_sources() {
    let rows = vec![
        vec![1u8, 2, 3, 4],
        vec![5, 6, 7, 8],
        vec![9, 10, 11, 12],
    ];
    let life = Life::from_rows(2, 2, &rows);
    assert_eq!(life.get(0, 0), Cell::all(1));
    assert_eq!(life.get(1, 0), Cell::all(2));
    assert_eq!(life.get(0, 1), Cell::all(5));
    assert_eq!(life.get(1, 1), Cell::all(6));
}

#[test]
fn from_rows_fills_missing_positions_with_dead() {
    let rows = vec![vec![(255u8, 0u8, 0u8)]];
    let life = Life::from_rows(3, 3, &rows);
    assert_eq!(life.get(0, 0), Cell::red());
    for y in 0..3 {
        for x in 0..3 {
            if (x, y) != (0, 0) {
                assert_eq!(life.get(x, y), Cell::dead());
            }
        }
    }
}

#[test]
fn from_rows_handles_ragged_sources() {
    let rows = vec![vec![true, true, true], vec![true], vec![]];
    let life = Life::from_rows(2, 3, &rows);
    assert_eq!(life.get(0, 0), Cell::alive());
    assert_eq!(life.get(1, 0), Cell::alive());
    assert_eq!(life.get(0, 1), Cell::alive());
    assert_eq!(life.get(1, 1), Cell::dead());
    assert_eq!(life.get(0, 2), Cell::dead());
    assert_eq!(life.get(1, 2), Cell::dead());
}

#[test]
fn rule_may_capture_from_its_context() {
    let color = Cell { r: 17, g: 34, b: 51 };
    let mut life = Life::new(2, 3);
    life.play(&move |_c: Cell, _ns: [Cell; 8], _x: usize, _y: usize| color);
    for y in 0..3 {
        for x in 0..2 {
            assert_eq!(life.get(x, y), color);
        }
    }
}

#[test]
fn out_of_bounds_is_settable_between_steps() {
    let mut life = Life::new(1, 1);
    life.out_of_bounds = Cell::alive();
    life.play(&classic_rule);
    // The lone cell sees 8 alive out-of-bounds neighbors: it dies (stays
    // dead).
    assert_eq!(life.get(0, 0), Cell::dead());
    life.out_of_bounds = Cell::dead();
    life.set(0, 0, Cell::alive());
    life.play(&classic_rule);
    // Now it sees 0 alive neighbors: it dies.
    assert_eq!(life.get(0, 0), Cell::dead());
}
