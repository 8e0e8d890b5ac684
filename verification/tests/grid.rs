use game_of_life::Cell;
use game_of_life::Universe;

fn dead_grid(width: u32, height: u32) -> Universe {
    let flags = vec![false; (width * height) as usize];
    Universe::new(width, height, &flags)
}

fn alive_coords(u: &Universe) -> Vec<(u32, u32)> {
    let mut out = Vec::new();
    for row in 0..u.height() {
        for column in 0..u.width() {
            if u.get_cells()[(row * u.width() + column) as usize] == Cell::Alive {
                out.push((row, column));
            }
        }
    }
    out
}

#[test]
fn new_takes_flags_row_major() {
    let flags = vec![true, false, false, true];
    let u = Universe::new(2, 2, &flags);
    assert_eq!(u.width(), 2);
    assert_eq!(u.height(), 2);
    assert_eq!(
        u.get_cells(),
        &[Cell::Alive, Cell::Dead, Cell::Dead, Cell::Alive]
    );
}

#[test]
fn toroidal_wrap_counts_last_row() {
    // Live cells fill the last row; the cell at (0, 1) sees all three of
    // them through the wrap and is born.
    let mut u = dead_grid(3, 3);
    u.set_cells_alive(&[(2, 0), (2, 1), (2, 2)]);
    assert_eq!(u.get_cells()[1], Cell::Dead);
    u.tick();
    assert_eq!(u.get_cells()[1], Cell::Alive);
}

#[test]
fn toroidal_wrap_counts_last_column() {
    // Live cells fill the last column; the cell at (1, 0) sees all three of
    // them through the wrap and is born.
    let mut u = dead_grid(3, 3);
    u.set_cells_alive(&[(0, 2), (1, 2), (2, 2)]);
    assert_eq!(u.get_cells()[3], Cell::Dead);
    u.tick();
    assert_eq!(u.get_cells()[3], Cell::Alive);
}

#[test]
fn underpopulation_kills_lone_and_paired_cells() {
    let mut u = dead_grid(5, 5);
    u.set_cells_alive(&[(2, 2)]);
    u.tick();
    assert_eq!(alive_coords(&u), Vec::<(u32, u32)>::new());

    let mut v = dead_grid(5, 5);
    v.set_cells_alive(&[(2, 2), (2, 3)]);
    v.tick();
    assert_eq!(alive_coords(&v), Vec::<(u32, u32)>::new());
}

#[test]
fn survival_keeps_a_block_still() {
    // Each cell of a two-by-two block has exactly three live neighbors.
    let mut u = dead_grid(5, 5);
    u.set_cells_alive(&[(1, 1), (1, 2), (2, 1), (2, 2)]);
    u.tick();
    assert_eq!(alive_coords(&u), vec![(1, 1), (1, 2), (2, 1), (2, 2)]);
}

#[test]
fn overpopulation_kills_crowded_center() {
    // The center of a plus shape has four live neighbors and dies.
    let mut u = dead_grid(5, 5);
    u.set_cells_alive(&[(1, 2), (2, 1), (2, 2), (2, 3), (3, 2)]);
    u.tick();
    let after = alive_coords(&u);
    assert!(!after.contains(&(2, 2)));
}

#[test]
fn birth_needs_exactly_three_neighbors() {
    let mut u = dead_grid(5, 5);
    u.set_cells_alive(&[(1, 1), (1, 2), (1, 3)]);
    u.tick();
    let after = alive_coords(&u);
    assert!(after.contains(&(0, 2)));
    assert!(after.contains(&(2, 2)));
}

#[test]
fn dead_cells_stay_dead_without_three_neighbors() {
    let mut u = dead_grid(5, 5);
    u.set_cells_alive(&[(0, 0), (0, 1)]);
    u.tick();
    let after = alive_coords(&u);
    // (0, 2) has two live neighbors, (3, 3) has none: both stay dead.
    assert!(!after.contains(&(0, 2)));
    assert!(!after.contains(&(3, 3)));
}

#[test]
fn set_width_resets_all_cells() {
    let mut u = dead_grid(3, 3);
    u.set_cells_alive(&[(0, 0), (1, 1), (2, 2)]);
    u.set_width(4);
    assert_eq!(u.width(), 4);
    assert_eq!(u.height(), 3);
    assert_eq!(u.get_cells().len(), 12);
    assert!(u.get_cells().iter().all(|&c| c == Cell::Dead));
}

#[test]
fn set_height_resets_all_cells() {
    let mut u = dead_grid(3, 3);
    u.set_cells_alive(&[(0, 0), (1, 1), (2, 2)]);
    u.set_height(2);
    assert_eq!(u.width(), 3);
    assert_eq!(u.height(), 2);
    assert_eq!(u.get_cells().len(), 6);
    assert!(u.get_cells().iter().all(|&c| c == Cell::Dead));
}

#[test]
fn toggle_changes_only_one_cell() {
    let flags = vec![true, false, true, false, true, false, true, false, true];
    let mut u = Universe::new(3, 3, &flags);
    let before: Vec<Cell> = u.get_cells().to_vec();
    u.toggle_cell(1, 1);
    let after: Vec<Cell> = u.get_cells().to_vec();
    for i in 0..9 {
        if i == 4 {
            assert_ne!(after[i], before[i]);
        } else {
            assert_eq!(after[i], before[i]);
        }
    }
    u.toggle_cell(1, 1);
    assert_eq!(u.get_cells(), &before[..]);
}

#[test]
fn set_cells_alive_leaves_others_alone() {
    let mut u = dead_grid(3, 3);
    u.toggle_cell(0, 1);
    u.set_cells_alive(&[(0, 0), (2, 2)]);
    assert_eq!(alive_coords(&u), vec![(0, 0), (0, 1), (2, 2)]);
    u.set_cells_alive(&[]);
    assert_eq!(alive_coords(&u), vec![(0, 0), (0, 1), (2, 2)]);
}

#[test]
fn render_maps_cells_to_squares() {
    let mut u = dead_grid(2, 2);
    u.set_cells_alive(&[(0, 0)]);
    assert_eq!(u.render(), "◼◻◻◻");
    let all_dead = dead_grid(2, 2);
    assert_eq!(all_dead.render(), "◻◻◻◻");
}

#[test]
fn blinker_oscillates_on_five_grid() {
    // A vertical blinker in the interior of a 5x5 grid, away from the wrap,
    // turns horizontal after one generation and back after two. The first
    // generation only comes out right because every next state is computed
    // from the frozen previous generation.
    let mut u = dead_grid(5, 5);
    u.set_cells_alive(&[(1, 2), (2, 2), (3, 2)]);
    u.tick();
    assert_eq!(alive_coords(&u), vec![(2, 1), (2, 2), (2, 3)]);
    u.tick();
    assert_eq!(alive_coords(&u), vec![(1, 2), (2, 2), (3, 2)]);
}

#[test]
fn full_column_floods_three_torus() {
    // On a 3x3 torus a full column is no blinker: every dead cell sees the
    // whole column through the wraps (three live neighbors) and is born,
    // while the column itself survives; one generation later the full grid
    // dies of overpopulation.
    let mut u = dead_grid(3, 3);
    u.set_cells_alive(&[(0, 1), (1, 1), (2, 1)]);
    u.tick();
    assert_eq!(alive_coords(&u).len(), 9);
    u.tick();
    assert_eq!(alive_coords(&u), Vec::<(u32, u32)>::new());
}
