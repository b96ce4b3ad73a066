use game_of_life::{Cell, Universe};

#[test]
fn universe_displays_correctly() {
    let universe = Universe {
        width: 4,
        height: 4,
        cells: vec![
            Cell::Dead,
            Cell::Dead,
            Cell::Dead,
            Cell::Dead,
            Cell::Dead,
            Cell::Dead,
            Cell::Dead,
            Cell::Alive,
            Cell::Dead,
            Cell::Dead,
            Cell::Alive,
            Cell::Alive,
            Cell::Dead,
            Cell::Alive,
            Cell::Alive,
            Cell::Alive,
        ],
    };

    assert_eq!(
        universe.render(),
        "◻ ◻ ◻ ◻ \n\
         ◻ ◻ ◻ ◼ \n\
         ◻ ◻ ◼ ◼ \n\
         ◻ ◼ ◼ ◼ \n"
    );
}

#[test]
fn construction_invariant() {
    let u = Universe::new();
    assert_eq!(u.width, 64);
    assert_eq!(u.height, 64);
    assert_eq!(u.cells.len(), 64 * 64);
}

#[test]
fn seed_pattern_is_centered_block() {
    let u = Universe::new();
    let live: Vec<usize> = (0..u.cells.len())
        .filter(|&i| u.cells[i] == Cell::Alive)
        .collect();
    // The 2x2 block centered at (32, 32): rows 32 and 33, columns 32 and 33.
    assert_eq!(live, vec![32 * 64 + 32, 32 * 64 + 33, 33 * 64 + 32, 33 * 64 + 33]);
}

#[test]
fn neighbor_count_wraps_around_corner() {
    let mut cells = vec![Cell::Dead; 16];
    cells[0] = Cell::Alive;
    let u = Universe {
        width: 4,
        height: 4,
        cells,
    };
    // The only live cell is at (0, 0); the opposite corner sees it
    // diagonally through the wraparound.
    assert_eq!(u.live_neighbor_count(3, 3), 1);
    // Ordinary (non-wrapping) adjacency still counts it once.
    assert_eq!(u.live_neighbor_count(1, 1), 1);
    assert_eq!(u.live_neighbor_count(0, 1), 1);
    // A cell two rows away does not.
    assert_eq!(u.live_neighbor_count(2, 0), 0);
}

#[test]
fn tick_applies_transition_rule() {
    let d = Cell::Dead;
    let a = Cell::Alive;
    let mut u = Universe {
        width: 4,
        height: 4,
        cells: vec![
            d, d, d, d, //
            d, d, d, a, //
            d, d, a, a, //
            d, a, a, a,
        ],
    };
    u.tick();
    // Every live cell dies; a dead cell comes alive exactly when it had
    // between 2 and 4 live toroidal neighbors.
    let expected = vec![
        a, a, a, a, //
        a, d, a, d, //
        a, a, d, d, //
        a, d, d, d,
    ];
    assert_eq!(u.cells, expected);
}

#[test]
fn live_cells_never_survive() {
    let mut u = Universe {
        width: 4,
        height: 4,
        cells: vec![Cell::Alive; 16],
    };
    u.tick();
    assert!(u.cells.iter().all(|&c| c == Cell::Dead));
}

#[test]
fn crowded_dead_cell_stays_dead() {
    let mut cells = vec![Cell::Alive; 9];
    cells[4] = Cell::Dead;
    let mut u = Universe {
        width: 3,
        height: 3,
        cells,
    };
    assert_eq!(u.live_neighbor_count(1, 1), 8);
    u.tick();
    assert_eq!(u.cells[4], Cell::Dead);
}

#[test]
fn single_cell_universe_wraps_to_itself() {
    let mut u = Universe {
        width: 1,
        height: 1,
        cells: vec![Cell::Alive],
    };
    // All eight neighbor offsets wrap back to the cell itself.
    assert_eq!(u.live_neighbor_count(0, 0), 8);
    u.tick();
    assert_eq!(u.cells, vec![Cell::Dead]);
    u.tick();
    assert_eq!(u.cells, vec![Cell::Dead]);
}

#[test]
fn tick_is_deterministic() {
    let mut a = Universe::new();
    let mut b = Universe::new();
    a.tick();
    b.tick();
    assert_eq!(a.cells, b.cells);
    a.tick();
    b.tick();
    assert_eq!(a.cells, b.cells);
}

#[test]
fn render_dimensions() {
    let u = Universe::new();
    let s = u.render();
    let segments: Vec<&str> = s.split('\n').collect();
    // The last line is newline-terminated, so the final segment is empty.
    assert_eq!(segments.last(), Some(&""));
    let lines = &segments[..segments.len() - 1];
    assert_eq!(lines.len(), 64);
    for line in lines {
        assert_eq!(line.chars().count(), 2 * 64);
        assert_eq!(
            line.chars().filter(|&c| c == '◻' || c == '◼').count(),
            64
        );
    }
}
