use game_of_life::{Cell, Universe};

const SHAPES: [(u32, u32); 20] = [
    (11, 11), (11, 12), (12, 12),
    (31, 11), (31, 12), (32, 11), (32, 12),
    (21, 21), (21, 24),
    (22, 25),
    (23, 21), (23, 25),
    (24, 22), (24, 23), (24, 24), (24, 25),
    (22, 61), (22, 62), (23, 61), (23, 62),
];

fn live_positions(universe: &Universe) -> Vec<(u32, u32)> {
    let width = universe.width();
    universe
        .cells()
        .iter()
        .enumerate()
        .filter(|(_, cell)| **cell == Cell::Alive)
        .map(|(index, _)| (index as u32 / width, index as u32 % width))
        .collect()
}

#[test]
fn new_universe_is_sixty_four_by_sixty_four() {
    let universe = Universe::new();
    assert_eq!(universe.width(), 64);
    assert_eq!(universe.height(), 64);
    assert_eq!(universe.cells().len(), 4096);
}

#[test]
fn new_universe_holds_stripe_and_shapes() {
    let universe = Universe::new();
    for (index, cell) in universe.cells().iter().enumerate() {
        let position = (index as u32 / 64, index as u32 % 64);
        let stripe = index % 196 == 55 || index % 196 == 119;
        let expected = if stripe || SHAPES.contains(&position) { Cell::Alive } else { Cell::Dead };
        assert_eq!(*cell, expected, "index {}", index);
    }
}

#[test]
fn new_universe_has_sixty_two_live_cells() {
    let universe = Universe::new();
    assert_eq!(live_positions(&universe).len(), 62);
}

#[test]
fn new_universe_stripe_cells() {
    let universe = Universe::new();
    let cells = universe.cells();
    assert_eq!(cells[55], Cell::Alive);
    assert_eq!(cells[119], Cell::Alive);
    assert_eq!(cells[196 + 55], Cell::Alive);
    assert_eq!(cells[196 + 119], Cell::Alive);
    assert_eq!(cells[20 * 196 + 119], Cell::Alive);
    assert_eq!(cells[0], Cell::Dead);
    assert_eq!(cells[54], Cell::Dead);
    assert_eq!(cells[56], Cell::Dead);
    assert_eq!(cells[196], Cell::Dead);
    assert_eq!(cells[4095], Cell::Dead);
}

#[test]
fn new_universe_shape_cells() {
    let universe = Universe::new();
    let cells = universe.cells();
    for (row, column) in SHAPES {
        assert_eq!(cells[(row * 64 + column) as usize], Cell::Alive, "({}, {})", row, column);
    }
    assert_eq!(cells[12 * 64 + 11], Cell::Dead);
    assert_eq!(cells[21 * 64 + 22], Cell::Dead);
    assert_eq!(cells[40 * 64 + 30], Cell::Dead);
    assert_eq!(cells[39 * 64 + 32], Cell::Dead);
}

#[test]
fn new_universe_is_the_same_every_time() {
    let one = Universe::new();
    let other = Universe::new();
    assert_eq!(one.cells(), other.cells());
    assert_eq!(one.render(), other.render());
}

#[test]
fn new_universe_after_one_tick() {
    let mut universe = Universe::new();
    universe.tick();
    assert_eq!(
        live_positions(&universe),
        vec![
            (11, 11), (11, 12), (12, 11), (12, 12),
            (22, 24), (22, 25), (22, 61), (22, 62),
            (23, 20), (23, 22), (23, 23), (23, 25), (23, 26), (23, 61), (23, 62),
            (24, 22), (24, 23), (24, 25),
            (31, 11), (31, 12), (32, 11), (32, 12),
        ]
    );
}

#[test]
fn new_universe_after_two_ticks() {
    let mut universe = Universe::new();
    universe.tick();
    universe.tick();
    assert_eq!(
        live_positions(&universe),
        vec![
            (11, 11), (11, 12), (12, 11), (12, 12),
            (22, 23), (22, 24), (22, 25), (22, 26), (22, 61), (22, 62),
            (23, 21), (23, 22), (23, 26), (23, 61), (23, 62),
            (24, 21), (24, 22), (24, 23), (24, 25), (24, 26),
            (31, 11), (31, 12), (32, 11), (32, 12),
        ]
    );
}

#[test]
fn new_universe_settles_into_still_lifes() {
    let mut universe = Universe::new();
    for _ in 0..10 {
        universe.tick();
    }
    let settled = vec![
        (11, 11), (11, 12), (12, 11), (12, 12),
        (22, 26), (22, 27), (22, 61), (22, 62),
        (23, 21), (23, 22), (23, 26), (23, 27), (23, 61), (23, 62),
        (24, 21), (24, 22),
        (31, 11), (31, 12), (32, 11), (32, 12),
    ];
    assert_eq!(live_positions(&universe), settled);
    for _ in 0..10 {
        universe.tick();
    }
    assert_eq!(live_positions(&universe), settled);
    assert_eq!(universe.width(), 64);
    assert_eq!(universe.height(), 64);
    assert_eq!(universe.cells().len(), 4096);
}

#[test]
fn new_universe_renders_sixty_four_lines() {
    let text = Universe::new().render();
    assert_eq!(text.chars().count(), 64 * 65);
    let lines: Vec<&str> = text.lines().collect();
    assert_eq!(lines.len(), 64);
    assert_eq!(lines[0].chars().nth(55), Some('\u{25fc}'));
    assert_eq!(lines[0].chars().nth(54), Some('\u{25fb}'));
    assert_eq!(lines[11].chars().nth(11), Some('\u{25fc}'));
    assert_eq!(lines[12].chars().nth(11), Some('\u{25fb}'));
}
