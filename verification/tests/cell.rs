use game_of_life::Cell;

#[test]
fn live_cell_with_fewer_than_two_neighbors_dies() {
    assert_eq!(Cell::Alive.next(0), Cell::Dead);
    assert_eq!(Cell::Alive.next(1), Cell::Dead);
}

#[test]
fn live_cell_with_two_or_three_neighbors_survives() {
    assert_eq!(Cell::Alive.next(2), Cell::Alive);
    assert_eq!(Cell::Alive.next(3), Cell::Alive);
}

#[test]
fn live_cell_with_more_than_three_neighbors_dies() {
    for n in 4..=8u8 {
        assert_eq!(Cell::Alive.next(n), Cell::Dead, "{} neighbours", n);
    }
}

#[test]
fn dead_cell_with_three_neighbors_comes_alive() {
    assert_eq!(Cell::Dead.next(3), Cell::Alive);
}

#[test]
fn dead_cell_without_three_neighbors_stays_dead() {
    for n in [0u8, 1, 2, 4, 5, 6, 7, 8] {
        assert_eq!(Cell::Dead.next(n), Cell::Dead, "{} neighbours", n);
    }
}

#[test]
fn rule_is_total_beyond_eight_neighbors() {
    assert_eq!(Cell::Alive.next(9), Cell::Dead);
    assert_eq!(Cell::Alive.next(255), Cell::Dead);
    assert_eq!(Cell::Dead.next(9), Cell::Dead);
    assert_eq!(Cell::Dead.next(255), Cell::Dead);
}

#[test]
fn cells_are_encoded_as_zero_and_one() {
    assert_eq!(Cell::Dead.to_u8(), 0);
    assert_eq!(Cell::Alive.to_u8(), 1);
}

#[test]
fn cells_have_two_distinct_glyphs() {
    assert_eq!(Cell::Dead.symbol(), "\u{25fb}");
    assert_eq!(Cell::Alive.symbol(), "\u{25fc}");
    assert_ne!(Cell::Dead.symbol(), Cell::Alive.symbol());
    assert_eq!(Cell::Dead.symbol().chars().count(), 1);
    assert_eq!(Cell::Alive.symbol().chars().count(), 1);
}

#[test]
fn cell_is_a_plain_value() {
    let cell = Cell::Alive;
    let copy = cell;
    assert_eq!(cell, copy);
    assert_ne!(Cell::Alive, Cell::Dead);
    assert_eq!(format!("{:?} {:?}", Cell::Dead, Cell::Alive), "Dead Alive");
}
