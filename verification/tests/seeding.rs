use game_of_life::seed::{cell_of_seed, next_seed, SEED_MODULUS, SEED_MULTIPLIER};
use game_of_life::universe::{DEFAULT_HEIGHT, DEFAULT_WIDTH};
use game_of_life::{Cell, Universe};

const FIRST_TEN_STATES: [u128; 10] = [
    1234567890, 5171467887, 8094801249, 8946652779, 5037191334, 7364540727, 7060658580,
    5992682436, 1192417371, 7862029209,
];

#[test]
fn seed_constants_have_their_values() {
    assert_eq!(SEED_MULTIPLIER, 1234567890u128);
    assert_eq!(SEED_MODULUS, 9999999999u128);
}

#[test]
fn accumulator_takes_the_first_ten_values() {
    let mut k: u128 = 1;
    for expected in FIRST_TEN_STATES {
        k = next_seed(k);
        assert_eq!(k, expected);
    }
}

#[test]
fn next_seed_multiplies_then_reduces() {
    assert_eq!(next_seed(0), 0);
    assert_eq!(next_seed(1), 1234567890);
    assert_eq!(next_seed(5), 6172839450);
    assert_eq!(next_seed(9), 1111111011);
    assert_eq!(next_seed(9999999998), 8765432109);
}

#[test]
fn next_seed_is_defined_on_every_accumulator() {
    assert_eq!(next_seed(9999999999), 0);
    assert_eq!(next_seed(10000000000), 1234567890);
    assert_eq!(next_seed(u128::MAX), 3088823706);
}

#[test]
fn cell_of_seed_is_alive_on_multiples_of_five() {
    assert_eq!(cell_of_seed(0), Cell::Alive);
    assert_eq!(cell_of_seed(5), Cell::Alive);
    assert_eq!(cell_of_seed(1234567890), Cell::Alive);
    assert_eq!(cell_of_seed(7060658580), Cell::Alive);
    assert_eq!(cell_of_seed(1), Cell::Dead);
    assert_eq!(cell_of_seed(4), Cell::Dead);
    assert_eq!(cell_of_seed(5171467887), Cell::Dead);
    assert_eq!(cell_of_seed(7862029209), Cell::Dead);
}

#[test]
fn first_ten_cells_follow_the_accumulator() {
    let universe = Universe::new();
    let expected = [
        Cell::Alive,
        Cell::Dead,
        Cell::Dead,
        Cell::Dead,
        Cell::Dead,
        Cell::Dead,
        Cell::Alive,
        Cell::Dead,
        Cell::Dead,
        Cell::Dead,
    ];
    assert_eq!(&universe.cells()[..10], &expected[..]);
}

#[test]
fn first_live_cells_stand_where_the_recurrence_puts_them() {
    let universe = Universe::new();
    let alive: Vec<usize> = universe
        .cells()
        .iter()
        .enumerate()
        .filter(|(_, cell)| **cell == Cell::Alive)
        .map(|(i, _)| i)
        .take(10)
        .collect();
    assert_eq!(alive, vec![0, 6, 20, 21, 37, 41, 44, 51, 53, 67]);
}

#[test]
fn every_cell_of_a_new_universe_follows_the_recurrence() {
    let universe = Universe::new();
    let mut k: u128 = 1;
    let mut alive: usize = 0;
    for cell in universe.cells() {
        k *= 1234567890;
        k %= 9999999999;
        let expected = if k % 5 == 0 { Cell::Alive } else { Cell::Dead };
        assert_eq!(*cell, expected);
        if expected == Cell::Alive {
            alive += 1;
        }
    }
    assert_eq!(alive, 6422);
}

#[test]
fn new_has_the_default_dimensions() {
    let universe = Universe::new();
    assert_eq!(universe.width(), 256);
    assert_eq!(universe.height(), 128);
    assert_eq!(DEFAULT_WIDTH, 256);
    assert_eq!(DEFAULT_HEIGHT, 128);
    assert_eq!(universe.cells().len(), 256 * 128);
    assert_eq!(universe.cells().len(), universe.width() * universe.height());
}

#[test]
fn two_new_universes_are_identical() {
    let first = Universe::new();
    let second = Universe::new();
    assert_eq!(first.width(), second.width());
    assert_eq!(first.height(), second.height());
    assert_eq!(first.cells(), second.cells());
    assert_eq!(first.render(), second.render());
}

#[test]
fn two_new_universes_stay_identical_while_ticking() {
    let mut first = Universe::new();
    let mut second = Universe::new();
    for _ in 0..3 {
        first.tick();
        second.tick();
        assert_eq!(first.cells(), second.cells());
    }
}
