use game_of_life::Cell::{Alive, Dead};
use game_of_life::{Cell, Color, PROPORTION};

#[test]
fn is_alive_tells_the_states_apart() {
    assert!(Alive.is_alive());
    assert!(!Dead.is_alive());
}

#[test]
fn kill_makes_dead() {
    let mut cell = Alive;
    cell.kill();
    assert_eq!(cell, Dead);
    cell.kill();
    assert_eq!(cell, Dead);
}

#[test]
fn resurrect_makes_alive() {
    let mut cell = Dead;
    cell.resurrect();
    assert_eq!(cell, Alive);
    cell.resurrect();
    assert_eq!(cell, Alive);
}

#[test]
fn step_of_a_live_cell() {
    let expected = [Dead, Dead, Alive, Alive, Dead, Dead, Dead, Dead, Dead];
    for count in 0..=8 {
        let mut cell = Alive;
        cell.step(count);
        assert_eq!(cell, expected[count], "live cell with {} neighbours", count);
    }
}

#[test]
fn step_of_a_dead_cell() {
    let expected = [Dead, Dead, Dead, Alive, Dead, Dead, Dead, Dead, Dead];
    for count in 0..=8 {
        let mut cell = Dead;
        cell.step(count);
        assert_eq!(cell, expected[count], "dead cell with {} neighbours", count);
    }
}

#[test]
fn from_draw_is_dead_below_the_proportion() {
    assert_eq!(Cell::from_draw(0, 1), Dead);
    assert_eq!(Cell::from_draw(1, 1), Alive);
    assert_eq!(Cell::from_draw(99, 100), Dead);
    assert_eq!(Cell::from_draw(100, 100), Alive);
    assert_eq!(Cell::from_draw(101, 100), Alive);
    assert_eq!(Cell::from_draw(u64::MAX - 1, u64::MAX), Dead);
    assert_eq!(Cell::from_draw(u64::MAX, u64::MAX), Alive);
}

#[test]
fn from_draw_with_proportion_zero_is_always_alive() {
    assert_eq!(Cell::from_draw(0, 0), Alive);
    assert_eq!(Cell::from_draw(1, 0), Alive);
    assert_eq!(Cell::from_draw(u64::MAX, 0), Alive);
}

#[test]
fn from_draw_with_the_default_proportion() {
    assert_eq!(Cell::from_draw(0, PROPORTION), Dead);
    assert_eq!(Cell::from_draw(PROPORTION - 1, PROPORTION), Dead);
    assert_eq!(Cell::from_draw(PROPORTION, PROPORTION), Alive);
    assert_eq!(Cell::from_draw(u64::MAX, PROPORTION), Alive);
}

#[test]
fn default_proportion_is_nine_tenths() {
    let whole: u128 = 1 << 64;
    assert_eq!(PROPORTION, 16602069666338596454);
    assert!(PROPORTION as u128 * 10 <= 9 * whole);
    assert!((PROPORTION as u128 + 1) * 10 > 9 * whole);
}

#[test]
fn represent_of_a_cell() {
    assert_eq!(Alive.represent(), "#");
    assert_eq!(Dead.represent(), " ");
}

#[test]
fn to_color_of_a_cell() {
    assert_eq!(Alive.to_color(), Color { r: 0, g: 0, b: 0 });
    assert_eq!(Dead.to_color(), Color { r: 255, g: 255, b: 255 });
    assert_eq!(Color::rgb(1, 2, 3), Color { r: 1, g: 2, b: 3 });
}
