use game_of_life::Cell::Alive;
use game_of_life::{Dimensions, World};

fn all_alive_3_by_5() -> World {
    World::new(
        Dimensions(3, 5),
        vec![
            Alive, Alive, Alive, // 1
            Alive, Alive, Alive, // 2
            Alive, Alive, Alive, // 3
            Alive, Alive, Alive, // 4
            Alive, Alive, Alive, // 5
        ],
    )
    .unwrap()
}

#[test]
fn get_index_works() {
    let world = all_alive_3_by_5();

    assert_eq!(world.dimensions().get_index((0, 0)), Some(0));
    assert_eq!(world.dimensions().get_index((2, 4)), Some(3 * 5 - 1));
    assert_eq!(world.dimensions().get_index((1, 2)), Some(3 * 2 + 1));
}

#[test]
fn get_pos_works() {
    let world = all_alive_3_by_5();

    assert_eq!(world.dimensions().get_pos(0), (0, 0));
    assert_eq!(world.dimensions().get_pos(14), (2, 4));
    assert_eq!(world.dimensions().get_pos(3 * 2 + 1), (1, 2));
}

#[test]
fn both_work() {
    let world = all_alive_3_by_5();

    for i in 0..3 * 5 {
        let (x, y) = world.dimensions().get_pos(i);
        assert_eq!(world.dimensions().get_index((x, y)), Some(i));
    }
}

#[test]
fn index_then_position_gives_the_position() {
    let dimensions = Dimensions(4, 3);
    for y in 0..3 {
        for x in 0..4 {
            let index = dimensions.get_index((x, y)).unwrap();
            assert_eq!(index, (y * 4 + x) as usize);
            assert_eq!(dimensions.get_pos(index), (x, y));
        }
    }
}

#[test]
fn get_index_is_row_major() {
    let dimensions = Dimensions(3, 5);
    assert_eq!(dimensions.get_index((0, 1)), Some(3));
    assert_eq!(dimensions.get_index((2, 0)), Some(2));
    assert_eq!(dimensions.get_index((2, 4)), Some(14));
}

#[test]
fn get_index_outside_is_none() {
    let dimensions = Dimensions(3, 5);
    assert_eq!(dimensions.get_index((-1, 0)), None);
    assert_eq!(dimensions.get_index((0, -1)), None);
    assert_eq!(dimensions.get_index((3, 0)), None);
    assert_eq!(dimensions.get_index((0, 5)), None);
    assert_eq!(dimensions.get_index((3, 5)), None);
    assert_eq!(dimensions.get_index((isize::MAX, isize::MAX)), None);
    assert_eq!(dimensions.get_index((isize::MIN, isize::MIN)), None);
    assert_eq!(dimensions.get_index((5, 3)), None);
}

#[test]
fn get_index_of_an_empty_grid_is_none() {
    assert_eq!(Dimensions(0, 0).get_index((0, 0)), None);
    assert_eq!(Dimensions(0, 7).get_index((0, 3)), None);
    assert_eq!(Dimensions(7, 0).get_index((3, 0)), None);
}

#[test]
fn get_pos_of_a_single_row_and_a_single_column() {
    assert_eq!(Dimensions(6, 1).get_pos(5), (5, 0));
    assert_eq!(Dimensions(1, 6).get_pos(5), (0, 5));
}

#[test]
fn dimensions_compare_by_their_parts() {
    assert_eq!(Dimensions(3, 5), Dimensions(3, 5));
    assert_ne!(Dimensions(3, 5), Dimensions(5, 3));
}
