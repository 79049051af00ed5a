use game_of_life::Cell::{Alive, Dead};
use game_of_life::{draw_world, Color, Config, Dimensions, Square, World};

const BLACK: Color = Color { r: 0, g: 0, b: 0 };
const WHITE: Color = Color { r: 255, g: 255, b: 255 };

#[test]
fn config_keeps_its_parts() {
    let config = Config::new(1200, 800, 5);
    assert_eq!(config, Config { window_width: 1200, window_height: 800, pixel_size: 5 });
}

#[test]
fn pixel_counts_are_whole_cells() {
    let config = Config::new(1200, 800, 5);
    assert_eq!(config.pixel_count_x(), 240);
    assert_eq!(config.pixel_count_y(), 160);
    let odd = Config::new(1003, 799, 10);
    assert_eq!(odd.pixel_count_x(), 100);
    assert_eq!(odd.pixel_count_y(), 79);
    let small = Config::new(3, 4, 5);
    assert_eq!(small.pixel_count_x(), 0);
    assert_eq!(small.pixel_count_y(), 0);
}

#[test]
fn draw_world_gives_one_square_for_each_cell() {
    let world = World::new(Dimensions(3, 2), vec![Alive, Dead, Dead, Dead, Alive, Alive]).unwrap();
    let config = Config::new(15, 10, 5);
    assert_eq!(
        draw_world(&world, &config),
        vec![
            Square { x: 0, y: 0, side: 5, color: BLACK },
            Square { x: 5, y: 0, side: 5, color: WHITE },
            Square { x: 10, y: 0, side: 5, color: WHITE },
            Square { x: 0, y: 5, side: 5, color: WHITE },
            Square { x: 5, y: 5, side: 5, color: BLACK },
            Square { x: 10, y: 5, side: 5, color: BLACK },
        ]
    );
}

#[test]
fn draw_world_of_an_empty_world_is_empty() {
    let world = World::new(Dimensions(0, 0), vec![]).unwrap();
    assert_eq!(draw_world(&world, &Config::new(100, 100, 5)), vec![]);
}

#[test]
fn draw_world_follows_a_tick() {
    let mut world = World::new(Dimensions(3, 1), vec![Alive, Alive, Alive]).unwrap();
    let config = Config::new(6, 2, 2);
    world.tick();
    assert_eq!(
        draw_world(&world, &config),
        vec![
            Square { x: 0, y: 0, side: 2, color: WHITE },
            Square { x: 2, y: 0, side: 2, color: BLACK },
            Square { x: 4, y: 0, side: 2, color: WHITE },
        ]
    );
}
