use futures::channel::mpsc::unbounded;
use walk_the_dog::engine::{
    apply_input, process_input, Cell, DrawCommand, GameLoop, Image, ImageElement, KeyPress,
    KeyState, Point, Rect, Renderer, Sheet, SheetRect, SpriteSheet, FRAME_SIZE,
};

fn cell(x: i16, y: i16, w: i16, h: i16) -> Cell {
    Cell {
        frame: SheetRect { x, y, w, h },
        sprite_source_size: SheetRect { x: 0, y: 0, w, h },
    }
}

#[test]
fn two_rects_that_intersect_on_the_left() {
    let rect1 = Rect {
        position: Point { x: 10, y: 10 },
        height: 100,
        width: 100,
    };

    let rect2 = Rect {
        position: Point { x: 0, y: 10 },
        height: 100,
        width: 100,
    };

    assert_eq!(rect2.intersects(&rect1), true);
}

#[test]
fn intersection_is_the_same_from_both_sides() {
    let rects = [
        Rect::new_from_x_y(0, 0, 10, 10),
        Rect::new_from_x_y(5, 5, 10, 10),
        Rect::new_from_x_y(10, 0, 10, 10),
        Rect::new_from_x_y(-20, -20, 100, 100),
        Rect::new_from_x_y(3, 3, 0, 0),
        Rect::new_from_x_y(32000, 32000, 700, 700),
    ];
    for a in rects.iter() {
        for b in rects.iter() {
            assert_eq!(a.intersects(b), b.intersects(a));
        }
    }
}

#[test]
fn rect_with_an_area_intersects_itself() {
    let rect = Rect::new_from_x_y(7, -3, 1, 1);
    assert!(rect.intersects(&rect));
    let flat = Rect::new_from_x_y(7, -3, 10, 0);
    assert!(!flat.intersects(&flat));
}

#[test]
fn touching_rects_do_not_intersect() {
    let a = Rect::new_from_x_y(0, 0, 10, 10);
    let right_neighbour = Rect::new_from_x_y(10, 0, 10, 10);
    let lower_neighbour = Rect::new_from_x_y(0, 10, 10, 10);
    assert_eq!(a.right(), right_neighbour.x());
    assert!(!a.intersects(&right_neighbour));
    assert!(!right_neighbour.intersects(&a));
    assert!(!a.intersects(&lower_neighbour));
    let overlapping = Rect::new_from_x_y(9, 9, 10, 10);
    assert!(a.intersects(&overlapping));
}

#[test]
fn rects_beyond_the_coordinate_range_are_compared_exactly() {
    let far = Rect::new_from_x_y(32000, 0, 32000, 10);
    let near = Rect::new_from_x_y(-32000, 0, 100, 10);
    assert!(!far.intersects(&near));
    let wide = Rect::new_from_x_y(-32000, 0, 32767, 10);
    let inside = Rect::new_from_x_y(0, 0, 10, 10);
    assert!(wide.intersects(&inside));
}

#[test]
fn rect_edges_and_accessors() {
    let mut rect = Rect::new(Point { x: 3, y: 4 }, 10, 20);
    assert_eq!(rect, Rect::new_from_x_y(3, 4, 10, 20));
    assert_eq!(rect.x(), 3);
    assert_eq!(rect.y(), 4);
    assert_eq!(rect.right(), 13);
    assert_eq!(rect.bottom(), 24);
    rect.set_x(-7);
    assert_eq!(rect, Rect::new_from_x_y(-7, 4, 10, 20));
    assert_eq!(rect.right(), 3);
    assert_eq!(Point::default(), Point { x: 0, y: 0 });
    assert_eq!(Rect::default(), Rect::new_from_x_y(0, 0, 0, 0));
}

#[test]
fn sheet_rect_converts_to_rect() {
    let rect: Rect = SheetRect { x: 1, y: 2, w: 3, h: 4 }.into();
    assert_eq!(rect, Rect::new_from_x_y(1, 2, 3, 4));
    assert_eq!(Rect::from(SheetRect { x: -1, y: -2, w: 0, h: 9 }), Rect::new_from_x_y(-1, -2, 0, 9));
}

#[test]
fn sprite_sheet_finds_cells_by_name() {
    let mut sheet = Sheet::new();
    sheet.insert("13.png".to_string(), cell(0, 0, 128, 93));
    sheet.insert("14.png".to_string(), cell(128, 0, 128, 93));
    sheet.insert("13.png".to_string(), cell(1, 1, 128, 93));
    let image = ImageElement { id: 7, width: 512, height: 512 };
    let sprite_sheet = SpriteSheet::new(sheet, image);
    assert_eq!(sprite_sheet.cell("13.png"), Some(&cell(1, 1, 128, 93)));
    assert_eq!(sprite_sheet.cell("14.png"), Some(&cell(128, 0, 128, 93)));
    assert_eq!(sprite_sheet.cell("15.png"), None);
    assert_eq!(sprite_sheet.image(), &image);
}

#[test]
fn renderer_keeps_the_commands_in_order() {
    let image = ImageElement { id: 1, width: 10, height: 20 };
    let mut renderer = Renderer::new();
    assert!(renderer.commands().is_empty());
    renderer.clear(&Rect::new_from_x_y(0, 0, 600, 600));
    renderer.draw_entire_image(&image, &Point { x: 5, y: 6 });
    renderer.draw_image(&image, &Rect::new_from_x_y(1, 2, 3, 4), &Rect::new_from_x_y(5, 6, 7, 8));
    assert_eq!(
        renderer.commands(),
        &vec![
            DrawCommand::Clear(Rect::new_from_x_y(0, 0, 600, 600)),
            DrawCommand::DrawEntireImage { image, position: Point { x: 5, y: 6 } },
            DrawCommand::DrawImage {
                image,
                frame: Rect::new_from_x_y(1, 2, 3, 4),
                destination: Rect::new_from_x_y(5, 6, 7, 8),
            },
        ]
    );
}

#[test]
fn sprite_sheet_draws_from_its_image() {
    let image = ImageElement { id: 3, width: 100, height: 100 };
    let sprite_sheet = SpriteSheet::new(Sheet::new(), image);
    let mut renderer = Renderer::new();
    sprite_sheet.draw(&mut renderer, &Rect::new_from_x_y(0, 0, 10, 10), &Rect::new_from_x_y(50, 60, 10, 10));
    assert_eq!(
        renderer.commands(),
        &vec![DrawCommand::DrawImage {
            image,
            frame: Rect::new_from_x_y(0, 0, 10, 10),
            destination: Rect::new_from_x_y(50, 60, 10, 10),
        }]
    );
}

#[test]
fn image_covers_the_box_of_its_element() {
    let element = ImageElement { id: 2, width: 40, height: 30 };
    assert_eq!(element.width(), 40);
    assert_eq!(element.height(), 30);
    let mut image = Image::new(element, Point { x: 100, y: 546 });
    assert_eq!(image.element(), &element);
    assert_eq!(image.bounding_box(), &Rect::new_from_x_y(100, 546, 40, 30));
    assert_eq!(image.right(), 140);
    image.move_horizontally(-4);
    assert_eq!(image.bounding_box(), &Rect::new_from_x_y(96, 546, 40, 30));
    assert_eq!(image.right(), 136);
    image.set_x(0);
    assert_eq!(image.bounding_box(), &Rect::new_from_x_y(0, 546, 40, 30));
    let mut renderer = Renderer::new();
    image.draw(&mut renderer);
    assert_eq!(
        renderer.commands(),
        &vec![DrawCommand::DrawEntireImage { image: element, position: Point { x: 0, y: 546 } }]
    );
}

#[test]
fn key_state_tracks_pressed_keys() {
    let mut keys = KeyState::new();
    assert!(!keys.is_pressed("Space"));
    keys.set_pressed("Space");
    keys.set_pressed("ArrowRight");
    assert!(keys.is_pressed("Space"));
    assert!(keys.is_pressed("ArrowRight"));
    assert!(!keys.is_pressed("ArrowDown"));
    keys.set_released("Space");
    assert!(!keys.is_pressed("Space"));
    assert!(keys.is_pressed("ArrowRight"));
    keys.set_released("Space");
    assert!(!keys.is_pressed("Space"));
}

#[test]
fn process_input_drains_the_channel() {
    let (sender, mut receiver) = unbounded();
    let mut keys = KeyState::new();
    process_input(&mut keys, &mut receiver);
    assert!(!keys.is_pressed("Space"));
    sender.unbounded_send(KeyPress::KeyDown("Space".to_string())).unwrap();
    sender.unbounded_send(KeyPress::KeyDown("ArrowDown".to_string())).unwrap();
    sender.unbounded_send(KeyPress::KeyUp("Space".to_string())).unwrap();
    process_input(&mut keys, &mut receiver);
    assert!(!keys.is_pressed("Space"));
    assert!(keys.is_pressed("ArrowDown"));
    // the channel is empty again
    process_input(&mut keys, &mut receiver);
    assert!(keys.is_pressed("ArrowDown"));
    sender.unbounded_send(KeyPress::KeyUp("ArrowDown".to_string())).unwrap();
    drop(sender);
    process_input(&mut keys, &mut receiver);
    assert!(!keys.is_pressed("ArrowDown"));
    // a closed channel has nothing more to say
    process_input(&mut keys, &mut receiver);
    assert!(!keys.is_pressed("ArrowDown"));
}

#[test]
fn process_input_takes_in_all_that_has_arrived() {
    let (sender, mut receiver) = unbounded();
    for _ in 0..10_000 {
        sender.unbounded_send(KeyPress::KeyDown("Space".to_string())).unwrap();
    }
    sender.unbounded_send(KeyPress::KeyUp("Space".to_string())).unwrap();
    sender.unbounded_send(KeyPress::KeyDown("ArrowDown".to_string())).unwrap();
    let mut keys = KeyState::new();
    process_input(&mut keys, &mut receiver);
    assert!(!keys.is_pressed("Space"));
    assert!(keys.is_pressed("ArrowDown"));
}

#[test]
fn apply_input_applies_changes_in_order() {
    let mut keys = KeyState::new();
    keys.set_pressed("ArrowDown");
    let events = vec![
        KeyPress::KeyDown("Space".to_string()),
        KeyPress::KeyUp("ArrowDown".to_string()),
        KeyPress::KeyDown("ArrowRight".to_string()),
        KeyPress::KeyUp("Space".to_string()),
        KeyPress::KeyUp("ArrowRight".to_string()),
        KeyPress::KeyDown("ArrowRight".to_string()),
    ];
    apply_input(&mut keys, &events);
    assert!(!keys.is_pressed("Space"));
    assert!(!keys.is_pressed("ArrowDown"));
    assert!(keys.is_pressed("ArrowRight"));
    apply_input(&mut keys, &Vec::new());
    assert!(keys.is_pressed("ArrowRight"));
}

#[test]
fn game_loop_passes_over_short_frames() {
    assert_eq!(FRAME_SIZE, 16_667);
    let mut game_loop = GameLoop::new(1_000);
    let start = game_loop;
    assert_eq!(game_loop.frame(1_000), None);
    assert_eq!(game_loop.frame(1_000 + 16_667), None);
    assert_eq!(game_loop, start);
    assert_eq!(game_loop.frame(500), None);
    assert_eq!(game_loop, start);
}

#[test]
fn game_loop_owes_one_tick_per_frame_size() {
    let mut game_loop = GameLoop::new(0);
    assert_eq!(game_loop.frame(16_668), Some(1));
    // One microsecond is left over: the next frame is owed a tick only
    // once a whole tick's worth has come together again.
    assert_eq!(game_loop.frame(16_668 + 16_666), None);
    assert_eq!(game_loop.frame(16_668 + 16_667), Some(1));
    let mut slow = GameLoop::new(0);
    assert_eq!(slow.frame(50_001), Some(2));
    // 50_001 - 2 * 16_667 = 16_667 stays pending, so any time at all
    // completes the next tick.
    assert_eq!(slow.frame(50_002), Some(1));
    let mut exact = GameLoop::new(0);
    assert_eq!(exact.frame(2 * 16_667), Some(1));
    assert_eq!(exact.frame(2 * 16_667 + 1), Some(1));
}

#[test]
fn game_loop_catches_up_after_a_long_pause() {
    let mut game_loop = GameLoop::new(0);
    assert_eq!(game_loop.frame(1_000_000), Some(59));
    assert_eq!(game_loop.frame(u64::MAX), Some((u64::MAX - 1_000_000 + 16_647 - 1) / 16_667));
}
