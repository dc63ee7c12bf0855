use futures::channel::mpsc::unbounded;
use walk_the_dog::engine::{
    Cell, DrawCommand, ImageElement, KeyState, Point, Rect, Renderer, Sheet, SheetRect,
    SpriteSheet,
};
use walk_the_dog::game::obstacles::AnyObstacle;
use walk_the_dog::game::red_hat_boy::RedHatBoy;
use walk_the_dog::game::state_machine::StateTag;
use walk_the_dog::game::walk::{
    background_usable, Assets, GameError, GameOverEndState, ReadyEndState, Walk, WalkTheDog,
    WalkTheDogState, WalkTheDogStateMachine, WalkingEndState,
};
use walk_the_dog::game::world::{Effects, Ui, OBSTACLE_BUFFER, TIMELINE_MINIMUM};

const BOY_IMAGE: ImageElement = ImageElement { id: 1, width: 2048, height: 2048 };
const TILES_IMAGE: ImageElement = ImageElement { id: 2, width: 1024, height: 1024 };
const BACKGROUND: ImageElement = ImageElement { id: 3, width: 1000, height: 600 };
const STONE: ImageElement = ImageElement { id: 4, width: 50, height: 54 };
const QUIET: Effects = Effects { jump_sound: false, ui: Ui::Keep };

fn boy_sheet() -> Sheet {
    let mut sheet = Sheet::new();
    for (label, count) in [("Idle", 10), ("Run", 8), ("Slide", 5), ("Jump", 12), ("Dead", 10)] {
        for index in 1..=count {
            sheet.insert(
                format!("{} ({}).png", label, index),
                Cell {
                    frame: SheetRect { x: 0, y: 0, w: 160, h: 136 },
                    sprite_source_size: SheetRect { x: 0, y: 0, w: 160, h: 136 },
                },
            );
        }
    }
    sheet
}

fn tiles() -> Sheet {
    let mut sheet = Sheet::new();
    for (index, name) in ["13.png", "14.png", "15.png"].iter().enumerate() {
        sheet.insert(
            name.to_string(),
            Cell {
                frame: SheetRect { x: 128 * index as i16, y: 0, w: 128, h: 93 },
                sprite_source_size: SheetRect { x: 0, y: 0, w: 128, h: 93 },
            },
        );
    }
    sheet
}

fn assets() -> Assets {
    Assets {
        boy_sheet: boy_sheet(),
        boy_image: BOY_IMAGE,
        tiles: tiles(),
        tiles_image: TILES_IMAGE,
        background: BACKGROUND,
        stone: STONE,
    }
}

fn game() -> WalkTheDog {
    WalkTheDog::new().initialize(assets()).unwrap()
}

fn keys(codes: &[&str]) -> KeyState {
    let mut keys = KeyState::new();
    for code in codes {
        keys.set_pressed(code);
    }
    keys
}

fn walk(game: &WalkTheDog) -> &Walk {
    game.machine().unwrap().walk()
}

fn tag(game: &WalkTheDog) -> StateTag {
    walk(game).boy().state_machine().tag()
}

fn frame(game: &WalkTheDog) -> Vec<DrawCommand> {
    let mut renderer = Renderer::new();
    game.draw(&mut renderer);
    renderer.commands().clone()
}

fn boxes(obstacle: &AnyObstacle) -> Vec<Rect> {
    match obstacle {
        AnyObstacle::Barrier(barrier) => vec![*barrier.image().bounding_box()],
        AnyObstacle::Platform(platform) => platform.bounding_boxes().clone(),
    }
}

fn all_boxes(game: &WalkTheDog) -> Vec<Vec<Rect>> {
    walk(game).obstacles().iter().map(boxes).collect()
}

fn background_positions(game: &WalkTheDog) -> [i16; 2] {
    let backgrounds = walk(game).backgrounds();
    [backgrounds[0].bounding_box().x(), backgrounds[1].bounding_box().x()]
}

fn is_ready(game: &WalkTheDog) -> bool {
    matches!(game.machine(), Some(WalkTheDogStateMachine::Ready(_)))
}

fn is_walking(game: &WalkTheDog) -> bool {
    matches!(game.machine(), Some(WalkTheDogStateMachine::Walking(_)))
}

fn is_game_over(game: &WalkTheDog) -> bool {
    matches!(game.machine(), Some(WalkTheDogStateMachine::GameOver(_)))
}

/// A game in which the run has just started.
fn started() -> WalkTheDog {
    let mut game = game();
    assert_eq!(game.update_with(&keys(&["ArrowRight"]), false, 0), QUIET);
    assert!(is_walking(&game));
    game
}

/// A game in which the character has run into the first stone and the
/// run is over. The second part is the number of ticks of the run.
fn finished() -> (WalkTheDog, u32) {
    let mut game = started();
    let none = KeyState::new();
    let mut ticks = 0;
    while !is_game_over(&game) {
        let effects = game.update_with(&none, false, 1);
        ticks += 1;
        assert!(!effects.jump_sound);
        assert_eq!(effects.ui == Ui::ShowNewGame, is_game_over(&game));
        assert!(ticks < 1000);
    }
    (game, ticks)
}

#[test]
fn constants_of_the_world() {
    assert_eq!(TIMELINE_MINIMUM, 1000);
    assert_eq!(OBSTACLE_BUFFER, 20);
}

#[test]
fn new_game_draws_only_the_clear() {
    let game = WalkTheDog::new();
    assert!(game.machine().is_none());
    assert_eq!(frame(&game), vec![DrawCommand::Clear(Rect::new_from_x_y(0, 0, 600, 600))]);
}

#[test]
fn initialize_makes_the_game_ready() {
    let game = game();
    assert!(is_ready(&game));
    assert_eq!(tag(&game), StateTag::Idle);
    assert_eq!(walk(&game).boy().pos_y(), 479);
    assert_eq!(walk(&game).timeline(), 754);
    assert_eq!(walk(&game).velocity(), 0);
    assert!(!walk(&game).knocked_out());
    assert_eq!(background_positions(&game), [0, 1000]);
    assert_eq!(
        all_boxes(&game),
        vec![
            vec![Rect::new_from_x_y(150, 546, 50, 54)],
            vec![
                Rect::new_from_x_y(370, 420, 60, 54),
                Rect::new_from_x_y(430, 420, 264, 93),
                Rect::new_from_x_y(694, 420, 60, 54),
            ],
        ]
    );
}

#[test]
fn initialize_twice_is_an_error() {
    let game = game();
    assert_eq!(game.initialize(assets()).err(), Some(GameError::DoubleInitialization));
    // whatever the assets are
    let mut bad = assets();
    bad.boy_sheet = Sheet::new();
    assert_eq!(game.initialize(bad).err(), Some(GameError::DoubleInitialization));
}

#[test]
fn unusable_assets_are_told_apart() {
    assert!(assets().is_usable());

    let mut missing = assets();
    missing.boy_sheet = Sheet::new();
    assert!(!missing.is_usable());

    // The character comes as high as 346 above the top of the canvas, a
    // jump and the room for another above the high platform, and as low
    // as the floor.
    let offset = |y: i16| {
        let mut sheet = Sheet::new();
        for (label, count) in [("Idle", 10), ("Run", 8), ("Slide", 5), ("Jump", 12), ("Dead", 10)]
        {
            for index in 1..=count {
                sheet.insert(
                    format!("{} ({}).png", label, index),
                    Cell {
                        frame: SheetRect { x: 0, y: 0, w: 1, h: 1 },
                        sprite_source_size: SheetRect { x: 0, y, w: 1, h: 1 },
                    },
                );
            }
        }
        let mut assets = assets();
        assets.boy_sheet = sheet;
        assets
    };
    assert!(offset(-32768 + 346).is_usable());
    assert!(!offset(-32768 + 345).is_usable());
    assert!(offset(32767 - 14 - 479).is_usable());
    assert!(!offset(32767 - 14 - 478).is_usable());

    let mut narrow = assets();
    narrow.background = ImageElement { id: 3, width: 1, height: 600 };
    assert!(!narrow.is_usable());

    let mut wide = assets();
    wide.background = ImageElement { id: 3, width: 16384, height: 600 };
    assert!(!wide.is_usable());

    let mut boulder = assets();
    boulder.stone = ImageElement { id: 4, width: 31145, height: 54 };
    assert!(!boulder.is_usable());

    let mut stretched = assets();
    stretched.tiles.insert(
        "14.png".to_string(),
        Cell {
            frame: SheetRect { x: 0, y: 0, w: 31123, h: 93 },
            sprite_source_size: SheetRect { x: 0, y: 0, w: 31123, h: 93 },
        },
    );
    assert!(!stretched.is_usable());

    let mut edge = assets();
    edge.background = ImageElement { id: 3, width: 16383, height: 32767 };
    edge.stone = ImageElement { id: 4, width: 25000, height: 32767 };
    edge.tiles.insert(
        "14.png".to_string(),
        Cell {
            frame: SheetRect { x: 0, y: 0, w: 6000, h: 93 },
            sprite_source_size: SheetRect { x: 0, y: 0, w: 6000, h: 93 },
        },
    );
    assert!(edge.is_usable());
    let mut game = WalkTheDog::new().initialize(edge).unwrap();
    assert_eq!(walk(&game).timeline(), 150 + 25000 + 384);
    game.update_with(&keys(&["ArrowRight"]), false, 0);
    let none = KeyState::new();
    let mut ticks = 0;
    while !is_game_over(&game) {
        game.update_with(&none, false, ticks % 2);
        ticks += 1;
        assert!(ticks < 100_000);
    }

    assert!(background_usable(&BACKGROUND));
    assert!(background_usable(&ImageElement { id: 0, width: 2, height: 0 }));
    assert!(!background_usable(&ImageElement { id: 0, width: 1000, height: 32768 }));
}

#[test]
fn ready_waits_for_the_right_arrow() {
    let mut game = game();
    for tick in 1..=40u8 {
        assert_eq!(game.update_with(&keys(&["Space", "ArrowDown"]), false, 0), QUIET);
        assert!(is_ready(&game));
        assert_eq!(tag(&game), StateTag::Idle);
        assert_eq!(walk(&game).boy().state_machine().context().frame, tick % 30);
    }
    assert_eq!(walk(&game).timeline(), 754);
    assert_eq!(background_positions(&game), [0, 1000]);
    assert_eq!(game.update_with(&keys(&["ArrowRight"]), false, 0), QUIET);
    assert!(is_walking(&game));
    assert_eq!(tag(&game), StateTag::Running);
    assert_eq!(walk(&game).boy().walking_speed(), 4);
    assert_eq!(walk(&game).boy().state_machine().context().frame, 0);
    assert_eq!(walk(&game).velocity(), -4);
    // the world has not moved yet
    assert_eq!(background_positions(&game), [0, 1000]);
    assert_eq!(walk(&game).obstacles().len(), 2);
}

#[test]
fn walking_scrolls_the_world_and_lays_it_out() {
    let mut game = started();
    assert_eq!(game.update_with(&KeyState::new(), false, 1), QUIET);
    assert!(is_walking(&game));
    assert_eq!(background_positions(&game), [-4, 996]);
    // the world was laid out up to 754: the next segment, a platform and
    // then a stone, starts the buffer's width beyond that
    assert_eq!(
        all_boxes(&game),
        vec![
            vec![Rect::new_from_x_y(146, 546, 50, 54)],
            vec![
                Rect::new_from_x_y(366, 420, 60, 54),
                Rect::new_from_x_y(426, 420, 264, 93),
                Rect::new_from_x_y(690, 420, 60, 54),
            ],
            vec![
                Rect::new_from_x_y(974, 375, 60, 54),
                Rect::new_from_x_y(1034, 375, 264, 93),
                Rect::new_from_x_y(1298, 375, 60, 54),
            ],
            vec![Rect::new_from_x_y(1374, 546, 50, 54)],
        ]
    );
    assert_eq!(walk(&game).timeline(), 1424);
    // laid out far enough: the mark scrolls along
    assert_eq!(game.update_with(&KeyState::new(), false, 0), QUIET);
    assert_eq!(walk(&game).timeline(), 1420);
    assert_eq!(walk(&game).obstacles().len(), 4);
    assert_eq!(background_positions(&game), [-8, 992]);
}

#[test]
fn walking_lays_out_the_other_shape_too() {
    let mut game = started();
    game.update_with(&KeyState::new(), false, 0);
    assert_eq!(walk(&game).timeline(), 774 + 754);
    assert_eq!(all_boxes(&game)[2], vec![Rect::new_from_x_y(924, 546, 50, 54)]);
    assert_eq!(all_boxes(&game)[3][0], Rect::new_from_x_y(1144, 420, 60, 54));
    // a shape that does not exist lays out nothing
    let mut game = started();
    game.update_with(&KeyState::new(), false, 7);
    assert_eq!(walk(&game).obstacles().len(), 2);
    assert_eq!(walk(&game).timeline(), 0);
}

#[test]
fn walking_picks_a_shape_at_random() {
    let mut seen = [false, false];
    for _ in 0..200 {
        let mut game = started();
        assert_eq!(game.update(&KeyState::new()), QUIET);
        assert_eq!(walk(&game).obstacles().len(), 4);
        match walk(&game).timeline() {
            1528 => seen[0] = true,
            1424 => seen[1] = true,
            other => panic!("the world is laid out up to {}", other),
        }
    }
    assert_eq!(seen, [true, true]);
}

#[test]
fn generate_next_segment_extends_the_world() {
    let boy = RedHatBoy::new(boy_sheet(), BOY_IMAGE);
    let mut world = Walk::new(boy, BACKGROUND, SpriteSheet::new(tiles(), TILES_IMAGE), STONE);
    for round in 1..=3usize {
        let before = world.timeline();
        world.generate_next_segment();
        assert_eq!(world.obstacles().len(), 2 + 2 * round);
        assert!(world.timeline() >= before + OBSTACLE_BUFFER);
        let shape_0 = before + OBSTACLE_BUFFER + 754;
        let shape_1 = before + OBSTACLE_BUFFER + 650;
        assert!(world.timeline() == shape_0 || world.timeline() == shape_1);
    }
    let mut world = Walk::reset(world);
    assert_eq!(world.obstacles().len(), 2);
    assert_eq!(world.timeline(), 754);
    world.place_segment(1);
    assert_eq!(world.timeline(), 1424);
    world.place_segment(0);
    assert_eq!(world.timeline(), 1444 + 754);
    assert_eq!(world.obstacles().len(), 6);
}

#[test]
fn walking_steers_the_character() {
    let mut game = started();
    let effects = game.update_with(&keys(&["Space"]), false, 0);
    assert_eq!(effects, Effects { jump_sound: true, ui: Ui::Keep });
    assert_eq!(tag(&game), StateTag::Jumping);
    assert_eq!(walk(&game).boy().pos_y(), 455);
    // the sound is due at the take-off only
    assert_eq!(game.update_with(&keys(&["Space"]), false, 0), QUIET);
    assert_eq!(tag(&game), StateTag::Jumping);

    let mut game = started();
    assert_eq!(game.update_with(&keys(&["ArrowDown"]), false, 0), QUIET);
    assert_eq!(tag(&game), StateTag::Sliding);
    assert_eq!(walk(&game).boy().state_machine().context().frame, 1);

    // the slide is looked at first: a character that slides cannot jump
    let mut game = started();
    assert_eq!(game.update_with(&keys(&["ArrowDown", "Space"]), false, 0), QUIET);
    assert_eq!(tag(&game), StateTag::Sliding);
}

#[test]
fn backgrounds_wrap_around() {
    let mut game = started();
    let none = KeyState::new();
    // the character jumps over whatever comes: hold the space bar
    let jump = keys(&["Space"]);
    let mut ticks = 0;
    while background_positions(&game)[0] <= 0 {
        game.update_with(if is_walking(&game) { &jump } else { &none }, false, 1);
        ticks += 1;
        if !is_walking(&game) {
            return;
        }
        assert!(ticks < 1000);
        let [first, second] = background_positions(&game);
        assert!((-1000..=1000).contains(&first));
        assert!((-1000..=1000).contains(&second));
    }
    // the first background has gone once round
    let [first, second] = background_positions(&game);
    assert_eq!(first - second, 1000);
}

#[test]
fn obstacles_out_of_sight_are_dropped() {
    let mut game = started();
    let none = KeyState::new();
    // The stone's right edge is at 200 and moves by 4 a tick, but the
    // character runs into the stone first and the world stops.
    for _ in 0..5 {
        game.update_with(&none, false, 1);
    }
    assert_eq!(tag(&game), StateTag::Running);
    assert_eq!(all_boxes(&game)[0], vec![Rect::new_from_x_y(130, 546, 50, 54)]);
    game.update_with(&none, false, 1);
    assert_eq!(tag(&game), StateTag::Falling);
    assert_eq!(all_boxes(&game)[0], vec![Rect::new_from_x_y(126, 546, 50, 54)]);
    assert_eq!(walk(&game).velocity(), 0);
    game.update_with(&none, false, 1);
    assert_eq!(all_boxes(&game)[0], vec![Rect::new_from_x_y(126, 546, 50, 54)]);
}

#[test]
fn obstacle_at_the_left_edge_is_kept_until_it_has_passed() {
    // The character's box lies far above everything, so that nothing
    // stops the run.
    let mut high = Sheet::new();
    for (label, count) in [("Idle", 10), ("Run", 8), ("Slide", 5), ("Jump", 12), ("Dead", 10)] {
        for index in 1..=count {
            high.insert(
                format!("{} ({}).png", label, index),
                Cell {
                    frame: SheetRect { x: 0, y: 0, w: 160, h: 136 },
                    sprite_source_size: SheetRect { x: 0, y: -2000, w: 160, h: 136 },
                },
            );
        }
    }
    let mut free = assets();
    free.boy_sheet = high;
    let mut game = WalkTheDog::new().initialize(free).unwrap();
    let none = KeyState::new();
    game.update_with(&keys(&["ArrowRight"]), false, 0);
    for _ in 0..50 {
        game.update_with(&none, false, 0);
    }
    // the right edge of the stone is at the left edge of the view
    assert_eq!(all_boxes(&game)[0], vec![Rect::new_from_x_y(-50, 546, 50, 54)]);
    game.update_with(&none, false, 0);
    assert_eq!(all_boxes(&game)[0], vec![Rect::new_from_x_y(-54, 546, 50, 54)]);
    let before = walk(&game).obstacles().len();
    game.update_with(&none, false, 0);
    assert_eq!(walk(&game).obstacles().len(), before - 1);
    assert_eq!(all_boxes(&game)[0][0], Rect::new_from_x_y(162, 420, 60, 54));
}

#[test]
fn knocked_out_character_ends_the_run_once() {
    let (mut game, ticks) = finished();
    // five ticks up to the stone, the sixth into it, and the fall
    assert_eq!(ticks, 6 + 29);
    assert!(is_game_over(&game));
    assert_eq!(tag(&game), StateTag::KnockedOut);
    assert!(walk(&game).knocked_out());
    let over = frame(&game);
    let timeline = walk(&game).timeline();
    for _ in 0..100 {
        assert_eq!(game.update_with(&keys(&["ArrowRight", "Space"]), false, 0), QUIET);
        assert!(is_game_over(&game));
        assert_eq!(game.update(&KeyState::new()), QUIET);
        assert!(is_game_over(&game));
    }
    assert_eq!(frame(&game), over);
    assert_eq!(walk(&game).timeline(), timeline);
}

#[test]
fn new_game_starts_in_a_fresh_world() {
    let fresh_frame = frame(&game());
    let (mut game, _) = finished();
    assert_ne!(frame(&game), fresh_frame);
    let effects = game.update_with(&KeyState::new(), true, 1);
    assert_eq!(effects, Effects { jump_sound: false, ui: Ui::Hide });
    assert!(is_ready(&game));
    assert_eq!(frame(&game), fresh_frame);
    assert_eq!(walk(&game).obstacles().len(), 2);
    assert_eq!(walk(&game).timeline(), 754);
    assert_eq!(background_positions(&game), [0, 1000]);
    assert_eq!(tag(&game), StateTag::Idle);

    // a second run, other than the first, and a second new game
    game.update_with(&keys(&["ArrowRight"]), false, 0);
    let mut ticks = 0;
    while !is_game_over(&game) {
        let held = if ticks == 0 { keys(&["Space"]) } else { KeyState::new() };
        game.update_with(&held, false, 0);
        ticks += 1;
        assert!(ticks < 1000);
    }
    assert_ne!(ticks, 35);
    let effects = game.update_with(&KeyState::new(), true, 0);
    assert_eq!(effects, Effects { jump_sound: false, ui: Ui::Hide });
    assert!(is_ready(&game));
    assert_eq!(frame(&game), fresh_frame);
    assert_eq!(all_boxes(&game), all_boxes(&self::game()));
    assert_eq!(walk(&game).timeline(), 754);
}

#[test]
fn new_game_signals_restart_the_game() {
    let fresh_frame = frame(&game());
    let (mut game, _) = finished();
    // nobody listens yet: the session stays over
    assert_eq!(game.update(&KeyState::new()), QUIET);
    assert!(is_game_over(&game));
    let (sender, receiver) = unbounded();
    game.arm(receiver);
    assert_eq!(game.update(&KeyState::new()), QUIET);
    assert!(is_game_over(&game));
    sender.unbounded_send(()).unwrap();
    assert_eq!(game.update(&KeyState::new()), Effects { jump_sound: false, ui: Ui::Hide });
    assert!(is_ready(&game));
    assert_eq!(frame(&game), fresh_frame);
    // a signal that is left over means nothing to the new game
    let _ = sender.unbounded_send(());
    assert_eq!(game.update(&keys(&["ArrowRight"])), QUIET);
    assert!(is_walking(&game));

    // the second run and the second signal
    let mut ticks = 0;
    let mut announced = 0;
    while !is_game_over(&game) {
        let effects = game.update(&KeyState::new());
        if effects.ui == Ui::ShowNewGame {
            announced += 1;
        }
        ticks += 1;
        assert!(ticks < 1000);
    }
    assert_eq!(announced, 1);
    assert_eq!(walk(&game).obstacles().len(), 4);
    let (sender, receiver) = unbounded();
    game.arm(receiver);
    sender.unbounded_send(()).unwrap();
    sender.unbounded_send(()).unwrap();
    assert_eq!(game.update(&KeyState::new()), Effects { jump_sound: false, ui: Ui::Hide });
    assert!(is_ready(&game));
    assert_eq!(frame(&game), fresh_frame);
    assert_eq!(all_boxes(&game), all_boxes(&self::game()));
    assert_eq!(walk(&game).obstacles().len(), 2);
    assert_eq!(walk(&game).timeline(), 754);
    assert_eq!(background_positions(&game), [0, 1000]);
}

#[test]
fn channel_handed_over_during_a_run_is_dropped() {
    let mut game = started();
    let (sender, receiver) = unbounded();
    game.arm(receiver);
    assert!(sender.is_closed());
    assert!(is_walking(&game));
    let mut game = WalkTheDog::new();
    let (sender, receiver) = unbounded();
    game.arm(receiver);
    assert!(sender.is_closed());
    assert!(game.machine().is_none());
}

#[test]
fn closed_channel_asks_for_nothing() {
    let (mut game, _) = finished();
    let (sender, receiver) = unbounded::<()>();
    game.arm(receiver);
    drop(sender);
    for _ in 0..10 {
        assert_eq!(game.update(&KeyState::new()), QUIET);
        assert!(is_game_over(&game));
    }
}

#[test]
fn new_game_signal_means_nothing_during_a_run() {
    let mut game = game();
    assert_eq!(game.update_with(&KeyState::new(), true, 0), QUIET);
    assert!(is_ready(&game));
    let mut game = started();
    assert_eq!(game.update_with(&KeyState::new(), true, 0), QUIET);
    assert!(is_walking(&game));
    assert_eq!(walk(&game).obstacles().len(), 4);
}

#[test]
fn draw_lists_the_world_back_to_front() {
    let image = |element: ImageElement, x: i16, y: i16| DrawCommand::DrawEntireImage {
        image: element,
        position: Point { x, y },
    };
    let tile = |index: i16, x: i16| DrawCommand::DrawImage {
        image: TILES_IMAGE,
        frame: Rect::new_from_x_y(128 * index, 0, 128, 93),
        destination: Rect::new_from_x_y(x, 420, 128, 93),
    };
    assert_eq!(
        frame(&game()),
        vec![
            DrawCommand::Clear(Rect::new_from_x_y(0, 0, 600, 600)),
            image(BACKGROUND, 0, 0),
            image(BACKGROUND, 1000, 0),
            DrawCommand::DrawImage {
                image: BOY_IMAGE,
                frame: Rect::new_from_x_y(0, 0, 160, 136),
                destination: Rect::new_from_x_y(-20, 479, 160, 136),
            },
            image(STONE, 150, 546),
            tile(0, 370),
            tile(1, 498),
            tile(2, 626),
        ]
    );
}

#[test]
fn session_states_report_their_outcome() {
    let world = || {
        Walk::new(
            RedHatBoy::new(boy_sheet(), BOY_IMAGE),
            BACKGROUND,
            SpriteSheet::new(tiles(), TILES_IMAGE),
            STONE,
        )
    };
    let ready = match WalkTheDogState::new(world()).update(&KeyState::new()) {
        ReadyEndState::Continue(ready) => ready,
        ReadyEndState::Complete(_) => panic!("nobody asked for a run"),
    };
    assert_eq!(ready.walk().boy().state_machine().context().frame, 1);
    let walking = match ready.update(&keys(&["ArrowRight"])) {
        ReadyEndState::Complete(walking) => walking,
        ReadyEndState::Continue(_) => panic!("the right arrow is held"),
    };
    assert_eq!(walking.walk().velocity(), -4);
    let walking = match walking.update_with(&keys(&["Space"]), 0) {
        (WalkingEndState::Continue(walking), true) => walking,
        _ => panic!("the character takes off and the run goes on"),
    };
    let walking = match walking.update(&KeyState::new()) {
        (WalkingEndState::Continue(walking), false) => walking,
        _ => panic!("the run goes on"),
    };
    let over = walking.end_game();
    let over = match over.update_with(false) {
        GameOverEndState::Continue(over) => over,
        GameOverEndState::Complete(_) => panic!("nobody asked for a new game"),
    };
    let mut over = match over.update() {
        GameOverEndState::Continue(over) => over,
        GameOverEndState::Complete(_) => panic!("nobody listens for a new game"),
    };
    assert_eq!(over.walk().obstacles().len(), 4);
    let (sender, receiver) = unbounded();
    over.arm(receiver);
    sender.unbounded_send(()).unwrap();
    let ready = match over.update() {
        GameOverEndState::Complete(ready) => ready,
        GameOverEndState::Continue(_) => panic!("a new game was asked for"),
    };
    assert_eq!(ready.walk().obstacles().len(), 2);
    let walking = WalkTheDogState::new(world()).start_running();
    assert_eq!(walking.walk().boy().state_machine().tag(), StateTag::Running);
    let mut renderer = Renderer::new();
    walking.draw(&mut renderer);
    assert_eq!(renderer.commands().len(), 7);
    let machine = WalkTheDogStateMachine::new(world());
    let (machine, effects) = machine.update(&keys(&["ArrowRight"]));
    assert_eq!(effects, QUIET);
    assert!(matches!(machine, WalkTheDogStateMachine::Walking(_)));
    let mut renderer = Renderer::new();
    machine.draw(&mut renderer);
    assert_eq!(renderer.commands().len(), 7);
}

#[test]
fn path_stays_clear_however_the_world_grows() {
    let mut game = game();
    let run = keys(&["ArrowRight"]);
    let jump = keys(&["Space"]);
    let slide = keys(&["ArrowDown"]);
    let none = KeyState::new();
    let mut runs = 0;
    for tick in 0..5000u32 {
        if is_game_over(&game) {
            runs += 1;
            game.update_with(&none, true, 0);
        } else if is_ready(&game) {
            game.update(&run);
        } else {
            // each run is steered in its own way
            let held = match (tick / (7 + runs)) % 5 {
                0 => &jump,
                3 => &slide,
                _ => &none,
            };
            game.update(held);
        }
        let world = walk(&game);
        let all = all_boxes(&game);
        for (i, first) in all.iter().enumerate() {
            for a in first {
                assert!(i32::from(a.x()) + i32::from(a.width) <= i32::from(world.timeline()));
                for (j, second) in all.iter().enumerate() {
                    if i != j {
                        for b in second {
                            assert!(!a.intersects(b), "{:?} overlaps {:?}", a, b);
                        }
                    }
                    if i < j {
                        for b in second {
                            assert!(a.right() <= b.x(), "{:?} reaches past {:?}", a, b);
                        }
                    }
                }
            }
        }
        let [first, second] = background_positions(&game);
        assert_eq!((first - second).abs(), 1000);
        assert!(world.boy().state_machine().context().frame <= 35);
    }
    assert!(runs > 0);
}
