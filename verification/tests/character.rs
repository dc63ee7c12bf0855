use walk_the_dog::engine::Point;
use walk_the_dog::game::red_hat_boy_states::{
    FallingEndState, Idle, JumpingEndState, RedHatBoyContext, RedHatBoyState, SlidingEndState,
    FALLING_FRAMES, FLOOR, IDLE_FRAMES, JUMPING_FRAMES, JUMP_SPEED, PLAYER_HEIGHT,
    RUNNING_FRAMES, RUNNING_SPEED, SLIDING_FRAMES, STARTING_POINT, TERMINAL_VELOCITY,
};
use walk_the_dog::game::state_machine::{Event, RedHatBoyStateMachine, StateTag};
use walk_the_dog::game::HEIGHT;

fn idle() -> RedHatBoyStateMachine {
    RedHatBoyState::<Idle>::new().into()
}

fn running() -> RedHatBoyStateMachine {
    idle().transition(Event::Run)
}

fn context(frame: u8, x: i16, y: i16, vx: i16, vy: i16) -> RedHatBoyContext {
    RedHatBoyContext { frame, position: Point { x, y }, velocity: Point { x: vx, y: vy } }
}

#[test]
fn constants_of_the_character() {
    assert_eq!(HEIGHT, 600);
    assert_eq!(FLOOR, 479);
    assert_eq!(PLAYER_HEIGHT, 121);
    assert_eq!(STARTING_POINT, -20);
    assert_eq!(
        (IDLE_FRAMES, RUNNING_FRAMES, SLIDING_FRAMES, JUMPING_FRAMES, FALLING_FRAMES),
        (29, 23, 14, 35, 29)
    );
    assert_eq!((RUNNING_SPEED, JUMP_SPEED, TERMINAL_VELOCITY), (4, -25, 20));
}

#[test]
fn character_starts_idle_at_rest_on_the_floor() {
    let machine = idle();
    assert_eq!(machine.tag(), StateTag::Idle);
    assert_eq!(*machine.context(), context(0, -20, 479, 0, 0));
    assert_eq!(machine.frame_name(), "Idle");
    assert!(!machine.knocked_out());
}

#[test]
fn context_update_applies_gravity_frame_and_floor() {
    let next = context(0, -20, 100, 0, 0).update(29);
    assert_eq!(next, context(1, -20, 101, 0, 1));
    // the fall stops at the floor
    let landed = context(5, -20, 470, 4, 19).update(23);
    assert_eq!(landed, context(6, -20, 479, 4, 20));
    // the speed stops at the terminal velocity
    let fast = context(5, -20, 0, 4, 20).update(23);
    assert_eq!(fast, context(6, -20, 20, 4, 20));
    // going up
    let rising = context(0, -20, 479, 4, -25).update(35);
    assert_eq!(rising, context(1, -20, 455, 4, -24));
    // the frame counter wraps to zero from the end of the animation
    let wrapped = context(29, -20, 479, 0, 20).update(29);
    assert_eq!(wrapped.frame, 0);
    let wrapped_late = context(40, -20, 479, 0, 20).update(29);
    assert_eq!(wrapped_late.frame, 0);
}

#[test]
fn frame_wraps_and_never_exceeds_the_frame_count() {
    let mut machine = idle();
    for tick in 1..=100u32 {
        machine = machine.update();
        assert_eq!(machine.tag(), StateTag::Idle);
        assert!(machine.context().frame <= IDLE_FRAMES);
        assert_eq!(u32::from(machine.context().frame), tick % 30);
    }
    let mut machine = running();
    for tick in 1..=100u32 {
        machine = machine.update();
        assert_eq!(machine.tag(), StateTag::Running);
        assert!(machine.context().frame <= RUNNING_FRAMES);
        assert_eq!(u32::from(machine.context().frame), tick % 24);
    }
}

#[test]
fn idle_run_starts_running() {
    let mut machine = idle();
    for _ in 0..7 {
        machine = machine.update();
    }
    assert_eq!(machine.context().frame, 7);
    let machine = machine.transition(Event::Run);
    assert_eq!(machine.tag(), StateTag::Running);
    assert_eq!(machine.context().frame, 0);
    assert_eq!(machine.context().velocity.x, 4);
    assert_eq!(machine.context().position, Point { x: -20, y: 479 });
    assert_eq!(machine.frame_name(), "Run");
}

#[test]
fn running_jump_starts_jumping() {
    let machine = running().update().update();
    assert_eq!(machine.context().frame, 2);
    let machine = machine.transition(Event::Jump);
    assert_eq!(machine.tag(), StateTag::Jumping);
    assert_eq!(machine.context().velocity.y, -25);
    assert_eq!(machine.context().frame, 0);
    assert_eq!(machine.context().velocity.x, 4);
    assert_eq!(machine.frame_name(), "Jump");
}

#[test]
fn running_slide_starts_sliding() {
    let machine = running().update().transition(Event::Slide);
    assert_eq!(machine.tag(), StateTag::Sliding);
    assert_eq!(machine.context().frame, 0);
    assert_eq!(machine.frame_name(), "Slide");
}

#[test]
fn knock_out_starts_falling_and_stops_the_character() {
    for start in [
        running().update(),
        running().transition(Event::Slide).update(),
        running().transition(Event::Jump).update(),
    ] {
        let machine = start.transition(Event::KnockOut);
        assert_eq!(machine.tag(), StateTag::Falling);
        assert_eq!(machine.context().frame, 0);
        assert_eq!(machine.context().velocity, Point { x: 0, y: 0 });
        assert_eq!(machine.context().position, start.context().position);
        assert_eq!(machine.frame_name(), "Dead");
    }
}

#[test]
fn land_sets_the_character_on_the_surface() {
    let machine = running().update().update().transition(Event::Land(400));
    assert_eq!(machine.tag(), StateTag::Running);
    assert_eq!(machine.context().position.y, 400 - 121);
    assert_eq!(machine.context().frame, 2);

    let machine = running().transition(Event::Slide).update().transition(Event::Land(300));
    assert_eq!(machine.tag(), StateTag::Sliding);
    assert_eq!(machine.context().position.y, 179);
    assert_eq!(machine.context().frame, 1);

    let machine = running().transition(Event::Jump).update().update().transition(Event::Land(420));
    assert_eq!(machine.tag(), StateTag::Running);
    assert_eq!(machine.context().position.y, 299);
    assert_eq!(machine.context().frame, 0);
    // the landing leaves the speed alone
    assert_eq!(machine.context().velocity, Point { x: 4, y: -23 });
}

#[test]
fn events_without_a_meaning_leave_the_state_unchanged() {
    let cases = [
        (idle().update(), vec![Event::Jump, Event::Slide, Event::KnockOut, Event::Land(100)]),
        (running().update(), vec![Event::Run]),
        (running().transition(Event::Slide).update(), vec![Event::Run, Event::Jump, Event::Slide]),
        (running().transition(Event::Jump).update(), vec![Event::Run, Event::Jump, Event::Slide]),
        (
            running().transition(Event::KnockOut).update(),
            vec![Event::Run, Event::Jump, Event::Slide, Event::KnockOut, Event::Land(100)],
        ),
    ];
    for (machine, events) in cases {
        for event in events {
            let next = machine.transition(event);
            assert_eq!(next.tag(), machine.tag());
            assert_eq!(next.context(), machine.context());
        }
    }
}

#[test]
fn jump_from_the_floor_lands_after_fifty_ticks() {
    let mut machine = running().transition(Event::Jump);
    let mut ticks = 0;
    let mut highest = FLOOR;
    while machine.tag() == StateTag::Jumping {
        machine = machine.update();
        ticks += 1;
        highest = highest.min(machine.context().position.y);
        assert!(machine.context().frame <= JUMPING_FRAMES);
        assert!(ticks <= 1000);
    }
    assert_eq!(ticks, 50);
    assert_eq!(highest, FLOOR - 300);
    assert_eq!(machine.tag(), StateTag::Running);
    assert_eq!(machine.context().position.y, FLOOR);
    assert_eq!(machine.context().frame, 0);
    assert_eq!(machine.context().velocity, Point { x: 4, y: 20 });
}

#[test]
fn jump_from_a_platform_lands_on_the_floor() {
    let mut machine = running().transition(Event::Land(200)).transition(Event::Jump);
    assert_eq!(machine.context().position.y, 79);
    let mut ticks = 0;
    while machine.tag() == StateTag::Jumping {
        machine = machine.update();
        ticks += 1;
        assert!(ticks <= 1000);
    }
    // 45 ticks take the character up by 300 and down by 210; the rest
    // of the way, 400 + 90, goes by at 20 a tick.
    assert_eq!(ticks, 45 + 25);
    assert_eq!(machine.tag(), StateTag::Running);
    assert_eq!(machine.context().position.y, FLOOR);
}

#[test]
fn slide_ends_after_exactly_the_sliding_frames() {
    let mut machine = running().update().transition(Event::Slide);
    for tick in 1..SLIDING_FRAMES {
        machine = machine.update();
        assert_eq!(machine.tag(), StateTag::Sliding);
        assert_eq!(machine.context().frame, tick);
    }
    machine = machine.update();
    assert_eq!(machine.tag(), StateTag::Running);
    assert_eq!(machine.context().frame, 0);
}

#[test]
fn fall_ends_after_exactly_the_falling_frames() {
    let mut machine = running().update().transition(Event::KnockOut);
    for tick in 1..FALLING_FRAMES {
        machine = machine.update();
        assert_eq!(machine.tag(), StateTag::Falling);
        assert_eq!(machine.context().frame, tick);
        assert!(!machine.knocked_out());
    }
    machine = machine.update();
    assert_eq!(machine.tag(), StateTag::KnockedOut);
    assert!(machine.knocked_out());
    assert_eq!(machine.context().frame, 29);
    assert_eq!(machine.frame_name(), "Dead");
}

#[test]
fn knocked_out_is_absorbing() {
    let mut machine = running().transition(Event::KnockOut);
    for _ in 0..FALLING_FRAMES {
        machine = machine.update();
    }
    assert!(machine.knocked_out());
    let context = *machine.context();
    for event in [
        Event::Run,
        Event::Jump,
        Event::Slide,
        Event::KnockOut,
        Event::Land(300),
        Event::Update,
    ] {
        let next = machine.transition(event);
        assert!(next.knocked_out());
        assert_eq!(*next.context(), context);
    }
    for _ in 0..100 {
        machine = machine.update();
    }
    assert!(machine.knocked_out());
    assert_eq!(*machine.context(), context);
}

#[test]
fn states_report_their_outcome() {
    let sliding = RedHatBoyState::<Idle>::new().run().slide();
    assert_eq!(sliding.frame_name(), "Slide");
    match sliding.update() {
        SlidingEndState::Sliding(state) => assert_eq!(state.context().frame, 1),
        SlidingEndState::Complete(_) => panic!("the slide has only begun"),
    }
    let mut state = sliding;
    for _ in 0..13 {
        state = match state.update() {
            SlidingEndState::Sliding(state) => state,
            SlidingEndState::Complete(_) => panic!("the slide is not over yet"),
        };
    }
    match state.update() {
        SlidingEndState::Complete(running) => {
            assert_eq!(running.context().frame, 0);
            assert_eq!(running.frame_name(), "Run");
        }
        SlidingEndState::Sliding(_) => panic!("the slide is over"),
    }
    assert_eq!(sliding.stand().context().frame, 0);

    let jumping = RedHatBoyState::<Idle>::new().run().jump();
    match jumping.update() {
        JumpingEndState::Jumping(state) => assert_eq!(state.context().position.y, 455),
        JumpingEndState::Complete(_) => panic!("the jump has only begun"),
    }
    let grounded = RedHatBoyState::<Idle>::new().run().land_on(700).jump().knock_out();
    assert_eq!(grounded.context().position.y, 579);

    let falling = RedHatBoyState::<Idle>::new().run().knock_out();
    match falling.update() {
        FallingEndState::Falling(state) => assert_eq!(state.context().frame, 1),
        FallingEndState::Complete(_) => panic!("the fall has only begun"),
    }
    let down = falling.down();
    assert_eq!(down.frame_name(), "Dead");
    assert_eq!(down.context(), falling.context());
}

#[test]
fn jump_that_starts_below_the_floor_lands_at_once() {
    // A surface below the floor puts the character below the floor until
    // the next tick brings it back.
    let machine = running().transition(Event::Land(700)).transition(Event::Jump);
    assert_eq!(machine.context().position.y, 579);
    let machine = machine.update();
    assert_eq!(machine.tag(), StateTag::Running);
    assert_eq!(machine.context().position.y, FLOOR);
}

#[test]
fn surfaces_far_outside_the_field_are_taken_as_they_are() {
    // far below: the next tick brings the character back to the floor
    let machine = running().transition(Event::Land(20000));
    assert_eq!(machine.context().position.y, 19879);
    let machine = machine.update();
    assert_eq!(machine.tag(), StateTag::Running);
    assert_eq!(machine.context().position.y, FLOOR);
    // far above: the character falls from there
    let mut machine = running().transition(Event::Land(-32000)).transition(Event::Jump);
    assert_eq!(machine.context().position.y, -32121);
    let mut highest = 0;
    let mut ticks = 0;
    while machine.tag() == StateTag::Jumping {
        machine = machine.update();
        highest = highest.min(machine.context().position.y);
        ticks += 1;
        assert!(ticks < 10_000);
    }
    assert_eq!(highest, -32421);
    assert_eq!(machine.context().position.y, FLOOR);
    // 45 ticks up by 300 and down by 210, then 20 a tick
    assert_eq!(ticks, 45 + (32600 + 90 + 19) / 20);
}
