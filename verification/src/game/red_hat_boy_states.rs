//! The character's states, one type per state.
//!
//! A `RedHatBoyState<S>` owns the physics context of the character while it
//! is in state `S`. Every transition consumes the state it starts from and
//! returns the state it ends in, so an operation that a state does not have
//! cannot be called on it.
//!
//! The character moves up and down only. Its horizontal speed is the speed
//! at which the world scrolls past it; its horizontal position never
//! changes.

use crate::engine::Point;
use crate::game::HEIGHT;
use vstd::prelude::*;

verus! {

/// The y-coordinate at which the character stands on the ground.
pub const FLOOR: i16 = 479;

/// The distance from the character's position to the surface it stands on.
pub const PLAYER_HEIGHT: i16 = HEIGHT - FLOOR;

pub const IDLE_FRAME_NAME: &'static str = "Idle";

pub const RUN_FRAME_NAME: &'static str = "Run";

pub const SLIDING_FRAME_NAME: &'static str = "Slide";

pub const JUMPING_FRAME_NAME: &'static str = "Jump";

pub const FALLING_FRAME_NAME: &'static str = "Dead";

pub const STARTING_POINT: i16 = -20;

pub const IDLE_FRAMES: u8 = 29;

pub const RUNNING_FRAMES: u8 = 23;

pub const SLIDING_FRAMES: u8 = 14;

pub const JUMPING_FRAMES: u8 = 35;

pub const FALLING_FRAMES: u8 = 29;

pub const RUNNING_SPEED: i16 = 4;

pub const JUMP_SPEED: i16 = -25;

pub const GRAVITY: i16 = 1;

pub const TERMINAL_VELOCITY: i16 = 20;

/// The height that a jump gains before gravity turns it around.
pub const JUMP_RISE: i16 = 300;

/// The highest surface (smallest y) that the character may be set on: the
/// highest from which it can jump, come down on a surface as high again,
/// and jump once more, without leaving the range of coordinates.
pub const HIGHEST_SURFACE: i16 = -32047;

/// The lowest surface (largest y) that the character may be set on: the
/// lowest that a coordinate can name.
pub const LOWEST_SURFACE: i16 = i16::MAX;

/// No trajectory takes the character above this line, which is the least
/// coordinate.
pub const CEILING: i16 = HIGHEST_SURFACE - PLAYER_HEIGHT - JUMP_RISE - JUMP_RISE;

/// How far a character moving at vertical speed `vy` still rises before
/// gravity turns it around: nothing when it is not moving up, and otherwise
/// the sum of the speeds it passes through on the way to rest.
pub open spec fn rise(vy: int) -> int
    decreases -vy,
{
    if vy >= 0 {
        0
    } else {
        rise(vy + 1) - (vy + 1)
    }
}

/// `rise` in closed form.
pub proof fn rise_closed_form(vy: int)
    requires
        vy <= 0,
    ensures
        2 * rise(vy) == vy * (vy + 1),
    decreases -vy,
{
    if vy < 0 {
        rise_closed_form(vy + 1);
        assert(vy * (vy + 1) == (vy + 1) * (vy + 2) - 2 * (vy + 1)) by (nonlinear_arith);
    }
}

/// Between rest and the speed of a jump, `rise` stays between nothing and
/// the height of a jump.
pub proof fn rise_is_bounded(vy: int)
    requires
        JUMP_SPEED <= vy,
    ensures
        0 <= rise(vy) <= JUMP_RISE,
        vy == JUMP_SPEED ==> rise(vy) == JUMP_RISE,
{
    if vy < 0 {
        rise_closed_form(vy);
        assert(0 <= vy * (vy + 1) <= 600) by (nonlinear_arith)
            requires
                -25 <= vy < 0,
        ;
        if vy == JUMP_SPEED {
            assert(vy * (vy + 1) == 600) by (nonlinear_arith)
                requires
                    vy == -25,
            ;
        }
    }
}

/// The physics of the character: an animation frame counter, a position and
/// a velocity. It belongs to the current state alone and is handed on, never
/// shared, at every transition.
#[derive(Debug, Clone, Copy, PartialEq, Eq, Structural)]
pub struct RedHatBoyContext {
    pub frame: u8,
    pub position: Point,
    pub velocity: Point,
}

impl RedHatBoyContext {
    /// The vertical speed after one more tick of gravity.
    pub open spec fn next_velocity_y(self) -> int {
        if self.velocity.y < TERMINAL_VELOCITY {
            self.velocity.y + GRAVITY
        } else {
            self.velocity.y as int
        }
    }

    /// Whether a tick can pass: the height that the character moves to is
    /// representable.
    pub open spec fn can_tick(self) -> bool {
        i16::MIN <= self.position.y + self.next_velocity_y() <= i16::MAX
    }

    /// Whether the character can be set on a surface at height `surface`:
    /// the height at which it then stands is representable.
    pub open spec fn can_stand_on(self, surface: i16) -> bool {
        i16::MIN <= surface - PLAYER_HEIGHT
    }

    /// Whether the character can speed up to the right: the speed that it
    /// then has is representable.
    pub open spec fn can_run(self) -> bool {
        self.velocity.x + RUNNING_SPEED <= i16::MAX
    }

    /// The highest point (smallest y) that the character reaches if nothing
    /// but gravity acts on it from now on.
    pub open spec fn apex(self) -> int {
        self.position.y - rise(self.velocity.y as int)
    }

    /// The context lies inside the world: the speeds are ones that the
    /// states produce, the character stands at the starting point
    /// horizontally, and its height is one from which every sum that the
    /// simulation forms is representable.
    pub open spec fn in_world(self) -> bool {
        &&& 0 <= self.velocity.x <= RUNNING_SPEED
        &&& JUMP_SPEED <= self.velocity.y <= TERMINAL_VELOCITY
        &&& self.position.x == STARTING_POINT
        &&& self.position.y <= LOWEST_SURFACE - PLAYER_HEIGHT
        &&& CEILING <= self.apex()
    }

    /// There is room above the character for a whole jump.
    pub open spec fn has_headroom(self) -> bool {
        CEILING + JUMP_RISE <= self.apex()
    }

    /// The context one tick later, in a state whose animation has
    /// `frame_count` frames: gravity accelerates the fall up to the terminal
    /// velocity, the frame counter advances and wraps to zero once it has
    /// reached `frame_count`, and the character moves by its vertical speed
    /// but never below the floor.
    pub open spec fn spec_update(self, frame_count: u8) -> RedHatBoyContext {
        let vy = self.next_velocity_y();
        let y = self.position.y + vy;
        RedHatBoyContext {
            frame: if self.frame < frame_count {
                (self.frame + 1) as u8
            } else {
                0
            },
            position: Point {
                x: self.position.x,
                y: if y > FLOOR {
                    FLOOR
                } else {
                    y as i16
                },
            },
            velocity: Point { x: self.velocity.x, y: vy as i16 },
        }
    }

    /// The context with the frame counter back at zero.
    pub open spec fn spec_reset_frame(self) -> RedHatBoyContext {
        RedHatBoyContext { frame: 0, position: self.position, velocity: self.velocity }
    }

    /// The context sped up to the right by the running speed.
    pub open spec fn spec_run_right(self) -> RedHatBoyContext {
        RedHatBoyContext {
            frame: self.frame,
            position: self.position,
            velocity: Point { x: (self.velocity.x + RUNNING_SPEED) as i16, y: self.velocity.y },
        }
    }

    /// The context with the vertical speed replaced by `y`.
    pub open spec fn spec_set_vertical_velocity(self, y: i16) -> RedHatBoyContext {
        RedHatBoyContext {
            frame: self.frame,
            position: self.position,
            velocity: Point { x: self.velocity.x, y },
        }
    }

    /// The context at rest.
    pub open spec fn spec_stop(self) -> RedHatBoyContext {
        RedHatBoyContext {
            frame: self.frame,
            position: self.position,
            velocity: Point { x: 0, y: 0 },
        }
    }

    /// The context with the character standing on a surface at height
    /// `surface`.
    pub open spec fn spec_set_on(self, surface: i16) -> RedHatBoyContext {
        RedHatBoyContext {
            frame: self.frame,
            position: Point { x: self.position.x, y: (surface - PLAYER_HEIGHT) as i16 },
            velocity: self.velocity,
        }
    }

    /// Advances the physics by one tick.
    pub fn update(self, frame_count: u8) -> (next: Self)
        requires
            self.can_tick(),
        ensures
            next == self.spec_update(frame_count),
    {
        let mut next = self;
        if next.velocity.y < TERMINAL_VELOCITY {
            next.velocity.y += GRAVITY;
        }
        if next.frame < frame_count {
            next.frame += 1;
        } else {
            next.frame = 0;
        }
        next.position.y += next.velocity.y;
        if next.position.y > FLOOR {
            next.position.y = FLOOR;
        }
        next
    }

    fn reset_frame(self) -> (next: Self)
        ensures
            next == self.spec_reset_frame(),
    {
        let mut next = self;
        next.frame = 0;
        next
    }

    fn run_right(self) -> (next: Self)
        requires
            self.can_run(),
        ensures
            next == self.spec_run_right(),
    {
        let mut next = self;
        next.velocity.x += RUNNING_SPEED;
        next
    }

    fn set_vertical_velocity(self, y: i16) -> (next: Self)
        ensures
            next == self.spec_set_vertical_velocity(y),
    {
        let mut next = self;
        next.velocity.y = y;
        next
    }

    fn stop(self) -> (next: Self)
        ensures
            next == self.spec_stop(),
    {
        let mut next = self;
        next.velocity.x = 0;
        next.velocity.y = 0;
        next
    }

    fn set_on(self, position: i16) -> (next: Self)
        requires
            self.can_stand_on(position),
        ensures
            next == self.spec_set_on(position),
    {
        let mut next = self;
        let position: i16 = position - PLAYER_HEIGHT;
        next.position.y = position;
        next
    }
}

/// One tick keeps a context inside the world, and does not lower its apex
/// below the height of a jump from the floor.
pub proof fn tick_stays_in_world(context: RedHatBoyContext, frame_count: u8)
    requires
        context.in_world(),
    ensures
        context.can_tick(),
        context.spec_update(frame_count).in_world(),
        context.spec_update(frame_count).position.y <= FLOOR,
        context.has_headroom() ==> context.spec_update(frame_count).has_headroom(),
        context.spec_update(frame_count).apex() >= context.apex() || context.spec_update(
            frame_count,
        ).apex() >= FLOOR - JUMP_RISE,
{
    let next = context.spec_update(frame_count);
    rise_is_bounded(context.velocity.y as int);
    rise_is_bounded(next.velocity.y as int);
}

/// The character in state `S`.
#[derive(Clone, Copy)]
pub struct RedHatBoyState<S> {
    context: RedHatBoyContext,
    _state: S,
}

impl<S> View for RedHatBoyState<S> {
    type V = RedHatBoyContext;

    /// A state is its physics context; the type says which state it is.
    closed spec fn view(&self) -> RedHatBoyContext {
        self.context
    }
}

impl<S> RedHatBoyState<S> {
    pub fn context(&self) -> (context: &RedHatBoyContext)
        ensures
            *context == self@,
    {
        &self.context
    }

    /// Advances the physics by one tick of an animation with `frames`
    /// frames.
    pub fn update_context(&mut self, frames: u8)
        requires
            old(self)@.can_tick(),
        ensures
            final(self)@ == old(self)@.spec_update(frames),
    {
        let ctx = self.context.update(frames);
        self.context = ctx;
    }
}

#[derive(Clone, Copy)]
pub struct Idle;

impl RedHatBoyState<Idle> {
    /// An idle character stands still, inside the world, with room to jump.
    pub open spec fn wf(&self) -> bool {
        &&& self@.in_world()
        &&& self@.has_headroom()
        &&& self@.frame <= IDLE_FRAMES
        &&& self@.velocity.x == 0
    }

    /// The character at rest on the floor at the starting point.
    pub fn new() -> (state: Self)
        ensures
            state@ == (RedHatBoyContext {
                frame: 0,
                position: Point { x: STARTING_POINT, y: FLOOR },
                velocity: Point { x: 0, y: 0 },
            }),
            state.wf(),
    {
        proof {
            rise_is_bounded(0);
        }
        RedHatBoyState {
            context: RedHatBoyContext {
                frame: 0,
                position: Point { x: STARTING_POINT, y: FLOOR },
                velocity: Point::default(),
            },
            _state: Idle {  },
        }
    }

    pub fn frame_name(&self) -> (name: &str)
        ensures
            name@ == IDLE_FRAME_NAME@,
    {
        IDLE_FRAME_NAME
    }

    pub fn update(self) -> (next: Self)
        requires
            self@.can_tick(),
        ensures
            next@ == self@.spec_update(IDLE_FRAMES),
            self.wf() ==> next.wf(),
    {
        proof {
            if self.wf() {
                tick_stays_in_world(self@, IDLE_FRAMES);
            }
        }
        let mut next = self;
        next.update_context(IDLE_FRAMES);
        next
    }

    pub fn run(self) -> (next: RedHatBoyState<Running>)
        requires
            self@.can_run(),
        ensures
            next@ == self@.spec_reset_frame().spec_run_right(),
            self.wf() ==> next.wf(),
    {
        RedHatBoyState { context: self.context.reset_frame().run_right(), _state: Running {  } }
    }
}

#[derive(Clone, Copy)]
pub struct Running;

impl RedHatBoyState<Running> {
    /// A running character is inside the world with room to jump.
    pub open spec fn wf(&self) -> bool {
        &&& self@.in_world()
        &&& self@.has_headroom()
        &&& self@.frame <= RUNNING_FRAMES
    }

    pub fn frame_name(&self) -> (name: &str)
        ensures
            name@ == RUN_FRAME_NAME@,
    {
        RUN_FRAME_NAME
    }

    pub fn update(self) -> (next: Self)
        requires
            self@.can_tick(),
        ensures
            next@ == self@.spec_update(RUNNING_FRAMES),
            self.wf() ==> next.wf(),
    {
        proof {
            if self.wf() {
                tick_stays_in_world(self@, RUNNING_FRAMES);
            }
        }
        let mut next = self;
        next.update_context(RUNNING_FRAMES);
        next
    }

    pub fn slide(self) -> (next: RedHatBoyState<Sliding>)
        ensures
            next@ == self@.spec_reset_frame(),
            self.wf() ==> next.wf(),
    {
        RedHatBoyState { context: self.context.reset_frame(), _state: Sliding {  } }
    }

    /// Takes off. The host plays the jump sound.
    pub fn jump(self) -> (next: RedHatBoyState<Jumping>)
        ensures
            next@ == self@.spec_set_vertical_velocity(JUMP_SPEED).spec_reset_frame(),
            self.wf() ==> next.wf(),
    {
        proof {
            rise_is_bounded(JUMP_SPEED as int);
            if self.wf() {
                rise_is_bounded(self@.velocity.y as int);
            }
        }
        RedHatBoyState {
            context: self.context.set_vertical_velocity(JUMP_SPEED).reset_frame(),
            _state: Jumping {  },
        }
    }

    pub fn knock_out(self) -> (next: RedHatBoyState<Falling>)
        ensures
            next@ == self@.spec_reset_frame().spec_stop(),
            self.wf() ==> next.wf(),
    {
        proof {
            if self.wf() {
                rise_is_bounded(self@.velocity.y as int);
            }
        }
        RedHatBoyState { context: self.context.reset_frame().stop(), _state: Falling {  } }
    }

    pub fn land_on(self, y: i16) -> (next: RedHatBoyState<Running>)
        requires
            self@.can_stand_on(y),
        ensures
            next@ == self@.spec_set_on(y),
            self.wf() && HIGHEST_SURFACE <= y <= LOWEST_SURFACE ==> next.wf(),
    {
        proof {
            if self.wf() {
                rise_is_bounded(self@.velocity.y as int);
            }
        }
        RedHatBoyState { context: self.context.set_on(y), _state: Running {  } }
    }
}

#[derive(Clone, Copy)]
pub struct Sliding;

/// What a tick makes of a slide.
pub enum SlidingEndState {
    /// The slide is over and the character runs again.
    Complete(RedHatBoyState<Running>),
    /// The slide goes on.
    Sliding(RedHatBoyState<Sliding>),
}

impl RedHatBoyState<Sliding> {
    /// A sliding character is inside the world with room to jump, and its
    /// slide is not over.
    pub open spec fn wf(&self) -> bool {
        &&& self@.in_world()
        &&& self@.has_headroom()
        &&& self@.frame < SLIDING_FRAMES
    }

    pub fn frame_name(&self) -> (name: &str)
        ensures
            name@ == SLIDING_FRAME_NAME@,
    {
        SLIDING_FRAME_NAME
    }

    /// One tick of sliding. The slide ends when the frame counter has
    /// reached the length of the animation.
    pub fn update(self) -> (end: SlidingEndState)
        requires
            self@.can_tick(),
        ensures
            match end {
                SlidingEndState::Complete(running) => {
                    &&& self@.spec_update(SLIDING_FRAMES).frame >= SLIDING_FRAMES
                    &&& running@ == self@.spec_update(SLIDING_FRAMES).spec_reset_frame()
                    &&& self.wf() ==> running.wf()
                },
                SlidingEndState::Sliding(sliding) => {
                    &&& self@.spec_update(SLIDING_FRAMES).frame < SLIDING_FRAMES
                    &&& sliding@ == self@.spec_update(SLIDING_FRAMES)
                    &&& self.wf() ==> sliding.wf()
                },
            },
    {
        proof {
            if self.wf() {
                tick_stays_in_world(self@, SLIDING_FRAMES);
            }
        }
        let mut next = self;
        next.update_context(SLIDING_FRAMES);
        if next.context.frame >= SLIDING_FRAMES {
            SlidingEndState::Complete(next.stand())
        } else {
            SlidingEndState::Sliding(next)
        }
    }

    pub fn stand(self) -> (next: RedHatBoyState<Running>)
        ensures
            next@ == self@.spec_reset_frame(),
            self.wf() ==> next.wf(),
    {
        RedHatBoyState { context: self.context.reset_frame(), _state: Running {  } }
    }

    pub fn knock_out(self) -> (next: RedHatBoyState<Falling>)
        ensures
            next@ == self@.spec_reset_frame().spec_stop(),
            self.wf() ==> next.wf(),
    {
        proof {
            if self.wf() {
                rise_is_bounded(self@.velocity.y as int);
            }
        }
        RedHatBoyState { context: self.context.reset_frame().stop(), _state: Falling {  } }
    }

    pub fn land_on(self, y: i16) -> (next: RedHatBoyState<Sliding>)
        requires
            self@.can_stand_on(y),
        ensures
            next@ == self@.spec_set_on(y),
            self.wf() && HIGHEST_SURFACE <= y <= LOWEST_SURFACE ==> next.wf(),
    {
        proof {
            if self.wf() {
                rise_is_bounded(self@.velocity.y as int);
            }
        }
        RedHatBoyState { context: self.context.set_on(y), _state: Sliding {  } }
    }
}

#[derive(Clone, Copy)]
pub struct Jumping;

/// What a tick makes of a jump.
pub enum JumpingEndState {
    /// The character has come down to the floor and runs again.
    Complete(RedHatBoyState<Running>),
    /// The character is still in the air.
    Jumping(RedHatBoyState<Jumping>),
}

impl RedHatBoyState<Jumping> {
    /// A jumping character is inside the world.
    pub open spec fn wf(&self) -> bool {
        &&& self@.in_world()
        &&& self@.frame <= JUMPING_FRAMES
    }

    pub fn frame_name(&self) -> (name: &str)
        ensures
            name@ == JUMPING_FRAME_NAME@,
    {
        JUMPING_FRAME_NAME
    }

    /// One tick in the air. The jump ends when the character is back at the
    /// floor, where it lands and runs on.
    pub fn update(self) -> (end: JumpingEndState)
        requires
            self@.can_tick(),
        ensures
            match end {
                JumpingEndState::Complete(running) => {
                    &&& self@.spec_update(JUMPING_FRAMES).position.y >= FLOOR
                    &&& running@ == self@.spec_update(
                        JUMPING_FRAMES,
                    ).spec_reset_frame().spec_set_on(HEIGHT)
                    &&& self.wf() ==> running.wf()
                },
                JumpingEndState::Jumping(jumping) => {
                    &&& self@.spec_update(JUMPING_FRAMES).position.y < FLOOR
                    &&& jumping@ == self@.spec_update(JUMPING_FRAMES)
                    &&& self.wf() ==> jumping.wf()
                },
            },
    {
        proof {
            if self.wf() {
                tick_stays_in_world(self@, JUMPING_FRAMES);
            }
        }
        let mut next = self;
        next.update_context(JUMPING_FRAMES);
        if next.context.position.y >= FLOOR {
            JumpingEndState::Complete(next.land_on(HEIGHT))
        } else {
            JumpingEndState::Jumping(next)
        }
    }

    pub fn knock_out(self) -> (next: RedHatBoyState<Falling>)
        ensures
            next@ == self@.spec_reset_frame().spec_stop(),
            self.wf() ==> next.wf(),
    {
        proof {
            if self.wf() {
                rise_is_bounded(self@.velocity.y as int);
            }
        }
        RedHatBoyState { context: self.context.reset_frame().stop(), _state: Falling {  } }
    }

    pub fn land_on(self, y: i16) -> (next: RedHatBoyState<Running>)
        requires
            self@.can_stand_on(y),
        ensures
            next@ == self@.spec_reset_frame().spec_set_on(y),
            self.wf() && HIGHEST_SURFACE <= y <= LOWEST_SURFACE ==> next.wf(),
    {
        proof {
            if self.wf() {
                rise_is_bounded(self@.velocity.y as int);
            }
        }
        RedHatBoyState { context: self.context.reset_frame().set_on(y), _state: Running {  } }
    }
}

#[derive(Clone, Copy)]
pub struct Falling;

/// What a tick makes of a fall.
pub enum FallingEndState {
    /// The character lies on the ground for good.
    Complete(RedHatBoyState<KnockedOut>),
    /// The character is still going down.
    Falling(RedHatBoyState<Falling>),
}

impl RedHatBoyState<Falling> {
    /// A falling character is inside the world, and its fall is not over.
    pub open spec fn wf(&self) -> bool {
        &&& self@.in_world()
        &&& self@.frame < FALLING_FRAMES
    }

    pub fn frame_name(&self) -> (name: &str)
        ensures
            name@ == FALLING_FRAME_NAME@,
    {
        FALLING_FRAME_NAME
    }

    /// One tick of falling. The fall ends when the frame counter has reached
    /// the length of the animation.
    pub fn update(self) -> (end: FallingEndState)
        requires
            self@.can_tick(),
        ensures
            match end {
                FallingEndState::Complete(knocked_out) => {
                    &&& self@.spec_update(FALLING_FRAMES).frame >= FALLING_FRAMES
                    &&& knocked_out@ == self@.spec_update(FALLING_FRAMES)
                    &&& self.wf() ==> knocked_out.wf()
                },
                FallingEndState::Falling(falling) => {
                    &&& self@.spec_update(FALLING_FRAMES).frame < FALLING_FRAMES
                    &&& falling@ == self@.spec_update(FALLING_FRAMES)
                    &&& self.wf() ==> falling.wf()
                },
            },
    {
        proof {
            if self.wf() {
                tick_stays_in_world(self@, FALLING_FRAMES);
            }
        }
        let mut next = self;
        next.update_context(FALLING_FRAMES);
        if next.context.frame >= FALLING_FRAMES {
            FallingEndState::Complete(next.down())
        } else {
            FallingEndState::Falling(next)
        }
    }

    pub fn down(self) -> (next: RedHatBoyState<KnockedOut>)
        ensures
            next@ == self@,
            self.wf() ==> next.wf(),
    {
        RedHatBoyState { context: self.context, _state: KnockedOut {  } }
    }
}

#[derive(Clone, Copy)]
pub struct KnockedOut;

impl RedHatBoyState<KnockedOut> {
    /// A knocked-out character is inside the world.
    pub open spec fn wf(&self) -> bool {
        &&& self@.in_world()
        &&& self@.frame <= FALLING_FRAMES
    }

    pub fn frame_name(&self) -> (name: &str)
        ensures
            name@ == FALLING_FRAME_NAME@,
    {
        FALLING_FRAME_NAME
    }
}

} // verus!
