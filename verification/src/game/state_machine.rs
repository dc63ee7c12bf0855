//! The character's state machine: the states of `red_hat_boy_states` behind
//! one tagged value, the events that drive it, and what holds of every run.

use crate::engine::Point;
use crate::game::red_hat_boy_states::{
    rise_is_bounded, tick_stays_in_world, Falling, FallingEndState, Idle, Jumping,
    JumpingEndState, KnockedOut, RedHatBoyContext, RedHatBoyState, Running, Sliding,
    SlidingEndState, FALLING_FRAMES, FALLING_FRAME_NAME, FLOOR, HIGHEST_SURFACE, IDLE_FRAMES,
    IDLE_FRAME_NAME, JUMPING_FRAMES, JUMPING_FRAME_NAME, JUMP_SPEED, LOWEST_SURFACE,
    RUNNING_FRAMES, RUN_FRAME_NAME, SLIDING_FRAMES, SLIDING_FRAME_NAME, STARTING_POINT,
    TERMINAL_VELOCITY,
};
use crate::game::HEIGHT;
use vstd::prelude::*;
use vstd::std_specs::convert::FromSpecImpl;

verus! {

/// What can happen to the character.
#[derive(Debug, Clone, Copy, PartialEq, Eq, Structural)]
pub enum Event {
    Run,
    Jump,
    Slide,
    KnockOut,
    /// The character comes down on a surface at the given height.
    Land(i16),
    /// One tick of the simulation passes.
    Update,
}

/// Which state the character is in.
#[derive(Debug, Clone, Copy, PartialEq, Eq, Structural)]
pub enum StateTag {
    Idle,
    Running,
    Sliding,
    Jumping,
    Falling,
    KnockedOut,
}

/// The character as a plain value: its state and its physics. This is what
/// a `RedHatBoyStateMachine` stands for, and what the rules of the machine
/// are stated over.
#[derive(Debug, Clone, Copy, PartialEq, Eq, Structural)]
pub struct Character {
    pub tag: StateTag,
    pub context: RedHatBoyContext,
}

impl StateTag {
    /// The number of frames in the animation of the state.
    pub open spec fn frames(self) -> u8 {
        match self {
            StateTag::Idle => IDLE_FRAMES,
            StateTag::Running => RUNNING_FRAMES,
            StateTag::Sliding => SLIDING_FRAMES,
            StateTag::Jumping => JUMPING_FRAMES,
            StateTag::Falling => FALLING_FRAMES,
            StateTag::KnockedOut => FALLING_FRAMES,
        }
    }

    /// Whether the character can take off from the state, at once or after
    /// a transition that leaves its position alone.
    pub open spec fn grounded(self) -> bool {
        self is Idle || self is Running || self is Sliding
    }
}

impl Character {
    /// The character at the start of a run: idle, at rest, on the floor at
    /// the starting point.
    pub open spec fn start() -> Character {
        Character {
            tag: StateTag::Idle,
            context: RedHatBoyContext {
                frame: 0,
                position: Point { x: STARTING_POINT, y: FLOOR },
                velocity: Point { x: 0, y: 0 },
            },
        }
    }

    /// The character is inside the world, its frame counter within the
    /// animation of its state, and short of the end of an animation that
    /// ends the state, with room for a jump wherever it can start one.
    pub open spec fn wf(self) -> bool {
        &&& self.context.in_world()
        &&& self.context.frame <= self.tag.frames()
        &&& self.tag is Sliding || self.tag is Falling ==> self.context.frame < self.tag.frames()
        &&& self.tag.grounded() ==> self.context.has_headroom()
        &&& self.tag is Idle ==> self.context.velocity.x == 0
    }

    /// Whether the event can be carried out: the numbers that it makes are
    /// representable.
    pub open spec fn admits(self, event: Event) -> bool {
        match (self.tag, event) {
            (StateTag::Idle, Event::Run) => self.context.can_run(),
            (StateTag::Running, Event::Land(y)) => self.context.can_stand_on(y),
            (StateTag::Sliding, Event::Land(y)) => self.context.can_stand_on(y),
            (StateTag::Jumping, Event::Land(y)) => self.context.can_stand_on(y),
            (StateTag::KnockedOut, Event::Update) => true,
            (_, Event::Update) => self.context.can_tick(),
            _ => true,
        }
    }

    /// Whether the event keeps a well-formed character well formed: a
    /// surface that the character comes down on must be one from which a
    /// jump, and the room that the character keeps for the next, stay
    /// within the range of coordinates.
    pub open spec fn accepts(self, event: Event) -> bool {
        match event {
            Event::Land(y) => (self.tag is Running || self.tag is Sliding || self.tag is Jumping)
                ==> HIGHEST_SURFACE <= y <= LOWEST_SURFACE,
            _ => true,
        }
    }

    /// The character one tick later. Idle and running characters just move
    /// on; a slide ends when its animation has run through, a jump when the
    /// character is back at the floor, a fall when its animation has run
    /// through; a knocked-out character stays as it is.
    pub open spec fn tick(self) -> Character {
        let next = self.context.spec_update(self.tag.frames());
        match self.tag {
            StateTag::Idle => Character { tag: StateTag::Idle, context: next },
            StateTag::Running => Character { tag: StateTag::Running, context: next },
            StateTag::Sliding => if next.frame >= SLIDING_FRAMES {
                Character { tag: StateTag::Running, context: next.spec_reset_frame() }
            } else {
                Character { tag: StateTag::Sliding, context: next }
            },
            StateTag::Jumping => if next.position.y >= FLOOR {
                Character {
                    tag: StateTag::Running,
                    context: next.spec_reset_frame().spec_set_on(HEIGHT),
                }
            } else {
                Character { tag: StateTag::Jumping, context: next }
            },
            StateTag::Falling => if next.frame >= FALLING_FRAMES {
                Character { tag: StateTag::KnockedOut, context: next }
            } else {
                Character { tag: StateTag::Falling, context: next }
            },
            StateTag::KnockedOut => self,
        }
    }

    /// The character after the event. An event that means nothing in the
    /// current state leaves the character as it is.
    pub open spec fn transition(self, event: Event) -> Character {
        match (self.tag, event) {
            (StateTag::Idle, Event::Run) => Character {
                tag: StateTag::Running,
                context: self.context.spec_reset_frame().spec_run_right(),
            },
            (StateTag::Running, Event::Slide) => Character {
                tag: StateTag::Sliding,
                context: self.context.spec_reset_frame(),
            },
            (StateTag::Running, Event::Jump) => Character {
                tag: StateTag::Jumping,
                context: self.context.spec_set_vertical_velocity(JUMP_SPEED).spec_reset_frame(),
            },
            (StateTag::Running, Event::KnockOut)
            | (StateTag::Jumping, Event::KnockOut)
            | (StateTag::Sliding, Event::KnockOut) => Character {
                tag: StateTag::Falling,
                context: self.context.spec_reset_frame().spec_stop(),
            },
            (StateTag::Running, Event::Land(y)) => Character {
                tag: StateTag::Running,
                context: self.context.spec_set_on(y),
            },
            (StateTag::Sliding, Event::Land(y)) => Character {
                tag: StateTag::Sliding,
                context: self.context.spec_set_on(y),
            },
            (StateTag::Jumping, Event::Land(y)) => Character {
                tag: StateTag::Running,
                context: self.context.spec_reset_frame().spec_set_on(y),
            },
            (_, Event::Update) => self.tick(),
            _ => self,
        }
    }

    /// Whether the jump sound is due: a running character takes off.
    pub open spec fn takes_off(self, event: Event) -> bool {
        self.tag is Running && event is Jump
    }

    /// The character `n` ticks later.
    pub open spec fn after_ticks(self, n: nat) -> Character
        decreases n,
    {
        if n == 0 {
            self
        } else {
            self.tick().after_ticks((n - 1) as nat)
        }
    }

    /// An upper bound, one short, on the ticks that a character in the air
    /// needs to reach the floor: the height it has yet to come down from its
    /// apex, and the speed it has yet to gain.
    pub open spec fn airtime(self) -> int {
        (FLOOR - self.context.apex()) + (TERMINAL_VELOCITY - self.context.velocity.y)
    }
}

/// The character behind one tag: each variant holds the character in the
/// state of that name.
#[derive(Clone, Copy)]
pub enum RedHatBoyStateMachine {
    Idle(RedHatBoyState<Idle>),
    Running(RedHatBoyState<Running>),
    Sliding(RedHatBoyState<Sliding>),
    Jumping(RedHatBoyState<Jumping>),
    Falling(RedHatBoyState<Falling>),
    KnockedOut(RedHatBoyState<KnockedOut>),
}

impl View for RedHatBoyStateMachine {
    type V = Character;

    open spec fn view(&self) -> Character {
        match self {
            RedHatBoyStateMachine::Idle(state) => Character {
                tag: StateTag::Idle,
                context: state@,
            },
            RedHatBoyStateMachine::Running(state) => Character {
                tag: StateTag::Running,
                context: state@,
            },
            RedHatBoyStateMachine::Sliding(state) => Character {
                tag: StateTag::Sliding,
                context: state@,
            },
            RedHatBoyStateMachine::Jumping(state) => Character {
                tag: StateTag::Jumping,
                context: state@,
            },
            RedHatBoyStateMachine::Falling(state) => Character {
                tag: StateTag::Falling,
                context: state@,
            },
            RedHatBoyStateMachine::KnockedOut(state) => Character {
                tag: StateTag::KnockedOut,
                context: state@,
            },
        }
    }
}

impl RedHatBoyStateMachine {
    /// The character after the event. Events that mean nothing in the
    /// current state leave the machine as it is.
    pub fn transition(self, event: Event) -> (next: Self)
        requires
            self@.admits(event),
        ensures
            next@ == self@.transition(event),
            self@.wf() && self@.accepts(event) ==> next@.wf(),
    {
        match (self, event) {
            (RedHatBoyStateMachine::Idle(state), Event::Run) => state.run().into(),
            (RedHatBoyStateMachine::Running(state), Event::Slide) => state.slide().into(),
            (RedHatBoyStateMachine::Running(state), Event::Jump) => state.jump().into(),
            (RedHatBoyStateMachine::Running(state), Event::KnockOut) => state.knock_out().into(),
            (RedHatBoyStateMachine::Jumping(state), Event::KnockOut) => state.knock_out().into(),
            (RedHatBoyStateMachine::Sliding(state), Event::KnockOut) => state.knock_out().into(),
            (RedHatBoyStateMachine::Running(state), Event::Land(y)) => state.land_on(y).into(),
            (RedHatBoyStateMachine::Sliding(state), Event::Land(y)) => state.land_on(y).into(),
            (RedHatBoyStateMachine::Jumping(state), Event::Land(y)) => state.land_on(y).into(),
            (RedHatBoyStateMachine::Idle(state), Event::Update) => state.update().into(),
            (RedHatBoyStateMachine::Running(state), Event::Update) => state.update().into(),
            (RedHatBoyStateMachine::Sliding(state), Event::Update) => state.update().into(),
            (RedHatBoyStateMachine::Jumping(state), Event::Update) => state.update().into(),
            (RedHatBoyStateMachine::Falling(state), Event::Update) => state.update().into(),
            _ => self,
        }
    }

    /// Which state the character is in.
    pub fn tag(&self) -> (tag: StateTag)
        ensures
            tag == self@.tag,
    {
        match self {
            RedHatBoyStateMachine::Idle(_) => StateTag::Idle,
            RedHatBoyStateMachine::Running(_) => StateTag::Running,
            RedHatBoyStateMachine::Sliding(_) => StateTag::Sliding,
            RedHatBoyStateMachine::Jumping(_) => StateTag::Jumping,
            RedHatBoyStateMachine::Falling(_) => StateTag::Falling,
            RedHatBoyStateMachine::KnockedOut(_) => StateTag::KnockedOut,
        }
    }

    /// The label of the current state's animation.
    pub fn frame_name(&self) -> (name: &str)
        ensures
            name@ == frame_label(self@.tag),
    {
        match self {
            RedHatBoyStateMachine::Idle(state) => state.frame_name(),
            RedHatBoyStateMachine::Running(state) => state.frame_name(),
            RedHatBoyStateMachine::Sliding(state) => state.frame_name(),
            RedHatBoyStateMachine::Jumping(state) => state.frame_name(),
            RedHatBoyStateMachine::Falling(state) => state.frame_name(),
            RedHatBoyStateMachine::KnockedOut(state) => state.frame_name(),
        }
    }

    pub fn context(&self) -> (context: &RedHatBoyContext)
        ensures
            *context == self@.context,
    {
        match self {
            RedHatBoyStateMachine::Idle(state) => state.context(),
            RedHatBoyStateMachine::Running(state) => state.context(),
            RedHatBoyStateMachine::Sliding(state) => state.context(),
            RedHatBoyStateMachine::Jumping(state) => state.context(),
            RedHatBoyStateMachine::Falling(state) => state.context(),
            RedHatBoyStateMachine::KnockedOut(state) => state.context(),
        }
    }

    /// The character one tick later.
    pub fn update(self) -> (next: Self)
        requires
            self@.admits(Event::Update),
        ensures
            next@ == self@.tick(),
            self@.wf() ==> next@.wf(),
    {
        self.transition(Event::Update)
    }

    pub fn knocked_out(&self) -> (out: bool)
        ensures
            out == (self@.tag is KnockedOut),
    {
        matches!(self, RedHatBoyStateMachine::KnockedOut(_))
    }
}

/// The label of the animation that a state shows.
pub open spec fn frame_label(tag: StateTag) -> Seq<char> {
    match tag {
        StateTag::Idle => IDLE_FRAME_NAME@,
        StateTag::Running => RUN_FRAME_NAME@,
        StateTag::Sliding => SLIDING_FRAME_NAME@,
        StateTag::Jumping => JUMPING_FRAME_NAME@,
        StateTag::Falling => FALLING_FRAME_NAME@,
        StateTag::KnockedOut => FALLING_FRAME_NAME@,
    }
}

impl From<RedHatBoyState<Idle>> for RedHatBoyStateMachine {
    fn from(value: RedHatBoyState<Idle>) -> (machine: Self) {
        RedHatBoyStateMachine::Idle(value)
    }
}

impl FromSpecImpl<RedHatBoyState<Idle>> for RedHatBoyStateMachine {
    open spec fn obeys_from_spec() -> bool {
        true
    }

    open spec fn from_spec(value: RedHatBoyState<Idle>) -> Self {
        RedHatBoyStateMachine::Idle(value)
    }
}

impl From<RedHatBoyState<Running>> for RedHatBoyStateMachine {
    fn from(value: RedHatBoyState<Running>) -> (machine: Self) {
        RedHatBoyStateMachine::Running(value)
    }
}

impl FromSpecImpl<RedHatBoyState<Running>> for RedHatBoyStateMachine {
    open spec fn obeys_from_spec() -> bool {
        true
    }

    open spec fn from_spec(value: RedHatBoyState<Running>) -> Self {
        RedHatBoyStateMachine::Running(value)
    }
}

impl From<RedHatBoyState<Sliding>> for RedHatBoyStateMachine {
    fn from(value: RedHatBoyState<Sliding>) -> (machine: Self) {
        RedHatBoyStateMachine::Sliding(value)
    }
}

impl FromSpecImpl<RedHatBoyState<Sliding>> for RedHatBoyStateMachine {
    open spec fn obeys_from_spec() -> bool {
        true
    }

    open spec fn from_spec(value: RedHatBoyState<Sliding>) -> Self {
        RedHatBoyStateMachine::Sliding(value)
    }
}

impl From<RedHatBoyState<Jumping>> for RedHatBoyStateMachine {
    fn from(value: RedHatBoyState<Jumping>) -> (machine: Self) {
        RedHatBoyStateMachine::Jumping(value)
    }
}

impl FromSpecImpl<RedHatBoyState<Jumping>> for RedHatBoyStateMachine {
    open spec fn obeys_from_spec() -> bool {
        true
    }

    open spec fn from_spec(value: RedHatBoyState<Jumping>) -> Self {
        RedHatBoyStateMachine::Jumping(value)
    }
}

impl From<RedHatBoyState<Falling>> for RedHatBoyStateMachine {
    fn from(value: RedHatBoyState<Falling>) -> (machine: Self) {
        RedHatBoyStateMachine::Falling(value)
    }
}

impl FromSpecImpl<RedHatBoyState<Falling>> for RedHatBoyStateMachine {
    open spec fn obeys_from_spec() -> bool {
        true
    }

    open spec fn from_spec(value: RedHatBoyState<Falling>) -> Self {
        RedHatBoyStateMachine::Falling(value)
    }
}

impl From<RedHatBoyState<KnockedOut>> for RedHatBoyStateMachine {
    fn from(value: RedHatBoyState<KnockedOut>) -> (machine: Self) {
        RedHatBoyStateMachine::KnockedOut(value)
    }
}

impl FromSpecImpl<RedHatBoyState<KnockedOut>> for RedHatBoyStateMachine {
    open spec fn obeys_from_spec() -> bool {
        true
    }

    open spec fn from_spec(value: RedHatBoyState<KnockedOut>) -> Self {
        RedHatBoyStateMachine::KnockedOut(value)
    }
}

impl From<SlidingEndState> for RedHatBoyStateMachine {
    fn from(value: SlidingEndState) -> (machine: Self) {
        match value {
            SlidingEndState::Complete(running_state) => running_state.into(),
            SlidingEndState::Sliding(sliding_state) => sliding_state.into(),
        }
    }
}

impl FromSpecImpl<SlidingEndState> for RedHatBoyStateMachine {
    open spec fn obeys_from_spec() -> bool {
        true
    }

    open spec fn from_spec(value: SlidingEndState) -> Self {
        match value {
            SlidingEndState::Complete(running_state) => RedHatBoyStateMachine::Running(
                running_state,
            ),
            SlidingEndState::Sliding(sliding_state) => RedHatBoyStateMachine::Sliding(
                sliding_state,
            ),
        }
    }
}

impl From<JumpingEndState> for RedHatBoyStateMachine {
    fn from(value: JumpingEndState) -> (machine: Self) {
        match value {
            JumpingEndState::Complete(running_state) => running_state.into(),
            JumpingEndState::Jumping(jumping_state) => jumping_state.into(),
        }
    }
}

impl FromSpecImpl<JumpingEndState> for RedHatBoyStateMachine {
    open spec fn obeys_from_spec() -> bool {
        true
    }

    open spec fn from_spec(value: JumpingEndState) -> Self {
        match value {
            JumpingEndState::Complete(running_state) => RedHatBoyStateMachine::Running(
                running_state,
            ),
            JumpingEndState::Jumping(jumping_state) => RedHatBoyStateMachine::Jumping(
                jumping_state,
            ),
        }
    }
}

impl From<FallingEndState> for RedHatBoyStateMachine {
    fn from(value: FallingEndState) -> (machine: Self) {
        match value {
            FallingEndState::Complete(state) => state.into(),
            FallingEndState::Falling(state) => state.into(),
        }
    }
}

impl FromSpecImpl<FallingEndState> for RedHatBoyStateMachine {
    open spec fn obeys_from_spec() -> bool {
        true
    }

    open spec fn from_spec(value: FallingEndState) -> Self {
        match value {
            FallingEndState::Complete(state) => RedHatBoyStateMachine::KnockedOut(state),
            FallingEndState::Falling(state) => RedHatBoyStateMachine::Falling(state),
        }
    }
}

/// A well-formed character admits every event that it accepts.
pub proof fn well_formed_admits(c: Character, event: Event)
    requires
        c.wf(),
        c.accepts(event),
    ensures
        c.admits(event),
{
    tick_stays_in_world(c.context, c.tag.frames());
}

/// A tick keeps a well-formed character well formed.
pub proof fn tick_keeps_well_formed(c: Character)
    requires
        c.wf(),
    ensures
        c.tick().wf(),
{
    tick_stays_in_world(c.context, c.tag.frames());
    let next = c.context.spec_update(c.tag.frames());
    rise_is_bounded(next.velocity.y as int);
}

/// Every event that a well-formed character accepts leaves it well formed.
pub proof fn transition_keeps_well_formed(c: Character, event: Event)
    requires
        c.wf(),
        c.accepts(event),
    ensures
        c.transition(event).wf(),
{
    tick_keeps_well_formed(c);
    rise_is_bounded(c.context.velocity.y as int);
    rise_is_bounded(JUMP_SPEED as int);
    rise_is_bounded(0);
}

/// However many ticks pass, the frame counter never exceeds the length of
/// the animation of the state that the character is then in.
pub proof fn frame_stays_within_animation(c: Character, n: nat)
    requires
        c.wf(),
    ensures
        c.after_ticks(n).wf(),
        c.after_ticks(n).context.frame <= c.after_ticks(n).tag.frames(),
    decreases n,
{
    if n > 0 {
        tick_keeps_well_formed(c);
        frame_stays_within_animation(c.tick(), (n - 1) as nat);
    }
}

/// While the character stays in its state, each tick advances the frame
/// counter by one, and takes it back to zero from the end of the animation.
pub proof fn tick_advances_frame(c: Character)
    requires
        c.wf(),
        !(c.tag is KnockedOut),
        c.tick().tag == c.tag,
    ensures
        c.context.frame < c.tag.frames() ==> c.tick().context.frame == c.context.frame + 1,
        c.context.frame == c.tag.frames() ==> c.tick().context.frame == 0,
{
}

/// A jump always ends: a character in the air is back on the floor, running,
/// after a number of ticks that its height and speed determine. The number
/// is returned; until then the character is still jumping.
pub proof fn jump_ends_on_the_floor(c: Character) -> (n: nat)
    requires
        c.tag is Jumping,
        c.wf(),
    ensures
        1 <= n,
        n == 1 || n <= c.airtime(),
        forall|k: nat| k < n ==> (#[trigger] c.after_ticks(k)).tag is Jumping,
        c.after_ticks(n).tag is Running,
        c.after_ticks(n).context.position.y == FLOOR,
        c.after_ticks(n).wf(),
    decreases c.airtime(),
{
    let next = c.tick();
    tick_keeps_well_formed(c);
    rise_is_bounded(c.context.velocity.y as int);
    rise_is_bounded(next.context.velocity.y as int);
    assert(c.after_ticks(1) == next.after_ticks(0));
    if next.tag is Running {
        assert forall|k: nat| k < 1 implies (#[trigger] c.after_ticks(k)).tag is Jumping by {
            assert(c.after_ticks(0) == c);
        }
        1
    } else {
        assert(next.airtime() < c.airtime());
        let m = jump_ends_on_the_floor(next);
        let n = m + 1;
        assert(c.after_ticks(n) == next.after_ticks(m));
        assert forall|k: nat| k < n implies (#[trigger] c.after_ticks(k)).tag is Jumping by {
            if k > 0 {
                assert(c.after_ticks(k) == next.after_ticks((k - 1) as nat));
            }
        }
        n
    }
}

/// A slide lasts until its frame counter has reached the length of its
/// animation: from frame `f` the character slides for `SLIDING_FRAMES - f`
/// ticks, neither more nor fewer, and then runs.
pub proof fn slide_ends_with_its_animation(c: Character)
    requires
        c.tag is Sliding,
        c.wf(),
    ensures
        forall|k: nat|
            k < SLIDING_FRAMES - c.context.frame ==> (#[trigger] c.after_ticks(k)).tag is Sliding,
        c.after_ticks((SLIDING_FRAMES - c.context.frame) as nat).tag is Running,
    decreases SLIDING_FRAMES - c.context.frame,
{
    let next = c.tick();
    let left = (SLIDING_FRAMES - c.context.frame) as nat;
    tick_keeps_well_formed(c);
    assert(c.after_ticks(0) == c);
    assert(c.after_ticks(left) == next.after_ticks((left - 1) as nat));
    if left > 1 {
        slide_ends_with_its_animation(next);
    }
    assert forall|k: nat| k < left implies (#[trigger] c.after_ticks(k)).tag is Sliding by {
        if k > 0 {
            assert(c.after_ticks(k) == next.after_ticks((k - 1) as nat));
        }
    }
}

/// A running character that starts to slide is running again after exactly
/// `SLIDING_FRAMES` ticks.
pub proof fn slide_lasts_its_animation(c: Character)
    requires
        c.tag is Running,
        c.wf(),
    ensures
        forall|k: nat|
            k < SLIDING_FRAMES ==> (#[trigger] c.transition(Event::Slide).after_ticks(k)).tag
                is Sliding,
        c.transition(Event::Slide).after_ticks(SLIDING_FRAMES as nat).tag is Running,
{
    transition_keeps_well_formed(c, Event::Slide);
    slide_ends_with_its_animation(c.transition(Event::Slide));
}

/// A fall lasts until its frame counter has reached the length of its
/// animation: from frame `f` the character falls for `FALLING_FRAMES - f`
/// ticks, neither more nor fewer, and is then knocked out.
pub proof fn fall_ends_with_its_animation(c: Character)
    requires
        c.tag is Falling,
        c.wf(),
    ensures
        forall|k: nat|
            k < FALLING_FRAMES - c.context.frame ==> (#[trigger] c.after_ticks(k)).tag is Falling,
        c.after_ticks((FALLING_FRAMES - c.context.frame) as nat).tag is KnockedOut,
    decreases FALLING_FRAMES - c.context.frame,
{
    let next = c.tick();
    let left = (FALLING_FRAMES - c.context.frame) as nat;
    tick_keeps_well_formed(c);
    assert(c.after_ticks(0) == c);
    assert(c.after_ticks(left) == next.after_ticks((left - 1) as nat));
    if left > 1 {
        fall_ends_with_its_animation(next);
    }
    assert forall|k: nat| k < left implies (#[trigger] c.after_ticks(k)).tag is Falling by {
        if k > 0 {
            assert(c.after_ticks(k) == next.after_ticks((k - 1) as nat));
        }
    }
}

/// A character that is knocked out while it runs, slides or jumps lies on
/// the ground after exactly `FALLING_FRAMES` ticks.
pub proof fn fall_lasts_its_animation(c: Character)
    requires
        c.tag is Running || c.tag is Sliding || c.tag is Jumping,
        c.wf(),
    ensures
        forall|k: nat|
            k < FALLING_FRAMES ==> (#[trigger] c.transition(Event::KnockOut).after_ticks(k)).tag
                is Falling,
        c.transition(Event::KnockOut).after_ticks(FALLING_FRAMES as nat).tag is KnockedOut,
{
    transition_keeps_well_formed(c, Event::KnockOut);
    fall_ends_with_its_animation(c.transition(Event::KnockOut));
}

/// Nothing moves a knocked-out character: no event and no number of ticks.
pub proof fn knocked_out_is_absorbing(c: Character, event: Event, n: nat)
    requires
        c.tag is KnockedOut,
    ensures
        c.transition(event) == c,
        c.after_ticks(n) == c,
    decreases n,
{
    if n > 0 {
        knocked_out_is_absorbing(c, event, (n - 1) as nat);
    }
}

} // verus!
