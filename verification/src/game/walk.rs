//! The world of one run, the session that runs it, and the game that the
//! host holds. What each of them stands for, and the rules of a tick, are
//! in `world`.

use crate::engine::{take_message, DrawCommand, Image, ImageElement, KeyState, Point, Rect};
use crate::engine::{Renderer, Sheet, SpriteSheet};
use crate::game::obstacles::{
    visible_obstacle_can_scroll, well_formed_obstacle_is_usable, AnyObstacle, SCROLL_LIMIT,
};
use crate::game::red_hat_boy::{
    bottom_for, can_stand_on, complete_within, stands_on, top_for, RedHatBoy, FIELD_TOP,
};
use crate::game::red_hat_boy_states::FLOOR;
use crate::game::state_machine::Character;
use crate::game::world::{
    background_fits, background_in_place, drawing_of, in_sight, in_sight_is_in_sight,
    extending_lays_out_beyond, initial_is_well_formed, laid_out_beyond, landable_together,
    landable_wherever,
    met_all, scrolled,
    scrolled_background, segment_of, Effects,
    SessionModel, Ui,
    WalkModel, BACKGROUND_LIMIT, BACKGROUND_MINIMUM, LAST_START, OBSTACLE_BUFFER, SEGMENT_SHAPES,
    TIMELINE_MINIMUM,
};
use crate::segments::{
    all_landable, all_well_formed, models, platform_and_stone, rightmost, segments_are_landable,
    segments_are_sound, spec_rightmost, HIGH_PLATFORM,
    segments_fit, segments_usable, stone_and_platform,
};
use futures::channel::mpsc::UnboundedReceiver;
use rand::Rng;
use vstd::prelude::*;
use vstd::std_specs::convert::FromSpecImpl;

verus! {

/// A number picked at random from zero up to, and not including, `bound`.
///
/// The body calls `rand::thread_rng` and, on the generator that it gives,
/// `rand::Rng::gen_range` with the range `0..bound`. `gen_range` panics on
/// an empty range, which `requires` leaves out; `thread_rng` panics where
/// the system has no seed to give, whatever the argument. Of the result the
/// contract claims only what `gen_range` documents of every outcome: it
/// lies in the range. Which number of the range comes back is up to chance.
#[verifier::external_body]
fn random_below(bound: i32) -> (number: i32)
    requires
        0 < bound,
    ensures
        0 <= number < bound,
{
    rand::thread_rng().gen_range(0..bound)
}

/// The world of one run.
pub struct Walk {
    boy: RedHatBoy,
    backgrounds: [Image; 2],
    obstacles: Vec<AnyObstacle>,
    obstacle_sheet: SpriteSheet,
    stone: ImageElement,
    timeline: i16,
}

impl View for Walk {
    type V = WalkModel;

    closed spec fn view(&self) -> WalkModel {
        WalkModel {
            boy: self.boy.character(),
            boy_sheet: self.boy.sheet(),
            boy_image: self.boy.spec_image(),
            backgrounds: seq![self.backgrounds[0]@, self.backgrounds[1]@],
            obstacles: models(self.obstacles@),
            tiles: self.obstacle_sheet@,
            tiles_image: self.obstacle_sheet.spec_image(),
            stone: self.stone,
            timeline: self.timeline,
        }
    }
}

impl Walk {
    /// The world is well formed. This holds of every world.
    #[verifier::type_invariant]
    pub open spec fn wf(&self) -> bool {
        self@.wf()
    }

    /// The world at the start of a run.
    pub fn new(
        boy: RedHatBoy,
        background: ImageElement,
        obstacle_sheet: SpriteSheet,
        stone: ImageElement,
    ) -> (walk: Walk)
        requires
            can_stand_on(boy.sheet(), HIGH_PLATFORM),
            background_fits(background),
            segments_fit(stone, obstacle_sheet@, LAST_START as int),
        ensures
            walk@ == WalkModel::initial(
                boy.character(),
                boy.sheet(),
                boy.spec_image(),
                background,
                obstacle_sheet@,
                obstacle_sheet.spec_image(),
                stone,
            ),
            walk@.wf(),
    {
        proof {
            use_type_invariant(&boy);
            initial_is_well_formed(
                boy.character(),
                boy.sheet(),
                boy.spec_image(),
                background,
                obstacle_sheet@,
                obstacle_sheet.spec_image(),
                stone,
            );
        }
        let background_width: i16 = background.width() as i16;
        let starting_obstacles = stone_and_platform(stone, &obstacle_sheet, 0);
        let timeline = rightmost(&starting_obstacles);
        let walk = Walk {
            boy,
            backgrounds: [
                Image::new(background, Point { x: 0, y: 0 }),
                Image::new(background, Point { x: background_width, y: 0 }),
            ],
            obstacles: starting_obstacles,
            obstacle_sheet,
            stone,
            timeline,
        };
        proof {
            assert(walk@.backgrounds =~= WalkModel::initial(
                boy.character(),
                boy.sheet(),
                boy.spec_image(),
                background,
                obstacle_sheet@,
                obstacle_sheet.spec_image(),
                stone,
            ).backgrounds);
        }
        walk
    }

    /// The character.
    pub fn boy(&self) -> (boy: &RedHatBoy)
        ensures
            boy.character() == self@.boy,
            boy.sheet() == self@.boy_sheet,
            boy.spec_image() == self@.boy_image,
    {
        &self.boy
    }

    /// The two backgrounds that tile the view.
    pub fn backgrounds(&self) -> (backgrounds: &[Image; 2])
        ensures
            backgrounds[0]@ == self@.backgrounds[0],
            backgrounds[1]@ == self@.backgrounds[1],
    {
        &self.backgrounds
    }

    /// The obstacles, oldest first.
    pub fn obstacles(&self) -> (obstacles: &Vec<AnyObstacle>)
        ensures
            models(obstacles@) == self@.obstacles,
    {
        &self.obstacles
    }

    /// The x-coordinate up to which the world has been laid out.
    pub fn timeline(&self) -> (timeline: i16)
        ensures
            timeline == self@.timeline,
    {
        self.timeline
    }

    /// By how much the world scrolls in a tick.
    pub fn velocity(&self) -> (velocity: i16)
        ensures
            velocity == self@.velocity(),
            -SCROLL_LIMIT <= velocity <= 0,
    {
        proof {
            use_type_invariant(self);
        }
        -self.boy.walking_speed()
    }

    /// Extends the world by the segment of the given shape: for 0 a stone
    /// and then a platform, for 1 a platform and then a stone.
    pub fn place_segment(&mut self, next_segment: i32)
        requires
            old(self)@.can_extend(),
        ensures
            final(self)@ == old(self)@.with_next_segment(next_segment),
            final(self)@.wf(),
            0 <= next_segment < SEGMENT_SHAPES ==> final(self)@.timeline >= old(self)@.timeline
                + OBSTACLE_BUFFER,
            laid_out_beyond(old(self)@, final(self)@),
    {
        proof {
            use_type_invariant(&*self);
            extending_lays_out_beyond(old(self)@, next_segment);
            segments_are_sound(
                self.stone,
                self.obstacle_sheet.spec_image(),
                self.obstacle_sheet@,
                (self.timeline + OBSTACLE_BUFFER) as i16,
            );
            segments_are_landable(
                self.boy.sheet(),
                self.stone,
                self.obstacle_sheet.spec_image(),
                self.obstacle_sheet@,
                (self.timeline + OBSTACLE_BUFFER) as i16,
            );
            landable_together(
                old(self)@.obstacles,
                old(self)@.segment(next_segment, (self.timeline + OBSTACLE_BUFFER) as i16),
                self.boy.sheet(),
            );
        }
        let mut obstacles: Vec<AnyObstacle> = Vec::new();
        core::mem::swap(&mut self.obstacles, &mut obstacles);
        let timeline = lay_out(
            &mut obstacles,
            &self.obstacle_sheet,
            self.stone,
            self.timeline,
            next_segment,
        );
        self.timeline = timeline;
        self.obstacles = obstacles;
    }

    /// Extends the world by a segment whose shape is picked at random.
    pub fn generate_next_segment(&mut self)
        requires
            old(self)@.can_extend(),
        ensures
            exists|next_segment: i32|
                0 <= next_segment < SEGMENT_SHAPES && final(self)@ == #[trigger] old(
                    self,
                )@.with_next_segment(next_segment),
            final(self)@.wf(),
            final(self)@.timeline >= old(self)@.timeline + OBSTACLE_BUFFER,
            laid_out_beyond(old(self)@, final(self)@),
    {
        let next_segment = random_below(SEGMENT_SHAPES);
        self.place_segment(next_segment);
    }

    /// Adds the instructions that draw the world to the display list.
    pub fn draw(&self, renderer: &mut Renderer)
        ensures
            final(renderer)@ == old(renderer)@ + self@.drawing(),
    {
        proof {
            use_type_invariant(self);
        }
        self.backgrounds[0].draw(renderer);
        self.backgrounds[1].draw(renderer);
        self.boy.draw(renderer);
        let ghost drawn = renderer@;
        let mut i: usize = 0;
        while i < self.obstacles.len()
            invariant
                i <= self.obstacles@.len(),
                all_well_formed(models(self.obstacles@)),
                renderer@ == drawn + drawing_of(models(self.obstacles@).take(i as int)),
            decreases self.obstacles@.len() - i,
        {
            proof {
                let all = models(self.obstacles@);
                assert(all[i as int].wf());
                well_formed_obstacle_is_usable(all[i as int]);
                assert(all.take(i + 1).drop_last() == all.take(i as int));
                assert(all.take(i + 1).last() == self.obstacles@[i as int]@);
            }
            self.obstacles[i].draw(renderer);
            i += 1;
            proof {
                assert(renderer@ =~= drawn + drawing_of(
                    models(self.obstacles@).take(i as int),
                ));
            }
        }
        proof {
            assert(models(self.obstacles@).take(i as int) == models(self.obstacles@));
            assert(renderer@ =~= old(renderer)@ + self@.drawing());
        }
    }

    pub fn knocked_out(&self) -> (out: bool)
        ensures
            out == (self@.boy.tag is KnockedOut),
    {
        self.boy.knocked_out()
    }

    /// The world at the start of a new run, with the images and sprites of
    /// the old one and nothing else of it.
    pub fn reset(walk: Self) -> (fresh: Walk)
        ensures
            fresh@ == walk@.fresh(),
            fresh@.wf(),
    {
        proof {
            use_type_invariant(&walk);
        }
        let background = *walk.backgrounds[0].element();
        Walk::new(RedHatBoy::reset(walk.boy), background, walk.obstacle_sheet, walk.stone)
    }
}

/// Adds the segment of the given shape to the obstacles. The segment starts
/// the buffer's width beyond `timeline`, the mark up to which the world has
/// been laid out; the answer is the new mark, the rightmost edge of the
/// segment.
fn lay_out(
    obstacles: &mut Vec<AnyObstacle>,
    obstacle_sheet: &SpriteSheet,
    stone: ImageElement,
    timeline: i16,
    next_segment: i32,
) -> (laid_out: i16)
    requires
        all_well_formed(models(old(obstacles)@)),
        segments_fit(stone, obstacle_sheet@, timeline + OBSTACLE_BUFFER),
    ensures
        models(final(obstacles)@) == models(old(obstacles)@) + segment_of(
            stone,
            obstacle_sheet.spec_image(),
            obstacle_sheet@,
            next_segment,
            (timeline + OBSTACLE_BUFFER) as i16,
        ),
        laid_out == spec_rightmost(
            segment_of(
                stone,
                obstacle_sheet.spec_image(),
                obstacle_sheet@,
                next_segment,
                (timeline + OBSTACLE_BUFFER) as i16,
            ),
        ),
        all_well_formed(models(final(obstacles)@)),
        0 <= laid_out,
        0 <= next_segment < SEGMENT_SHAPES ==> laid_out >= timeline + OBSTACLE_BUFFER,
{
    proof {
        segments_are_sound(
            stone,
            obstacle_sheet.spec_image(),
            obstacle_sheet@,
            (timeline + OBSTACLE_BUFFER) as i16,
        );
    }
    let mut next_obstacles = match next_segment {
        0 => stone_and_platform(stone, obstacle_sheet, timeline + OBSTACLE_BUFFER),
        1 => platform_and_stone(stone, obstacle_sheet, timeline + OBSTACLE_BUFFER),
        _ => Vec::new(),
    };
    proof {
        assert(models(next_obstacles@) =~= segment_of(
            stone,
            obstacle_sheet.spec_image(),
            obstacle_sheet@,
            next_segment,
            (timeline + OBSTACLE_BUFFER) as i16,
        ));
    }
    let laid_out = rightmost(&next_obstacles);
    let ghost before = obstacles@;
    let ghost added = next_obstacles@;
    obstacles.append(&mut next_obstacles);
    proof {
        assert(models(before + added) =~= models(before) + models(added));
    }
    laid_out
}

/// Scrolls one of the backgrounds along with the world.
fn scroll_background(background: &mut Image, speed: i16)
    requires
        background_in_place(old(background)@),
        -SCROLL_LIMIT <= speed <= 0,
    ensures
        final(background)@ == scrolled_background(old(background)@, speed as int),
        background_in_place(final(background)@),
{
    background.move_horizontally(speed);
    if background.right() < 0 {
        background.move_horizontally(background.bounding_box().width * 2);
    }
}

/// Drops the obstacles whose right edge has passed the left edge of the
/// view.
fn retain_in_sight(obstacles: &mut Vec<AnyObstacle>)
    requires
        all_well_formed(models(old(obstacles)@)),
    ensures
        models(final(obstacles)@) == in_sight(models(old(obstacles)@)),
{
    let ghost all = models(obstacles@);
    let ghost mut seen: int = 0;
    let mut i: usize = 0;
    while i < obstacles.len()
        invariant
            0 <= seen <= all.len(),
            i <= obstacles@.len(),
            obstacles@.len() - i == all.len() - seen,
            i == in_sight(all.take(seen)).len(),
            models(obstacles@) == in_sight(all.take(seen)) + all.skip(seen),
            all_well_formed(all),
        decreases all.len() - seen,
    {
        proof {
            assert(models(obstacles@)[i as int] == all[seen]);
            assert(obstacles@[i as int]@ == all[seen]);
            assert(all.take(seen + 1).drop_last() == all.take(seen));
            assert(all.take(seen + 1).last() == all[seen]);
        }
        let ghost before = obstacles@;
        if obstacles[i].right() >= 0 {
            i += 1;
            proof {
                assert(models(obstacles@) =~= in_sight(all.take(seen + 1)) + all.skip(seen + 1));
            }
        } else {
            let _ = obstacles.remove(i);
            proof {
                assert(models(obstacles@) =~= models(before).remove(i as int));
                assert(models(obstacles@) =~= in_sight(all.take(seen + 1)) + all.skip(seen + 1));
            }
        }
        proof {
            seen = seen + 1;
        }
    }
    proof {
        assert(all.take(seen) == all);
        assert(models(obstacles@) =~= in_sight(all));
    }
}

/// Scrolls the obstacles along with the world, and lets the character meet
/// each of them where it then is.
fn scroll_obstacles(obstacles: &mut Vec<AnyObstacle>, boy: &mut RedHatBoy, speed: i16)
    requires
        all_well_formed(models(old(obstacles)@)),
        forall|i: int|
            0 <= i < old(obstacles)@.len() ==> (#[trigger] models(old(obstacles)@)[i]).right() >= 0,
        all_landable(models(old(obstacles)@), old(boy).sheet()),
        -SCROLL_LIMIT <= speed <= 0,
    ensures
        models(final(obstacles)@) == scrolled(models(old(obstacles)@), speed as int),
        all_well_formed(models(final(obstacles)@)),
        all_landable(models(final(obstacles)@), old(boy).sheet()),
        final(boy).character() == met_all(
            old(boy).character(),
            old(boy).sheet(),
            scrolled(models(old(obstacles)@), speed as int),
        ),
        final(boy).same_sprites(old(boy)),
        final(boy).wf(),
{
    proof {
        use_type_invariant(&*boy);
        landable_wherever(models(obstacles@), boy.sheet(), speed as int);
    }
    let ghost all = models(obstacles@);
    let ghost moved = scrolled(all, speed as int);
    let mut i: usize = 0;
    while i < obstacles.len()
        invariant
            i <= obstacles@.len(),
            obstacles@.len() == all.len(),
            moved == scrolled(all, speed as int),
            all_well_formed(all),
            forall|j: int| 0 <= j < all.len() ==> (#[trigger] all[j]).right() >= 0,
            forall|j: int| 0 <= j < i ==> (#[trigger] obstacles@[j])@ == moved[j],
            forall|j: int| i <= j < all.len() ==> (#[trigger] obstacles@[j])@ == all[j],
            forall|j: int| 0 <= j < i ==> (#[trigger] moved[j]).wf(),
            all_landable(moved, old(boy).sheet()),
            boy.character() == met_all(old(boy).character(), old(boy).sheet(), moved.take(i as int)),
            boy.same_sprites(old(boy)),
            boy.wf(),
            -SCROLL_LIMIT <= speed <= 0,
        decreases obstacles@.len() - i,
    {
        proof {
            assert(all[i as int].wf());
            visible_obstacle_can_scroll(all[i as int], speed as int);
            assert(moved.take(i + 1).drop_last() == moved.take(i as int));
            assert(moved.take(i + 1).last() == moved[i as int]);
            assert(moved[i as int].landable_by(boy.sheet()));
        }
        obstacles[i].move_horizontally(speed);
        obstacles[i].check_intersection(boy);
        i += 1;
    }
    proof {
        assert(moved.take(i as int) == moved);
        assert(models(obstacles@) =~= moved);
    }
}

/// The session in state `T`.
pub struct WalkTheDogState<T> {
    _state: T,
    walk: Walk,
}

impl<T> View for WalkTheDogState<T> {
    type V = WalkModel;

    /// A state is its world; the type says which state it is.
    closed spec fn view(&self) -> WalkModel {
        self.walk@
    }
}

impl<T> WalkTheDogState<T> {
    /// The world of the session.
    pub fn walk(&self) -> (walk: &Walk)
        ensures
            walk@ == self@,
    {
        &self.walk
    }

    /// Adds the instructions that draw the world to the display list.
    pub fn draw(&self, renderer: &mut Renderer)
        ensures
            final(renderer)@ == old(renderer)@ + self@.drawing(),
    {
        self.walk.draw(renderer);
    }
}

pub struct Ready;

/// What a tick makes of a session that is ready.
pub enum ReadyEndState {
    /// The run has started.
    Complete(WalkTheDogState<Walking>),
    /// The session is still ready.
    Continue(WalkTheDogState<Ready>),
}

impl WalkTheDogState<Ready> {
    /// A session that waits to start in the given world, in which the
    /// character is idle.
    pub fn new(walk: Walk) -> (state: Self)
        requires
            walk@.boy.tag is Idle,
        ensures
            state@ == walk@,
    {
        WalkTheDogState { _state: Ready, walk }
    }

    /// One tick of waiting. The run starts if the right arrow is held.
    pub fn update(self, keystate: &KeyState) -> (end: ReadyEndState)
        ensures
            match end {
                ReadyEndState::Complete(walking) => {
                    &&& keystate@.contains("ArrowRight"@)
                    &&& walking@ == self@.waited().started()
                    &&& walking@.wf()
                },
                ReadyEndState::Continue(ready) => {
                    &&& !keystate@.contains("ArrowRight"@)
                    &&& ready@ == self@.waited()
                    &&& ready@.wf()
                },
            },
    {
        let WalkTheDogState { _state, walk } = self;
        proof {
            use_type_invariant(&walk);
        }
        let Walk { boy, backgrounds, obstacles, obstacle_sheet, stone, timeline } = walk;
        let mut boy = boy;
        boy.update();
        let state = WalkTheDogState {
            _state,
            walk: Walk { boy, backgrounds, obstacles, obstacle_sheet, stone, timeline },
        };
        if keystate.is_pressed("ArrowRight") {
            ReadyEndState::Complete(state.start_running())
        } else {
            ReadyEndState::Continue(state)
        }
    }

    /// Starts the run.
    pub fn start_running(self) -> (walking: WalkTheDogState<Walking>)
        ensures
            walking@ == self@.started(),
            walking@.wf(),
    {
        let state = self.run_right();
        WalkTheDogState { _state: Walking, walk: state.walk }
    }

    fn run_right(self) -> (state: Self)
        ensures
            state@ == self@.started(),
            state@.wf(),
    {
        let WalkTheDogState { _state, walk } = self;
        proof {
            use_type_invariant(&walk);
        }
        let Walk { boy, backgrounds, obstacles, obstacle_sheet, stone, timeline } = walk;
        let mut boy = boy;
        boy.run_right();
        WalkTheDogState {
            _state,
            walk: Walk { boy, backgrounds, obstacles, obstacle_sheet, stone, timeline },
        }
    }
}

pub struct Walking;

/// What a tick makes of a run.
pub enum WalkingEndState {
    /// The run is over.
    Complete(WalkTheDogState<GameOver>),
    /// The run goes on.
    Continue(WalkTheDogState<Walking>),
}

impl WalkTheDogState<Walking> {
    /// One tick of the run, with a segment of a shape picked at random if
    /// the world is to be extended. The second part of the answer says
    /// whether the jump sound is due.
    pub fn update(self, keystate: &KeyState) -> (end: (WalkingEndState, bool))
        ensures
            exists|next_segment: i32|
                0 <= next_segment < SEGMENT_SHAPES && #[trigger] walking_outcome(
                    self@,
                    keystate@,
                    next_segment,
                    end,
                ),
    {
        let next_segment = if self.walk.timeline < TIMELINE_MINIMUM {
            random_below(SEGMENT_SHAPES)
        } else {
            0
        };
        let end = self.update_with(keystate, next_segment);
        proof {
            assert(walking_outcome(self@, keystate@, next_segment, end));
        }
        end
    }

    /// One tick of the run, with a segment of the given shape if the world
    /// is to be extended. The second part of the answer says whether the
    /// jump sound is due.
    pub fn update_with(self, keystate: &KeyState, next_segment: i32) -> (end: (
        WalkingEndState,
        bool,
    ))
        ensures
            walking_outcome(self@, keystate@, next_segment, end),
    {
        let WalkTheDogState { _state, walk } = self;
        proof {
            use_type_invariant(&walk);
        }
        let Walk { boy, backgrounds, obstacles, obstacle_sheet, stone, timeline } = walk;
        let mut boy = boy;
        let mut obstacles = obstacles;
        let mut timeline = timeline;

        let mut took_off = false;
        if keystate.is_pressed("ArrowDown") {
            boy.slide();
        }
        if keystate.is_pressed("Space") {
            took_off = boy.jump();
        }
        boy.update();

        let walking_speed: i16 = -boy.walking_speed();

        let mut first = backgrounds[0];
        let mut second = backgrounds[1];
        scroll_background(&mut first, walking_speed);
        scroll_background(&mut second, walking_speed);

        retain_in_sight(&mut obstacles);
        proof {
            in_sight_is_in_sight(self@.obstacles);
            landable_wherever(self@.obstacles, self@.boy_sheet, walking_speed as int);
        }
        scroll_obstacles(&mut obstacles, &mut boy, walking_speed);

        if timeline < TIMELINE_MINIMUM {
            proof {
                let offset = (timeline + OBSTACLE_BUFFER) as i16;
                segments_are_sound(stone, obstacle_sheet.spec_image(), obstacle_sheet@, offset);
                segments_are_landable(
                    self@.boy_sheet,
                    stone,
                    obstacle_sheet.spec_image(),
                    obstacle_sheet@,
                    offset,
                );
                landable_together(
                    models(obstacles@),
                    segment_of(
                        stone,
                        obstacle_sheet.spec_image(),
                        obstacle_sheet@,
                        next_segment,
                        offset,
                    ),
                    self@.boy_sheet,
                );
            }
            timeline = lay_out(&mut obstacles, &obstacle_sheet, stone, timeline, next_segment);
        } else {
            timeline += walking_speed;
        }

        let walk = Walk { boy, backgrounds: [first, second], obstacles, obstacle_sheet, stone, timeline };
        proof {
            assert(walk@.backgrounds =~= self@.walked(keystate@, next_segment).backgrounds);
        }
        let state = WalkTheDogState { _state, walk };

        if state.walk.knocked_out() {
            (WalkingEndState::Complete(state.end_game()), took_off)
        } else {
            (WalkingEndState::Continue(state), took_off)
        }
    }

    /// Ends the run. The host shows the new-game button and hands over the
    /// channel on which it says that the button has been pressed.
    pub fn end_game(self) -> (over: WalkTheDogState<GameOver>)
        ensures
            over@ == self@,
            !over.listening(),
    {
        WalkTheDogState { _state: GameOver { new_game_event: None }, walk: self.walk }
    }
}

/// Whether `end` is what a tick makes of a run in the world `walk`, with
/// the given keys held and a segment of the given shape at hand: the world
/// has walked on by a tick, the run is over if and only if the character is
/// then knocked out, and the jump sound is due if and only if the character
/// took off.
pub open spec fn walking_outcome(
    walk: WalkModel,
    keys: Set<Seq<char>>,
    next_segment: i32,
    end: (WalkingEndState, bool),
) -> bool {
    &&& end.1 == walk.takes_off(keys)
    &&& match end.0 {
        WalkingEndState::Complete(over) => {
            &&& walk.walked(keys, next_segment).boy.tag is KnockedOut
            &&& over@ == walk.walked(keys, next_segment)
            &&& over@.wf()
        },
        WalkingEndState::Continue(walking) => {
            &&& !(walk.walked(keys, next_segment).boy.tag is KnockedOut)
            &&& walking@ == walk.walked(keys, next_segment)
            &&& walking@.wf()
        },
    }
}

/// The state in which the run is over. It holds the channel on which the
/// host says that a new game has been asked for, once the host has handed
/// one over.
pub struct GameOver {
    new_game_event: Option<UnboundedReceiver<()>>,
}

impl GameOver {
    /// Whether the host has handed over a channel to listen on.
    pub closed spec fn listening(&self) -> bool {
        self.new_game_event is Some
    }

    /// Whether a new game has been asked for since the last time this was
    /// looked at. Nobody can have asked while there is no channel to listen
    /// on.
    fn new_game_pressed(&mut self) -> (pressed: bool)
        ensures
            !old(self).listening() ==> !pressed,
            final(self).listening() == old(self).listening(),
    {
        match &mut self.new_game_event {
            Some(receiver) => take_message(receiver).is_some(),
            None => false,
        }
    }
}

/// What a tick makes of a session that is over.
pub enum GameOverEndState {
    /// A new game is ready.
    Complete(WalkTheDogState<Ready>),
    /// The session is still over.
    Continue(WalkTheDogState<GameOver>),
}

/// Whether `end` is what a tick makes of a session that is over in the
/// world `walk`: if a new game has been asked for, a new game is ready in a
/// fresh world, and otherwise the session is still over in the world as it
/// was.
pub open spec fn game_over_outcome(
    walk: WalkModel,
    new_game_pressed: bool,
    end: GameOverEndState,
) -> bool {
    match end {
        GameOverEndState::Complete(ready) => {
            &&& new_game_pressed
            &&& ready@ == walk.fresh()
            &&& ready@.wf()
        },
        GameOverEndState::Continue(over) => {
            &&& !new_game_pressed
            &&& over@ == walk
            &&& over@.wf()
        },
    }
}

impl WalkTheDogState<GameOver> {
    /// Whether the host has handed over a channel to listen on.
    pub closed spec fn listening(&self) -> bool {
        self._state.listening()
    }

    /// Hands over the channel on which the host says that a new game has
    /// been asked for.
    pub fn arm(&mut self, new_game_event: UnboundedReceiver<()>)
        ensures
            final(self)@ == old(self)@,
            final(self).listening(),
    {
        self._state.new_game_event = Some(new_game_event);
    }

    /// One tick after the run. A new game is made ready if one has been
    /// asked for on the channel since the last tick; without a channel the
    /// session stays over.
    pub fn update(self) -> (end: GameOverEndState)
        ensures
            exists|new_game_pressed: bool| #[trigger]
                game_over_outcome(self@, new_game_pressed, end),
            !self.listening() ==> end is Continue,
            match end {
                GameOverEndState::Complete(_) => true,
                GameOverEndState::Continue(over) => over.listening() == self.listening(),
            },
    {
        let mut state = self;
        let new_game_pressed = state._state.new_game_pressed();
        let end = state.update_with(new_game_pressed);
        proof {
            assert(game_over_outcome(self@, new_game_pressed, end));
        }
        end
    }

    /// One tick after the run, given whether a new game has been asked for
    /// since the last tick.
    pub fn update_with(self, new_game_pressed: bool) -> (end: GameOverEndState)
        ensures
            game_over_outcome(self@, new_game_pressed, end),
            match end {
                GameOverEndState::Complete(_) => true,
                GameOverEndState::Continue(over) => over.listening() == self.listening(),
            },
    {
        proof {
            use_type_invariant(&self.walk);
        }
        if new_game_pressed {
            GameOverEndState::Complete(self.new_game())
        } else {
            GameOverEndState::Continue(self)
        }
    }

    /// Makes a new game ready. The host takes the new-game button away.
    pub fn new_game(self) -> (ready: WalkTheDogState<Ready>)
        ensures
            ready@ == self@.fresh(),
            ready@.wf(),
    {
        WalkTheDogState { _state: Ready, walk: Walk::reset(self.walk) }
    }
}

/// The session behind one tag: each variant holds the session in the state
/// of that name.
pub enum WalkTheDogStateMachine {
    Ready(WalkTheDogState<Ready>),
    Walking(WalkTheDogState<Walking>),
    GameOver(WalkTheDogState<GameOver>),
}

impl View for WalkTheDogStateMachine {
    type V = SessionModel;

    open spec fn view(&self) -> SessionModel {
        match self {
            WalkTheDogStateMachine::Ready(state) => SessionModel::Ready(state@),
            WalkTheDogStateMachine::Walking(state) => SessionModel::Walking(state@),
            WalkTheDogStateMachine::GameOver(state) => SessionModel::GameOver(state@),
        }
    }
}

impl WalkTheDogStateMachine {
    /// Whether the session is over and the host has handed over a channel
    /// on which to listen for a new game.
    pub open spec fn listening(&self) -> bool {
        match self {
            WalkTheDogStateMachine::GameOver(state) => state.listening(),
            _ => false,
        }
    }

    /// A session that is ready to start in the given world.
    pub fn new(walk: Walk) -> (machine: Self)
        requires
            walk@.boy.tag is Idle,
        ensures
            machine@ == SessionModel::Ready(walk@),
    {
        WalkTheDogStateMachine::Ready(WalkTheDogState::new(walk))
    }

    /// The world of the session.
    pub fn walk(&self) -> (walk: &Walk)
        ensures
            walk@ == self@.walk(),
    {
        match self {
            WalkTheDogStateMachine::Ready(state) => state.walk(),
            WalkTheDogStateMachine::Walking(state) => state.walk(),
            WalkTheDogStateMachine::GameOver(state) => state.walk(),
        }
    }

    /// Hands over the channel on which the host says that a new game has
    /// been asked for. It is kept if the session is over, and dropped
    /// otherwise.
    pub fn arm(&mut self, new_game_event: UnboundedReceiver<()>)
        ensures
            final(self)@ == old(self)@,
            final(self).listening() == (old(self)@ is GameOver),
    {
        match self {
            WalkTheDogStateMachine::GameOver(state) => state.arm(new_game_event),
            _ => {},
        }
    }

    /// One tick of the session. Two things are not up to the session: the
    /// shape of the segment, which is picked at random if the world is to
    /// be extended, and whether a new game has been asked for, which the
    /// channel says if the session is over.
    pub fn update(self, keystate: &KeyState) -> (next: (Self, Effects))
        ensures
            exists|new_game_pressed: bool, next_segment: i32|
                0 <= next_segment < SEGMENT_SHAPES && next.0@ == #[trigger] self@.tick(
                    keystate@,
                    new_game_pressed,
                    next_segment,
                ) && next.1 == self@.effects(keystate@, new_game_pressed, next_segment),
            next.0@.wf(),
            self@ is GameOver && !self.listening() ==> next.0@ == self@ && !next.0.listening(),
    {
        match self {
            WalkTheDogStateMachine::Ready(state) => {
                let next = WalkTheDogStateMachine::Ready(state).update_with(keystate, false, 0);
                proof {
                    assert(next.0@ == self@.tick(keystate@, false, 0));
                }
                next
            },
            WalkTheDogStateMachine::Walking(state) => {
                let (end, jump_sound) = state.update(keystate);
                let ghost next_segment = choose|next_segment: i32|
                    0 <= next_segment < SEGMENT_SHAPES && #[trigger] walking_outcome(
                        state@,
                        keystate@,
                        next_segment,
                        (end, jump_sound),
                    );
                let ui = match end {
                    WalkingEndState::Complete(_) => Ui::ShowNewGame,
                    WalkingEndState::Continue(_) => Ui::Keep,
                };
                let next: WalkTheDogStateMachine = end.into();
                proof {
                    assert(next@ == self@.tick(keystate@, false, next_segment));
                }
                (next, Effects { jump_sound, ui })
            },
            WalkTheDogStateMachine::GameOver(state) => {
                let end = state.update();
                let ghost new_game_pressed = choose|new_game_pressed: bool| #[trigger]
                    game_over_outcome(state@, new_game_pressed, end);
                let ui = match end {
                    GameOverEndState::Complete(_) => Ui::Hide,
                    GameOverEndState::Continue(_) => Ui::Keep,
                };
                let next: WalkTheDogStateMachine = end.into();
                proof {
                    assert(next@ == self@.tick(keystate@, new_game_pressed, 0));
                }
                (next, Effects { jump_sound: false, ui })
            },
        }
    }

    /// One tick of the session, with a segment of the given shape if the
    /// world is to be extended.
    pub fn update_with(self, keystate: &KeyState, new_game_pressed: bool, next_segment: i32) -> (next:
        (Self, Effects))
        ensures
            next.0@ == self@.tick(keystate@, new_game_pressed, next_segment),
            next.1 == self@.effects(keystate@, new_game_pressed, next_segment),
            next.0@.wf(),
    {
        match self {
            WalkTheDogStateMachine::Ready(state) => (
                state.update(keystate).into(),
                Effects { jump_sound: false, ui: Ui::Keep },
            ),
            WalkTheDogStateMachine::Walking(state) => {
                let (end, jump_sound) = state.update_with(keystate, next_segment);
                let ui = match end {
                    WalkingEndState::Complete(_) => Ui::ShowNewGame,
                    WalkingEndState::Continue(_) => Ui::Keep,
                };
                (end.into(), Effects { jump_sound, ui })
            },
            WalkTheDogStateMachine::GameOver(state) => {
                let end = state.update_with(new_game_pressed);
                let ui = match end {
                    GameOverEndState::Complete(_) => Ui::Hide,
                    GameOverEndState::Continue(_) => Ui::Keep,
                };
                (end.into(), Effects { jump_sound: false, ui })
            },
        }
    }

    /// Adds the instructions that draw the world to the display list.
    pub fn draw(&self, renderer: &mut Renderer)
        ensures
            final(renderer)@ == old(renderer)@ + self@.walk().drawing(),
    {
        match self {
            WalkTheDogStateMachine::Ready(state) => state.draw(renderer),
            WalkTheDogStateMachine::Walking(state) => state.draw(renderer),
            WalkTheDogStateMachine::GameOver(state) => state.draw(renderer),
        }
    }
}

impl From<WalkTheDogState<Ready>> for WalkTheDogStateMachine {
    fn from(state: WalkTheDogState<Ready>) -> (machine: Self) {
        WalkTheDogStateMachine::Ready(state)
    }
}

impl FromSpecImpl<WalkTheDogState<Ready>> for WalkTheDogStateMachine {
    open spec fn obeys_from_spec() -> bool {
        true
    }

    open spec fn from_spec(state: WalkTheDogState<Ready>) -> Self {
        WalkTheDogStateMachine::Ready(state)
    }
}

impl From<WalkTheDogState<Walking>> for WalkTheDogStateMachine {
    fn from(state: WalkTheDogState<Walking>) -> (machine: Self) {
        WalkTheDogStateMachine::Walking(state)
    }
}

impl FromSpecImpl<WalkTheDogState<Walking>> for WalkTheDogStateMachine {
    open spec fn obeys_from_spec() -> bool {
        true
    }

    open spec fn from_spec(state: WalkTheDogState<Walking>) -> Self {
        WalkTheDogStateMachine::Walking(state)
    }
}

impl From<WalkTheDogState<GameOver>> for WalkTheDogStateMachine {
    fn from(state: WalkTheDogState<GameOver>) -> (machine: Self) {
        WalkTheDogStateMachine::GameOver(state)
    }
}

impl FromSpecImpl<WalkTheDogState<GameOver>> for WalkTheDogStateMachine {
    open spec fn obeys_from_spec() -> bool {
        true
    }

    open spec fn from_spec(state: WalkTheDogState<GameOver>) -> Self {
        WalkTheDogStateMachine::GameOver(state)
    }
}

impl From<ReadyEndState> for WalkTheDogStateMachine {
    fn from(state: ReadyEndState) -> (machine: Self) {
        match state {
            ReadyEndState::Complete(state) => state.into(),
            ReadyEndState::Continue(state) => state.into(),
        }
    }
}

impl FromSpecImpl<ReadyEndState> for WalkTheDogStateMachine {
    open spec fn obeys_from_spec() -> bool {
        true
    }

    open spec fn from_spec(state: ReadyEndState) -> Self {
        match state {
            ReadyEndState::Complete(state) => WalkTheDogStateMachine::Walking(state),
            ReadyEndState::Continue(state) => WalkTheDogStateMachine::Ready(state),
        }
    }
}

impl From<WalkingEndState> for WalkTheDogStateMachine {
    fn from(state: WalkingEndState) -> (machine: Self) {
        match state {
            WalkingEndState::Complete(state) => state.into(),
            WalkingEndState::Continue(state) => state.into(),
        }
    }
}

impl FromSpecImpl<WalkingEndState> for WalkTheDogStateMachine {
    open spec fn obeys_from_spec() -> bool {
        true
    }

    open spec fn from_spec(state: WalkingEndState) -> Self {
        match state {
            WalkingEndState::Complete(state) => WalkTheDogStateMachine::GameOver(state),
            WalkingEndState::Continue(state) => WalkTheDogStateMachine::Walking(state),
        }
    }
}

impl From<GameOverEndState> for WalkTheDogStateMachine {
    fn from(state: GameOverEndState) -> (machine: Self) {
        match state {
            GameOverEndState::Complete(state) => state.into(),
            GameOverEndState::Continue(state) => state.into(),
        }
    }
}

impl FromSpecImpl<GameOverEndState> for WalkTheDogStateMachine {
    open spec fn obeys_from_spec() -> bool {
        true
    }

    open spec fn from_spec(state: GameOverEndState) -> Self {
        match state {
            GameOverEndState::Complete(state) => WalkTheDogStateMachine::Ready(state),
            GameOverEndState::Continue(state) => WalkTheDogStateMachine::GameOver(state),
        }
    }
}

/// Why a game could not be made ready.
#[derive(Debug, Clone, Copy, PartialEq, Eq, Structural)]
pub enum GameError {
    /// The game has been made ready before.
    DoubleInitialization,
}

/// What the host has loaded for the game.
pub struct Assets {
    /// The sprites of the character.
    pub boy_sheet: Sheet,
    /// The image that the character's sprites are cut from.
    pub boy_image: ImageElement,
    /// The sprites of the obstacles.
    pub tiles: Sheet,
    /// The image that the obstacles' sprites are cut from.
    pub tiles_image: ImageElement,
    /// The background.
    pub background: ImageElement,
    /// The stone.
    pub stone: ImageElement,
}

impl Assets {
    /// Whether a game can be played with the images and sprites: the
    /// character has a sprite for every frame of every animation, and
    /// every number that a run forms of them is representable. That is so
    /// where the sprites can show the character wherever it may come to
    /// from the highest platform, the background can tile the view, and
    /// segments fit into the world at the farthest place at which a run
    /// starts one.
    pub open spec fn usable(&self) -> bool {
        &&& can_stand_on(self.boy_sheet@, HIGH_PLATFORM)
        &&& background_fits(self.background)
        &&& segments_fit(self.stone, self.tiles@, LAST_START as int)
    }
}

impl Assets {
    /// Whether a game can be played with the images and sprites.
    pub fn is_usable(&self) -> (ok: bool)
        ensures
            ok == self.usable(),
    {
        stands_on(&self.boy_sheet, HIGH_PLATFORM) && background_usable(&self.background)
            && segments_usable(
            &self.stone,
            &self.tiles,
            LAST_START,
        )
    }
}

/// Whether an image can serve as the background.
pub fn background_usable(background: &ImageElement) -> (ok: bool)
    ensures
        ok == background_fits(*background),
{
    BACKGROUND_MINIMUM as u32 <= background.width && background.width <= BACKGROUND_LIMIT as u32
        && background.height <= i16::MAX as u32
}

/// The game: nothing until it is made ready, and then a session.
pub struct WalkTheDog {
    machine: Option<WalkTheDogStateMachine>,
}

impl View for WalkTheDog {
    type V = Option<SessionModel>;

    closed spec fn view(&self) -> Option<SessionModel> {
        match self.machine {
            Some(machine) => Some(machine@),
            None => None,
        }
    }
}

impl WalkTheDog {
    /// Whether the run is over and the host has handed over a channel on
    /// which to listen for a new game.
    pub closed spec fn listening(&self) -> bool {
        match self.machine {
            Some(machine) => machine.listening(),
            None => false,
        }
    }

    /// The game is ready to be played or has not been made ready yet.
    pub open spec fn wf(&self) -> bool {
        self@ matches Some(session) ==> session.wf()
    }

    /// A game that has not been made ready.
    pub fn new() -> (game: Self)
        ensures
            game@ is None,
    {
        WalkTheDog { machine: None }
    }

    /// The session, once the game has been made ready.
    pub fn machine(&self) -> (machine: Option<&WalkTheDogStateMachine>)
        ensures
            match machine {
                Some(machine) => self@ == Some(machine@),
                None => self@ is None,
            },
    {
        self.machine.as_ref()
    }

    /// Makes a game ready with what the host has loaded. This fails for a
    /// game that has been made ready before, and for no other. The new
    /// game is ready to start in the initial world.
    pub fn initialize(&self, assets: Assets) -> (game: Result<WalkTheDog, GameError>)
        requires
            self@ is None ==> assets.usable(),
        ensures
            match game {
                Ok(game) => {
                    &&& self@ is None
                    &&& game@ == Some(
                        SessionModel::Ready(
                            WalkModel::initial(
                                Character::start(),
                                assets.boy_sheet@,
                                assets.boy_image,
                                assets.background,
                                assets.tiles@,
                                assets.tiles_image,
                                assets.stone,
                            ),
                        ),
                    )
                    &&& game.wf()
                },
                Err(GameError::DoubleInitialization) => self@ is Some,
            },
    {
        match self.machine {
            None => {
                let sprite_sheet = SpriteSheet::new(assets.tiles, assets.tiles_image);
                proof {
                    let high = (top_for(HIGH_PLATFORM as int), bottom_for(HIGH_PLATFORM as int));
                    complete_within(assets.boy_sheet@, FIELD_TOP as int, FLOOR as int, high, high);
                }
                let boy = RedHatBoy::new(assets.boy_sheet, assets.boy_image);
                let walk = Walk::new(boy, assets.background, sprite_sheet, assets.stone);
                let machine = Some(WalkTheDogStateMachine::new(walk));
                Ok(WalkTheDog { machine })
            },
            Some(_) => Err(GameError::DoubleInitialization),
        }
    }

    /// Hands over the channel on which the host says that a new game has
    /// been asked for. The host does so when a tick has asked it to show
    /// the new-game button.
    pub fn arm(&mut self, new_game_event: UnboundedReceiver<()>)
        ensures
            final(self)@ == old(self)@,
            final(self).listening() == (old(self)@ matches Some(session) && session is GameOver),
    {
        match &mut self.machine {
            Some(machine) => machine.arm(new_game_event),
            None => {},
        }
    }

    /// One tick of the game. Two things are not up to the game: the shape
    /// of the segment, which is picked at random if the world is to be
    /// extended, and whether a new game has been asked for, which the
    /// channel says if the run is over. The answer says what the host is to
    /// do.
    pub fn update(&mut self, keystate: &KeyState) -> (effects: Effects)
        requires
            old(self)@ is Some,
        ensures
            exists|new_game_pressed: bool, next_segment: i32|
                0 <= next_segment < SEGMENT_SHAPES && final(self)@ == Some(
                    #[trigger] old(self)@->0.tick(keystate@, new_game_pressed, next_segment),
                ) && effects == old(self)@->0.effects(keystate@, new_game_pressed, next_segment),
            final(self).wf(),
            old(self)@->0 is GameOver && !old(self).listening() ==> final(self)@ == old(self)@
                && !final(self).listening(),
    {
        let machine = self.machine.take().unwrap();
        let (next, effects) = machine.update(keystate);
        self.machine = Some(next);
        effects
    }

    /// One tick of the game, with a segment of the given shape if the world
    /// is to be extended.
    pub fn update_with(&mut self, keystate: &KeyState, new_game_pressed: bool, next_segment: i32) -> (effects:
        Effects)
        requires
            old(self)@ is Some,
        ensures
            final(self)@ == Some(old(self)@->0.tick(keystate@, new_game_pressed, next_segment)),
            effects == old(self)@->0.effects(keystate@, new_game_pressed, next_segment),
            final(self).wf(),
    {
        let machine = self.machine.take().unwrap();
        let (next, effects) = machine.update_with(keystate, new_game_pressed, next_segment);
        self.machine = Some(next);
        effects
    }

    /// Fills the display list with the frame: the canvas is cleared, and the
    /// world is drawn if the game has been made ready.
    pub fn draw(&self, renderer: &mut Renderer)
        ensures
            final(renderer)@ == old(renderer)@.push(
                DrawCommand::Clear(
                    Rect { position: Point { x: 0, y: 0 }, width: 600, height: 600 },
                ),
            ) + match self@ {
                Some(session) => session.walk().drawing(),
                None => Seq::empty(),
            },
    {
        renderer.clear(&Rect::new_from_x_y(0, 0, 600, 600));
        if let Some(machine) = &self.machine {
            machine.draw(renderer);
        }
        proof {
            if self@ is None {
                assert(renderer@ =~= old(renderer)@.push(
                    DrawCommand::Clear(
                        Rect { position: Point { x: 0, y: 0 }, width: 600, height: 600 },
                    ),
                ) + Seq::<DrawCommand>::empty());
            }
        }
    }
}

} // verus!
