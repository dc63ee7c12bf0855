//! The world and the session as plain values, and the rules by which a tick
//! takes one world to the next.

use crate::engine::{Cell, DrawCommand, ImageElement, ImageModel, Point, Rect};
use crate::game::obstacles::ObstacleModel;
use crate::game::red_hat_boy::{
    bottom_of, can_stand_on, complete_between, complete_within, destination_box_of, met,
    sprite_of, top_of, FIELD_TOP,
};
use crate::game::red_hat_boy_states::FLOOR;
use crate::game::red_hat_boy_states::rise_is_bounded;
use crate::game::state_machine::{Character, Event};
use crate::segments::{
    all_landable, all_well_formed, in_a_row, right_of_line, segments_are_landable,
    segments_are_sound, segments_fit, HIGH_PLATFORM,
    spec_platform_and_stone, spec_rightmost,
    spec_stone_and_platform,
};
use vstd::prelude::*;

verus! {

/// The number of shapes that a segment can have.
pub const SEGMENT_SHAPES: i32 = 2;

/// While the world is laid out less far ahead than this, it is extended.
pub const TIMELINE_MINIMUM: i16 = 1000;

/// The gap between the end of the world as laid out and the next segment.
pub const OBSTACLE_BUFFER: i16 = 20;

/// The farthest from the origin that a segment starts in the course of a
/// run: the buffer's width beyond the last mark that is below the minimum.
pub const LAST_START: i16 = TIMELINE_MINIMUM - 1 + OBSTACLE_BUFFER;

/// The narrowest background that can tile the view: one that is narrower
/// falls behind the scrolling world by more than a wrap brings back.
pub const BACKGROUND_MINIMUM: i16 = 2;

/// The widest background that can tile the view: twice the width, by which
/// a background wraps, is representable.
pub const BACKGROUND_LIMIT: i16 = 16383;

/// Whether an image can serve as the background: it is wide enough for two
/// copies to tile the view, twice its width is representable, and so is
/// its height.
pub open spec fn background_fits(background: ImageElement) -> bool {
    BACKGROUND_MINIMUM <= background.width <= BACKGROUND_LIMIT && background.height <= i16::MAX
}

/// Whether a background is where a tiling pair keeps it: in the size of its
/// image, and not farther from the origin than it is wide.
pub open spec fn background_in_place(background: ImageModel) -> bool {
    &&& background_fits(background.element)
    &&& background.bounding_box.width == background.element.width
    &&& background.bounding_box.height == background.element.height
    &&& -background.bounding_box.width <= background.bounding_box.position.x
        <= background.bounding_box.width
}

/// A background after the world has scrolled by `speed`: it has moved along,
/// and if that took its right edge past the left edge of the view, it has
/// moved on by twice its width, to the right end of the tiling pair.
pub open spec fn scrolled_background(background: ImageModel, speed: int) -> ImageModel {
    let moved = background.bounding_box.shifted(speed);
    ImageModel {
        element: background.element,
        bounding_box: if moved.spec_right() < 0 {
            moved.shifted(moved.width * 2)
        } else {
            moved
        },
    }
}

/// Those of the obstacles whose right edge has not passed the left edge of
/// the view, in their order.
pub open spec fn in_sight(obstacles: Seq<ObstacleModel>) -> Seq<ObstacleModel>
    decreases obstacles.len(),
{
    if obstacles.len() == 0 {
        Seq::empty()
    } else if obstacles.last().right() >= 0 {
        in_sight(obstacles.drop_last()).push(obstacles.last())
    } else {
        in_sight(obstacles.drop_last())
    }
}

/// The obstacles, each moved `dx` to the right.
pub open spec fn scrolled(obstacles: Seq<ObstacleModel>, dx: int) -> Seq<ObstacleModel> {
    Seq::new(obstacles.len(), |i: int| obstacles[i].shifted(dx))
}

/// The character after it has met the obstacles, one after the other.
pub open spec fn met_all(
    character: Character,
    sheet: Map<Seq<char>, Cell>,
    obstacles: Seq<ObstacleModel>,
) -> Character
    decreases obstacles.len(),
{
    if obstacles.len() == 0 {
        character
    } else {
        met(met_all(character, sheet, obstacles.drop_last()), sheet, obstacles.last())
    }
}

/// The instructions that draw the obstacles, one after the other.
pub open spec fn drawing_of(obstacles: Seq<ObstacleModel>) -> Seq<DrawCommand>
    decreases obstacles.len(),
{
    if obstacles.len() == 0 {
        Seq::empty()
    } else {
        drawing_of(obstacles.drop_last()) + obstacles.last().drawing()
    }
}

/// The segment of the given shape that starts at `offset_x`: for 0 a stone
/// and then a platform, for 1 a platform and then a stone, for any other
/// number nothing.
pub open spec fn segment_of(
    stone: ImageElement,
    tiles_image: ImageElement,
    tiles: Map<Seq<char>, Cell>,
    next_segment: i32,
    offset_x: i16,
) -> Seq<ObstacleModel> {
    if next_segment == 0 {
        spec_stone_and_platform(stone, tiles_image, tiles, offset_x)
    } else if next_segment == 1 {
        spec_platform_and_stone(stone, tiles_image, tiles, offset_x)
    } else {
        Seq::empty()
    }
}

/// The world as a plain value.
pub struct WalkModel {
    /// The character.
    pub boy: Character,
    /// The sprites of the character, by name.
    pub boy_sheet: Map<Seq<char>, Cell>,
    /// The image that the character's sprites are cut from.
    pub boy_image: ImageElement,
    /// The two backgrounds that tile the view.
    pub backgrounds: Seq<ImageModel>,
    /// The obstacles, oldest first.
    pub obstacles: Seq<ObstacleModel>,
    /// The sprites of the obstacles, by name.
    pub tiles: Map<Seq<char>, Cell>,
    /// The image that the obstacles' sprites are cut from.
    pub tiles_image: ImageElement,
    /// The image of a stone.
    pub stone: ImageElement,
    /// The x-coordinate up to which the world has been laid out.
    pub timeline: i16,
}

impl WalkModel {
    /// The character and the obstacles are well formed, the backgrounds tile
    /// the view, and the images and sprites are ones that segments can be
    /// made of.
    pub open spec fn wf(self) -> bool {
        &&& self.boy.wf()
        &&& complete_between(self.boy_sheet, top_of(self.boy), bottom_of(self.boy))
        &&& can_stand_on(self.boy_sheet, HIGH_PLATFORM)
        &&& all_landable(self.obstacles, self.boy_sheet)
        &&& self.backgrounds.len() == 2
        &&& background_in_place(self.backgrounds[0])
        &&& background_in_place(self.backgrounds[1])
        &&& all_well_formed(self.obstacles)
        &&& segments_fit(self.stone, self.tiles, LAST_START as int)
        &&& 0 <= self.timeline
    }

    /// Whether the world can be extended by a segment: segments of both
    /// shapes fit into the world the buffer's width beyond the mark up to
    /// which it is laid out. That is so whenever the mark is below the
    /// minimum.
    pub open spec fn can_extend(self) -> bool {
        segments_fit(self.stone, self.tiles, self.timeline + OBSTACLE_BUFFER)
    }

    /// The world at the start of a run: the character as given, the
    /// backgrounds side by side from the origin, and the first segment, a
    /// stone and a platform, laid out from the origin.
    pub open spec fn initial(
        boy: Character,
        boy_sheet: Map<Seq<char>, Cell>,
        boy_image: ImageElement,
        background: ImageElement,
        tiles: Map<Seq<char>, Cell>,
        tiles_image: ImageElement,
        stone: ImageElement,
    ) -> WalkModel {
        let size = Rect {
            position: Point { x: 0, y: 0 },
            width: background.width as i16,
            height: background.height as i16,
        };
        WalkModel {
            boy,
            boy_sheet,
            boy_image,
            backgrounds: seq![
                ImageModel { element: background, bounding_box: size },
                ImageModel { element: background, bounding_box: size.shifted(size.width as int) },
            ],
            obstacles: spec_stone_and_platform(stone, tiles_image, tiles, 0),
            tiles,
            tiles_image,
            stone,
            timeline: spec_rightmost(spec_stone_and_platform(stone, tiles_image, tiles, 0)) as i16,
        }
    }

    /// The world at the start of a new run with the images and sprites of
    /// this one: nothing of this run is left in it.
    pub open spec fn fresh(self) -> WalkModel {
        WalkModel::initial(
            Character::start(),
            self.boy_sheet,
            self.boy_image,
            self.backgrounds[0].element,
            self.tiles,
            self.tiles_image,
            self.stone,
        )
    }

    /// By how much the world scrolls in a tick: against the character's
    /// speed, since the character stays where it is and the world moves.
    pub open spec fn velocity(self) -> int {
        -self.boy.context.velocity.x
    }

    /// The segment of the given shape that starts at `offset_x`, made of
    /// the stone and the sprites of this world.
    pub open spec fn segment(self, next_segment: i32, offset_x: i16) -> Seq<ObstacleModel> {
        segment_of(self.stone, self.tiles_image, self.tiles, next_segment, offset_x)
    }

    /// The world extended by the segment of the given shape, which starts
    /// the buffer's width beyond what had been laid out, and laid out up to
    /// the rightmost edge of that segment.
    pub open spec fn with_next_segment(self, next_segment: i32) -> WalkModel {
        let segment = self.segment(next_segment, (self.timeline + OBSTACLE_BUFFER) as i16);
        WalkModel {
            obstacles: self.obstacles + segment,
            timeline: spec_rightmost(segment) as i16,
            ..self
        }
    }

    /// The character after the keys have been looked at: it slides if the
    /// down arrow is held, and then jumps if the space bar is held.
    pub open spec fn steered(self, keys: Set<Seq<char>>) -> Character {
        let slid = if keys.contains("ArrowDown"@) {
            self.boy.transition(Event::Slide)
        } else {
            self.boy
        };
        if keys.contains("Space"@) {
            slid.transition(Event::Jump)
        } else {
            slid
        }
    }

    /// Whether the character takes off when the keys are looked at, which
    /// is when the jump sound is due.
    pub open spec fn takes_off(self, keys: Set<Seq<char>>) -> bool {
        let slid = if keys.contains("ArrowDown"@) {
            self.boy.transition(Event::Slide)
        } else {
            self.boy
        };
        keys.contains("Space"@) && slid.takes_off(Event::Jump)
    }

    /// The world one tick later while the character waits to start: only
    /// the character moves on.
    pub open spec fn waited(self) -> WalkModel {
        WalkModel { boy: self.boy.tick(), ..self }
    }

    /// The world with the character set running.
    pub open spec fn started(self) -> WalkModel {
        WalkModel { boy: self.boy.transition(Event::Run), ..self }
    }

    /// The world one tick later during a run. In this order: the keys steer
    /// the character; the character moves on by a tick; the world scrolls
    /// against the character's speed, which moves the backgrounds and, of
    /// the obstacles, those that are still in sight, while the others are
    /// dropped; the character meets the obstacles one after the other; and
    /// the world is extended by a segment of the given shape if it is laid
    /// out less than the minimum ahead, or else the mark up to which it is
    /// laid out scrolls along.
    pub open spec fn walked(self, keys: Set<Seq<char>>, next_segment: i32) -> WalkModel {
        let boy = self.steered(keys).tick();
        let speed = -boy.context.velocity.x;
        let obstacles = scrolled(in_sight(self.obstacles), speed);
        let moved = WalkModel {
            boy: met_all(boy, self.boy_sheet, obstacles),
            backgrounds: seq![
                scrolled_background(self.backgrounds[0], speed),
                scrolled_background(self.backgrounds[1], speed),
            ],
            obstacles,
            ..self
        };
        if self.timeline < TIMELINE_MINIMUM {
            moved.with_next_segment(next_segment)
        } else {
            WalkModel { timeline: (self.timeline + speed) as i16, ..moved }
        }
    }

    /// The instructions that draw the world: the backgrounds, the
    /// character, and the obstacles.
    pub open spec fn drawing(self) -> Seq<DrawCommand> {
        seq![
            DrawCommand::DrawEntireImage {
                image: self.backgrounds[0].element,
                position: self.backgrounds[0].bounding_box.position,
            },
            DrawCommand::DrawEntireImage {
                image: self.backgrounds[1].element,
                position: self.backgrounds[1].bounding_box.position,
            },
            DrawCommand::DrawImage {
                image: self.boy_image,
                frame: sprite_of(self.boy, self.boy_sheet).frame.to_rect(),
                destination: destination_box_of(self.boy, self.boy_sheet),
            },
        ] + drawing_of(self.obstacles)
    }
}

/// Whether `after` is `before` with more obstacles laid out beyond its
/// mark: the obstacles of `before` are still there, the new ones stand in a
/// row, clear of each other, none begins less than the buffer's width
/// beyond the old mark, and the new mark is the rightmost of their right
/// edges.
pub open spec fn laid_out_beyond(before: WalkModel, after: WalkModel) -> bool {
    let count = before.obstacles.len() as int;
    &&& count <= after.obstacles.len()
    &&& after.obstacles.take(count) == before.obstacles
    &&& in_a_row(after.obstacles.skip(count))
    &&& right_of_line(after.obstacles.skip(count), before.timeline + OBSTACLE_BUFFER)
    &&& after.timeline == spec_rightmost(after.obstacles.skip(count))
}

/// A world that can be extended is laid out beyond its mark by a segment of
/// whichever shape.
pub proof fn extending_lays_out_beyond(walk: WalkModel, next_segment: i32)
    requires
        walk.can_extend(),
    ensures
        laid_out_beyond(walk, walk.with_next_segment(next_segment)),
{
    let offset = (walk.timeline + OBSTACLE_BUFFER) as i16;
    segments_are_sound(walk.stone, walk.tiles_image, walk.tiles, offset);
    let segment = walk.segment(next_segment, offset);
    let after = walk.with_next_segment(next_segment);
    let count = walk.obstacles.len() as int;
    assert(after.obstacles.take(count) =~= walk.obstacles);
    assert(after.obstacles.skip(count) =~= segment);
}

/// The world at the start of a run is well formed.
pub proof fn initial_is_well_formed(
    boy: Character,
    boy_sheet: Map<Seq<char>, Cell>,
    boy_image: ImageElement,
    background: ImageElement,
    tiles: Map<Seq<char>, Cell>,
    tiles_image: ImageElement,
    stone: ImageElement,
)
    requires
        boy.wf(),
        complete_between(boy_sheet, top_of(boy), bottom_of(boy)),
        can_stand_on(boy_sheet, HIGH_PLATFORM),
        background_fits(background),
        segments_fit(stone, tiles, LAST_START as int),
    ensures
        WalkModel::initial(boy, boy_sheet, boy_image, background, tiles, tiles_image, stone).wf(),
{
    segments_are_sound(stone, tiles_image, tiles, 0);
    segments_are_landable(boy_sheet, stone, tiles_image, tiles, 0);
}

/// Of obstacles that the character can land on, it can land on those that
/// are in sight, and on all of them wherever they scroll to.
pub proof fn landable_wherever(obstacles: Seq<ObstacleModel>, sheet: Map<Seq<char>, Cell>, dx: int)
    requires
        all_landable(obstacles, sheet),
    ensures
        all_landable(in_sight(obstacles), sheet),
        all_landable(scrolled(obstacles, dx), sheet),
    decreases obstacles.len(),
{
    if obstacles.len() > 0 {
        let rest = obstacles.drop_last();
        assert forall|i: int| 0 <= i < rest.len() implies (#[trigger] rest[i]).landable_by(sheet) by {
            assert(rest[i] == obstacles[i]);
        }
        landable_wherever(rest, sheet, dx);
        assert(obstacles.last() == obstacles[obstacles.len() - 1]);
    }
    let moved = scrolled(obstacles, dx);
    assert forall|i: int| 0 <= i < moved.len() implies (#[trigger] moved[i]).landable_by(sheet) by {
        assert(obstacles[i].landable_by(sheet));
        if obstacles[i] is Platform {
            let before = obstacles[i].boxes();
            let after = moved[i].boxes();
            assert(after.len() == before.len());
            assert forall|a: int| 0 <= a < after.len() implies can_stand_on(
                sheet,
                (#[trigger] after[a]).position.y,
            ) by {
                assert(can_stand_on(sheet, before[a].position.y));
                assert(after[a].position.y == before[a].position.y);
            }
        }
    }
}

/// Obstacles that the character can land on, with more of them added,
/// are obstacles that it can land on.
pub proof fn landable_together(
    old: Seq<ObstacleModel>,
    new: Seq<ObstacleModel>,
    sheet: Map<Seq<char>, Cell>,
)
    requires
        all_landable(old, sheet),
        all_landable(new, sheet),
    ensures
        all_landable(old + new, sheet),
{
    let all = old + new;
    assert forall|i: int| 0 <= i < all.len() implies (#[trigger] all[i]).landable_by(sheet) by {
        if i < old.len() {
            assert(all[i] == old[i]);
        } else {
            assert(all[i] == new[i - old.len()]);
        }
    }
}

/// Starting afresh twice is the same as starting afresh once, and what a
/// fresh world is depends on the images and sprites alone: whatever
/// happened in the run before, the same world comes back.
pub proof fn fresh_forgets_the_run(first: WalkModel, second: WalkModel)
    requires
        first.wf(),
        second.wf(),
        first.boy_sheet == second.boy_sheet,
        first.boy_image == second.boy_image,
        first.backgrounds[0].element == second.backgrounds[0].element,
        first.tiles == second.tiles,
        first.tiles_image == second.tiles_image,
        first.stone == second.stone,
    ensures
        first.fresh() == second.fresh(),
        first.fresh().fresh() == first.fresh(),
        first.fresh().wf(),
        first.fresh().obstacles == spec_stone_and_platform(
            first.stone,
            first.tiles_image,
            first.tiles,
            0,
        ),
        first.fresh().boy == Character::start(),
{
    let fresh = first.fresh();
    rise_is_bounded(0);
    let here = (top_of(first.boy), bottom_of(first.boy));
    complete_within(first.boy_sheet, FIELD_TOP as int, FLOOR as int, here, here);
    initial_is_well_formed(
        Character::start(),
        first.boy_sheet,
        first.boy_image,
        first.backgrounds[0].element,
        first.tiles,
        first.tiles_image,
        first.stone,
    );
    rise_is_bounded(0);
}

/// Every obstacle that is in sight is one of the obstacles, with its right
/// edge in sight.
pub proof fn in_sight_is_in_sight(obstacles: Seq<ObstacleModel>)
    requires
        all_well_formed(obstacles),
    ensures
        all_well_formed(in_sight(obstacles)),
        forall|i: int| 0 <= i < in_sight(obstacles).len() ==> (#[trigger] in_sight(obstacles)[i]).right() >= 0,
    decreases obstacles.len(),
{
    if obstacles.len() > 0 {
        let rest = obstacles.drop_last();
        assert forall|i: int| 0 <= i < rest.len() implies (#[trigger] rest[i]).wf() by {
            assert(rest[i] == obstacles[i]);
        }
        in_sight_is_in_sight(rest);
        assert(obstacles.last() == obstacles[obstacles.len() - 1]);
    }
}

/// The session as a plain value: which state it is in, and the world.
pub enum SessionModel {
    /// The character stands and waits for the signal to start.
    Ready(WalkModel),
    /// The run is on.
    Walking(WalkModel),
    /// The run is over; the world stands still until a new game is asked
    /// for.
    GameOver(WalkModel),
}

/// What the host is to do about the new-game button after a tick.
#[derive(Debug, Clone, Copy, PartialEq, Eq, Structural)]
pub enum Ui {
    /// Nothing.
    Keep,
    /// Show the button and listen for it.
    ShowNewGame,
    /// Take the button away.
    Hide,
}

/// What the host is to do after a tick.
#[derive(Debug, Clone, Copy, PartialEq, Eq, Structural)]
pub struct Effects {
    /// Whether to play the jump sound.
    pub jump_sound: bool,
    /// What to do about the new-game button.
    pub ui: Ui,
}

impl SessionModel {
    /// The world of the session.
    pub open spec fn walk(self) -> WalkModel {
        match self {
            SessionModel::Ready(walk) => walk,
            SessionModel::Walking(walk) => walk,
            SessionModel::GameOver(walk) => walk,
        }
    }

    /// The world of the session is well formed.
    pub open spec fn wf(self) -> bool {
        self.walk().wf()
    }

    /// The session one tick later. A session that is ready lets the
    /// character wait, and starts the run if the right arrow is held. A run
    /// goes on by one tick of the world, and is over once the character is
    /// knocked out. A session that is over stays as it is until a new game
    /// is asked for, and is then ready again in a fresh world.
    pub open spec fn tick(
        self,
        keys: Set<Seq<char>>,
        new_game_pressed: bool,
        next_segment: i32,
    ) -> SessionModel {
        match self {
            SessionModel::Ready(walk) => if keys.contains("ArrowRight"@) {
                SessionModel::Walking(walk.waited().started())
            } else {
                SessionModel::Ready(walk.waited())
            },
            SessionModel::Walking(walk) => if walk.walked(keys, next_segment).boy.tag
                is KnockedOut {
                SessionModel::GameOver(walk.walked(keys, next_segment))
            } else {
                SessionModel::Walking(walk.walked(keys, next_segment))
            },
            SessionModel::GameOver(walk) => if new_game_pressed {
                SessionModel::Ready(walk.fresh())
            } else {
                self
            },
        }
    }

    /// What the host is to do after the tick: play the jump sound if the
    /// character took off, show the new-game button when the run ends, and
    /// take it away when a new game begins.
    pub open spec fn effects(
        self,
        keys: Set<Seq<char>>,
        new_game_pressed: bool,
        next_segment: i32,
    ) -> Effects {
        match self {
            SessionModel::Ready(walk) => Effects { jump_sound: false, ui: Ui::Keep },
            SessionModel::Walking(walk) => Effects {
                jump_sound: walk.takes_off(keys),
                ui: if walk.walked(keys, next_segment).boy.tag is KnockedOut {
                    Ui::ShowNewGame
                } else {
                    Ui::Keep
                },
            },
            SessionModel::GameOver(walk) => Effects {
                jump_sound: false,
                ui: if new_game_pressed {
                    Ui::Hide
                } else {
                    Ui::Keep
                },
            },
        }
    }
}

/// A session that is over stays over, unchanged and without a word to the
/// host, for as long as no new game is asked for: the end of a run is
/// announced once.
pub proof fn game_over_is_announced_once(
    session: SessionModel,
    keys: Set<Seq<char>>,
    next_segment: i32,
)
    requires
        session is GameOver,
    ensures
        session.tick(keys, false, next_segment) == session,
        session.effects(keys, false, next_segment) == (Effects {
            jump_sound: false,
            ui: Ui::Keep,
        }),
{
}

/// Whatever run came before, a new game starts in the same fresh world: the
/// session that follows a session that is over depends on the images and
/// sprites alone, and none of the old obstacles are in it.
pub proof fn new_game_is_fresh(
    first: SessionModel,
    second: SessionModel,
    keys: Set<Seq<char>>,
    next_segment: i32,
)
    requires
        first is GameOver,
        second is GameOver,
        first.wf(),
        second.wf(),
        first.walk().boy_sheet == second.walk().boy_sheet,
        first.walk().boy_image == second.walk().boy_image,
        first.walk().backgrounds[0].element == second.walk().backgrounds[0].element,
        first.walk().tiles == second.walk().tiles,
        first.walk().tiles_image == second.walk().tiles_image,
        first.walk().stone == second.walk().stone,
    ensures
        first.tick(keys, true, next_segment) == second.tick(keys, true, next_segment),
        first.tick(keys, true, next_segment) is Ready,
        first.tick(keys, true, next_segment).wf(),
        first.tick(keys, true, next_segment).walk().obstacles == spec_stone_and_platform(
            first.walk().stone,
            first.walk().tiles_image,
            first.walk().tiles,
            0,
        ),
{
    fresh_forgets_the_run(first.walk(), second.walk());
}

} // verus!
