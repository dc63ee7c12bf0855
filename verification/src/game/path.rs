//! The path ahead of the character stays playable: however the world
//! scrolls and grows, the obstacles stand side by side, clear of each
//! other, and nothing reaches beyond the mark up to which the world is laid
//! out.

use crate::game::obstacles::{
    moving_keeps_well_formed, visible_obstacle_can_scroll, ObstacleModel, SCROLL_LIMIT,
};
use crate::game::state_machine::{tick_keeps_well_formed, transition_keeps_well_formed, Event};
use crate::game::world::{
    in_sight, in_sight_is_in_sight, scrolled, SessionModel, WalkModel, OBSTACLE_BUFFER,
    SEGMENT_SHAPES, TIMELINE_MINIMUM,
};
use crate::segments::{
    a_row_is_overlap_free, all_well_formed, in_a_row, left_of_line, overlap_free, right_of_line,
    segments_are_sound, spec_rightmost,
};
use vstd::prelude::*;

verus! {

/// Whether the path is clear: the obstacles stand in a row from left to
/// right, clear of each other, and every box ends at or before the mark up
/// to which the world is laid out.
pub open spec fn clear(walk: WalkModel) -> bool {
    &&& in_a_row(walk.obstacles)
    &&& left_of_line(walk.obstacles, walk.timeline as int)
}

/// Every obstacle in sight is one of the obstacles.
proof fn in_sight_is_a_part(obstacles: Seq<ObstacleModel>)
    ensures
        forall|k: int|
            0 <= k < in_sight(obstacles).len() ==> exists|j: int|
                0 <= j < obstacles.len() && obstacles[j] == #[trigger] in_sight(obstacles)[k],
    decreases obstacles.len(),
{
    if obstacles.len() > 0 {
        let rest = obstacles.drop_last();
        in_sight_is_a_part(rest);
        assert forall|k: int| 0 <= k < in_sight(obstacles).len() implies exists|j: int|
            0 <= j < obstacles.len() && obstacles[j] == #[trigger] in_sight(obstacles)[k] by {
            if k < in_sight(rest).len() {
                let j = choose|j: int| 0 <= j < rest.len() && rest[j] == in_sight(rest)[k];
                assert(obstacles[j] == in_sight(obstacles)[k]);
            } else {
                assert(obstacles[obstacles.len() - 1] == in_sight(obstacles)[k]);
            }
        }
    }
}

/// Dropping the obstacles that are out of sight keeps the path clear.
proof fn dropping_keeps_the_path_clear(obstacles: Seq<ObstacleModel>, line: int)
    requires
        in_a_row(obstacles),
        left_of_line(obstacles, line),
    ensures
        in_a_row(in_sight(obstacles)),
        left_of_line(in_sight(obstacles), line),
    decreases obstacles.len(),
{
    if obstacles.len() > 0 {
        let rest = obstacles.drop_last();
        assert forall|i: int, j: int, a: int, b: int|
            0 <= i < j < rest.len() && 0 <= a < rest[i].boxes().len() && 0 <= b
                < rest[j].boxes().len() implies (#[trigger] rest[i].boxes()[a]).spec_right() <= (
        #[trigger] rest[j].boxes()[b]).position.x by {
            assert(rest[i] == obstacles[i] && rest[j] == obstacles[j]);
        }
        assert forall|i: int, a: int|
            0 <= i < rest.len() && 0 <= a < rest[i].boxes().len() implies (
        #[trigger] rest[i].boxes()[a]).spec_right() <= line by {
            assert(rest[i] == obstacles[i]);
        }
        dropping_keeps_the_path_clear(rest, line);
        in_sight_is_a_part(rest);
        let kept = in_sight(obstacles);
        let before = in_sight(rest);
        assert forall|i: int, a: int|
            0 <= i < kept.len() && 0 <= a < kept[i].boxes().len() implies (
        #[trigger] kept[i].boxes()[a]).spec_right() <= line by {
            if i < before.len() {
                assert(kept[i] == before[i]);
            } else {
                assert(kept[i] == obstacles[obstacles.len() - 1]);
            }
        }
        assert forall|i: int, j: int, a: int, b: int|
            0 <= i < j < kept.len() && 0 <= a < kept[i].boxes().len() && 0 <= b
                < kept[j].boxes().len() implies (#[trigger] kept[i].boxes()[a]).spec_right() <= (
        #[trigger] kept[j].boxes()[b]).position.x by {
            if j < before.len() {
                assert(kept[i] == before[i] && kept[j] == before[j]);
            } else {
                let k = choose|k: int| 0 <= k < rest.len() && rest[k] == before[i];
                assert(obstacles[k] == kept[i]);
                assert(obstacles[obstacles.len() - 1] == kept[j]);
            }
        }
    }
}

/// Scrolling obstacles that are in sight keeps the path clear, and takes
/// the line that bounds them along.
proof fn scrolling_keeps_the_path_clear(obstacles: Seq<ObstacleModel>, line: int, dx: int)
    requires
        all_well_formed(obstacles),
        forall|i: int| 0 <= i < obstacles.len() ==> (#[trigger] obstacles[i]).right() >= 0,
        in_a_row(obstacles),
        left_of_line(obstacles, line),
        -SCROLL_LIMIT <= dx <= 0,
    ensures
        in_a_row(scrolled(obstacles, dx)),
        left_of_line(scrolled(obstacles, dx), line + dx),
        all_well_formed(scrolled(obstacles, dx)),
{
    let moved = scrolled(obstacles, dx);
    assert forall|i: int| 0 <= i < obstacles.len() implies {
        &&& (#[trigger] moved[i]).wf()
        &&& moved[i].boxes().len() == obstacles[i].boxes().len()
        &&& forall|a: int|
            0 <= a < obstacles[i].boxes().len() ==> {
                &&& (#[trigger] moved[i].boxes()[a]) == obstacles[i].boxes()[a].shifted(dx)
                &&& i16::MIN <= obstacles[i].boxes()[a].position.x + dx <= i16::MAX
            }
    } by {
        assert(obstacles[i].wf());
        visible_obstacle_can_scroll(obstacles[i], dx);
        moving_keeps_well_formed(obstacles[i], dx);
    }
    assert forall|i: int, a: int|
        0 <= i < moved.len() && 0 <= a < moved[i].boxes().len() implies (
    #[trigger] moved[i].boxes()[a]).spec_right() <= line + dx by {
        assert(moved[i].wf());
        assert(obstacles[i].boxes()[a].spec_right() <= line);
    }
    assert forall|i: int, j: int, a: int, b: int|
        0 <= i < j < moved.len() && 0 <= a < moved[i].boxes().len() && 0 <= b
            < moved[j].boxes().len() implies (#[trigger] moved[i].boxes()[a]).spec_right() <= (
    #[trigger] moved[j].boxes()[b]).position.x by {
        assert(moved[i].wf() && moved[j].wf());
        assert(obstacles[i].boxes()[a].spec_right() <= obstacles[j].boxes()[b].position.x);
    }
}

/// Obstacles that begin where others have ended can be added to them: the
/// path stays clear.
proof fn adding_keeps_the_path_clear(
    old: Seq<ObstacleModel>,
    new: Seq<ObstacleModel>,
    line: int,
    end: int,
)
    requires
        in_a_row(old),
        in_a_row(new),
        left_of_line(old, line),
        right_of_line(new, line),
        left_of_line(new, end),
        line <= end,
    ensures
        in_a_row(old + new),
        left_of_line(old + new, end),
{
    let all = old + new;
    assert forall|i: int, a: int|
        0 <= i < all.len() && 0 <= a < all[i].boxes().len() implies (
    #[trigger] all[i].boxes()[a]).spec_right() <= end by {
        if i < old.len() {
            assert(all[i] == old[i]);
        } else {
            assert(all[i] == new[i - old.len()]);
        }
    }
    assert forall|i: int, j: int, a: int, b: int|
        0 <= i < j < all.len() && 0 <= a < all[i].boxes().len() && 0 <= b
            < all[j].boxes().len() implies (#[trigger] all[i].boxes()[a]).spec_right() <= (
    #[trigger] all[j].boxes()[b]).position.x by {
        if j < old.len() {
            assert(all[i] == old[i] && all[j] == old[j]);
        } else if i >= old.len() {
            assert(all[i] == new[i - old.len()] && all[j] == new[j - old.len()]);
        } else {
            assert(all[i] == old[i] && all[j] == new[j - old.len()]);
        }
    }
}

/// Where the path is clear, no box of one obstacle overlaps a box of
/// another.
pub proof fn clear_path_has_no_overlap(walk: WalkModel)
    requires
        clear(walk),
    ensures
        overlap_free(walk.obstacles),
{
    a_row_is_overlap_free(walk.obstacles);
}

/// A world at the start of a run has a clear path.
pub proof fn initial_path_is_clear(walk: WalkModel)
    requires
        walk.wf(),
    ensures
        clear(walk.fresh()),
{
    segments_are_sound(walk.stone, walk.tiles_image, walk.tiles, 0);
}

/// A tick of a run keeps the path clear: the obstacles that are dropped,
/// the scrolling, and the segment that is added, of whichever shape, leave
/// no two obstacles overlapping and nothing beyond the mark up to which
/// the world is laid out.
pub proof fn walking_keeps_the_path_clear(walk: WalkModel, keys: Set<Seq<char>>, next_segment: i32)
    requires
        walk.wf(),
        clear(walk),
        0 <= next_segment < SEGMENT_SHAPES,
    ensures
        clear(walk.walked(keys, next_segment)),
{
    let steered = walk.steered(keys);
    transition_keeps_well_formed(walk.boy, Event::Slide);
    if keys.contains("ArrowDown"@) {
        transition_keeps_well_formed(walk.boy.transition(Event::Slide), Event::Jump);
    } else {
        transition_keeps_well_formed(walk.boy, Event::Jump);
    }
    tick_keeps_well_formed(steered);
    let boy = steered.tick();
    let speed = -boy.context.velocity.x;
    let line = walk.timeline as int;
    in_sight_is_in_sight(walk.obstacles);
    dropping_keeps_the_path_clear(walk.obstacles, line);
    scrolling_keeps_the_path_clear(in_sight(walk.obstacles), line, speed);
    let moved = scrolled(in_sight(walk.obstacles), speed);
    if walk.timeline < TIMELINE_MINIMUM {
        let offset = (walk.timeline + OBSTACLE_BUFFER) as i16;
        segments_are_sound(walk.stone, walk.tiles_image, walk.tiles, offset);
        let segment = walk.segment(next_segment, offset);
        assert forall|i: int, a: int|
            0 <= i < moved.len() && 0 <= a < moved[i].boxes().len() implies (
        #[trigger] moved[i].boxes()[a]).spec_right() <= offset by {}
        adding_keeps_the_path_clear(moved, segment, offset as int, spec_rightmost(segment));
    }
}

/// A tick of the session keeps the path clear, whatever state the session
/// is in and whatever the keys and the signals are.
pub proof fn session_keeps_the_path_clear(
    session: SessionModel,
    keys: Set<Seq<char>>,
    new_game_pressed: bool,
    next_segment: i32,
)
    requires
        session.wf(),
        clear(session.walk()),
        0 <= next_segment < SEGMENT_SHAPES,
    ensures
        clear(session.tick(keys, new_game_pressed, next_segment).walk()),
{
    match session {
        SessionModel::Ready(walk) => {},
        SessionModel::Walking(walk) => {
            walking_keeps_the_path_clear(walk, keys, next_segment);
        },
        SessionModel::GameOver(walk) => {
            initial_path_is_clear(walk);
        },
    }
}

} // verus!
