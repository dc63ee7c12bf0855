//! The shapes that the world is laid out in: short runs of obstacles, each
//! a fixed arrangement placed at the offset that is asked for.

use crate::engine::{
    touching_rects_do_not_intersect, Cell, Image, ImageElement, Point, Rect, Sheet, SpriteSheet,
};
use crate::game::obstacles::{
    found_sprites, placed_boxes, right_of_is_rightmost, total_width, AnyObstacle, Barrier, ObstacleModel,
    Platform,
};
use crate::game::obstacles::HORIZON;
use crate::game::red_hat_boy::{bottom_for, can_stand_on, complete_within, top_for};
use vstd::prelude::*;

verus! {

/// The height at which a stone stands on the ground.
pub const STONE_ON_GROUND: i16 = 546;

/// The height of a platform that the character can jump onto.
pub const LOW_PLATFORM: i16 = 420;

/// The height of a platform that the character can run under.
pub const HIGH_PLATFORM: i16 = 375;

/// How far into a segment that starts with a stone its platform begins,
/// unless the stone reaches farther.
pub const FIRST_PLATFORM: i16 = 370;

/// How far into a segment that starts with a stone the stone stands.
pub const FIRST_STONE: i16 = 150;

/// How far into a segment that starts with a platform the platform begins.
pub const SECOND_PLATFORM: i16 = 200;

/// How far into a segment that starts with a platform its stone stands.
pub const SECOND_STONE: i16 = 600;

/// The width of a floating platform.
pub const PLATFORM_WIDTH: i16 = 384;

/// The height of a floating platform.
pub const PLATFORM_HEIGHT: i16 = 93;

/// The width of the boxes at the two ends of a floating platform.
pub const PLATFORM_EDGE_WIDTH: i16 = 60;

/// The height of the boxes at the two ends of a floating platform.
pub const PLATFORM_EDGE_HEIGHT: i16 = 54;

/// The names of the sprites of a floating platform, from left to right.
pub open spec fn floating_platform_sprites() -> Seq<&'static str> {
    seq!["13.png", "14.png", "15.png"]
}

/// The boxes of a floating platform, relative to its position: a low box at
/// either end and a box of full height between them. The character lands
/// on whichever it touches first, and not against the platform's sides.
pub open spec fn floating_platform_boxes() -> Seq<Rect> {
    seq![
        Rect { position: Point { x: 0, y: 0 }, width: PLATFORM_EDGE_WIDTH, height: PLATFORM_EDGE_HEIGHT },
        Rect {
            position: Point { x: PLATFORM_EDGE_WIDTH, y: 0 },
            width: (PLATFORM_WIDTH - (PLATFORM_EDGE_WIDTH * 2)) as i16,
            height: PLATFORM_HEIGHT,
        },
        Rect {
            position: Point { x: (PLATFORM_WIDTH - PLATFORM_EDGE_WIDTH) as i16, y: 0 },
            width: PLATFORM_EDGE_WIDTH,
            height: PLATFORM_EDGE_HEIGHT,
        },
    ]
}

/// Whether the sprite of that name, if the sheet has it, has a width that
/// is not negative.
pub open spec fn tile_fits(sheet: Map<Seq<char>, Cell>, name: &str) -> bool {
    sheet.contains_key(name@) ==> 0 <= sheet[name@].frame.w
}

/// The width in which a floating platform is drawn: the widths of those of
/// its sprites that the sheet has, added up.
pub open spec fn drawn_width(sheet: Map<Seq<char>, Cell>) -> int {
    total_width(found_sprites(sheet, floating_platform_sprites()))
}

/// Whether the sheet's sprites for a floating platform can be drawn side by
/// side: none that the sheet has is of negative width.
pub open spec fn tiles_fit(sheet: Map<Seq<char>, Cell>) -> bool {
    forall|i: int|
        0 <= i < floating_platform_sprites().len() ==> tile_fits(
            sheet,
            #[trigger] floating_platform_sprites()[i],
        )
}

/// Whether a floating platform can be put at `position`: the places of its
/// boxes are representable.
pub open spec fn platform_fits(position: Point) -> bool {
    position.x + PLATFORM_WIDTH - PLATFORM_EDGE_WIDTH <= i16::MAX
}


/// A floating platform at `position`, as a plain value.
pub open spec fn floating_platform(
    image: ImageElement,
    sheet: Map<Seq<char>, Cell>,
    position: Point,
) -> ObstacleModel {
    ObstacleModel::Platform {
        image,
        position,
        boxes: placed_boxes(floating_platform_boxes(), position),
        sprites: found_sprites(sheet, floating_platform_sprites()),
    }
}

/// A stone on the ground at `x`, as a plain value.
pub open spec fn stone_at(stone: ImageElement, x: int) -> ObstacleModel {
    ObstacleModel::Barrier {
        image: stone,
        bounding_box: Rect {
            position: Point { x: x as i16, y: STONE_ON_GROUND },
            width: stone.width as i16,
            height: stone.height as i16,
        },
    }
}

/// How far into a segment that starts with the given stone its platform
/// begins: `FIRST_PLATFORM`, or where the stone ends if that is farther, so
/// that the platform stands clear of the stone.
pub open spec fn first_platform(stone: ImageElement) -> int {
    if FIRST_STONE + stone.width > FIRST_PLATFORM {
        FIRST_STONE + stone.width
    } else {
        FIRST_PLATFORM as int
    }
}

/// Whether the segment "a stone, then a low platform" can start at
/// `offset_x`: the size of the stone and the places of the boxes are
/// representable.
pub open spec fn stone_and_platform_fits(stone: ImageElement, offset_x: i16) -> bool {
    &&& stone.fits()
    &&& offset_x + first_platform(stone) + PLATFORM_WIDTH - PLATFORM_EDGE_WIDTH <= i16::MAX
}

/// Whether the segment "a high platform, then a stone" can start at
/// `offset_x`: the size of the stone and the places of the boxes are
/// representable.
pub open spec fn platform_and_stone_fits(stone: ImageElement, offset_x: i16) -> bool {
    &&& stone.fits()
    &&& offset_x + SECOND_STONE <= i16::MAX
}

/// Whether segments of both shapes, made of the stone and the sprites, can
/// be laid out from `offset_x` in the world: the size of the stone is
/// representable, the sprites can be drawn side by side, every box lies
/// within the horizon, and the places at which the platform's sprites are
/// drawn are representable. Segments that fit at an offset fit at every
/// smaller one from zero on.
pub open spec fn segments_fit(stone: ImageElement, sheet: Map<Seq<char>, Cell>, offset_x: int) -> bool {
    &&& stone.fits()
    &&& tiles_fit(sheet)
    &&& 0 <= offset_x
    &&& offset_x + first_platform(stone) + PLATFORM_WIDTH <= HORIZON
    &&& offset_x + first_platform(stone) + drawn_width(sheet) <= i16::MAX
    &&& offset_x + SECOND_STONE + stone.width <= HORIZON
}

/// The segment "a stone, then a low platform", as plain values.
pub open spec fn spec_stone_and_platform(
    stone: ImageElement,
    image: ImageElement,
    sheet: Map<Seq<char>, Cell>,
    offset_x: i16,
) -> Seq<ObstacleModel> {
    seq![
        stone_at(stone, offset_x + FIRST_STONE),
        floating_platform(
            image,
            sheet,
            Point { x: (offset_x + first_platform(stone)) as i16, y: LOW_PLATFORM },
        ),
    ]
}

/// The segment "a high platform, then a stone", as plain values.
pub open spec fn spec_platform_and_stone(
    stone: ImageElement,
    image: ImageElement,
    sheet: Map<Seq<char>, Cell>,
    offset_x: i16,
) -> Seq<ObstacleModel> {
    seq![
        floating_platform(
            image,
            sheet,
            Point { x: (offset_x + SECOND_PLATFORM) as i16, y: HIGH_PLATFORM },
        ),
        stone_at(stone, offset_x + SECOND_STONE),
    ]
}

/// The obstacles as plain values.
pub open spec fn models(obstacles: Seq<AnyObstacle>) -> Seq<ObstacleModel> {
    Seq::new(obstacles.len(), |i: int| obstacles[i]@)
}

/// The obstacles stand in a row from left to right, clear of each other:
/// every box of an obstacle ends at or before the place where any box of a
/// later obstacle begins.
pub open spec fn in_a_row(obstacles: Seq<ObstacleModel>) -> bool {
    forall|i: int, j: int, a: int, b: int|
        0 <= i < j < obstacles.len() && 0 <= a < obstacles[i].boxes().len() && 0 <= b
            < obstacles[j].boxes().len() ==> (#[trigger] obstacles[i].boxes()[a]).spec_right() <= (
        #[trigger] obstacles[j].boxes()[b]).position.x
}

/// No box of one obstacle overlaps a box of another.
pub open spec fn overlap_free(obstacles: Seq<ObstacleModel>) -> bool {
    forall|i: int, j: int, a: int, b: int|
        0 <= i < obstacles.len() && 0 <= j < obstacles.len() && i != j && 0 <= a
            < obstacles[i].boxes().len() && 0 <= b < obstacles[j].boxes().len()
            ==> !(#[trigger] obstacles[i].boxes()[a]).spec_intersects(
            #[trigger] obstacles[j].boxes()[b],
        )
}

/// Every obstacle is well formed.
pub open spec fn all_well_formed(obstacles: Seq<ObstacleModel>) -> bool {
    forall|i: int| 0 <= i < obstacles.len() ==> (#[trigger] obstacles[i]).wf()
}

/// A character shown by the sprites of `sheet` can be set on whatever box
/// of whichever obstacle it lands on.
pub open spec fn all_landable(obstacles: Seq<ObstacleModel>, sheet: Map<Seq<char>, Cell>) -> bool {
    forall|i: int| 0 <= i < obstacles.len() ==> (#[trigger] obstacles[i]).landable_by(sheet)
}

/// Every box of every obstacle lies to the right of `x`.
pub open spec fn right_of_line(obstacles: Seq<ObstacleModel>, x: int) -> bool {
    forall|i: int, a: int|
        0 <= i < obstacles.len() && 0 <= a < obstacles[i].boxes().len() ==> x <= (
        #[trigger] obstacles[i].boxes()[a]).position.x
}

/// Every box of every obstacle ends at or to the left of `x`.
pub open spec fn left_of_line(obstacles: Seq<ObstacleModel>, x: int) -> bool {
    forall|i: int, a: int|
        0 <= i < obstacles.len() && 0 <= a < obstacles[i].boxes().len() ==> (
        #[trigger] obstacles[i].boxes()[a]).spec_right() <= x
}

/// The rightmost of the right edges of the obstacles, and zero where there
/// is none.
pub open spec fn spec_rightmost(obstacles: Seq<ObstacleModel>) -> int
    decreases obstacles.len(),
{
    if obstacles.len() == 0 {
        0
    } else if obstacles.len() == 1 {
        obstacles[0].right()
    } else {
        let rest = spec_rightmost(obstacles.drop_last());
        if rest >= obstacles.last().right() {
            rest
        } else {
            obstacles.last().right()
        }
    }
}

/// The sprites found for names whose sprites fit are of widths that are
/// not negative.
proof fn found_tiles_are_bounded(sheet: Map<Seq<char>, Cell>, names: Seq<&str>)
    requires
        forall|i: int| 0 <= i < names.len() ==> tile_fits(sheet, #[trigger] names[i]),
    ensures
        forall|i: int|
            0 <= i < found_sprites(sheet, names).len() ==> 0 <= (#[trigger] found_sprites(
                sheet,
                names,
            )[i]).frame.w,
    decreases names.len(),
{
    if names.len() > 0 {
        let rest = names.drop_last();
        assert(tile_fits(sheet, names[names.len() - 1]));
        assert forall|i: int| 0 <= i < rest.len() implies tile_fits(sheet, #[trigger] rest[i]) by {
            assert(rest[i] == names[i]);
        }
        found_tiles_are_bounded(sheet, rest);
        if sheet.contains_key(names.last()@) {
            let found = found_sprites(sheet, names);
            assert(found.drop_last() == found_sprites(sheet, rest));
            assert(names[names.len() - 1] == names.last());
        }
    }
}

/// The boxes of a floating platform lie side by side from its position:
/// none begins to the left of it, none ends beyond the platform's width or
/// reaches below its height, and the last ends where the platform ends.
pub proof fn floating_platform_is_placed(
    image: ImageElement,
    sheet: Map<Seq<char>, Cell>,
    position: Point,
)
    requires
        platform_fits(position),
    ensures
        floating_platform(image, sheet, position).right() == position.x + PLATFORM_WIDTH,
        floating_platform(image, sheet, position).boxes().len() == 3,
        forall|a: int|
            0 <= a < 3 ==> {
                &&& position.x <= (#[trigger] floating_platform(
                    image,
                    sheet,
                    position,
                ).boxes()[a]).position.x
                &&& floating_platform(image, sheet, position).boxes()[a].position.y == position.y
                &&& floating_platform(image, sheet, position).boxes()[a].spec_bottom()
                    <= position.y + PLATFORM_HEIGHT
                &&& floating_platform(image, sheet, position).boxes()[a].spec_right()
                    <= position.x + PLATFORM_WIDTH
            },
{
    let boxes = floating_platform(image, sheet, position).boxes();
    right_of_is_rightmost(boxes);
    assert(boxes[2].spec_right() == position.x + PLATFORM_WIDTH);
}

/// A floating platform whose sprites can be drawn from its position, at a
/// place inside the world, is well formed.
pub proof fn floating_platform_is_well_formed(
    image: ImageElement,
    sheet: Map<Seq<char>, Cell>,
    position: Point,
)
    requires
        tiles_fit(sheet),
        0 <= position.x <= HORIZON - PLATFORM_WIDTH,
        position.x + drawn_width(sheet) <= i16::MAX,
    ensures
        floating_platform(image, sheet, position).wf(),
{
    floating_platform_is_placed(image, sheet, position);
    found_tiles_are_bounded(sheet, floating_platform_sprites());
    right_of_is_rightmost(floating_platform(image, sheet, position).boxes());
}

/// Whether segments of both shapes, made of the stone and the sprites of
/// the sheet, can be laid out from `offset_x` in the world.
pub fn segments_usable(stone: &ImageElement, sheet: &Sheet, offset_x: i16) -> (ok: bool)
    ensures
        ok == segments_fit(*stone, sheet@, offset_x as int),
{
    let mut names: Vec<&str> = Vec::new();
    names.push("13.png");
    names.push("14.png");
    names.push("15.png");
    proof {
        assert(names@ =~= floating_platform_sprites());
    }
    let mut width: i64 = 0;
    let mut fit = true;
    let mut i: usize = 0;
    while i < names.len()
        invariant
            i <= names@.len(),
            names@ == floating_platform_sprites(),
            fit == (forall|j: int| 0 <= j < i ==> tile_fits(sheet@, #[trigger] names@[j])),
            fit ==> width == total_width(found_sprites(sheet@, names@.take(i as int))),
            0 <= width <= i * i16::MAX,
        decreases names@.len() - i,
    {
        proof {
            assert(names@.take(i + 1).drop_last() == names@.take(i as int));
            assert(names@.take(i + 1).last() == names@[i as int]);
            if sheet@.contains_key(names@[i as int]@) {
                let found = found_sprites(sheet@, names@.take(i + 1));
                assert(found.drop_last() == found_sprites(sheet@, names@.take(i as int)));
            }
        }
        match sheet.frames.get(names[i]) {
            Some(cell) => {
                if cell.frame.w < 0 {
                    fit = false;
                } else if fit {
                    width += cell.frame.w as i64;
                }
            },
            None => {},
        }
        i += 1;
    }
    proof {
        assert(names@.take(i as int) == names@);
    }
    let start: i64 = offset_x as i64;
    let stone_end: i64 = FIRST_STONE as i64 + stone.width as i64;
    let platform: i64 = if stone_end > FIRST_PLATFORM as i64 {
        stone_end
    } else {
        FIRST_PLATFORM as i64
    };
    fit && stone.width <= i16::MAX as u32 && stone.height <= i16::MAX as u32 && 0 <= start && start
        + platform + PLATFORM_WIDTH as i64 <= HORIZON as i64 && start + platform + width
        <= i16::MAX as i64 && start + SECOND_STONE as i64 + stone.width as i64 <= HORIZON as i64
}

/// A floating platform at `position`: three sprites side by side, with a
/// low box at either end and a box of full height between them.
pub fn create_floating_platform(sprite_sheet: &SpriteSheet, position: Point) -> (platform:
    Platform)
    requires
        platform_fits(position),
    ensures
        platform@ == floating_platform(sprite_sheet.spec_image(), sprite_sheet@, position),
{
    let mut names: Vec<&str> = Vec::new();
    names.push("13.png");
    names.push("14.png");
    names.push("15.png");
    let mut boxes: Vec<Rect> = Vec::new();
    boxes.push(Rect::new_from_x_y(0, 0, PLATFORM_EDGE_WIDTH, PLATFORM_EDGE_HEIGHT));
    boxes.push(
        Rect::new_from_x_y(
            PLATFORM_EDGE_WIDTH,
            0,
            PLATFORM_WIDTH - (PLATFORM_EDGE_WIDTH * 2),
            PLATFORM_HEIGHT,
        ),
    );
    boxes.push(
        Rect::new_from_x_y(
            PLATFORM_WIDTH - PLATFORM_EDGE_WIDTH,
            0,
            PLATFORM_EDGE_WIDTH,
            PLATFORM_EDGE_HEIGHT,
        ),
    );
    proof {
        assert(names@ =~= floating_platform_sprites());
        assert(boxes@ =~= floating_platform_boxes());
    }
    Platform::new(sprite_sheet, position, names.as_slice(), boxes.as_slice())
}

/// A stone on the ground at `x`.
fn create_stone(stone: ImageElement, x: i16) -> (barrier: Barrier)
    requires
        stone.fits(),
    ensures
        barrier@ == stone_at(stone, x as int),
{
    Barrier::new(Image::new(stone, Point { x, y: STONE_ON_GROUND }))
}

/// Obstacles that stand in a row do not overlap.
pub proof fn a_row_is_overlap_free(obstacles: Seq<ObstacleModel>)
    requires
        in_a_row(obstacles),
    ensures
        overlap_free(obstacles),
{
    assert forall|i: int, j: int, a: int, b: int|
        0 <= i < obstacles.len() && 0 <= j < obstacles.len() && i != j && 0 <= a
            < obstacles[i].boxes().len() && 0 <= b < obstacles[j].boxes().len() implies !(
    #[trigger] obstacles[i].boxes()[a]).spec_intersects(#[trigger] obstacles[j].boxes()[b]) by {
        if i < j {
            touching_rects_do_not_intersect(obstacles[i].boxes()[a], obstacles[j].boxes()[b]);
        } else {
            touching_rects_do_not_intersect(obstacles[j].boxes()[b], obstacles[i].boxes()[a]);
        }
    }
}

/// Every box of every obstacle ends at or before the rightmost edge of the
/// obstacles.
pub proof fn rightmost_is_rightmost(obstacles: Seq<ObstacleModel>)
    ensures
        left_of_line(obstacles, spec_rightmost(obstacles)),
    decreases obstacles.len(),
{
    if obstacles.len() > 0 {
        let rest = obstacles.drop_last();
        rightmost_is_rightmost(rest);
        assert forall|i: int, a: int|
            0 <= i < obstacles.len() && 0 <= a < obstacles[i].boxes().len() implies (
        #[trigger] obstacles[i].boxes()[a]).spec_right() <= spec_rightmost(obstacles) by {
            right_of_is_rightmost(obstacles[i].boxes());
            if i < rest.len() && obstacles.len() > 1 {
                assert(rest[i] == obstacles[i]);
            }
        }
    }
}

/// In the segment "a stone, then a low platform", the stone ends where or
/// before the platform begins, and all boxes lie between the offset and
/// the rightmost edge, which is the end of the platform.
pub proof fn stone_and_platform_is_clear(
    stone: ImageElement,
    image: ImageElement,
    sheet: Map<Seq<char>, Cell>,
    offset_x: i16,
)
    requires
        stone_and_platform_fits(stone, offset_x),
    ensures
        in_a_row(spec_stone_and_platform(stone, image, sheet, offset_x)),
        overlap_free(spec_stone_and_platform(stone, image, sheet, offset_x)),
        right_of_line(spec_stone_and_platform(stone, image, sheet, offset_x), offset_x as int),
        left_of_line(
            spec_stone_and_platform(stone, image, sheet, offset_x),
            spec_rightmost(spec_stone_and_platform(stone, image, sheet, offset_x)),
        ),
        spec_rightmost(spec_stone_and_platform(stone, image, sheet, offset_x)) == offset_x
            + first_platform(stone) + PLATFORM_WIDTH,
{
    let low = Point { x: (offset_x + first_platform(stone)) as i16, y: LOW_PLATFORM };
    floating_platform_is_placed(image, sheet, low);
    let segment = spec_stone_and_platform(stone, image, sheet, offset_x);
    reveal_with_fuel(spec_rightmost, 2);
    assert(segment.drop_last() =~= seq![segment[0]]);
    assert(spec_rightmost(segment.drop_last()) == segment[0].right());
    assert(segment[0].boxes().len() == 1);
    assert forall|i: int, j: int, a: int, b: int|
        0 <= i < j < segment.len() && 0 <= a < segment[i].boxes().len() && 0 <= b
            < segment[j].boxes().len() implies (#[trigger] segment[i].boxes()[a]).spec_right() <= (
    #[trigger] segment[j].boxes()[b]).position.x by {
        assert(i == 0 && j == 1);
    }
    a_row_is_overlap_free(segment);
    rightmost_is_rightmost(segment);
}

/// In the segment "a high platform, then a stone", the platform ends
/// before the stone begins, and all boxes lie between the offset and the
/// rightmost edge, which is the end of the stone.
pub proof fn platform_and_stone_is_clear(
    stone: ImageElement,
    image: ImageElement,
    sheet: Map<Seq<char>, Cell>,
    offset_x: i16,
)
    requires
        platform_and_stone_fits(stone, offset_x),
    ensures
        in_a_row(spec_platform_and_stone(stone, image, sheet, offset_x)),
        overlap_free(spec_platform_and_stone(stone, image, sheet, offset_x)),
        right_of_line(spec_platform_and_stone(stone, image, sheet, offset_x), offset_x as int),
        left_of_line(
            spec_platform_and_stone(stone, image, sheet, offset_x),
            spec_rightmost(spec_platform_and_stone(stone, image, sheet, offset_x)),
        ),
        spec_rightmost(spec_platform_and_stone(stone, image, sheet, offset_x)) == offset_x
            + SECOND_STONE + stone.width,
{
    let high = Point { x: (offset_x + SECOND_PLATFORM) as i16, y: HIGH_PLATFORM };
    floating_platform_is_placed(image, sheet, high);
    let segment = spec_platform_and_stone(stone, image, sheet, offset_x);
    reveal_with_fuel(spec_rightmost, 2);
    assert(segment.drop_last() =~= seq![segment[0]]);
    assert(spec_rightmost(segment.drop_last()) == segment[0].right());
    assert(segment[1].boxes().len() == 1);
    assert forall|i: int, j: int, a: int, b: int|
        0 <= i < j < segment.len() && 0 <= a < segment[i].boxes().len() && 0 <= b
            < segment[j].boxes().len() implies (#[trigger] segment[i].boxes()[a]).spec_right() <= (
    #[trigger] segment[j].boxes()[b]).position.x by {
        assert(i == 0 && j == 1);
    }
    a_row_is_overlap_free(segment);
    rightmost_is_rightmost(segment);
}

/// What holds of both shapes where they fit into the world: besides what
/// holds of them everywhere, their obstacles are well formed and end
/// within the horizon.
pub proof fn segments_are_sound(
    stone: ImageElement,
    image: ImageElement,
    sheet: Map<Seq<char>, Cell>,
    offset_x: i16,
)
    requires
        segments_fit(stone, sheet, offset_x as int),
    ensures
        stone_and_platform_fits(stone, offset_x),
        platform_and_stone_fits(stone, offset_x),
        all_well_formed(spec_stone_and_platform(stone, image, sheet, offset_x)),
        in_a_row(spec_stone_and_platform(stone, image, sheet, offset_x)),
        overlap_free(spec_stone_and_platform(stone, image, sheet, offset_x)),
        right_of_line(spec_stone_and_platform(stone, image, sheet, offset_x), offset_x as int),
        spec_rightmost(spec_stone_and_platform(stone, image, sheet, offset_x)) >= offset_x
            + FIRST_PLATFORM + PLATFORM_WIDTH,
        spec_rightmost(spec_stone_and_platform(stone, image, sheet, offset_x)) <= HORIZON,
        all_well_formed(spec_platform_and_stone(stone, image, sheet, offset_x)),
        in_a_row(spec_platform_and_stone(stone, image, sheet, offset_x)),
        overlap_free(spec_platform_and_stone(stone, image, sheet, offset_x)),
        right_of_line(spec_platform_and_stone(stone, image, sheet, offset_x), offset_x as int),
        spec_rightmost(spec_platform_and_stone(stone, image, sheet, offset_x)) >= offset_x
            + SECOND_STONE,
        spec_rightmost(spec_platform_and_stone(stone, image, sheet, offset_x)) <= HORIZON,
        left_of_line(
            spec_stone_and_platform(stone, image, sheet, offset_x),
            spec_rightmost(spec_stone_and_platform(stone, image, sheet, offset_x)),
        ),
        left_of_line(
            spec_platform_and_stone(stone, image, sheet, offset_x),
            spec_rightmost(spec_platform_and_stone(stone, image, sheet, offset_x)),
        ),
{
    stone_and_platform_is_clear(stone, image, sheet, offset_x);
    platform_and_stone_is_clear(stone, image, sheet, offset_x);
    floating_platform_is_well_formed(
        image,
        sheet,
        Point { x: (offset_x + first_platform(stone)) as i16, y: LOW_PLATFORM },
    );
    floating_platform_is_well_formed(
        image,
        sheet,
        Point { x: (offset_x + SECOND_PLATFORM) as i16, y: HIGH_PLATFORM },
    );
    let first = spec_stone_and_platform(stone, image, sheet, offset_x);
    let second = spec_platform_and_stone(stone, image, sheet, offset_x);
    assert(first[0].boxes().len() == 1);
    assert(second[1].boxes().len() == 1);
}

/// A character that can stand on the high platform can land on whatever it
/// lands on in a segment of either shape.
pub proof fn segments_are_landable(
    boy_sheet: Map<Seq<char>, Cell>,
    stone: ImageElement,
    image: ImageElement,
    sheet: Map<Seq<char>, Cell>,
    offset_x: i16,
)
    requires
        can_stand_on(boy_sheet, HIGH_PLATFORM),
        stone_and_platform_fits(stone, offset_x),
        platform_and_stone_fits(stone, offset_x),
    ensures
        all_landable(spec_stone_and_platform(stone, image, sheet, offset_x), boy_sheet),
        all_landable(spec_platform_and_stone(stone, image, sheet, offset_x), boy_sheet),
{
    let high = (top_for(HIGH_PLATFORM as int), bottom_for(HIGH_PLATFORM as int));
    complete_within(
        boy_sheet,
        top_for(LOW_PLATFORM as int),
        bottom_for(LOW_PLATFORM as int),
        high,
        high,
    );
    floating_platform_is_placed(
        image,
        sheet,
        Point { x: (offset_x + first_platform(stone)) as i16, y: LOW_PLATFORM },
    );
    floating_platform_is_placed(
        image,
        sheet,
        Point { x: (offset_x + SECOND_PLATFORM) as i16, y: HIGH_PLATFORM },
    );
}

/// The segment "a stone, then a low platform", starting at `offset_x`. The
/// platform begins `FIRST_PLATFORM` into the segment, or where the stone
/// ends if that is farther.
pub fn stone_and_platform(stone: ImageElement, sprite_sheet: &SpriteSheet, offset_x: i16) -> (segment:
    Vec<AnyObstacle>)
    requires
        stone_and_platform_fits(stone, offset_x),
    ensures
        models(segment@) == spec_stone_and_platform(
            stone,
            sprite_sheet.spec_image(),
            sprite_sheet@,
            offset_x,
        ),
        in_a_row(models(segment@)),
        overlap_free(models(segment@)),
        right_of_line(models(segment@), offset_x as int),
        left_of_line(models(segment@), spec_rightmost(models(segment@))),
        spec_rightmost(models(segment@)) >= offset_x,
{
    let barrier = create_stone(stone, offset_x + FIRST_STONE);
    let stone_end = barrier.right();
    let platform_x: i16 = if stone_end > offset_x + FIRST_PLATFORM {
        stone_end
    } else {
        offset_x + FIRST_PLATFORM
    };
    let mut segment: Vec<AnyObstacle> = Vec::new();
    segment.push(AnyObstacle::Barrier(barrier));
    segment.push(
        AnyObstacle::Platform(
            create_floating_platform(sprite_sheet, Point { x: platform_x, y: LOW_PLATFORM }),
        ),
    );
    proof {
        stone_and_platform_is_clear(stone, sprite_sheet.spec_image(), sprite_sheet@, offset_x);
        assert(models(segment@) =~= spec_stone_and_platform(
            stone,
            sprite_sheet.spec_image(),
            sprite_sheet@,
            offset_x,
        ));
    }
    segment
}

/// The segment "a high platform, then a stone", starting at `offset_x`.
pub fn platform_and_stone(stone: ImageElement, sprite_sheet: &SpriteSheet, offset_x: i16) -> (segment:
    Vec<AnyObstacle>)
    requires
        platform_and_stone_fits(stone, offset_x),
    ensures
        models(segment@) == spec_platform_and_stone(
            stone,
            sprite_sheet.spec_image(),
            sprite_sheet@,
            offset_x,
        ),
        in_a_row(models(segment@)),
        overlap_free(models(segment@)),
        right_of_line(models(segment@), offset_x as int),
        left_of_line(models(segment@), spec_rightmost(models(segment@))),
        spec_rightmost(models(segment@)) >= offset_x,
{
    let mut segment: Vec<AnyObstacle> = Vec::new();
    segment.push(
        AnyObstacle::Platform(
            create_floating_platform(
                sprite_sheet,
                Point { x: offset_x + SECOND_PLATFORM, y: HIGH_PLATFORM },
            ),
        ),
    );
    segment.push(AnyObstacle::Barrier(create_stone(stone, offset_x + SECOND_STONE)));
    proof {
        platform_and_stone_is_clear(stone, sprite_sheet.spec_image(), sprite_sheet@, offset_x);
        assert(models(segment@) =~= spec_platform_and_stone(
            stone,
            sprite_sheet.spec_image(),
            sprite_sheet@,
            offset_x,
        ));
    }
    segment
}

/// The rightmost of the right edges of the obstacles, and zero where there
/// is none.
pub fn rightmost(obstacle_list: &Vec<AnyObstacle>) -> (right: i16)
    requires
        forall|i: int|
            0 <= i < obstacle_list@.len() ==> (#[trigger] models(obstacle_list@)[i]).has_right(),
    ensures
        right == spec_rightmost(models(obstacle_list@)),
{
    let mut best: i16 = 0;
    let mut i: usize = 0;
    while i < obstacle_list.len()
        invariant
            i <= obstacle_list@.len(),
            forall|i: int|
                0 <= i < obstacle_list@.len() ==> (#[trigger] models(obstacle_list@)[i]).has_right(),
            best == spec_rightmost(models(obstacle_list@).take(i as int)),
        decreases obstacle_list@.len() - i,
    {
        proof {
            let all = models(obstacle_list@);
            assert(all[i as int].has_right());
            assert(all.take(i + 1).drop_last() == all.take(i as int));
            assert(all.take(i + 1).last() == obstacle_list@[i as int]@);
        }
        let right = obstacle_list[i].right();
        if i == 0 || right > best {
            best = right;
        }
        i += 1;
    }
    proof {
        assert(models(obstacle_list@).take(i as int) == models(obstacle_list@));
    }
    best
}

} // verus!
