//! What the character meets on its way: barriers, which end the run, and
//! platforms, which it can also land on.

use crate::engine::{Cell, DrawCommand, Image, ImageElement, Point, Rect, Renderer, SpriteSheet};
use crate::game::red_hat_boy::{can_stand_on, RedHatBoy};
use crate::game::state_machine::Event;
use vstd::prelude::*;

verus! {

/// The farthest that the world scrolls in one tick.
pub const SCROLL_LIMIT: i16 = 4;

/// The farthest from the origin, to either side, that an obstacle may
/// reach: as far as a coordinate goes, less the room that a tick's scroll
/// needs.
pub const HORIZON: i16 = i16::MAX - SCROLL_LIMIT;

/// The widest that an obstacle may be, from the left edge of its leftmost
/// part to its right edge: an obstacle whose right edge is still in sight
/// can then scroll on without leaving the world.
pub const SPAN_LIMIT: i16 = HORIZON - SCROLL_LIMIT;

/// Whether the box lies inside the world: its width is not negative, and
/// it lies within the horizon from side to side.
pub open spec fn in_world(rect: Rect) -> bool {
    &&& 0 <= rect.width
    &&& -HORIZON <= rect.position.x
    &&& rect.spec_right() <= HORIZON
}

/// The rightmost of the right edges of the boxes, and zero where there is
/// no box.
pub open spec fn right_of(boxes: Seq<Rect>) -> int
    decreases boxes.len(),
{
    if boxes.len() == 0 {
        0
    } else if boxes.len() == 1 {
        boxes[0].spec_right()
    } else if right_of(boxes.drop_last()) >= boxes.last().spec_right() {
        right_of(boxes.drop_last())
    } else {
        boxes.last().spec_right()
    }
}

/// `right_of` is the rightmost edge: no box ends to the right of it, and
/// one box ends at it.
pub proof fn right_of_is_rightmost(boxes: Seq<Rect>)
    requires
        boxes.len() > 0,
    ensures
        forall|i: int| 0 <= i < boxes.len() ==> (#[trigger] boxes[i]).spec_right() <= right_of(boxes),
        exists|i: int| 0 <= i < boxes.len() && (#[trigger] boxes[i]).spec_right() == right_of(boxes),
    decreases boxes.len(),
{
    if boxes.len() > 1 {
        let rest = boxes.drop_last();
        right_of_is_rightmost(rest);
        assert forall|i: int| 0 <= i < boxes.len() implies (#[trigger] boxes[i]).spec_right()
            <= right_of(boxes) by {
            if i < rest.len() {
                assert(rest[i] == boxes[i]);
            }
        }
        if right_of(rest) >= boxes.last().spec_right() {
            let i = choose|i: int| 0 <= i < rest.len() && (#[trigger] rest[i]).spec_right() == right_of(rest);
            assert(boxes[i] == rest[i]);
        } else {
            assert(boxes[boxes.len() - 1].spec_right() == right_of(boxes));
        }
    } else {
        assert(boxes[0].spec_right() == right_of(boxes));
    }
}

/// Boxes that move together take their rightmost edge along.
pub proof fn right_of_moves_along(boxes: Seq<Rect>, dx: int)
    requires
        boxes.len() > 0,
        forall|i: int|
            0 <= i < boxes.len() ==> i16::MIN <= (#[trigger] boxes[i]).position.x + dx <= i16::MAX,
    ensures
        right_of(shifted_boxes(boxes, dx)) == right_of(boxes) + dx,
    decreases boxes.len(),
{
    let moved = shifted_boxes(boxes, dx);
    assert(moved.last() == boxes.last().shifted(dx));
    assert(moved[0] == boxes[0].shifted(dx));
    if boxes.len() > 1 {
        let rest = boxes.drop_last();
        assert forall|i: int| 0 <= i < rest.len() implies i16::MIN <= (#[trigger] rest[i]).position.x
            + dx <= i16::MAX by {
            assert(rest[i] == boxes[i]);
        }
        right_of_moves_along(rest, dx);
        assert(moved.drop_last() =~= shifted_boxes(rest, dx));
    }
}

/// The boxes moved `dx` to the right.
pub open spec fn shifted_boxes(boxes: Seq<Rect>, dx: int) -> Seq<Rect> {
    Seq::new(boxes.len(), |i: int| boxes[i].shifted(dx))
}

/// The index of the first of the boxes that `rect` intersects, and the
/// number of the boxes where it intersects none.
pub open spec fn first_hit(boxes: Seq<Rect>, rect: Rect) -> int
    decreases boxes.len(),
{
    if boxes.len() == 0 {
        0
    } else if rect.spec_intersects(boxes.first()) {
        0
    } else {
        1 + first_hit(boxes.drop_first(), rect)
    }
}

/// `first_hit` finds the first box that is hit: no box before it is hit, and
/// it is hit itself unless it lies past the end.
pub proof fn first_hit_is_first(boxes: Seq<Rect>, rect: Rect)
    ensures
        0 <= first_hit(boxes, rect) <= boxes.len(),
        forall|i: int| 0 <= i < first_hit(boxes, rect) ==> !rect.spec_intersects(#[trigger] boxes[i]),
        first_hit(boxes, rect) < boxes.len() ==> rect.spec_intersects(
            boxes[first_hit(boxes, rect)],
        ),
    decreases boxes.len(),
{
    if boxes.len() > 0 && !rect.spec_intersects(boxes.first()) {
        let rest = boxes.drop_first();
        first_hit_is_first(rest, rect);
        assert forall|i: int| 0 <= i < first_hit(boxes, rect) implies !rect.spec_intersects(
            #[trigger] boxes[i],
        ) by {
            if i > 0 {
                assert(boxes[i] == rest[i - 1]);
            }
        }
        if first_hit(boxes, rect) < boxes.len() {
            assert(boxes[first_hit(boxes, rect)] == rest[first_hit(rest, rect)]);
        }
    }
}

/// The widths of the sprites, added up.
pub open spec fn total_width(sprites: Seq<Cell>) -> int
    decreases sprites.len(),
{
    if sprites.len() == 0 {
        0
    } else {
        total_width(sprites.drop_last()) + sprites.last().frame.w
    }
}

/// An obstacle as a plain value.
pub enum ObstacleModel {
    /// A hazard with a single box: the image at its place.
    Barrier { image: ImageElement, bounding_box: Rect },
    /// A run of sprites drawn side by side from `position`, and the boxes
    /// that collisions are decided by.
    Platform { image: ImageElement, position: Point, boxes: Seq<Rect>, sprites: Seq<Cell> },
}

impl ObstacleModel {
    /// The boxes that collisions are decided by, in order.
    pub open spec fn boxes(self) -> Seq<Rect> {
        match self {
            ObstacleModel::Barrier { bounding_box, .. } => seq![bounding_box],
            ObstacleModel::Platform { boxes, .. } => boxes,
        }
    }

    /// The x-coordinate of the right edge: the rightmost of the right edges
    /// of the boxes, and zero where there is no box.
    pub open spec fn right(self) -> int {
        right_of(self.boxes())
    }

    /// The point that the obstacle is drawn from.
    pub open spec fn anchor(self) -> Point {
        match self {
            ObstacleModel::Barrier { bounding_box, .. } => bounding_box.position,
            ObstacleModel::Platform { position, .. } => position,
        }
    }

    /// The sprites that show the obstacle, side by side; a barrier has none
    /// and shows its whole image.
    pub open spec fn sprites(self) -> Seq<Cell> {
        match self {
            ObstacleModel::Barrier { .. } => Seq::empty(),
            ObstacleModel::Platform { sprites, .. } => sprites,
        }
    }

    /// The obstacle has a box, lies inside the world, is no wider than the
    /// span limit, and can be drawn.
    pub open spec fn wf(self) -> bool {
        &&& self.boxes().len() > 0
        &&& -HORIZON <= self.anchor().x <= HORIZON
        &&& self.right() - self.anchor().x <= SPAN_LIMIT
        &&& forall|i: int|
            0 <= i < self.boxes().len() ==> {
                &&& in_world(#[trigger] self.boxes()[i])
                &&& self.right() - self.boxes()[i].position.x <= SPAN_LIMIT
            }
        &&& forall|i: int| 0 <= i < self.sprites().len() ==> 0 <= (#[trigger] self.sprites()[i]).frame.w
        &&& total_width(self.sprites()) <= i16::MAX
        &&& self.anchor().x + total_width(self.sprites()) <= i16::MAX
    }

    /// Whether the obstacle can move `dx` to the right: the places of its
    /// parts stay representable.
    pub open spec fn can_move(self, dx: int) -> bool {
        &&& i16::MIN <= self.anchor().x + dx <= i16::MAX
        &&& forall|i: int|
            0 <= i < self.boxes().len() ==> i16::MIN <= (#[trigger] self.boxes()[i]).position.x
                + dx <= i16::MAX
    }

    /// Whether the obstacle stays inside the world when it moves `dx` to
    /// the right.
    pub open spec fn stays_in_world(self, dx: int) -> bool {
        &&& -HORIZON <= self.anchor().x + dx <= HORIZON
        &&& self.anchor().x + dx + total_width(self.sprites()) <= i16::MAX
        &&& forall|i: int|
            0 <= i < self.boxes().len() ==> {
                &&& -HORIZON <= (#[trigger] self.boxes()[i]).position.x + dx
                &&& self.boxes()[i].spec_right() + dx <= HORIZON
            }
    }

    /// Whether the right edge can be found: the right edge of every box is
    /// representable.
    pub open spec fn has_right(self) -> bool {
        forall|i: int|
            0 <= i < self.boxes().len() ==> i16::MIN <= (#[trigger] self.boxes()[i]).spec_right()
                <= i16::MAX
    }

    /// Whether the obstacle can be drawn: the places of its sprites, side
    /// by side, are representable.
    pub open spec fn drawable(self) -> bool {
        &&& forall|i: int|
            0 <= i <= self.sprites().len() ==> i16::MIN <= #[trigger] total_width(
                self.sprites().take(i),
            ) <= i16::MAX
        &&& forall|i: int|
            0 <= i < self.sprites().len() ==> i16::MIN <= self.anchor().x + #[trigger] total_width(
                self.sprites().take(i),
            ) <= i16::MAX
    }

    /// Whether a character shown by the sprites of `sheet` can be set on
    /// whatever box of the obstacle it lands on: it can stand on the top of
    /// every box. A barrier is landed on nowhere.
    pub open spec fn landable_by(self, sheet: Map<Seq<char>, Cell>) -> bool {
        self is Platform ==> forall|i: int|
            0 <= i < self.boxes().len() ==> can_stand_on(
                sheet,
                (#[trigger] self.boxes()[i]).position.y,
            )
    }

    /// The obstacle moved `dx` to the right.
    pub open spec fn shifted(self, dx: int) -> ObstacleModel {
        match self {
            ObstacleModel::Barrier { image, bounding_box } => ObstacleModel::Barrier {
                image,
                bounding_box: bounding_box.shifted(dx),
            },
            ObstacleModel::Platform { image, position, boxes, sprites } => ObstacleModel::Platform {
                image,
                position: Point { x: (position.x + dx) as i16, y: position.y },
                boxes: shifted_boxes(boxes, dx),
                sprites,
            },
        }
    }

    /// What happens to a character that meets the obstacle, given the
    /// character's box, its vertical speed and its vertical position. A
    /// barrier knocks out whoever touches it. A platform acts through the
    /// first of its boxes that the character touches: a character that is
    /// coming down from above the platform lands on that box, any other is
    /// knocked out. Nothing happens to a character that touches no box.
    pub open spec fn encounter(self, body: Rect, velocity_y: i16, position_y: i16) -> Option<Event> {
        let hit = first_hit(self.boxes(), body);
        if hit >= self.boxes().len() {
            None
        } else {
            match self {
                ObstacleModel::Barrier { .. } => Some(Event::KnockOut),
                ObstacleModel::Platform { position, boxes, .. } => if velocity_y > 0 && position_y
                    < position.y {
                    Some(Event::Land(boxes[hit].position.y))
                } else {
                    Some(Event::KnockOut)
                },
            }
        }
    }

    /// The instructions that draw the obstacle: a barrier is its whole
    /// image; a platform is its sprites, each at its own size, side by side
    /// from the platform's position.
    pub open spec fn drawing(self) -> Seq<DrawCommand> {
        match self {
            ObstacleModel::Barrier { image, bounding_box } => seq![
                DrawCommand::DrawEntireImage { image, position: bounding_box.position },
            ],
            ObstacleModel::Platform { image, position, sprites, .. } => Seq::new(
                sprites.len(),
                |i: int|
                    DrawCommand::DrawImage {
                        image,
                        frame: sprites[i].frame.to_rect(),
                        destination: Rect {
                            position: Point {
                                x: (position.x + total_width(sprites.take(i))) as i16,
                                y: position.y,
                            },
                            width: sprites[i].frame.w,
                            height: sprites[i].frame.h,
                        },
                    },
            ),
        }
    }
}

/// A well-formed obstacle can be measured and drawn.
pub proof fn well_formed_obstacle_is_usable(obstacle: ObstacleModel)
    requires
        obstacle.wf(),
    ensures
        obstacle.has_right(),
        obstacle.drawable(),
{
    assert forall|i: int| 0 <= i < obstacle.boxes().len() implies i16::MIN <= (
    #[trigger] obstacle.boxes()[i]).spec_right() <= i16::MAX by {
        assert(in_world(obstacle.boxes()[i]));
    }
    assert forall|i: int| 0 <= i <= obstacle.sprites().len() implies 0 <= #[trigger] total_width(
        obstacle.sprites().take(i),
    ) <= total_width(obstacle.sprites()) by {
        total_width_grows(obstacle.sprites(), i);
    }
}

/// An obstacle whose right edge is still in sight can scroll on, and is
/// well formed where it then is.
pub proof fn visible_obstacle_can_scroll(obstacle: ObstacleModel, dx: int)
    requires
        obstacle.wf(),
        obstacle.right() >= 0,
        -SCROLL_LIMIT <= dx <= 0,
    ensures
        obstacle.stays_in_world(dx),
        obstacle.can_move(dx),
        obstacle.shifted(dx).wf(),
        obstacle.shifted(dx).right() == obstacle.right() + dx,
{
    assert forall|i: int| 0 <= i < obstacle.boxes().len() implies {
        &&& -HORIZON <= (#[trigger] obstacle.boxes()[i]).position.x + dx
        &&& obstacle.boxes()[i].spec_right() + dx <= HORIZON
    } by {
        assert(in_world(obstacle.boxes()[i]));
    }
    moving_keeps_well_formed(obstacle, dx);
}

/// An obstacle that stays inside the world when it moves is well formed
/// where it then is, with its right edge moved along.
pub proof fn moving_keeps_well_formed(obstacle: ObstacleModel, dx: int)
    requires
        obstacle.wf(),
        obstacle.stays_in_world(dx),
    ensures
        obstacle.can_move(dx),
        obstacle.shifted(dx).wf(),
        obstacle.shifted(dx).right() == obstacle.right() + dx,
        obstacle.shifted(dx).boxes() == shifted_boxes(obstacle.boxes(), dx),
{
    let moved = obstacle.shifted(dx);
    assert(moved.boxes() =~= shifted_boxes(obstacle.boxes(), dx));
    assert(moved.sprites() == obstacle.sprites());
    assert forall|i: int| 0 <= i < obstacle.boxes().len() implies i16::MIN <= (
    #[trigger] obstacle.boxes()[i]).position.x + dx <= i16::MAX by {
        assert(in_world(obstacle.boxes()[i]));
    }
    right_of_moves_along(obstacle.boxes(), dx);
    assert forall|i: int| 0 <= i < moved.boxes().len() implies {
        &&& in_world(#[trigger] moved.boxes()[i])
        &&& moved.right() - moved.boxes()[i].position.x <= SPAN_LIMIT
    } by {
        assert(in_world(obstacle.boxes()[i]));
    }
}

/// What the game asks of an obstacle.
pub trait Obstacle {
    /// The obstacle as a plain value.
    spec fn model(&self) -> ObstacleModel;

    /// Lets the character meet the obstacle: what `encounter` says of the
    /// character's box, speed and position happens to the character.
    fn check_intersection(&self, boy: &mut RedHatBoy)
        requires
            self.model().landable_by(old(boy).sheet()),
        ensures
            final(boy).wf(),
            final(boy).same_sprites(old(boy)),
            final(boy).character() == old(boy).met(self.model()),
    ;

    /// Adds the instructions that draw the obstacle to the display list.
    fn draw(&self, renderer: &mut Renderer)
        requires
            self.model().drawable(),
        ensures
            final(renderer)@ == old(renderer)@ + self.model().drawing(),
    ;

    /// Moves the obstacle `x` to the right.
    fn move_horizontally(&mut self, x: i16)
        requires
            old(self).model().can_move(x as int),
        ensures
            final(self).model() == old(self).model().shifted(x as int),
    ;

    /// The x-coordinate of the right edge.
    fn right(&self) -> (right: i16)
        requires
            self.model().has_right(),
        ensures
            right == self.model().right(),
    ;
}

/// A hazard: an image that knocks out whoever touches it.
pub struct Barrier {
    image: Image,
}

impl View for Barrier {
    type V = ObstacleModel;

    closed spec fn view(&self) -> ObstacleModel {
        ObstacleModel::Barrier {
            image: self.image@.element,
            bounding_box: self.image@.bounding_box,
        }
    }
}

impl Barrier {
    pub fn new(image: Image) -> (barrier: Barrier)
        ensures
            barrier@ == (ObstacleModel::Barrier {
                image: image@.element,
                bounding_box: image@.bounding_box,
            }),
    {
        Self { image }
    }

    /// The image of the barrier at its place.
    pub fn image(&self) -> (image: &Image)
        ensures
            self@ == (ObstacleModel::Barrier {
                image: image@.element,
                bounding_box: image@.bounding_box,
            }),
    {
        &self.image
    }

    /// Knocks the character out if it touches the barrier.
    pub fn check_intersection(&self, boy: &mut RedHatBoy)
        requires
            self@.landable_by(old(boy).sheet()),
        ensures
            final(boy).wf(),
            final(boy).same_sprites(old(boy)),
            final(boy).character() == old(boy).met(self@),
    {
        proof {
            use_type_invariant(&*boy);
            first_hit_is_first(self@.boxes(), boy.spec_bounding_box());
        }
        if boy.bounding_box().intersects(self.image.bounding_box()) {
            boy.knock_out();
        }
    }

    /// Adds the instruction that draws the barrier to the display list.
    pub fn draw(&self, renderer: &mut Renderer)
        ensures
            final(renderer)@ == old(renderer)@ + self@.drawing(),
    {
        self.image.draw(renderer);
        proof {
            assert(renderer@ =~= old(renderer)@ + self@.drawing());
        }
    }

    /// Moves the barrier `x` to the right.
    pub fn move_horizontally(&mut self, x: i16)
        requires
            old(self)@.can_move(x as int),
        ensures
            final(self)@ == old(self)@.shifted(x as int),
    {
        proof {
            assert(self@.boxes()[0] == self.image@.bounding_box);
        }
        self.image.move_horizontally(x);
    }

    /// The x-coordinate of the right edge.
    pub fn right(&self) -> (right: i16)
        requires
            self@.has_right(),
        ensures
            right == self@.right(),
    {
        proof {
            assert(self@.boxes()[0] == self.image@.bounding_box);
        }
        self.image.right()
    }
}

impl Obstacle for Barrier {
    open spec fn model(&self) -> ObstacleModel {
        self@
    }

    fn check_intersection(&self, boy: &mut RedHatBoy) {
        Barrier::check_intersection(self, boy)
    }

    fn draw(&self, renderer: &mut Renderer) {
        Barrier::draw(self, renderer)
    }

    fn move_horizontally(&mut self, x: i16) {
        Barrier::move_horizontally(self, x)
    }

    fn right(&self) -> (right: i16) {
        Barrier::right(self)
    }
}

/// The sprites that the sheet has under the given names, in the order of
/// the names. A name that the sheet does not have is passed over.
pub open spec fn found_sprites(sheet: Map<Seq<char>, Cell>, names: Seq<&str>) -> Seq<Cell>
    decreases names.len(),
{
    if names.len() == 0 {
        Seq::empty()
    } else if sheet.contains_key(names.last()@) {
        found_sprites(sheet, names.drop_last()).push(sheet[names.last()@])
    } else {
        found_sprites(sheet, names.drop_last())
    }
}

/// The boxes moved by `offset`.
pub open spec fn placed_boxes(boxes: Seq<Rect>, offset: Point) -> Seq<Rect> {
    Seq::new(
        boxes.len(),
        |i: int|
            Rect {
                position: Point {
                    x: (boxes[i].position.x + offset.x) as i16,
                    y: (boxes[i].position.y + offset.y) as i16,
                },
                width: boxes[i].width,
                height: boxes[i].height,
            },
    )
}

/// Where widths are not negative, the first sprites are together no wider
/// than all of them.
pub proof fn total_width_grows(sprites: Seq<Cell>, count: int)
    requires
        0 <= count <= sprites.len(),
        forall|i: int| 0 <= i < sprites.len() ==> 0 <= (#[trigger] sprites[i]).frame.w,
    ensures
        0 <= total_width(sprites.take(count)) <= total_width(sprites),
    decreases sprites.len() - count,
{
    if count < sprites.len() {
        total_width_grows(sprites, count + 1);
        assert(sprites.take(count + 1).drop_last() == sprites.take(count));
        assert(sprites.take(count + 1).last() == sprites[count]);
        total_width_is_positive(sprites.take(count));
    } else {
        assert(sprites.take(count) == sprites);
        total_width_is_positive(sprites);
    }
}

/// Widths that are not negative add up to a width that is not negative.
pub proof fn total_width_is_positive(sprites: Seq<Cell>)
    requires
        forall|i: int| 0 <= i < sprites.len() ==> 0 <= (#[trigger] sprites[i]).frame.w,
    ensures
        0 <= total_width(sprites),
    decreases sprites.len(),
{
    if sprites.len() > 0 {
        total_width_is_positive(sprites.drop_last());
    }
}

/// The part of the sheet's image that the sprite is cut from.
fn source_of(sprite: &Cell) -> (frame: Rect)
    ensures
        frame == sprite.frame.to_rect(),
{
    sprite.frame.into()
}

/// A surface: sprites drawn side by side, with boxes of their own that say
/// where the character lands and where it bumps into the platform.
pub struct Platform {
    image: ImageElement,
    bounding_boxes: Vec<Rect>,
    sprites: Vec<Cell>,
    position: Point,
}

impl Platform {
    /// A platform at `position`, shown by those of the named sprites that
    /// the sheet has, with the given boxes placed relative to `position`.
    pub fn new(
        sheet: &SpriteSheet,
        position: Point,
        sprite_names: &[&str],
        bounding_boxes: &[Rect],
    ) -> (platform: Platform)
        requires
            forall|i: int|
                0 <= i < bounding_boxes@.len() ==> {
                    &&& i16::MIN <= (#[trigger] bounding_boxes@[i]).position.x + position.x
                        <= i16::MAX
                    &&& i16::MIN <= bounding_boxes@[i].position.y + position.y <= i16::MAX
                },
        ensures
            platform@ == (ObstacleModel::Platform {
                image: sheet.spec_image(),
                position,
                boxes: placed_boxes(bounding_boxes@, position),
                sprites: found_sprites(sheet@, sprite_names@),
            }),
    {
        let mut sprites: Vec<Cell> = Vec::new();
        let mut i: usize = 0;
        while i < sprite_names.len()
            invariant
                i <= sprite_names@.len(),
                sprites@ == found_sprites(sheet@, sprite_names@.take(i as int)),
            decreases sprite_names@.len() - i,
        {
            proof {
                assert(sprite_names@.take(i + 1).drop_last() == sprite_names@.take(i as int));
            }
            match sheet.cell(sprite_names[i]) {
                Some(cell) => {
                    sprites.push(*cell);
                },
                None => {},
            }
            i += 1;
        }
        proof {
            assert(sprite_names@.take(sprite_names@.len() as int) == sprite_names@);
        }
        let mut placed: Vec<Rect> = Vec::new();
        let mut j: usize = 0;
        while j < bounding_boxes.len()
            invariant
                j <= bounding_boxes@.len(),
                placed@ == placed_boxes(bounding_boxes@, position).take(j as int),
                forall|i: int|
                    0 <= i < bounding_boxes@.len() ==> {
                        &&& i16::MIN <= (#[trigger] bounding_boxes@[i]).position.x + position.x
                            <= i16::MAX
                        &&& i16::MIN <= bounding_boxes@[i].position.y + position.y <= i16::MAX
                    },
            decreases bounding_boxes@.len() - j,
        {
            let bounding_box = &bounding_boxes[j];
            placed.push(
                Rect::new_from_x_y(
                    bounding_box.x() + position.x,
                    bounding_box.y() + position.y,
                    bounding_box.width,
                    bounding_box.height,
                ),
            );
            j += 1;
            proof {
                assert(placed@ =~= placed_boxes(bounding_boxes@, position).take(j as int));
            }
        }
        proof {
            assert(placed@ =~= placed_boxes(bounding_boxes@, position));
        }
        Platform { image: *sheet.image(), position, sprites, bounding_boxes: placed }
    }

    /// The boxes that collisions are decided by.
    pub fn bounding_boxes(&self) -> (boxes: &Vec<Rect>)
        ensures
            boxes@ == self@.boxes(),
            self@ is Platform,
    {
        &self.bounding_boxes
    }

    /// The point that the platform is drawn from.
    pub fn position(&self) -> (position: Point)
        ensures
            position == self@.anchor(),
            self@ is Platform,
    {
        self.position
    }

    /// The sprites that show the platform, from left to right.
    pub fn sprites(&self) -> (sprites: &Vec<Cell>)
        ensures
            sprites@ == self@.sprites(),
            self@ is Platform,
    {
        &self.sprites
    }

    /// Adds the instructions that draw the sprites, side by side, to the
    /// display list.
    pub fn draw(&self, renderer: &mut Renderer)
        requires
            self@.drawable(),
        ensures
            final(renderer)@ == old(renderer)@ + self@.drawing(),
    {
        let mut x: i16 = 0;
        let mut i: usize = 0;
        while i < self.sprites.len()
            invariant
                i <= self.sprites@.len(),
                self@.drawable(),
                x == total_width(self.sprites@.take(i as int)),
                renderer@ == old(renderer)@ + self@.drawing().take(i as int),
            decreases self.sprites@.len() - i,
        {
            proof {
                assert(self.sprites@.take(i + 1).drop_last() == self.sprites@.take(i as int));
                assert(self.sprites@.take(i + 1).last() == self.sprites@[i as int]);
                assert(i16::MIN <= total_width(self@.sprites().take(i + 1)) <= i16::MAX);
                assert(i16::MIN <= self@.anchor().x + total_width(self@.sprites().take(i as int))
                    <= i16::MAX);
            }
            let sprite = &self.sprites[i];
            let frame = source_of(sprite);
            renderer.draw_image(
                &self.image,
                &frame,
                &Rect::new_from_x_y(
                    self.position.x + x,
                    self.position.y,
                    sprite.frame.w,
                    sprite.frame.h,
                ),
            );
            x += sprite.frame.w;
            i += 1;
            proof {
                assert(renderer@ =~= old(renderer)@ + self@.drawing().take(i as int));
            }
        }
        proof {
            assert(self@.drawing().take(i as int) == self@.drawing());
        }
    }

    /// Moves the platform and its boxes `x` to the right.
    pub fn move_horizontally(&mut self, x: i16)
        requires
            old(self)@.can_move(x as int),
        ensures
            final(self)@ == old(self)@.shifted(x as int),
    {
        self.position.x += x;
        let mut i: usize = 0;
        while i < self.bounding_boxes.len()
            invariant
                i <= self.bounding_boxes@.len(),
                self.bounding_boxes@.len() == old(self).bounding_boxes@.len(),
                self.image == old(self).image,
                self.sprites == old(self).sprites,
                self.position == (Point {
                    x: (old(self).position.x + x) as i16,
                    y: old(self).position.y,
                }),
                old(self)@.can_move(x as int),
                forall|j: int|
                    0 <= j < i ==> self.bounding_boxes@[j] == old(self).bounding_boxes@[j].shifted(
                        x as int,
                    ),
                forall|j: int|
                    i <= j < self.bounding_boxes@.len() ==> self.bounding_boxes@[j] == old(
                        self,
                    ).bounding_boxes@[j],
            decreases self.bounding_boxes@.len() - i,
        {
            proof {
                assert(self.bounding_boxes@[i as int] == old(self)@.boxes()[i as int]);
            }
            let mut moved = self.bounding_boxes[i];
            moved.set_x(moved.position.x + x);
            self.bounding_boxes.set(i, moved);
            i += 1;
        }
        proof {
            assert(self.bounding_boxes@ =~= shifted_boxes(old(self).bounding_boxes@, x as int));
        }
    }

    /// Lets the character meet the platform: it acts through the first of
    /// its boxes that the character touches. A character that is coming
    /// down from above the platform lands on that box; any other is knocked
    /// out.
    pub fn check_intersection(&self, boy: &mut RedHatBoy)
        requires
            self@.landable_by(old(boy).sheet()),
        ensures
            final(boy).wf(),
            final(boy).same_sprites(old(boy)),
            final(boy).character() == old(boy).met(self@),
    {
        proof {
            use_type_invariant(&*boy);
            first_hit_is_first(self@.boxes(), boy.spec_bounding_box());
        }
        let body = boy.bounding_box();
        let mut i: usize = 0;
        let mut found = false;
        while i < self.bounding_boxes.len() && !found
            invariant
                i <= self.bounding_boxes@.len(),
                forall|j: int| 0 <= j < i ==> !body.spec_intersects(#[trigger] self.bounding_boxes@[j]),
                found ==> i < self.bounding_boxes@.len() && body.spec_intersects(
                    self.bounding_boxes@[i as int],
                ),
            decreases
                    self.bounding_boxes@.len() - i + if found {
                        0int
                    } else {
                        1int
                    },
        {
            if body.intersects(&self.bounding_boxes[i]) {
                found = true;
            } else {
                i += 1;
            }
        }
        if found {
            let box_to_land_on = &self.bounding_boxes[i];
            proof {
                assert(can_stand_on(boy.sheet(), self@.boxes()[i as int].position.y));
            }
            if boy.velocity_y() > 0 && boy.pos_y() < self.position.y {
                boy.land_on(box_to_land_on.y());
            } else {
                boy.knock_out();
            }
        }
    }

    /// The x-coordinate of the right edge: the rightmost of the right edges
    /// of the boxes, and zero where the platform has no box.
    pub fn right(&self) -> (right: i16)
        requires
            self@.has_right(),
        ensures
            right == self@.right(),
            self@ is Platform,
            forall|i: int|
                0 <= i < self@.boxes().len() ==> (#[trigger] self@.boxes()[i]).spec_right() <= right,
            self@.boxes().len() > 0 ==> exists|i: int|
                0 <= i < self@.boxes().len() && (#[trigger] self@.boxes()[i]).spec_right() == right,
    {
        proof {
            if self@.boxes().len() > 0 {
                right_of_is_rightmost(self@.boxes());
            }
        }
        let mut right: i16 = 0;
        let mut i: usize = 0;
        while i < self.bounding_boxes.len()
            invariant
                i <= self.bounding_boxes@.len(),
                self@.has_right(),
                right == right_of(self.bounding_boxes@.take(i as int)),
            decreases self.bounding_boxes@.len() - i,
        {
            proof {
                let boxes = self.bounding_boxes@;
                assert(boxes.take(i + 1).drop_last() == boxes.take(i as int));
                assert(boxes.take(i + 1).last() == boxes[i as int]);
                assert(boxes.take(i + 1)[0] == boxes[0]);
                assert(self@.boxes()[i as int] == boxes[i as int]);
            }
            let edge = self.bounding_boxes[i].right();
            if i == 0 || edge > right {
                right = edge;
            }
            i += 1;
        }
        proof {
            assert(self.bounding_boxes@.take(i as int) == self.bounding_boxes@);
        }
        right
    }
}

impl View for Platform {
    type V = ObstacleModel;

    closed spec fn view(&self) -> ObstacleModel {
        ObstacleModel::Platform {
            image: self.image,
            position: self.position,
            boxes: self.bounding_boxes@,
            sprites: self.sprites@,
        }
    }
}

impl Obstacle for Platform {
    open spec fn model(&self) -> ObstacleModel {
        self@
    }

    fn check_intersection(&self, boy: &mut RedHatBoy) {
        Platform::check_intersection(self, boy)
    }

    fn draw(&self, renderer: &mut Renderer) {
        Platform::draw(self, renderer)
    }

    fn move_horizontally(&mut self, x: i16) {
        Platform::move_horizontally(self, x)
    }

    fn right(&self) -> (right: i16) {
        Platform::right(self)
    }
}

/// Any of the obstacles of the game.
pub enum AnyObstacle {
    Barrier(Barrier),
    Platform(Platform),
}

impl View for AnyObstacle {
    type V = ObstacleModel;

    open spec fn view(&self) -> ObstacleModel {
        match self {
            AnyObstacle::Barrier(barrier) => barrier@,
            AnyObstacle::Platform(platform) => platform@,
        }
    }
}

impl AnyObstacle {
    /// Lets the character meet the obstacle.
    pub fn check_intersection(&self, boy: &mut RedHatBoy)
        requires
            self@.landable_by(old(boy).sheet()),
        ensures
            final(boy).wf(),
            final(boy).same_sprites(old(boy)),
            final(boy).character() == old(boy).met(self@),
    {
        match self {
            AnyObstacle::Barrier(barrier) => barrier.check_intersection(boy),
            AnyObstacle::Platform(platform) => platform.check_intersection(boy),
        }
    }

    /// Adds the instructions that draw the obstacle to the display list.
    pub fn draw(&self, renderer: &mut Renderer)
        requires
            self@.drawable(),
        ensures
            final(renderer)@ == old(renderer)@ + self@.drawing(),
    {
        match self {
            AnyObstacle::Barrier(barrier) => barrier.draw(renderer),
            AnyObstacle::Platform(platform) => platform.draw(renderer),
        }
    }

    /// Moves the obstacle `x` to the right.
    pub fn move_horizontally(&mut self, x: i16)
        requires
            old(self)@.can_move(x as int),
        ensures
            final(self)@ == old(self)@.shifted(x as int),
    {
        match self {
            AnyObstacle::Barrier(barrier) => barrier.move_horizontally(x),
            AnyObstacle::Platform(platform) => platform.move_horizontally(x),
        }
    }

    /// The x-coordinate of the right edge.
    pub fn right(&self) -> (right: i16)
        requires
            self@.has_right(),
        ensures
            right == self@.right(),
    {
        match self {
            AnyObstacle::Barrier(barrier) => barrier.right(),
            AnyObstacle::Platform(platform) => platform.right(),
        }
    }
}

impl Obstacle for AnyObstacle {
    open spec fn model(&self) -> ObstacleModel {
        self@
    }

    fn check_intersection(&self, boy: &mut RedHatBoy) {
        AnyObstacle::check_intersection(self, boy)
    }

    fn draw(&self, renderer: &mut Renderer) {
        AnyObstacle::draw(self, renderer)
    }

    fn move_horizontally(&mut self, x: i16) {
        AnyObstacle::move_horizontally(self, x)
    }

    fn right(&self) -> (right: i16) {
        AnyObstacle::right(self)
    }
}

} // verus!
