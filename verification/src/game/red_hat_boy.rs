//! The character on screen: the state machine together with the sprite
//! sheet that shows it.

use crate::engine::{Cell, DrawCommand, ImageElement, Point, Rect, Renderer, Sheet};
use crate::game::obstacles::ObstacleModel;
use crate::game::red_hat_boy_states::{
    rise_is_bounded, tick_stays_in_world, Idle, RedHatBoyState, FALLING_FRAMES,
    FALLING_FRAME_NAME, FLOOR, HIGHEST_SURFACE, IDLE_FRAMES, IDLE_FRAME_NAME, JUMPING_FRAMES,
    JUMPING_FRAME_NAME, JUMP_RISE, JUMP_SPEED, PLAYER_HEIGHT, RUNNING_FRAMES, RUN_FRAME_NAME,
    SLIDING_FRAMES, SLIDING_FRAME_NAME, STARTING_POINT,
};
use crate::game::state_machine::{
    frame_label, transition_keeps_well_formed, well_formed_admits, Character, Event,
    RedHatBoyStateMachine,
};
use vstd::prelude::*;
use vstd::string::StringExecFns;

verus! {

/// The number of ticks for which one sprite of an animation is shown.
pub const TICKS_PER_SPRITE: u8 = 3;

/// By how much the character's box lies inside the left edge of its sprite.
pub const X_OFFSET: i16 = 18;

/// By how much the character's box lies below the top edge of its sprite.
pub const Y_OFFSET: i16 = 14;

/// By how much the character's box is narrower than its sprite.
pub const WIDTH_OFFSET: i16 = 28;

/// The character that stands for a decimal digit.
pub open spec fn digit_char(digit: nat) -> char {
    if digit == 0 {
        '0'
    } else if digit == 1 {
        '1'
    } else if digit == 2 {
        '2'
    } else if digit == 3 {
        '3'
    } else if digit == 4 {
        '4'
    } else if digit == 5 {
        '5'
    } else if digit == 6 {
        '6'
    } else if digit == 7 {
        '7'
    } else if digit == 8 {
        '8'
    } else {
        '9'
    }
}

/// A number in decimal notation, without leading zeros.
pub open spec fn decimal(n: nat) -> Seq<char>
    decreases n,
{
    if n < 10 {
        seq![digit_char(n)]
    } else {
        decimal(n / 10).push(digit_char(n % 10))
    }
}

/// The name of the sprite with the given number in the animation with the
/// given label: the label, a space, the number in parentheses, and `.png`.
pub open spec fn spec_sprite_name(label: Seq<char>, index: nat) -> Seq<char> {
    label + " ("@ + decimal(index) + ").png"@
}

/// The number of the sprite that an animation shows at the given frame: the
/// sprites are numbered from one, and each is shown for
/// `TICKS_PER_SPRITE` ticks.
pub open spec fn sprite_index(frame: u8) -> nat {
    (frame / TICKS_PER_SPRITE + 1) as nat
}

/// The highest point of the field that every character moves in: a jump,
/// and the room that a character on the ground keeps for one, above the
/// floor.
pub const FIELD_TOP: i16 = FLOOR - JUMP_RISE - JUMP_RISE;

/// Whether a cell can show the character from side to side: the corners of
/// the sprite and of the character's box are representable where the
/// character stands, and so are the sides of the box.
pub open spec fn usable(cell: Cell) -> bool {
    &&& i16::MIN <= STARTING_POINT + cell.sprite_source_size.x
    &&& STARTING_POINT + cell.sprite_source_size.x + X_OFFSET <= i16::MAX
    &&& i16::MIN <= cell.frame.w - WIDTH_OFFSET
    &&& i16::MIN <= cell.frame.h - Y_OFFSET
}

/// Whether a cell can show the character at every height from `low` to
/// `high`: the corners of the sprite and of the character's box are
/// representable there.
pub open spec fn stands(cell: Cell, low: int, high: int) -> bool {
    &&& i16::MIN <= low + cell.sprite_source_size.y
    &&& high + cell.sprite_source_size.y + Y_OFFSET <= i16::MAX
}

/// Whether the sheet has a sprite that can show the character between the
/// heights `low` and `high` for each of the first `count` sprites of the
/// animation with the given label.
pub open spec fn covers(
    sheet: Map<Seq<char>, Cell>,
    label: Seq<char>,
    count: nat,
    low: int,
    high: int,
) -> bool {
    forall|index: nat|
        1 <= index <= count ==> {
            &&& sheet.contains_key(#[trigger] spec_sprite_name(label, index))
            &&& usable(sheet[spec_sprite_name(label, index)])
            &&& stands(sheet[spec_sprite_name(label, index)], low, high)
        }
}

/// Whether the sheet has a sprite that can show the character between the
/// heights `low` and `high` for every frame of every state's animation.
pub open spec fn complete_between(sheet: Map<Seq<char>, Cell>, low: int, high: int) -> bool {
    &&& covers(sheet, IDLE_FRAME_NAME@, sprite_index(IDLE_FRAMES), low, high)
    &&& covers(sheet, RUN_FRAME_NAME@, sprite_index(RUNNING_FRAMES), low, high)
    &&& covers(sheet, SLIDING_FRAME_NAME@, sprite_index(SLIDING_FRAMES), low, high)
    &&& covers(sheet, JUMPING_FRAME_NAME@, sprite_index(JUMPING_FRAMES), low, high)
    &&& covers(sheet, FALLING_FRAME_NAME@, sprite_index(FALLING_FRAMES), low, high)
}

/// Whether the sheet has a sprite that can show the character, wherever in
/// the field it is, for every frame of every state's animation.
pub open spec fn complete(sheet: Map<Seq<char>, Cell>) -> bool {
    complete_between(sheet, FIELD_TOP as int, FLOOR as int)
}

/// The highest point that a character set on a surface at height `surface`
/// may come to, if that is above the field: a jump above where it stands,
/// with room for another.
pub open spec fn top_for(surface: int) -> int {
    if surface - PLAYER_HEIGHT - JUMP_RISE - JUMP_RISE < FIELD_TOP {
        surface - PLAYER_HEIGHT - JUMP_RISE - JUMP_RISE
    } else {
        FIELD_TOP as int
    }
}

/// The lowest point that a character set on a surface at height `surface`
/// may come to, if that is below the floor: where it stands.
pub open spec fn bottom_for(surface: int) -> int {
    if surface - PLAYER_HEIGHT > FLOOR {
        surface - PLAYER_HEIGHT
    } else {
        FLOOR as int
    }
}

/// Whether a character shown by the sheet can be set on a surface at height
/// `surface`: the surface is one that the character's states take, and the
/// sprites can show the character wherever it may come to from there.
pub open spec fn can_stand_on(sheet: Map<Seq<char>, Cell>, surface: i16) -> bool {
    &&& HIGHEST_SURFACE <= surface
    &&& complete_between(sheet, top_for(surface as int), bottom_for(surface as int))
}

/// The highest point that the character may come to from where it is, if
/// that is above the field: the top of its way up, and, while it can jump,
/// a jump above that.
pub open spec fn top_of(character: Character) -> int {
    let reach = character.context.apex() - if character.tag.grounded() {
        JUMP_RISE as int
    } else {
        0
    };
    if reach < FIELD_TOP {
        reach
    } else {
        FIELD_TOP as int
    }
}

/// The lowest point that the character may be at, if that is below the
/// floor: where it is.
pub open spec fn bottom_of(character: Character) -> int {
    if character.context.position.y > FLOOR {
        character.context.position.y as int
    } else {
        FLOOR as int
    }
}

/// Sprites that can show the character over two ranges of heights can show
/// it over every range that lies within the two taken together.
proof fn covers_within(
    sheet: Map<Seq<char>, Cell>,
    label: Seq<char>,
    count: nat,
    low: int,
    high: int,
    first: (int, int),
    second: (int, int),
)
    requires
        covers(sheet, label, count, first.0, first.1),
        covers(sheet, label, count, second.0, second.1),
        first.0 <= low || second.0 <= low,
        high <= first.1 || high <= second.1,
    ensures
        covers(sheet, label, count, low, high),
{
    assert forall|index: nat| 1 <= index <= count implies {
        &&& sheet.contains_key(#[trigger] spec_sprite_name(label, index))
        &&& usable(sheet[spec_sprite_name(label, index)])
        &&& stands(sheet[spec_sprite_name(label, index)], low, high)
    } by {
        let cell = sheet[spec_sprite_name(label, index)];
        assert(stands(cell, first.0, first.1));
        assert(stands(cell, second.0, second.1));
    }
}

/// A sheet that is complete over two ranges of heights is complete over
/// every range that lies within the two taken together.
pub proof fn complete_within(
    sheet: Map<Seq<char>, Cell>,
    low: int,
    high: int,
    first: (int, int),
    second: (int, int),
)
    requires
        complete_between(sheet, first.0, first.1),
        complete_between(sheet, second.0, second.1),
        first.0 <= low || second.0 <= low,
        high <= first.1 || high <= second.1,
    ensures
        complete_between(sheet, low, high),
{
    covers_within(sheet, IDLE_FRAME_NAME@, sprite_index(IDLE_FRAMES), low, high, first, second);
    covers_within(sheet, RUN_FRAME_NAME@, sprite_index(RUNNING_FRAMES), low, high, first, second);
    covers_within(
        sheet,
        SLIDING_FRAME_NAME@,
        sprite_index(SLIDING_FRAMES),
        low,
        high,
        first,
        second,
    );
    covers_within(
        sheet,
        JUMPING_FRAME_NAME@,
        sprite_index(JUMPING_FRAMES),
        low,
        high,
        first,
        second,
    );
    covers_within(
        sheet,
        FALLING_FRAME_NAME@,
        sprite_index(FALLING_FRAMES),
        low,
        high,
        first,
        second,
    );
}

/// Whatever happens to a well-formed character whose sprites can show it
/// wherever it may come to, the sprites can show it wherever it may come to
/// afterwards; a surface that it comes down on must be one that it can
/// stand on.
pub proof fn sprites_stay_usable(character: Character, sheet: Map<Seq<char>, Cell>, event: Event)
    requires
        character.wf(),
        complete_between(sheet, top_of(character), bottom_of(character)),
        event matches Event::Land(surface) ==> can_stand_on(sheet, surface),
    ensures
        character.accepts(event),
        character.transition(event).wf(),
        complete_between(
            sheet,
            top_of(character.transition(event)),
            bottom_of(character.transition(event)),
        ),
{
    let next = character.transition(event);
    transition_keeps_well_formed(character, event);
    tick_stays_in_world(character.context, character.tag.frames());
    rise_is_bounded(character.context.velocity.y as int);
    rise_is_bounded(next.context.velocity.y as int);
    rise_is_bounded(JUMP_SPEED as int);
    rise_is_bounded(0);
    let here = (top_of(character), bottom_of(character));
    match event {
        Event::Land(surface) => {
            let there = (top_for(surface as int), bottom_for(surface as int));
            complete_within(sheet, top_of(next), bottom_of(next), here, there);
        },
        _ => {
            complete_within(sheet, top_of(next), bottom_of(next), here, here);
        },
    }
}

/// The name of the sprite that shows the character: each sprite of the
/// animation of its state is shown for `TICKS_PER_SPRITE` ticks.
pub open spec fn frame_name_of(character: Character) -> Seq<char> {
    spec_sprite_name(frame_label(character.tag), sprite_index(character.context.frame))
}

/// The sprite that shows the character.
pub open spec fn sprite_of(character: Character, sheet: Map<Seq<char>, Cell>) -> Cell {
    sheet[frame_name_of(character)]
}

/// Where the sprite is drawn: at the character's position, offset as the
/// sprite says, in the size of the sprite.
pub open spec fn destination_box_of(character: Character, sheet: Map<Seq<char>, Cell>) -> Rect {
    let sprite = sprite_of(character, sheet);
    let position = character.context.position;
    Rect {
        position: Point {
            x: (position.x + sprite.sprite_source_size.x) as i16,
            y: (position.y + sprite.sprite_source_size.y) as i16,
        },
        width: sprite.frame.w,
        height: sprite.frame.h,
    }
}

/// The box that collisions are decided by: the sprite's box without the
/// margins around the figure.
pub open spec fn bounding_box_of(character: Character, sheet: Map<Seq<char>, Cell>) -> Rect {
    let destination = destination_box_of(character, sheet);
    Rect {
        position: Point {
            x: (destination.position.x + X_OFFSET) as i16,
            y: (destination.position.y + Y_OFFSET) as i16,
        },
        width: (destination.width - WIDTH_OFFSET) as i16,
        height: (destination.height - Y_OFFSET) as i16,
    }
}

/// The character after it has met the obstacle: what the obstacle does to a
/// character with this box, vertical speed and vertical position has
/// happened to it.
pub open spec fn met(
    character: Character,
    sheet: Map<Seq<char>, Cell>,
    obstacle: ObstacleModel,
) -> Character {
    match obstacle.encounter(
        bounding_box_of(character, sheet),
        character.context.velocity.y,
        character.context.position.y,
    ) {
        Some(event) => character.transition(event),
        None => character,
    }
}

/// The text of one decimal digit.
fn digit(value: u8) -> (text: &'static str)
    requires
        value < 10,
    ensures
        text@ == seq![digit_char(value as nat)],
{
    proof {
        reveal_strlit("0");
        reveal_strlit("1");
        reveal_strlit("2");
        reveal_strlit("3");
        reveal_strlit("4");
        reveal_strlit("5");
        reveal_strlit("6");
        reveal_strlit("7");
        reveal_strlit("8");
        reveal_strlit("9");
    }
    let text = if value == 0 {
        "0"
    } else if value == 1 {
        "1"
    } else if value == 2 {
        "2"
    } else if value == 3 {
        "3"
    } else if value == 4 {
        "4"
    } else if value == 5 {
        "5"
    } else if value == 6 {
        "6"
    } else if value == 7 {
        "7"
    } else if value == 8 {
        "8"
    } else {
        "9"
    };
    assert(text@ =~= seq![digit_char(value as nat)]);
    text
}

/// The name of the sprite with the given number in the animation with the
/// given label, such as `Run (3).png`.
pub fn sprite_name(label: &str, index: u8) -> (name: String)
    ensures
        name@ == spec_sprite_name(label@, index as nat),
{
    let mut name = String::from_str(label);
    name.append(" (");
    if index >= 100 {
        name.append(digit(index / 100));
    }
    if index >= 10 {
        name.append(digit((index / 10) % 10));
    }
    name.append(digit(index % 10));
    name.append(").png");
    proof {
        let n = index as nat;
        if n >= 100 {
            assert(decimal(n / 100) =~= seq![digit_char(n / 100)]);
            assert(decimal(n / 10) =~= decimal(n / 100).push(digit_char((n / 10) % 10)));
        } else if n >= 10 {
            assert(decimal(n / 10) =~= seq![digit_char(n / 10)]);
        }
        assert(name@ =~= spec_sprite_name(label@, n));
    }
    name
}

/// Whether the cell can show the character between the heights `low` and
/// `high`.
fn is_usable(cell: &Cell, low: i32, high: i32) -> (ok: bool)
    requires
        -100000 <= low <= 100000,
        -100000 <= high <= 100000,
    ensures
        ok == (usable(*cell) && stands(*cell, low as int, high as int)),
{
    let left: i32 = STARTING_POINT as i32 + cell.sprite_source_size.x as i32;
    let top: i32 = low + cell.sprite_source_size.y as i32;
    let bottom: i32 = high + cell.sprite_source_size.y as i32;
    let width: i32 = cell.frame.w as i32 - WIDTH_OFFSET as i32;
    let height: i32 = cell.frame.h as i32 - Y_OFFSET as i32;
    i16::MIN as i32 <= left && left + X_OFFSET as i32 <= i16::MAX as i32 && i16::MIN as i32 <= top
        && bottom + Y_OFFSET as i32 <= i16::MAX as i32 && i16::MIN as i32 <= width
        && i16::MIN as i32 <= height
}

/// Whether the sheet has a sprite that can show the character between the
/// heights `low` and `high` for each of the first `count` sprites of the
/// animation with the given label.
fn covers_animation(sheet: &Sheet, label: &str, count: u8, low: i32, high: i32) -> (ok: bool)
    requires
        count < u8::MAX,
        -100000 <= low <= 100000,
        -100000 <= high <= 100000,
    ensures
        ok == covers(sheet@, label@, count as nat, low as int, high as int),
{
    let mut index: u8 = 1;
    while index <= count
        invariant
            1 <= index <= count + 1,
            count < u8::MAX,
            -100000 <= low <= 100000,
            -100000 <= high <= 100000,
            forall|i: nat|
                1 <= i < index ==> {
                    &&& sheet@.contains_key(#[trigger] spec_sprite_name(label@, i))
                    &&& usable(sheet@[spec_sprite_name(label@, i)])
                    &&& stands(sheet@[spec_sprite_name(label@, i)], low as int, high as int)
                },
        decreases count + 1 - index,
    {
        let name = sprite_name(label, index);
        match sheet.frames.get(name.as_str()) {
            Some(cell) => {
                if !is_usable(cell, low, high) {
                    return false;
                }
            },
            None => {
                return false;
            },
        }
        index += 1;
    }
    true
}

/// Whether the sheet has a sprite that can show the character between the
/// heights `low` and `high` for every frame of every state's animation.
pub fn is_complete_between(sheet: &Sheet, low: i32, high: i32) -> (ok: bool)
    requires
        -100000 <= low <= 100000,
        -100000 <= high <= 100000,
    ensures
        ok == complete_between(sheet@, low as int, high as int),
{
    covers_animation(sheet, IDLE_FRAME_NAME, IDLE_FRAMES / TICKS_PER_SPRITE + 1, low, high)
        && covers_animation(sheet, RUN_FRAME_NAME, RUNNING_FRAMES / TICKS_PER_SPRITE + 1, low, high)
        && covers_animation(
        sheet,
        SLIDING_FRAME_NAME,
        SLIDING_FRAMES / TICKS_PER_SPRITE + 1,
        low,
        high,
    ) && covers_animation(
        sheet,
        JUMPING_FRAME_NAME,
        JUMPING_FRAMES / TICKS_PER_SPRITE + 1,
        low,
        high,
    ) && covers_animation(
        sheet,
        FALLING_FRAME_NAME,
        FALLING_FRAMES / TICKS_PER_SPRITE + 1,
        low,
        high,
    )
}

/// Whether the sheet has a sprite that can show the character, wherever in
/// the field it is, for every frame of every state's animation. A
/// character can be made of such a sheet and of no other.
pub fn is_complete(sheet: &Sheet) -> (ok: bool)
    ensures
        ok == complete(sheet@),
{
    is_complete_between(sheet, FIELD_TOP as i32, FLOOR as i32)
}

/// Whether a character shown by the sheet can be set on a surface at height
/// `surface`.
pub fn stands_on(sheet: &Sheet, surface: i16) -> (ok: bool)
    ensures
        ok == can_stand_on(sheet@, surface),
{
    let reach: i32 = surface as i32 - PLAYER_HEIGHT as i32 - JUMP_RISE as i32 - JUMP_RISE as i32;
    let low: i32 = if reach < FIELD_TOP as i32 {
        reach
    } else {
        FIELD_TOP as i32
    };
    let place: i32 = surface as i32 - PLAYER_HEIGHT as i32;
    let high: i32 = if place > FLOOR as i32 {
        place
    } else {
        FLOOR as i32
    };
    HIGHEST_SURFACE <= surface && is_complete_between(sheet, low, high)
}

/// The character on screen.
pub struct RedHatBoy {
    state_machine: RedHatBoyStateMachine,
    sprite_sheet: Sheet,
    image: ImageElement,
}

impl RedHatBoy {
    /// The state and the physics of the character.
    pub closed spec fn character(&self) -> Character {
        self.state_machine@
    }

    /// The sprites of the character, by name.
    pub closed spec fn sheet(&self) -> Map<Seq<char>, Cell> {
        self.sprite_sheet@
    }

    /// The image that the sprites are cut from.
    pub closed spec fn spec_image(&self) -> ImageElement {
        self.image
    }

    /// The character is well formed and has a sprite that can show it,
    /// whatever it does, wherever it may come to from where it is. This
    /// holds of every character on screen.
    #[verifier::type_invariant]
    pub open spec fn wf(&self) -> bool {
        &&& self.character().wf()
        &&& complete_between(
            self.sheet(),
            top_of(self.character()),
            bottom_of(self.character()),
        )
    }

    /// Whether the character can be set on a surface at height `surface`.
    pub open spec fn spec_can_land_on(&self, surface: i16) -> bool {
        can_stand_on(self.sheet(), surface)
    }

    /// The same sprites as `other`, whatever the character does.
    pub open spec fn same_sprites(&self, other: &RedHatBoy) -> bool {
        &&& self.sheet() == other.sheet()
        &&& self.spec_image() == other.spec_image()
    }

    /// The name of the sprite that shows the character now.
    pub open spec fn spec_frame_name(&self) -> Seq<char> {
        frame_name_of(self.character())
    }

    /// The sprite that shows the character now.
    pub open spec fn spec_sprite(&self) -> Cell {
        sprite_of(self.character(), self.sheet())
    }

    /// Where the sprite is drawn.
    pub open spec fn spec_destination_box(&self) -> Rect {
        destination_box_of(self.character(), self.sheet())
    }

    /// The box that collisions are decided by.
    pub open spec fn spec_bounding_box(&self) -> Rect {
        bounding_box_of(self.character(), self.sheet())
    }

    /// The character after it has met the obstacle.
    pub open spec fn met(&self, obstacle: ObstacleModel) -> Character {
        met(self.character(), self.sheet(), obstacle)
    }

    /// A well-formed character has a usable sprite, and its boxes lie where
    /// the sums that define them say.
    pub proof fn sprite_is_usable(&self)
        requires
            self.wf(),
        ensures
            self.sheet().contains_key(self.spec_frame_name()),
            usable(self.spec_sprite()),
            self.spec_bounding_box().position.x == self.character().context.position.x
                + self.spec_sprite().sprite_source_size.x + X_OFFSET,
            self.spec_bounding_box().position.y == self.character().context.position.y
                + self.spec_sprite().sprite_source_size.y + Y_OFFSET,
            stands(
                self.spec_sprite(),
                self.character().context.position.y as int,
                self.character().context.position.y as int,
            ),
            self.character().context.position.x == STARTING_POINT,
    {
        let c = self.character();
        let index = sprite_index(c.context.frame);
        assert(1 <= index <= sprite_index(c.tag.frames()));
        rise_is_bounded(c.context.velocity.y as int);
        assert(stands(self.spec_sprite(), top_of(c), bottom_of(c)));
    }

    /// A character at the start of a run, shown by the given sprites.
    pub fn new(sheet: Sheet, image: ImageElement) -> (boy: RedHatBoy)
        requires
            complete(sheet@),
        ensures
            boy.character() == Character::start(),
            boy.sheet() == sheet@,
            boy.spec_image() == image,
            boy.wf(),
    {
        proof {
            rise_is_bounded(0);
        }
        RedHatBoy {
            state_machine: RedHatBoyStateMachine::Idle(RedHatBoyState::<Idle>::new()),
            sprite_sheet: sheet,
            image,
        }
    }

    /// The state machine of the character.
    pub fn state_machine(&self) -> (state_machine: &RedHatBoyStateMachine)
        ensures
            state_machine@ == self.character(),
    {
        &self.state_machine
    }

    /// One tick passes.
    pub fn update(&mut self)
        ensures
            final(self).character() == old(self).character().tick(),
            final(self).same_sprites(old(self)),
            final(self).wf(),
    {
        proof {
            use_type_invariant(&*self);
            sprites_stay_usable(self.state_machine@, self.sprite_sheet@, Event::Update);
            well_formed_admits(self.state_machine@, Event::Update);
        }
        self.state_machine = self.state_machine.update();
    }

    pub fn run_right(&mut self)
        ensures
            final(self).character() == old(self).character().transition(Event::Run),
            final(self).same_sprites(old(self)),
            final(self).wf(),
    {
        proof {
            use_type_invariant(&*self);
            sprites_stay_usable(self.state_machine@, self.sprite_sheet@, Event::Run);
            well_formed_admits(self.state_machine@, Event::Run);
        }
        self.state_machine = self.state_machine.transition(Event::Run);
    }

    pub fn slide(&mut self)
        ensures
            final(self).character() == old(self).character().transition(Event::Slide),
            final(self).same_sprites(old(self)),
            final(self).wf(),
    {
        proof {
            use_type_invariant(&*self);
            sprites_stay_usable(self.state_machine@, self.sprite_sheet@, Event::Slide);
            well_formed_admits(self.state_machine@, Event::Slide);
        }
        self.state_machine = self.state_machine.transition(Event::Slide);
    }

    /// Asks the character to jump. The answer says whether it took off,
    /// which is when the jump sound is due.
    pub fn jump(&mut self) -> (took_off: bool)
        ensures
            final(self).character() == old(self).character().transition(Event::Jump),
            took_off == old(self).character().takes_off(Event::Jump),
            final(self).same_sprites(old(self)),
            final(self).wf(),
    {
        let took_off = matches!(self.state_machine, RedHatBoyStateMachine::Running(_));
        proof {
            use_type_invariant(&*self);
            sprites_stay_usable(self.state_machine@, self.sprite_sheet@, Event::Jump);
            well_formed_admits(self.state_machine@, Event::Jump);
        }
        self.state_machine = self.state_machine.transition(Event::Jump);
        took_off
    }

    pub fn knock_out(&mut self)
        ensures
            final(self).character() == old(self).character().transition(Event::KnockOut),
            final(self).same_sprites(old(self)),
            final(self).wf(),
    {
        proof {
            use_type_invariant(&*self);
            sprites_stay_usable(self.state_machine@, self.sprite_sheet@, Event::KnockOut);
            well_formed_admits(self.state_machine@, Event::KnockOut);
        }
        self.state_machine = self.state_machine.transition(Event::KnockOut);
    }

    /// Whether the character can be set on a surface at height `surface`.
    pub fn can_land_on(&self, surface: i16) -> (ok: bool)
        ensures
            ok == self.spec_can_land_on(surface),
    {
        stands_on(&self.sprite_sheet, surface)
    }

    /// Sets the character on a surface at height `position_y`.
    pub fn land_on(&mut self, position_y: i16)
        requires
            old(self).spec_can_land_on(position_y),
        ensures
            final(self).character() == old(self).character().transition(
                Event::Land(position_y),
            ),
            final(self).same_sprites(old(self)),
            final(self).wf(),
    {
        proof {
            use_type_invariant(&*self);
            sprites_stay_usable(self.state_machine@, self.sprite_sheet@, Event::Land(position_y));
            well_formed_admits(self.state_machine@, Event::Land(position_y));
        }
        self.state_machine = self.state_machine.transition(Event::Land(position_y));
    }

    pub fn pos_y(&self) -> (y: i16)
        ensures
            y == self.character().context.position.y,
    {
        self.state_machine.context().position.y
    }

    pub fn velocity_y(&self) -> (y: i16)
        ensures
            y == self.character().context.velocity.y,
    {
        self.state_machine.context().velocity.y
    }

    pub fn walking_speed(&self) -> (x: i16)
        ensures
            x == self.character().context.velocity.x,
    {
        self.state_machine.context().velocity.x
    }

    /// The name of the sprite that shows the character now: each sprite of
    /// the current state's animation is shown for three ticks.
    pub fn frame_name(&self) -> (name: String)
        ensures
            name@ == self.spec_frame_name(),
    {
        sprite_name(
            self.state_machine.frame_name(),
            (self.state_machine.context().frame / TICKS_PER_SPRITE) + 1,
        )
    }

    /// The sprite that shows the character now, if the sheet has it.
    pub fn current_sprite(&self) -> (sprite: Option<&Cell>)
        ensures
            match sprite {
                Some(cell) => self.sheet().contains_key(self.spec_frame_name()) && *cell
                    == self.spec_sprite(),
                None => !self.sheet().contains_key(self.spec_frame_name()),
            },
    {
        let name = self.frame_name();
        self.sprite_sheet.frames.get(name.as_str())
    }

    /// Where the sprite is drawn.
    pub fn destination_box(&self) -> (destination: Rect)
        ensures
            destination == self.spec_destination_box(),
    {
        proof {
            use_type_invariant(self);
            self.sprite_is_usable();
        }
        let sprite = self.current_sprite().unwrap();
        let pos = &self.state_machine.context().position;
        Rect::new_from_x_y(
            pos.x + sprite.sprite_source_size.x,
            pos.y + sprite.sprite_source_size.y,
            sprite.frame.w,
            sprite.frame.h,
        )
    }

    /// The box that collisions are decided by.
    pub fn bounding_box(&self) -> (bounding_box: Rect)
        ensures
            bounding_box == self.spec_bounding_box(),
    {
        proof {
            use_type_invariant(self);
            self.sprite_is_usable();
        }
        let mut bounding_box = self.destination_box();
        bounding_box.position.x += X_OFFSET;
        bounding_box.width -= WIDTH_OFFSET;
        bounding_box.position.y += Y_OFFSET;
        bounding_box.height -= Y_OFFSET;
        bounding_box
    }

    /// Draws the current sprite where the character is.
    pub fn draw(&self, renderer: &mut Renderer)
        ensures
            final(renderer)@ == old(renderer)@.push(
                DrawCommand::DrawImage {
                    image: self.spec_image(),
                    frame: self.spec_sprite().frame.to_rect(),
                    destination: self.spec_destination_box(),
                },
            ),
    {
        proof {
            use_type_invariant(self);
            self.sprite_is_usable();
        }
        let sprite = self.current_sprite().unwrap();
        let frame: Rect = sprite.frame.into();
        renderer.draw_image(&self.image, &frame, &self.destination_box());
    }

    pub fn knocked_out(&self) -> (out: bool)
        ensures
            out == (self.character().tag is KnockedOut),
    {
        self.state_machine.knocked_out()
    }

    /// The character back at the start of a run, with the sprites it had.
    pub fn reset(boy: Self) -> (fresh: RedHatBoy)
        ensures
            fresh.character() == Character::start(),
            fresh.same_sprites(&boy),
            fresh.wf(),
    {
        proof {
            use_type_invariant(&boy);
            let here = (top_of(boy.character()), bottom_of(boy.character()));
            complete_within(boy.sheet(), FIELD_TOP as int, FLOOR as int, here, here);
        }
        RedHatBoy::new(boy.sprite_sheet, boy.image)
    }
}

} // verus!
