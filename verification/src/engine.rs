//! Engine-level building blocks: geometry, sprite sheets, positioned images,
//! the display list, the keyboard snapshot and the fixed-timestep clock.
//!
//! Nothing in this module knows about the game that is built on top of it.

use futures::channel::mpsc::UnboundedReceiver;
use vstd::hash_map::StringHashMap;
use vstd::prelude::*;
use vstd::std_specs::convert::FromSpecImpl;

verus! {

/// A 2D coordinate or velocity vector.
#[derive(Debug, Clone, Copy, PartialEq, Eq, Structural)]
pub struct Point {
    pub x: i16,
    pub y: i16,
}

impl Default for Point {
    /// The origin.
    fn default() -> (point: Point)
        ensures
            point == (Point { x: 0, y: 0 }),
    {
        Point { x: 0, y: 0 }
    }
}

/// An axis-aligned rectangle, anchored at its top-left corner.
///
/// The edges are `x`, `x + width`, `y` and `y + height`; a rectangle is
/// thought of as the open region between them.
#[derive(Debug, Clone, Copy, PartialEq, Eq, Structural)]
pub struct Rect {
    pub position: Point,
    pub width: i16,
    pub height: i16,
}

impl Default for Rect {
    /// The empty rectangle at the origin.
    fn default() -> (rect: Rect)
        ensures
            rect == (Rect { position: Point { x: 0, y: 0 }, width: 0, height: 0 }),
    {
        Rect { position: Point { x: 0, y: 0 }, width: 0, height: 0 }
    }
}

impl Rect {
    /// The x-coordinate of the right edge, as a mathematical integer.
    pub open spec fn spec_right(&self) -> int {
        self.position.x + self.width
    }

    /// The y-coordinate of the bottom edge, as a mathematical integer.
    pub open spec fn spec_bottom(&self) -> int {
        self.position.y + self.height
    }

    /// Open-interval overlap: each rectangle's left edge lies strictly left
    /// of the other's right edge, and each one's top edge strictly above the
    /// other's bottom edge.
    pub open spec fn spec_intersects(&self, rect: Rect) -> bool {
        &&& self.position.x < rect.spec_right()
        &&& self.spec_right() > rect.position.x
        &&& self.position.y < rect.spec_bottom()
        &&& self.spec_bottom() > rect.position.y
    }

    /// The same rectangle moved `dx` to the right, when the result is
    /// representable.
    pub open spec fn shifted(&self, dx: int) -> Rect
        recommends
            i16::MIN <= self.position.x + dx <= i16::MAX,
    {
        Rect {
            position: Point { x: (self.position.x + dx) as i16, y: self.position.y },
            width: self.width,
            height: self.height,
        }
    }

    pub fn new(position: Point, width: i16, height: i16) -> (rect: Rect)
        ensures
            rect == (Rect { position, width, height }),
    {
        Rect { position, width, height }
    }

    pub fn new_from_x_y(x: i16, y: i16, width: i16, height: i16) -> (rect: Rect)
        ensures
            rect == (Rect { position: Point { x, y }, width, height }),
    {
        Rect { position: Point { x, y }, width, height }
    }

    pub fn x(&self) -> (x: i16)
        ensures
            x == self.position.x,
    {
        self.position.x
    }

    pub fn y(&self) -> (y: i16)
        ensures
            y == self.position.y,
    {
        self.position.y
    }

    pub fn set_x(&mut self, x: i16)
        ensures
            *final(self) == (Rect {
                position: Point { x, y: old(self).position.y },
                width: old(self).width,
                height: old(self).height,
            }),
    {
        self.position.x = x;
    }

    /// Whether the two rectangles overlap. Rectangles that merely share an
    /// edge do not. The edges are compared as mathematical integers, so the
    /// answer is right for every pair of rectangles, including those whose
    /// far edges lie beyond the `i16` range.
    pub fn intersects(&self, rect: &Rect) -> (hit: bool)
        ensures
            hit == self.spec_intersects(*rect),
    {
        let left: i32 = self.position.x as i32;
        let right: i32 = left + self.width as i32;
        let top: i32 = self.position.y as i32;
        let bottom: i32 = top + self.height as i32;
        let other_left: i32 = rect.position.x as i32;
        let other_right: i32 = other_left + rect.width as i32;
        let other_top: i32 = rect.position.y as i32;
        let other_bottom: i32 = other_top + rect.height as i32;
        left < other_right && right > other_left && top < other_bottom && bottom > other_top
    }

    /// The x-coordinate of the right edge.
    pub fn right(&self) -> (right: i16)
        requires
            i16::MIN <= self.spec_right() <= i16::MAX,
        ensures
            right == self.spec_right(),
    {
        self.position.x + self.width
    }

    /// The y-coordinate of the bottom edge.
    pub fn bottom(&self) -> (bottom: i16)
        requires
            i16::MIN <= self.spec_bottom() <= i16::MAX,
        ensures
            bottom == self.spec_bottom(),
    {
        self.position.y + self.height
    }
}

/// Intersection is symmetric.
pub proof fn intersection_is_symmetric(a: Rect, b: Rect)
    ensures
        a.spec_intersects(b) == b.spec_intersects(a),
{
}

/// A rectangle with positive width and height intersects itself.
pub proof fn rect_intersects_itself(a: Rect)
    requires
        a.width > 0,
        a.height > 0,
    ensures
        a.spec_intersects(a),
{
}

/// Rectangles that lie side by side or one above the other do not intersect,
/// even when their edges touch.
pub proof fn touching_rects_do_not_intersect(a: Rect, b: Rect)
    requires
        a.spec_right() <= b.position.x || a.spec_bottom() <= b.position.y,
    ensures
        !a.spec_intersects(b),
        !b.spec_intersects(a),
{
}

/// A rectangle as a sprite sheet stores it.
#[derive(Debug, Clone, Copy, PartialEq, Eq, Structural)]
pub struct SheetRect {
    pub x: i16,
    pub y: i16,
    pub w: i16,
    pub h: i16,
}

impl SheetRect {
    /// The rectangle with the same corner and the same size.
    pub open spec fn to_rect(self) -> Rect {
        Rect { position: Point { x: self.x, y: self.y }, width: self.w, height: self.h }
    }
}

impl From<SheetRect> for Rect {
    fn from(value: SheetRect) -> (rect: Rect) {
        Rect { position: Point { x: value.x, y: value.y }, width: value.w, height: value.h }
    }
}

impl FromSpecImpl<SheetRect> for Rect {
    open spec fn obeys_from_spec() -> bool {
        true
    }

    open spec fn from_spec(value: SheetRect) -> Rect {
        value.to_rect()
    }
}

/// One sprite of a sheet: where it sits in the sheet's image (`frame`) and
/// how it is offset and sized when drawn (`sprite_source_size`).
#[derive(Debug, Clone, Copy, PartialEq, Eq, Structural)]
pub struct Cell {
    pub frame: SheetRect,
    pub sprite_source_size: SheetRect,
}

/// A sprite sheet as it is read from its description: the cells by name.
pub struct Sheet {
    pub frames: StringHashMap<Cell>,
}

impl View for Sheet {
    type V = Map<Seq<char>, Cell>;

    open spec fn view(&self) -> Map<Seq<char>, Cell> {
        self.frames@
    }
}

impl Sheet {
    /// A sheet without cells.
    pub fn new() -> (sheet: Sheet)
        ensures
            sheet@ == Map::<Seq<char>, Cell>::empty(),
    {
        Sheet { frames: StringHashMap::new() }
    }

    /// Adds a cell under `name`, in place of any cell of that name.
    pub fn insert(&mut self, name: String, cell: Cell)
        ensures
            final(self)@ == old(self)@.insert(name@, cell),
    {
        self.frames.insert(name, cell);
    }
}

/// What the host has loaded an image into: a number by which the host finds
/// the image again, and the size of the image in pixels.
#[derive(Debug, Clone, Copy, PartialEq, Eq, Structural)]
pub struct ImageElement {
    pub id: u32,
    pub width: u32,
    pub height: u32,
}

impl ImageElement {
    /// Whether both sides of the image are representable as coordinates.
    pub open spec fn fits(&self) -> bool {
        self.width <= i16::MAX && self.height <= i16::MAX
    }

    pub fn width(&self) -> (width: u32)
        ensures
            width == self.width,
    {
        self.width
    }

    pub fn height(&self) -> (height: u32)
        ensures
            height == self.height,
    {
        self.height
    }
}

/// One instruction to the host's canvas.
#[derive(Debug, Clone, Copy, PartialEq, Eq, Structural)]
pub enum DrawCommand {
    /// Erase the pixels inside the rectangle.
    Clear(Rect),
    /// Copy the part `frame` of the image to the part `destination` of the
    /// canvas.
    DrawImage { image: ImageElement, frame: Rect, destination: Rect },
    /// Copy the whole image to the canvas with its top-left corner at
    /// `position`.
    DrawEntireImage { image: ImageElement, position: Point },
}

/// The display list of one frame: the instructions for the canvas, in the
/// order in which they were given. The host carries them out.
pub struct Renderer {
    commands: Vec<DrawCommand>,
}

impl View for Renderer {
    type V = Seq<DrawCommand>;

    closed spec fn view(&self) -> Seq<DrawCommand> {
        self.commands@
    }
}

impl Renderer {
    /// An empty display list.
    pub fn new() -> (renderer: Renderer)
        ensures
            renderer@ == Seq::<DrawCommand>::empty(),
    {
        Renderer { commands: Vec::new() }
    }

    pub fn clear(&mut self, rect: &Rect)
        ensures
            final(self)@ == old(self)@.push(DrawCommand::Clear(*rect)),
    {
        self.commands.push(DrawCommand::Clear(*rect));
    }

    pub fn draw_image(&mut self, image: &ImageElement, frame: &Rect, destination: &Rect)
        ensures
            final(self)@ == old(self)@.push(
                DrawCommand::DrawImage { image: *image, frame: *frame, destination: *destination },
            ),
    {
        self.commands.push(
            DrawCommand::DrawImage { image: *image, frame: *frame, destination: *destination },
        );
    }

    pub fn draw_entire_image(&mut self, image: &ImageElement, position: &Point)
        ensures
            final(self)@ == old(self)@.push(
                DrawCommand::DrawEntireImage { image: *image, position: *position },
            ),
    {
        self.commands.push(DrawCommand::DrawEntireImage { image: *image, position: *position });
    }

    /// The instructions given so far.
    pub fn commands(&self) -> (commands: &Vec<DrawCommand>)
        ensures
            commands@ == self@,
    {
        &self.commands
    }
}

/// A sprite sheet together with the image that its cells are cut from.
pub struct SpriteSheet {
    sheet: Sheet,
    image: ImageElement,
}

impl View for SpriteSheet {
    type V = Map<Seq<char>, Cell>;

    closed spec fn view(&self) -> Map<Seq<char>, Cell> {
        self.sheet@
    }
}

impl SpriteSheet {
    /// The image that the cells are cut from.
    pub closed spec fn spec_image(&self) -> ImageElement {
        self.image
    }

    pub fn new(sheet: Sheet, image: ImageElement) -> (sprite_sheet: SpriteSheet)
        ensures
            sprite_sheet@ == sheet@,
            sprite_sheet.spec_image() == image,
    {
        SpriteSheet { sheet, image }
    }

    /// The cell of the given name, if the sheet has one.
    pub fn cell(&self, name: &str) -> (cell: Option<&Cell>)
        ensures
            match cell {
                Some(cell) => self@.contains_key(name@) && *cell == self@[name@],
                None => !self@.contains_key(name@),
            },
    {
        self.sheet.frames.get(name)
    }

    /// The image that the cells are cut from.
    pub fn image(&self) -> (image: &ImageElement)
        ensures
            *image == self.spec_image(),
    {
        &self.image
    }

    /// Draws the part `source` of the sheet's image at `destination`.
    pub fn draw(&self, renderer: &mut Renderer, source: &Rect, destination: &Rect)
        ensures
            final(renderer)@ == old(renderer)@.push(
                DrawCommand::DrawImage {
                    image: self.spec_image(),
                    frame: *source,
                    destination: *destination,
                },
            ),
    {
        renderer.draw_image(&self.image, source, destination);
    }
}

/// An image at a place, as a plain value.
pub struct ImageModel {
    pub element: ImageElement,
    pub bounding_box: Rect,
}

/// An image at a place: the image and the box that it covers.
#[derive(Debug, Clone, Copy, PartialEq, Eq, Structural)]
pub struct Image {
    element: ImageElement,
    bounding_box: Rect,
}

impl View for Image {
    type V = ImageModel;

    closed spec fn view(&self) -> ImageModel {
        ImageModel { element: self.element, bounding_box: self.bounding_box }
    }
}

impl Image {
    /// The image with its top-left corner at `position`.
    pub fn new(element: ImageElement, position: Point) -> (image: Image)
        requires
            element.fits(),
        ensures
            image@ == (ImageModel {
                element,
                bounding_box: Rect {
                    position,
                    width: element.width as i16,
                    height: element.height as i16,
                },
            }),
    {
        let bounding_box = Rect::new(position, element.width() as i16, element.height() as i16);
        Image { element, bounding_box }
    }

    pub fn draw(&self, renderer: &mut Renderer)
        ensures
            final(renderer)@ == old(renderer)@.push(
                DrawCommand::DrawEntireImage {
                    image: self@.element,
                    position: self@.bounding_box.position,
                },
            ),
    {
        renderer.draw_entire_image(&self.element, &self.bounding_box.position);
    }

    /// What the host has loaded the image into.
    pub fn element(&self) -> (element: &ImageElement)
        ensures
            *element == self@.element,
    {
        &self.element
    }

    pub fn bounding_box(&self) -> (bounding_box: &Rect)
        ensures
            *bounding_box == self@.bounding_box,
    {
        &self.bounding_box
    }

    /// Moves the image `distance` to the right.
    pub fn move_horizontally(&mut self, distance: i16)
        requires
            i16::MIN <= old(self)@.bounding_box.position.x + distance <= i16::MAX,
        ensures
            final(self)@ == (ImageModel {
                element: old(self)@.element,
                bounding_box: old(self)@.bounding_box.shifted(distance as int),
            }),
    {
        self.set_x(self.bounding_box.x() + distance);
    }

    pub fn set_x(&mut self, x: i16)
        ensures
            final(self)@ == (ImageModel {
                element: old(self)@.element,
                bounding_box: Rect {
                    position: Point { x, y: old(self)@.bounding_box.position.y },
                    width: old(self)@.bounding_box.width,
                    height: old(self)@.bounding_box.height,
                },
            }),
    {
        self.bounding_box.set_x(x);
    }

    /// The x-coordinate of the right edge.
    pub fn right(&self) -> (right: i16)
        requires
            i16::MIN <= self@.bounding_box.spec_right() <= i16::MAX,
        ensures
            right == self@.bounding_box.spec_right(),
    {
        self.bounding_box.right()
    }
}

/// A change of one key, by the code of the key.
pub enum KeyPress {
    KeyUp(String),
    KeyDown(String),
}

impl KeyPress {
    /// The keys that are held once the change has been applied to `keys`.
    pub open spec fn apply(self, keys: Set<Seq<char>>) -> Set<Seq<char>> {
        match self {
            KeyPress::KeyUp(code) => keys.remove(code@),
            KeyPress::KeyDown(code) => keys.insert(code@),
        }
    }
}

/// The keys that are held once all the changes have been applied to `keys`,
/// the first of them first.
pub open spec fn keys_after(keys: Set<Seq<char>>, events: Seq<KeyPress>) -> Set<Seq<char>>
    decreases events.len(),
{
    if events.len() == 0 {
        keys
    } else {
        events.last().apply(keys_after(keys, events.drop_last()))
    }
}

/// Which keys are held down: a snapshot that a tick reads.
pub struct KeyState {
    pressed_keys: StringHashMap<()>,
}

impl View for KeyState {
    type V = Set<Seq<char>>;

    /// The codes of the keys that are held.
    closed spec fn view(&self) -> Set<Seq<char>> {
        self.pressed_keys@.dom()
    }
}

impl KeyState {
    /// No key is held.
    pub fn new() -> (state: KeyState)
        ensures
            state@ == Set::<Seq<char>>::empty(),
    {
        KeyState { pressed_keys: StringHashMap::new() }
    }

    pub fn is_pressed(&self, code: &str) -> (pressed: bool)
        ensures
            pressed == self@.contains(code@),
    {
        self.pressed_keys.contains_key(code)
    }

    pub fn set_pressed(&mut self, code: &str)
        ensures
            final(self)@ == old(self)@.insert(code@),
    {
        self.pressed_keys.insert(code.to_owned(), ());
    }

    pub fn set_released(&mut self, code: &str)
        ensures
            final(self)@ == old(self)@.remove(code@),
    {
        self.pressed_keys.remove(code);
    }
}

/// The receiving end of a channel without a bound, of the crate `futures`.
/// What is in a channel is up to whoever holds the sending end, so the
/// receiver is carried about and asked, and nothing is known of it.
#[verifier::external_type_specification]
#[verifier::external_body]
#[verifier::reject_recursive_types(T)]
pub struct ExUnboundedReceiver<T>(UnboundedReceiver<T>);

/// Takes the next message from the channel if one is there, without
/// waiting for one.
///
/// The body calls `UnboundedReceiver::try_recv`, which gives the message
/// or says that the channel is empty or closed; here either of the latter
/// is `None`. The contract claims nothing of the answer: whether a message
/// is there depends on the senders.
#[verifier::external_body]
pub(crate) fn take_message<T>(receiver: &mut UnboundedReceiver<T>) -> (message: Option<T>) {
    receiver.try_recv().ok()
}

/// Brings the snapshot up to date with the given key changes, the first of
/// them first.
pub fn apply_input(state: &mut KeyState, events: &Vec<KeyPress>)
    ensures
        final(state)@ == keys_after(old(state)@, events@),
{
    let mut i: usize = 0;
    while i < events.len()
        invariant
            i <= events.len(),
            state@ == keys_after(old(state)@, events@.take(i as int)),
        decreases events.len() - i,
    {
        proof {
            assert(events@.take(i + 1).drop_last() == events@.take(i as int));
        }
        match &events[i] {
            KeyPress::KeyUp(code) => state.set_released(code.as_str()),
            KeyPress::KeyDown(code) => state.set_pressed(code.as_str()),
        }
        i += 1;
    }
    proof {
        assert(events@.take(events.len() as int) == events@);
    }
}

/// Brings the snapshot up to date with the key changes that have arrived
/// on the channel since the last frame: they are taken off the channel
/// until it has no more to give, and applied in the order in which they
/// arrived.
pub fn process_input(state: &mut KeyState, keyevent_receiver: &mut UnboundedReceiver<KeyPress>)
    ensures
        exists|events: Seq<KeyPress>| final(state)@ == #[trigger] keys_after(old(state)@, events),
{
    let mut events: Vec<KeyPress> = Vec::new();
    let mut open = true;
    while open && events.len() < usize::MAX
        invariant
            events@.len() <= usize::MAX,
        decreases
                usize::MAX - events@.len() + if open {
                    1int
                } else {
                    0int
                },
    {
        match take_message(keyevent_receiver) {
            Some(event) => {
                events.push(event);
            },
            None => {
                open = false;
            },
        }
    }
    apply_input(state, &events);
}

/// The length of one tick of the simulation, in microseconds: a sixtieth of
/// a second.
pub const FRAME_SIZE: u64 = 16_667;

/// The clock of the simulation. The host reports the time of every display
/// refresh; the clock says how many ticks of fixed length the simulation owes
/// for it, so that the simulation keeps pace with the wall clock whatever the
/// refresh rate. Time is counted in whole microseconds.
#[derive(Debug, Clone, Copy, PartialEq, Eq, Structural)]
pub struct GameLoop {
    last_frame: u64,
    accumulated_delta: u64,
}

impl GameLoop {
    /// The time of the last refresh that was acted on.
    pub closed spec fn last_frame(&self) -> u64 {
        self.last_frame
    }

    /// The time that has passed and has not been simulated yet.
    pub closed spec fn accumulated_delta(&self) -> u64 {
        self.accumulated_delta
    }

    /// At most one tick is owed between refreshes.
    #[verifier::type_invariant]
    spec fn owes_a_tick_at_most(&self) -> bool {
        self.accumulated_delta <= FRAME_SIZE
    }

    /// The unsimulated time at a refresh at time `now`: what had accumulated
    /// and what has passed since the last refresh that was acted on.
    pub open spec fn pending(&self, now: u64) -> int {
        self.accumulated_delta() + if now >= self.last_frame() {
            now - self.last_frame()
        } else {
            0
        }
    }

    /// A clock that starts at time `now` and owes nothing.
    pub fn new(now: u64) -> (game_loop: GameLoop)
        ensures
            game_loop.last_frame() == now,
            game_loop.accumulated_delta() == 0,
    {
        GameLoop { last_frame: now, accumulated_delta: 0 }
    }

    /// Takes note of a refresh at time `now`. While no more than one tick's
    /// worth of time is pending, the refresh is passed over: nothing
    /// changes and the answer is `None`. Otherwise the answer is the number
    /// of ticks to simulate before the frame is drawn, one for every whole
    /// tick's worth of pending time but the last, whose time, between
    /// nothing and a whole tick, stays pending.
    pub fn frame(&mut self, now: u64) -> (ticks: Option<u64>)
        ensures
            final(self).accumulated_delta() <= FRAME_SIZE,
            match ticks {
                None => old(self).pending(now) <= FRAME_SIZE && *final(self) == *old(self),
                Some(ticks) => {
                    &&& old(self).pending(now) > FRAME_SIZE
                    &&& ticks == (old(self).pending(now) - 1) / (FRAME_SIZE as int)
                    &&& final(self).accumulated_delta() == old(self).pending(now) - ticks
                        * FRAME_SIZE
                    &&& 0 < final(self).accumulated_delta()
                    &&& final(self).last_frame() == now
                },
            },
    {
        proof {
            use_type_invariant(&*self);
        }
        let frame_time: u64 = if now >= self.last_frame {
            now - self.last_frame
        } else {
            0
        };
        let pending: u128 = self.accumulated_delta as u128 + frame_time as u128;
        if pending > FRAME_SIZE as u128 {
            let ticks: u128 = (pending - 1) / (FRAME_SIZE as u128);
            self.accumulated_delta = (pending - ticks * (FRAME_SIZE as u128)) as u64;
            self.last_frame = now;
            Some(ticks as u64)
        } else {
            None
        }
    }
}

} // verus!
