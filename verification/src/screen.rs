//! Controller state, control messages and the picture handed from the
//! emulation to the display.
use vstd::prelude::*;
use crate::{HEIGHT, WIDTH};

verus! {

/// The sixteen buttons of the two controllers; `true` is pressed.
#[derive(Debug, Copy, Clone, Eq, PartialEq, Structural)]
pub struct Buttons {
    pub a1: bool,
    pub b1: bool,
    pub up1: bool,
    pub down1: bool,
    pub left1: bool,
    pub right1: bool,
    pub select1: bool,
    pub start1: bool,
    pub a2: bool,
    pub b2: bool,
    pub up2: bool,
    pub down2: bool,
    pub left2: bool,
    pub right2: bool,
    pub select2: bool,
    pub start2: bool,
}

/// The name of one button; the digit is the controller.
#[derive(Debug, Copy, Clone, Eq, PartialEq, Structural)]
pub enum ButtonName {
    A1,
    B1,
    Up1,
    Down1,
    Left1,
    Right1,
    Start1,
    Select1,
    A2,
    B2,
    Up2,
    Down2,
    Left2,
    Right2,
    Start2,
    Select2,
}

impl ButtonName {
    /// The position of the button in the order in which the shift
    /// registers of the controllers are read: A, B, Select, Start, Up,
    /// Down, Left, Right, first controller first.
    pub open spec fn index(self) -> int {
        match self {
            ButtonName::A1 => 0,
            ButtonName::B1 => 1,
            ButtonName::Select1 => 2,
            ButtonName::Start1 => 3,
            ButtonName::Up1 => 4,
            ButtonName::Down1 => 5,
            ButtonName::Left1 => 6,
            ButtonName::Right1 => 7,
            ButtonName::A2 => 8,
            ButtonName::B2 => 9,
            ButtonName::Select2 => 10,
            ButtonName::Start2 => 11,
            ButtonName::Up2 => 12,
            ButtonName::Down2 => 13,
            ButtonName::Left2 => 14,
            ButtonName::Right2 => 15,
        }
    }

    /// Two buttons share no position.
    pub proof fn lemma_index_is_injective(a: ButtonName, b: ButtonName)
        ensures
            0 <= a.index() < 16,
            a.index() == b.index() <==> a == b,
    {
    }

    /// The position of the button in shift-register order.
    pub fn shift_index(self) -> (idx: u8)
        ensures
            idx == self.index(),
    {
        match self {
            ButtonName::A1 => 0,
            ButtonName::B1 => 1,
            ButtonName::Select1 => 2,
            ButtonName::Start1 => 3,
            ButtonName::Up1 => 4,
            ButtonName::Down1 => 5,
            ButtonName::Left1 => 6,
            ButtonName::Right1 => 7,
            ButtonName::A2 => 8,
            ButtonName::B2 => 9,
            ButtonName::Select2 => 10,
            ButtonName::Start2 => 11,
            ButtonName::Up2 => 12,
            ButtonName::Down2 => 13,
            ButtonName::Left2 => 14,
            ButtonName::Right2 => 15,
        }
    }
}

impl Buttons {
    /// The state with every button released.
    pub open spec fn released() -> Buttons {
        Buttons {
            a1: false,
            b1: false,
            up1: false,
            down1: false,
            left1: false,
            right1: false,
            select1: false,
            start1: false,
            a2: false,
            b2: false,
            up2: false,
            down2: false,
            left2: false,
            right2: false,
            select2: false,
            start2: false,
        }
    }

    /// Whether the button at position `idx` of the shift-register order is
    /// pressed. No button stands at a position outside `0..16`.
    pub open spec fn pressed(self, idx: int) -> bool {
        if idx == 0 {
            self.a1
        } else if idx == 1 {
            self.b1
        } else if idx == 2 {
            self.select1
        } else if idx == 3 {
            self.start1
        } else if idx == 4 {
            self.up1
        } else if idx == 5 {
            self.down1
        } else if idx == 6 {
            self.left1
        } else if idx == 7 {
            self.right1
        } else if idx == 8 {
            self.a2
        } else if idx == 9 {
            self.b2
        } else if idx == 10 {
            self.select2
        } else if idx == 11 {
            self.start2
        } else if idx == 12 {
            self.up2
        } else if idx == 13 {
            self.down2
        } else if idx == 14 {
            self.left2
        } else if idx == 15 {
            self.right2
        } else {
            false
        }
    }

    /// Whether the button `name` is pressed.
    pub open spec fn holds(self, name: ButtonName) -> bool {
        match name {
            ButtonName::A1 => self.a1,
            ButtonName::B1 => self.b1,
            ButtonName::Up1 => self.up1,
            ButtonName::Down1 => self.down1,
            ButtonName::Left1 => self.left1,
            ButtonName::Right1 => self.right1,
            ButtonName::Start1 => self.start1,
            ButtonName::Select1 => self.select1,
            ButtonName::A2 => self.a2,
            ButtonName::B2 => self.b2,
            ButtonName::Up2 => self.up2,
            ButtonName::Down2 => self.down2,
            ButtonName::Left2 => self.left2,
            ButtonName::Right2 => self.right2,
            ButtonName::Start2 => self.start2,
            ButtonName::Select2 => self.select2,
        }
    }

    /// This state with the button `name` set to `pressed`.
    pub open spec fn with(self, name: ButtonName, pressed: bool) -> Buttons {
        Buttons {
            a1: if name == ButtonName::A1 { pressed } else { self.a1 },
            b1: if name == ButtonName::B1 { pressed } else { self.b1 },
            up1: if name == ButtonName::Up1 { pressed } else { self.up1 },
            down1: if name == ButtonName::Down1 { pressed } else { self.down1 },
            left1: if name == ButtonName::Left1 { pressed } else { self.left1 },
            right1: if name == ButtonName::Right1 { pressed } else { self.right1 },
            select1: if name == ButtonName::Select1 { pressed } else { self.select1 },
            start1: if name == ButtonName::Start1 { pressed } else { self.start1 },
            a2: if name == ButtonName::A2 { pressed } else { self.a2 },
            b2: if name == ButtonName::B2 { pressed } else { self.b2 },
            up2: if name == ButtonName::Up2 { pressed } else { self.up2 },
            down2: if name == ButtonName::Down2 { pressed } else { self.down2 },
            left2: if name == ButtonName::Left2 { pressed } else { self.left2 },
            right2: if name == ButtonName::Right2 { pressed } else { self.right2 },
            select2: if name == ButtonName::Select2 { pressed } else { self.select2 },
            start2: if name == ButtonName::Start2 { pressed } else { self.start2 },
        }
    }

    /// Whether the button at position `idx` of the shift-register order is
    /// pressed; `false` for a position that holds no button.
    pub fn get_by_index(self, idx: u8) -> (pressed: bool)
        ensures
            pressed == self.pressed(idx as int),
    {
        match idx {
            0 => self.a1,
            1 => self.b1,
            2 => self.select1,
            3 => self.start1,
            4 => self.up1,
            5 => self.down1,
            6 => self.left1,
            7 => self.right1,
            8 => self.a2,
            9 => self.b2,
            10 => self.select2,
            11 => self.start2,
            12 => self.up2,
            13 => self.down2,
            14 => self.left2,
            15 => self.right2,
            _ => false,
        }
    }

    /// Whether the button `name` is pressed.
    pub fn get(self, name: ButtonName) -> (pressed: bool)
        ensures
            pressed == self.holds(name),
    {
        self.get_by_index(name.shift_index())
    }

    /// Sets the button `name` to `pressed` and leaves the others as they
    /// are.
    pub fn set(&mut self, name: ButtonName, pressed: bool)
        ensures
            *final(self) == old(self).with(name, pressed),
    {
        // Each case is settled where it stands: left to the end of the
        // function, the sixteen together exhaust the solver.
        match name {
            ButtonName::A1 => {
                self.a1 = pressed;
                assert(*self == old(self).with(name, pressed));
            },
            ButtonName::B1 => {
                self.b1 = pressed;
                assert(*self == old(self).with(name, pressed));
            },
            ButtonName::Up1 => {
                self.up1 = pressed;
                assert(*self == old(self).with(name, pressed));
            },
            ButtonName::Down1 => {
                self.down1 = pressed;
                assert(*self == old(self).with(name, pressed));
            },
            ButtonName::Left1 => {
                self.left1 = pressed;
                assert(*self == old(self).with(name, pressed));
            },
            ButtonName::Right1 => {
                self.right1 = pressed;
                assert(*self == old(self).with(name, pressed));
            },
            ButtonName::Start1 => {
                self.start1 = pressed;
                assert(*self == old(self).with(name, pressed));
            },
            ButtonName::Select1 => {
                self.select1 = pressed;
                assert(*self == old(self).with(name, pressed));
            },
            ButtonName::A2 => {
                self.a2 = pressed;
                assert(*self == old(self).with(name, pressed));
            },
            ButtonName::B2 => {
                self.b2 = pressed;
                assert(*self == old(self).with(name, pressed));
            },
            ButtonName::Up2 => {
                self.up2 = pressed;
                assert(*self == old(self).with(name, pressed));
            },
            ButtonName::Down2 => {
                self.down2 = pressed;
                assert(*self == old(self).with(name, pressed));
            },
            ButtonName::Left2 => {
                self.left2 = pressed;
                assert(*self == old(self).with(name, pressed));
            },
            ButtonName::Right2 => {
                self.right2 = pressed;
                assert(*self == old(self).with(name, pressed));
            },
            ButtonName::Start2 => {
                self.start2 = pressed;
                assert(*self == old(self).with(name, pressed));
            },
            ButtonName::Select2 => {
                self.select2 = pressed;
                assert(*self == old(self).with(name, pressed));
            },
        }
    }

    /// Setting one button changes that button and no other.
    pub proof fn lemma_with_changes_one(self, name: ButtonName, pressed: bool, other: ButtonName)
        ensures
            self.with(name, pressed).holds(other) == if other == name {
                pressed
            } else {
                self.holds(other)
            },
    {
    }

    /// A button is pressed exactly if its position in the shift-register
    /// order is.
    pub proof fn lemma_holds_is_pressed(self, name: ButtonName)
        ensures
            self.holds(name) == self.pressed(name.index()),
    {
    }
}

impl Default for Buttons {
    /// Every button released.
    fn default() -> (buttons: Buttons)
        ensures
            buttons == Buttons::released(),
    {
        Buttons {
            a1: false,
            b1: false,
            up1: false,
            down1: false,
            left1: false,
            right1: false,
            select1: false,
            start1: false,
            a2: false,
            b2: false,
            up2: false,
            down2: false,
            left2: false,
            right2: false,
            select2: false,
            start2: false,
        }
    }
}

/// A colour: red, green, blue.
#[derive(Debug, Copy, Clone, Eq, PartialEq, Structural)]
pub struct Color(pub u8, pub u8, pub u8);

/// What the presentation side tells the emulation.
#[derive(Debug, Copy, Clone, Eq, PartialEq, Structural)]
pub enum Message {
    /// The button is now held (`true`) or released (`false`).
    Button(ButtonName, bool),
    /// `true` suspends the emulation, `false` resumes it.
    Pause(bool),
    /// The pointer stands at this whole pixel of the window's client area,
    /// counted from the top left corner.
    PixelPointed(i64, i64),
}

/// Number of bytes in one picture: four for each pixel of the emulated
/// screen, row by row from the top.
pub const FRAME_BYTES: usize = 245_760;

/// Where the four bytes of the pixel at column `x` of row `y` begin.
pub open spec fn pixel_offset(x: int, y: int) -> int {
    4 * (y * WIDTH + x)
}

/// The picture `frame` after the pixel at `(x, y)` was drawn in `color`:
/// red, green, blue, then full opacity.
pub open spec fn painted(frame: Seq<u8>, x: int, y: int, color: Color) -> Seq<u8> {
    let at = pixel_offset(x, y);
    frame.update(at, color.0).update(at + 1, color.1).update(at + 2, color.2).update(
        at + 3,
        0xffu8,
    )
}

/// The colour of the pixel at `(x, y)` of the picture `frame`.
pub open spec fn color_at(frame: Seq<u8>, x: int, y: int) -> Color {
    let at = pixel_offset(x, y);
    Color(frame[at], frame[at + 1], frame[at + 2])
}

/// A drawn pixel reads back in the colour it was drawn in.
pub proof fn lemma_painted_reads_back(frame: Seq<u8>, x: int, y: int, color: Color)
    requires
        0 <= pixel_offset(x, y),
        pixel_offset(x, y) + 3 < frame.len(),
    ensures
        color_at(painted(frame, x, y, color), x, y) == color,
        painted(frame, x, y, color).len() == frame.len(),
{
}

/// Drawing one pixel leaves the colour of every other pixel as it was.
pub proof fn lemma_painted_keeps_others(
    frame: Seq<u8>,
    x: int,
    y: int,
    color: Color,
    u: int,
    v: int,
)
    requires
        0 <= pixel_offset(x, y),
        pixel_offset(x, y) + 3 < frame.len(),
        0 <= pixel_offset(u, v),
        pixel_offset(u, v) + 3 < frame.len(),
        pixel_offset(u, v) != pixel_offset(x, y),
    ensures
        color_at(painted(frame, x, y, color), u, v) == color_at(frame, u, v),
{
}

/// One complete picture of the emulated screen: `FRAME_BYTES` bytes, four
/// for each pixel (red, green, blue, opacity), row by row from the top.
pub struct Frame {
    bytes: Vec<u8>,
}

impl View for Frame {
    type V = Seq<u8>;

    closed spec fn view(&self) -> Seq<u8> {
        self.bytes@
    }
}

impl Frame {
    /// Every picture is complete.
    #[verifier::type_invariant]
    pub closed spec fn complete(&self) -> bool {
        self.bytes@.len() == FRAME_BYTES
    }

    /// A picture of zero bytes throughout: black and fully transparent.
    pub fn blank() -> (frame: Frame)
        ensures
            frame@ == Seq::new(FRAME_BYTES as nat, |at: int| 0u8),
            frame@.len() == FRAME_BYTES,
    {
        let bytes: Vec<u8> = vec![0u8; FRAME_BYTES];
        assert(bytes@ =~= Seq::new(FRAME_BYTES as nat, |at: int| 0u8));
        Frame { bytes }
    }

    /// The picture made of `bytes`, if they are exactly one picture.
    pub fn from_bytes(bytes: Vec<u8>) -> (frame: Option<Frame>)
        ensures
            frame is Some <==> bytes@.len() == FRAME_BYTES,
            frame matches Some(f) ==> f@ == bytes@,
    {
        if bytes.len() == FRAME_BYTES {
            Some(Frame { bytes })
        } else {
            None
        }
    }

    /// The bytes of the picture.
    pub fn bytes(&self) -> (bytes: &Vec<u8>)
        ensures
            bytes@ == self@,
            bytes@.len() == FRAME_BYTES,
    {
        proof {
            use_type_invariant(self);
        }
        &self.bytes
    }

    /// A copy of the picture.
    pub fn duplicate(&self) -> (copy: Frame)
        ensures
            copy@ == self@,
            copy@.len() == FRAME_BYTES,
    {
        proof {
            use_type_invariant(self);
        }
        let bytes: Vec<u8> = self.bytes.clone();
        assert(bytes@ =~= self.bytes@);
        Frame { bytes }
    }

    /// Draws the pixel at column `x` of row `y` in `color`, fully opaque.
    /// The rows follow one another: a column past the end of a row is a
    /// pixel of the next row.
    pub fn put(&mut self, x: usize, y: usize, color: Color)
        requires
            y * WIDTH + x < WIDTH * HEIGHT,
        ensures
            final(self)@ == painted(old(self)@, x as int, y as int, color),
            final(self)@.len() == FRAME_BYTES,
    {
        proof {
            use_type_invariant(&*self);
        }
        let at: usize = 4 * (y * (WIDTH as usize) + x);
        self.bytes[at] = color.0;
        self.bytes[at + 1] = color.1;
        self.bytes[at + 2] = color.2;
        self.bytes[at + 3] = 0xff;
    }

    /// The colour of the pixel at column `x` of row `y`.
    pub fn rgb_at(&self, x: u32, y: u32) -> (color: Color)
        requires
            x < WIDTH,
            y < HEIGHT,
        ensures
            color == color_at(self@, x as int, y as int),
    {
        proof {
            use_type_invariant(self);
        }
        assert(y * WIDTH <= 239 * 256) by (nonlinear_arith)
            requires
                y < HEIGHT,
                HEIGHT == 240,
                WIDTH == 256,
        ;
        let at: usize = 4 * ((y as usize) * (WIDTH as usize) + (x as usize));
        Color(self.bytes[at], self.bytes[at + 1], self.bytes[at + 2])
    }
}

/// The picture as the presentation side holds it.
pub enum ScreenReader {
    /// Nothing is presented.
    Dummy,
    /// A picture is presented.
    Real {
        /// The picture that was published last.
        pixels: Frame,
        /// Whether `pixels` was published since it was last collected.
        fresh: bool,
    },
}

/// The presentation side of the picture handoff.
pub struct Screen(pub ScreenReader);

/// The emulation side of the picture handoff.
pub enum ScreenWriter {
    /// Nothing is presented: drawing and publishing do nothing.
    Dummy,
    /// A picture is presented.
    Real {
        /// The presentation side: the one reader of what is published.
        screen: Screen,
        /// The picture under construction.
        pixels: Frame,
    },
}

impl Screen {
    /// The picture that the presentation side holds, if it presents one.
    pub open spec fn shown(self) -> Option<Seq<u8>> {
        match self.0 {
            ScreenReader::Dummy => None,
            ScreenReader::Real { pixels, .. } => Some(pixels@),
        }
    }

    /// Whether a picture was published and not collected yet.
    pub open spec fn pending(self) -> bool {
        match self.0 {
            ScreenReader::Dummy => false,
            ScreenReader::Real { fresh, .. } => fresh,
        }
    }

    /// Both sides of a handoff that presents nothing.
    pub fn dummy() -> (sides: (Screen, ScreenWriter))
        ensures
            sides.0.0 is Dummy,
            sides.1 is Dummy,
    {
        (Screen(ScreenReader::Dummy), ScreenWriter::Dummy)
    }

    /// The handoff that starts from the picture `pixels`: the presentation
    /// side shows it, and the emulation side draws over a copy of it.
    ///
    /// There is one presentation side, and the writer holds it: the reader
    /// reaches it through [`ScreenWriter::screen`] and
    /// [`ScreenWriter::collect`], and so sees what the writer published.
    pub fn new(pixels: Frame) -> (writer: ScreenWriter)
        ensures
            writer is Real,
            writer.shown() == Some(pixels@),
            writer.staged() == Some(pixels@),
            !writer.pending(),
    {
        let staged: Frame = pixels.duplicate();
        ScreenWriter::Real { screen: Screen(ScreenReader::Real { pixels, fresh: false }), pixels: staged }
    }

    /// The picture that is shown, if one is presented.
    pub fn picture(&self) -> (frame: Option<&Frame>)
        ensures
            frame is Some <==> self.shown() is Some,
            frame matches Some(f) ==> Some(f@) == self.shown(),
    {
        match &self.0 {
            ScreenReader::Dummy => None,
            ScreenReader::Real { pixels, .. } => Some(pixels),
        }
    }

    /// The picture to present, if one was published since the last call.
    pub fn collect(&mut self) -> (frame: Option<&Frame>)
        ensures
            final(self).shown() == old(self).shown(),
            !final(self).pending(),
            frame is Some <==> old(self).pending(),
            frame matches Some(f) ==> Some(f@) == old(self).shown(),
    {
        match &mut self.0 {
            ScreenReader::Dummy => None,
            ScreenReader::Real { pixels, fresh } => {
                if *fresh {
                    *fresh = false;
                    Some(&*pixels)
                } else {
                    None
                }
            },
        }
    }
}

impl ScreenWriter {
    /// The picture under construction, if a picture is presented.
    pub open spec fn staged(self) -> Option<Seq<u8>> {
        match self {
            ScreenWriter::Dummy => None,
            ScreenWriter::Real { pixels, .. } => Some(pixels@),
        }
    }

    /// The picture that was published last, if a picture is presented.
    pub open spec fn shown(self) -> Option<Seq<u8>> {
        match self {
            ScreenWriter::Dummy => None,
            ScreenWriter::Real { screen, .. } => screen.shown(),
        }
    }

    /// Whether a picture was published and not collected yet.
    pub open spec fn pending(self) -> bool {
        match self {
            ScreenWriter::Dummy => false,
            ScreenWriter::Real { screen, .. } => screen.pending(),
        }
    }

    /// The presentation side, if a picture is presented: what the reader
    /// sees is what was published last.
    pub fn screen(&self) -> (reader: Option<&Screen>)
        ensures
            reader is Some <==> *self is Real,
            reader matches Some(screen) ==> screen.shown() == self.shown() && screen.pending()
                == self.pending(),
    {
        match self {
            ScreenWriter::Dummy => None,
            ScreenWriter::Real { screen, .. } => Some(screen),
        }
    }

    /// Draws the pixel at column `x` of row `y` of the picture under
    /// construction in `color`, fully opaque. What was published stays as it
    /// is.
    pub fn draw_pixel(&mut self, x: usize, y: usize, color: Color)
        requires
            *old(self) is Real ==> y * WIDTH + x < WIDTH * HEIGHT,
        ensures
            final(self).staged() == match old(self).staged() {
                Some(frame) => Some(painted(frame, x as int, y as int, color)),
                None => None,
            },
            final(self).shown() == old(self).shown(),
            final(self).pending() == old(self).pending(),
    {
        match self {
            ScreenWriter::Dummy => {},
            ScreenWriter::Real { pixels, .. } => {
                pixels.put(x, y, color);
            },
        }
    }

    /// Publishes the picture under construction: the presentation side
    /// shows a copy of the whole of it from now on.
    pub fn render_frame(&mut self)
        ensures
            final(self).staged() == old(self).staged(),
            final(self).shown() == match old(self).shown() {
                Some(_) => old(self).staged(),
                None => None,
            },
            final(self).pending() == (old(self).shown() is Some),
    {
        match self {
            ScreenWriter::Dummy => {},
            ScreenWriter::Real { screen, pixels } => {
                match &mut screen.0 {
                    ScreenReader::Dummy => {},
                    ScreenReader::Real { pixels: shown, fresh } => {
                        *shown = pixels.duplicate();
                        *fresh = true;
                    },
                }
            },
        }
    }

    /// The picture to present, if one was published since the last call.
    pub fn collect(&mut self) -> (frame: Option<&Frame>)
        ensures
            final(self).staged() == old(self).staged(),
            final(self).shown() == old(self).shown(),
            !final(self).pending(),
            frame is Some <==> old(self).pending(),
            frame matches Some(f) ==> Some(f@) == old(self).shown(),
    {
        match self {
            ScreenWriter::Dummy => None,
            ScreenWriter::Real { screen, .. } => screen.collect(),
        }
    }

    /// The colour that was published last for the pixel at column `x` of row
    /// `y`, if a picture is presented.
    pub fn pointed(&self, x: u32, y: u32) -> (color: Option<Color>)
        requires
            x < WIDTH,
            y < HEIGHT,
        ensures
            color == match self.shown() {
                Some(frame) => Some(color_at(frame, x as int, y as int)),
                None => None,
            },
    {
        match self {
            ScreenWriter::Dummy => None,
            ScreenWriter::Real { screen, .. } => match &screen.0 {
                ScreenReader::Dummy => None,
                ScreenReader::Real { pixels, .. } => Some(pixels.rgb_at(x, y)),
            },
        }
    }
}

} // verus!
