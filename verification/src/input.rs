//! What the presentation side decides: which message a window event
//! becomes, and when the picture is drawn again.
use vstd::prelude::*;
use crate::screen::{ButtonName, Message};

verus! {

/// Time between two redraws at sixty pictures a second, to the nearest
/// nanosecond.
pub const FRAME_INTERVAL: u128 = 16_666_667;

/// The keys that are bound to buttons, and `Other` for every other key.
#[derive(Debug, Copy, Clone, Eq, PartialEq, Structural)]
pub enum Key {
    A,
    D,
    F,
    G,
    I,
    J,
    K,
    L,
    S,
    W,
    X,
    Z,
    Up,
    Down,
    Left,
    Right,
    Space,
    Return,
    LShift,
    RShift,
    Semicolon,
    Apostrophe,
    Numpad1,
    Numpad2,
    Other,
}

/// Whether the key `key` moves the button `name`.
///
/// The first controller has its directions on W, A, S and D, Start on the
/// space bar, Select on the left shift key, B on Z or F and A on X or G. The
/// second has its directions on the arrow keys or I, J, K and L, Start on
/// the return key, Select on the right shift key, B on the 1 of the number
/// pad or the semicolon and A on the 2 of the number pad or the apostrophe.
pub open spec fn is_bound(key: Key, name: ButtonName) -> bool {
    match name {
        ButtonName::A1 => key is X || key is G,
        ButtonName::B1 => key is Z || key is F,
        ButtonName::Up1 => key is W,
        ButtonName::Down1 => key is S,
        ButtonName::Left1 => key is A,
        ButtonName::Right1 => key is D,
        ButtonName::Start1 => key is Space,
        ButtonName::Select1 => key is LShift,
        ButtonName::A2 => key is Numpad2 || key is Apostrophe,
        ButtonName::B2 => key is Numpad1 || key is Semicolon,
        ButtonName::Up2 => key is Up || key is I,
        ButtonName::Down2 => key is Down || key is K,
        ButtonName::Left2 => key is Left || key is J,
        ButtonName::Right2 => key is Right || key is L,
        ButtonName::Start2 => key is Return,
        ButtonName::Select2 => key is RShift,
    }
}

/// The button that the key `key` moves, if it moves one.
pub open spec fn bound_button(key: Key) -> Option<ButtonName> {
    match key {
        Key::A => Some(ButtonName::Left1),
        Key::W => Some(ButtonName::Up1),
        Key::D => Some(ButtonName::Right1),
        Key::S => Some(ButtonName::Down1),
        Key::Space => Some(ButtonName::Start1),
        Key::LShift => Some(ButtonName::Select1),
        Key::Z | Key::F => Some(ButtonName::B1),
        Key::X | Key::G => Some(ButtonName::A1),
        Key::Left | Key::J => Some(ButtonName::Left2),
        Key::Up | Key::I => Some(ButtonName::Up2),
        Key::Right | Key::L => Some(ButtonName::Right2),
        Key::Down | Key::K => Some(ButtonName::Down2),
        Key::Return => Some(ButtonName::Start2),
        Key::RShift => Some(ButtonName::Select2),
        Key::Numpad1 | Key::Semicolon => Some(ButtonName::B2),
        Key::Numpad2 | Key::Apostrophe => Some(ButtonName::A2),
        Key::Other => None,
    }
}

/// A key moves the buttons it is bound to, and no other.
pub proof fn lemma_bound_button_is_the_binding(key: Key, name: ButtonName)
    ensures
        bound_button(key) == Some(name) <==> is_bound(key, name),
{
}

/// Every button has a key.
pub proof fn lemma_every_button_has_a_key(name: ButtonName)
    ensures
        exists|key: Key| bound_button(key) == Some(name),
{
    let key = match name {
        ButtonName::A1 => Key::X,
        ButtonName::B1 => Key::Z,
        ButtonName::Up1 => Key::W,
        ButtonName::Down1 => Key::S,
        ButtonName::Left1 => Key::A,
        ButtonName::Right1 => Key::D,
        ButtonName::Start1 => Key::Space,
        ButtonName::Select1 => Key::LShift,
        ButtonName::A2 => Key::Numpad2,
        ButtonName::B2 => Key::Numpad1,
        ButtonName::Up2 => Key::Up,
        ButtonName::Down2 => Key::Down,
        ButtonName::Left2 => Key::Left,
        ButtonName::Right2 => Key::Right,
        ButtonName::Start2 => Key::Return,
        ButtonName::Select2 => Key::RShift,
    };
    assert(bound_button(key) == Some(name));
}

/// The button that the key `key` moves, if it moves one.
pub fn button_for_key(key: Key) -> (button: Option<ButtonName>)
    ensures
        button == bound_button(key),
{
    match key {
        Key::A => Some(ButtonName::Left1),
        Key::W => Some(ButtonName::Up1),
        Key::D => Some(ButtonName::Right1),
        Key::S => Some(ButtonName::Down1),
        Key::Space => Some(ButtonName::Start1),
        Key::LShift => Some(ButtonName::Select1),
        Key::Z | Key::F => Some(ButtonName::B1),
        Key::X | Key::G => Some(ButtonName::A1),
        Key::Left | Key::J => Some(ButtonName::Left2),
        Key::Up | Key::I => Some(ButtonName::Up2),
        Key::Right | Key::L => Some(ButtonName::Right2),
        Key::Down | Key::K => Some(ButtonName::Down2),
        Key::Return => Some(ButtonName::Start2),
        Key::RShift => Some(ButtonName::Select2),
        Key::Numpad1 | Key::Semicolon => Some(ButtonName::B2),
        Key::Numpad2 | Key::Apostrophe => Some(ButtonName::A2),
        Key::Other => None,
    }
}

/// What the window reports.
#[derive(Debug, Copy, Clone, Eq, PartialEq, Structural)]
pub enum WindowInput {
    /// The user asked to close the window.
    CloseRequested,
    /// The window gained (`true`) or lost (`false`) the focus.
    Focused(bool),
    /// The pointer moved to this whole pixel of the client area.
    CursorMoved(i64, i64),
    /// A key went down (`true`) or up (`false`).
    Keyboard(Key, bool),
    /// Anything else.
    Other,
}

/// The message that the emulation is owed for the window event `input`: a
/// window out of focus suspends it, a pointer movement is passed on as it
/// is, and a bound key moves its button.
pub open spec fn message_for(input: WindowInput) -> Option<Message> {
    match input {
        WindowInput::Focused(focused) => Some(Message::Pause(!focused)),
        WindowInput::CursorMoved(x, y) => Some(Message::PixelPointed(x, y)),
        WindowInput::Keyboard(key, pressed) => match bound_button(key) {
            Some(name) => Some(Message::Button(name, pressed)),
            None => None,
        },
        _ => None,
    }
}

/// The message that the emulation is owed for the window event `input`.
pub fn to_message(input: WindowInput) -> (message: Option<Message>)
    ensures
        message == message_for(input),
{
    match input {
        WindowInput::Focused(focused) => Some(Message::Pause(!focused)),
        WindowInput::CursorMoved(x, y) => Some(Message::PixelPointed(x, y)),
        WindowInput::Keyboard(key, pressed) => match button_for_key(key) {
            Some(name) => Some(Message::Button(name, pressed)),
            None => None,
        },
        _ => None,
    }
}

/// What the presentation loop does after a window event.
#[derive(Debug, Copy, Clone, Eq, PartialEq)]
pub enum Reaction {
    /// Leave the loop.
    Exit,
    /// The emulation has ended: collect what it ended with.
    Join,
    /// Send the message, if there is one; draw the picture again if `redraw`
    /// says so; then wait for the next event, until the clock reads `until`
    /// at the latest.
    Wait { send: Option<Message>, redraw: bool, until: u128 },
}

/// The presentation loop's account of its redraws.
#[derive(Debug, Copy, Clone, Eq, PartialEq)]
pub struct Presenter {
    /// The clock reading at the last redraw.
    pub last_redraw: u128,
}

impl Presenter {
    /// Whether a redraw is due at the clock reading `now`: more than
    /// `FRAME_INTERVAL` has passed since the last one.
    pub open spec fn redraw_due(self, now: u128) -> bool {
        now - self.last_redraw > FRAME_INTERVAL
    }

    /// When the loop wakes at the latest after an event at `now`.
    pub open spec fn wake_after(now: u128) -> u128 {
        if now + FRAME_INTERVAL > u128::MAX {
            u128::MAX
        } else {
            (now + FRAME_INTERVAL) as u128
        }
    }

    /// What the loop does after the window event `input` at the clock
    /// reading `now`, given whether the emulation has ended.
    ///
    /// A request to close ends the loop, whatever else holds. An emulation
    /// that has ended is joined. Otherwise the event's message is sent, and
    /// the picture is drawn again if a redraw is due.
    pub open spec fn reaction(self, input: WindowInput, now: u128, ended: bool) -> Reaction {
        if input is CloseRequested {
            Reaction::Exit
        } else if ended {
            Reaction::Join
        } else {
            Reaction::Wait {
                send: message_for(input),
                redraw: self.redraw_due(now),
                until: Self::wake_after(now),
            }
        }
    }

    /// The account after that event: a redraw that was made is noted.
    pub open spec fn after(self, input: WindowInput, now: u128, ended: bool) -> Presenter {
        if self.reaction(input, now, ended) matches Reaction::Wait { redraw: true, .. } {
            Presenter { last_redraw: now }
        } else {
            self
        }
    }

    /// The account of a loop that starts at the clock reading `now`.
    pub fn new(now: u128) -> (presenter: Presenter)
        ensures
            presenter.last_redraw == now,
    {
        Presenter { last_redraw: now }
    }

    /// Decides what the loop does after the window event `input` at the
    /// clock reading `now`, given whether the emulation has ended.
    pub fn react(&mut self, input: WindowInput, now: u128, ended: bool) -> (reaction: Reaction)
        ensures
            reaction == old(self).reaction(input, now, ended),
            *final(self) == old(self).after(input, now, ended),
    {
        if matches!(input, WindowInput::CloseRequested) {
            return Reaction::Exit;
        }
        if ended {
            return Reaction::Join;
        }
        let send: Option<Message> = to_message(input);
        let redraw: bool = now > self.last_redraw && now - self.last_redraw > FRAME_INTERVAL;
        if redraw {
            self.last_redraw = now;
        }
        Reaction::Wait { send, redraw, until: now.saturating_add(FRAME_INTERVAL) }
    }
}

} // verus!
