use nes_runtime::input::{
    button_for_key, to_message, Key, Presenter, Reaction, WindowInput, FRAME_INTERVAL,
};
use nes_runtime::screen::{ButtonName, Message};

#[test]
fn keys_of_the_first_controller() {
    assert_eq!(button_for_key(Key::A), Some(ButtonName::Left1));
    assert_eq!(button_for_key(Key::W), Some(ButtonName::Up1));
    assert_eq!(button_for_key(Key::D), Some(ButtonName::Right1));
    assert_eq!(button_for_key(Key::S), Some(ButtonName::Down1));
    assert_eq!(button_for_key(Key::Space), Some(ButtonName::Start1));
    assert_eq!(button_for_key(Key::LShift), Some(ButtonName::Select1));
    assert_eq!(button_for_key(Key::Z), Some(ButtonName::B1));
    assert_eq!(button_for_key(Key::F), Some(ButtonName::B1));
    assert_eq!(button_for_key(Key::X), Some(ButtonName::A1));
    assert_eq!(button_for_key(Key::G), Some(ButtonName::A1));
}

#[test]
fn keys_of_the_second_controller() {
    assert_eq!(button_for_key(Key::Left), Some(ButtonName::Left2));
    assert_eq!(button_for_key(Key::J), Some(ButtonName::Left2));
    assert_eq!(button_for_key(Key::Up), Some(ButtonName::Up2));
    assert_eq!(button_for_key(Key::I), Some(ButtonName::Up2));
    assert_eq!(button_for_key(Key::Right), Some(ButtonName::Right2));
    assert_eq!(button_for_key(Key::L), Some(ButtonName::Right2));
    assert_eq!(button_for_key(Key::Down), Some(ButtonName::Down2));
    assert_eq!(button_for_key(Key::K), Some(ButtonName::Down2));
    assert_eq!(button_for_key(Key::Return), Some(ButtonName::Start2));
    assert_eq!(button_for_key(Key::RShift), Some(ButtonName::Select2));
    assert_eq!(button_for_key(Key::Numpad1), Some(ButtonName::B2));
    assert_eq!(button_for_key(Key::Semicolon), Some(ButtonName::B2));
    assert_eq!(button_for_key(Key::Numpad2), Some(ButtonName::A2));
    assert_eq!(button_for_key(Key::Apostrophe), Some(ButtonName::A2));
}

#[test]
fn a_key_without_binding_moves_no_button() {
    assert_eq!(button_for_key(Key::Other), None);
    assert_eq!(to_message(WindowInput::Keyboard(Key::Other, true)), None);
    assert_eq!(to_message(WindowInput::Keyboard(Key::Other, false)), None);
}

#[test]
fn focus_lost_suspends_and_focus_gained_resumes() {
    assert_eq!(to_message(WindowInput::Focused(false)), Some(Message::Pause(true)));
    assert_eq!(to_message(WindowInput::Focused(true)), Some(Message::Pause(false)));
}

#[test]
fn pointer_motion_is_passed_on_as_it_is() {
    assert_eq!(
        to_message(WindowInput::CursorMoved(300, -4)),
        Some(Message::PixelPointed(300, -4))
    );
}

#[test]
fn key_down_and_key_up_become_button_levels() {
    assert_eq!(
        to_message(WindowInput::Keyboard(Key::G, true)),
        Some(Message::Button(ButtonName::A1, true))
    );
    assert_eq!(
        to_message(WindowInput::Keyboard(Key::G, false)),
        Some(Message::Button(ButtonName::A1, false))
    );
    assert_eq!(
        to_message(WindowInput::Keyboard(Key::Semicolon, true)),
        Some(Message::Button(ButtonName::B2, true))
    );
}

#[test]
fn close_request_and_other_events_carry_no_message() {
    assert_eq!(to_message(WindowInput::CloseRequested), None);
    assert_eq!(to_message(WindowInput::Other), None);
}

#[test]
fn close_request_ends_the_loop() {
    let mut presenter = Presenter::new(0);
    assert_eq!(presenter.react(WindowInput::CloseRequested, 1_000_000_000, false), Reaction::Exit);
    assert_eq!(presenter.react(WindowInput::CloseRequested, 1_000_000_000, true), Reaction::Exit);
    assert_eq!(presenter, Presenter { last_redraw: 0 });
}

#[test]
fn an_ended_emulation_is_joined() {
    let mut presenter = Presenter::new(0);
    assert_eq!(presenter.react(WindowInput::Other, 1_000_000_000, true), Reaction::Join);
    assert_eq!(presenter.react(WindowInput::Focused(false), 5, true), Reaction::Join);
    assert_eq!(presenter, Presenter { last_redraw: 0 });
}

#[test]
fn redraw_is_due_after_more_than_a_sixtieth_of_a_second() {
    assert_eq!(FRAME_INTERVAL, 16_666_667);
    let mut presenter = Presenter::new(100);
    assert_eq!(
        presenter.react(WindowInput::Other, 100 + 16_666_667, false),
        Reaction::Wait { send: None, redraw: false, until: 100 + 2 * 16_666_667 }
    );
    assert_eq!(presenter.last_redraw, 100);
    assert_eq!(
        presenter.react(WindowInput::Other, 100 + 16_666_668, false),
        Reaction::Wait { send: None, redraw: true, until: 100 + 16_666_668 + 16_666_667 }
    );
    assert_eq!(presenter.last_redraw, 100 + 16_666_668);
    assert_eq!(
        presenter.react(WindowInput::Other, 100 + 16_666_669, false),
        Reaction::Wait { send: None, redraw: false, until: 100 + 16_666_669 + 16_666_667 }
    );
    assert_eq!(presenter.last_redraw, 100 + 16_666_668);
}

#[test]
fn an_event_is_sent_on_whether_or_not_a_redraw_is_due() {
    let mut presenter = Presenter::new(0);
    assert_eq!(
        presenter.react(WindowInput::Keyboard(Key::W, true), 5, false),
        Reaction::Wait {
            send: Some(Message::Button(ButtonName::Up1, true)),
            redraw: false,
            until: 5 + 16_666_667,
        }
    );
    assert_eq!(
        presenter.react(WindowInput::Focused(false), 20_000_000, false),
        Reaction::Wait { send: Some(Message::Pause(true)), redraw: true, until: 36_666_667 }
    );
}

#[test]
fn a_clock_that_reads_earlier_than_the_last_redraw_asks_for_none() {
    let mut presenter = Presenter::new(1_000_000_000);
    assert_eq!(
        presenter.react(WindowInput::Other, 5, false),
        Reaction::Wait { send: None, redraw: false, until: 5 + 16_666_667 }
    );
    assert_eq!(presenter.last_redraw, 1_000_000_000);
}

#[test]
fn the_wake_time_stops_at_the_end_of_the_clock() {
    let mut presenter = Presenter::new(0);
    assert_eq!(
        presenter.react(WindowInput::Other, u128::MAX - 3, false),
        Reaction::Wait { send: None, redraw: true, until: u128::MAX }
    );
}
