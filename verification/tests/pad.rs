use gpkbd::keys::Key;
use gpkbd::pad::{decode, decode_events, device_name_end, name_contains, pad_found, InputEvent, PadEvent, PadState};
use input_linux::sys;

fn ev(type_: i32, code: i32, value: i32) -> InputEvent {
    InputEvent::new(type_ as u16, code as u16, value)
}

fn decode1(ev: &InputEvent) -> Option<PadEvent> {
    decode(&mut PadState::new(), ev)
}

#[test]
fn face_buttons_swap_a_and_b() {
    assert_eq!(decode1(&ev(sys::EV_KEY, sys::BTN_SOUTH, 1)), Some(PadEvent::Backspace));
    assert_eq!(decode1(&ev(sys::EV_KEY, sys::BTN_EAST, 1)), Some(PadEvent::Type));
    // This driver's BTN_NORTH/BTN_WEST are swapped from the physical Y/X
    // labels; see decode's doc comment.
    assert_eq!(decode1(&ev(sys::EV_KEY, sys::BTN_NORTH, 1)), Some(PadEvent::Space));
}

#[test]
fn button_release_is_ignored_for_press_only_buttons() {
    assert_eq!(decode1(&ev(sys::EV_KEY, sys::BTN_EAST, 0)), None);
    assert_eq!(decode1(&ev(sys::EV_KEY, sys::BTN_SOUTH, 0)), None);
}

#[test]
fn dpad_reports_move_then_move_end() {
    assert_eq!(decode1(&ev(sys::EV_KEY, sys::BTN_DPAD_RIGHT, 1)), Some(PadEvent::Move(0, 1)));
    assert_eq!(decode1(&ev(sys::EV_KEY, sys::BTN_DPAD_RIGHT, 0)), Some(PadEvent::MoveEnd));
    assert_eq!(decode1(&ev(sys::EV_KEY, sys::BTN_DPAD_UP, 1)), Some(PadEvent::Move(-1, 0)));
}

#[test]
fn hat_axes_report_move_then_move_end() {
    assert_eq!(decode1(&ev(sys::EV_ABS, sys::ABS_HAT0X, 1)), Some(PadEvent::Move(0, 1)));
    assert_eq!(decode1(&ev(sys::EV_ABS, sys::ABS_HAT0X, -1)), Some(PadEvent::Move(0, -1)));
    assert_eq!(decode1(&ev(sys::EV_ABS, sys::ABS_HAT0X, 0)), Some(PadEvent::MoveEnd));
    assert_eq!(decode1(&ev(sys::EV_ABS, sys::ABS_HAT0Y, 1)), Some(PadEvent::Move(1, 0)));
}

#[test]
fn l1_holds_shift() {
    assert_eq!(decode1(&ev(sys::EV_KEY, sys::BTN_TL, 1)), Some(PadEvent::Shift(true)));
    assert_eq!(decode1(&ev(sys::EV_KEY, sys::BTN_TL, 0)), Some(PadEvent::Shift(false)));
}

#[test]
fn l2_holds_ctrl() {
    assert_eq!(decode1(&ev(sys::EV_KEY, sys::BTN_TL2, 1)), Some(PadEvent::Ctrl(true)));
    assert_eq!(decode1(&ev(sys::EV_KEY, sys::BTN_TL2, 0)), Some(PadEvent::Ctrl(false)));
}

#[test]
fn r1_does_not_hold_ctrl() {
    assert!(!matches!(decode1(&ev(sys::EV_KEY, sys::BTN_TR, 1)), Some(PadEvent::Ctrl(_))));
}

#[test]
fn r1_reports_its_own_held_state() {
    assert_eq!(decode1(&ev(sys::EV_KEY, sys::BTN_TR, 1)), Some(PadEvent::R1(true)));
    assert_eq!(decode1(&ev(sys::EV_KEY, sys::BTN_TR, 0)), Some(PadEvent::R1(false)));
}

#[test]
fn r1_held_turns_dpad_into_arrow_keys() {
    let mut state = PadState::new();
    assert_eq!(decode(&mut state, &ev(sys::EV_KEY, sys::BTN_TR, 1)), Some(PadEvent::R1(true)));

    assert_eq!(decode(&mut state, &ev(sys::EV_KEY, sys::BTN_DPAD_UP, 1)), Some(PadEvent::Arrow(Key::Up)));
    assert_eq!(decode(&mut state, &ev(sys::EV_KEY, sys::BTN_DPAD_DOWN, 1)), Some(PadEvent::Arrow(Key::Down)));
    assert_eq!(decode(&mut state, &ev(sys::EV_KEY, sys::BTN_DPAD_LEFT, 1)), Some(PadEvent::Arrow(Key::Left)));
    assert_eq!(decode(&mut state, &ev(sys::EV_KEY, sys::BTN_DPAD_RIGHT, 1)), Some(PadEvent::Arrow(Key::Right)));

    assert_eq!(decode(&mut state, &ev(sys::EV_KEY, sys::BTN_TR, 0)), Some(PadEvent::R1(false)));
    assert_eq!(decode(&mut state, &ev(sys::EV_KEY, sys::BTN_DPAD_UP, 1)), Some(PadEvent::Move(-1, 0)));
}

#[test]
fn r1_held_remaps_face_buttons_to_paging_and_nav() {
    let mut state = PadState::new();
    decode(&mut state, &ev(sys::EV_KEY, sys::BTN_TR, 1));

    assert_eq!(decode(&mut state, &ev(sys::EV_KEY, sys::BTN_WEST, 1)), Some(PadEvent::PageUp));
    assert_eq!(decode(&mut state, &ev(sys::EV_KEY, sys::BTN_SOUTH, 1)), Some(PadEvent::PageDown));
    assert_eq!(decode(&mut state, &ev(sys::EV_KEY, sys::BTN_NORTH, 1)), Some(PadEvent::Arrow(Key::Tab)));
    assert_eq!(decode(&mut state, &ev(sys::EV_KEY, sys::BTN_EAST, 1)), Some(PadEvent::Arrow(Key::Esc)));

    decode(&mut state, &ev(sys::EV_KEY, sys::BTN_TR, 0));
    assert_eq!(decode(&mut state, &ev(sys::EV_KEY, sys::BTN_WEST, 1)), Some(PadEvent::Enter));
    assert_eq!(decode(&mut state, &ev(sys::EV_KEY, sys::BTN_SOUTH, 1)), Some(PadEvent::Backspace));
    assert_eq!(decode(&mut state, &ev(sys::EV_KEY, sys::BTN_NORTH, 1)), Some(PadEvent::Space));
    assert_eq!(decode(&mut state, &ev(sys::EV_KEY, sys::BTN_EAST, 1)), Some(PadEvent::Type));
}

#[test]
fn releasing_a_nav_face_button_stops_its_repeat() {
    let mut state = PadState::new();
    decode(&mut state, &ev(sys::EV_KEY, sys::BTN_TR, 1));

    assert_eq!(decode(&mut state, &ev(sys::EV_KEY, sys::BTN_WEST, 1)), Some(PadEvent::PageUp));
    assert_eq!(decode(&mut state, &ev(sys::EV_KEY, sys::BTN_WEST, 0)), Some(PadEvent::MoveEnd));
}

#[test]
fn releasing_r1_before_the_face_button_still_stops_its_repeat() {
    let mut state = PadState::new();
    decode(&mut state, &ev(sys::EV_KEY, sys::BTN_TR, 1));
    assert_eq!(decode(&mut state, &ev(sys::EV_KEY, sys::BTN_SOUTH, 1)), Some(PadEvent::PageDown));

    // R1 lets go first; the still-held B should still stop its own
    // repeat once it's released, rather than firing PageDown forever.
    decode(&mut state, &ev(sys::EV_KEY, sys::BTN_TR, 0));
    assert_eq!(decode(&mut state, &ev(sys::EV_KEY, sys::BTN_SOUTH, 0)), Some(PadEvent::MoveEnd));
}

#[test]
fn west_maps_to_enter_select_quits() {
    assert_eq!(decode1(&ev(sys::EV_KEY, sys::BTN_WEST, 1)), Some(PadEvent::Enter));
    assert_eq!(decode1(&ev(sys::EV_KEY, sys::BTN_SELECT, 1)), Some(PadEvent::Quit));
}

#[test]
fn start_is_unmapped() {
    assert_eq!(decode1(&ev(sys::EV_KEY, sys::BTN_START, 1)), None);
}

#[test]
fn unknown_and_irrelevant_events_decode_to_none() {
    assert_eq!(decode1(&ev(sys::EV_KEY, 0x999, 1)), None);
    assert_eq!(decode1(&ev(sys::EV_SYN, 0, 0)), None);
}

#[test]
fn key_repeat_values_are_ignored_for_dpad_and_select() {
    assert_eq!(decode1(&ev(sys::EV_KEY, sys::BTN_DPAD_LEFT, 2)), None);
    assert_eq!(decode1(&ev(sys::EV_KEY, sys::BTN_SELECT, 2)), None);
    assert_eq!(decode1(&ev(sys::EV_KEY, sys::BTN_SELECT, 0)), None);
}

#[test]
fn hat_reports_only_the_sign_of_large_values() {
    assert_eq!(decode1(&ev(sys::EV_ABS, sys::ABS_HAT0Y, -7)), Some(PadEvent::Move(-1, 0)));
    assert_eq!(decode1(&ev(sys::EV_ABS, 0x00, 5)), None);
}

#[test]
fn hat_with_r1_held_gives_arrows() {
    let mut state = PadState::new();
    decode(&mut state, &ev(sys::EV_KEY, sys::BTN_TR, 1));
    assert_eq!(decode(&mut state, &ev(sys::EV_ABS, sys::ABS_HAT0X, -1)), Some(PadEvent::Arrow(Key::Left)));
    assert_eq!(decode(&mut state, &ev(sys::EV_ABS, sys::ABS_HAT0Y, 1)), Some(PadEvent::Arrow(Key::Down)));
    assert_eq!(decode(&mut state, &ev(sys::EV_ABS, sys::ABS_HAT0Y, 0)), Some(PadEvent::MoveEnd));
}

#[test]
fn normal_face_release_after_r1_press_sends_nothing() {
    let mut state = PadState::new();
    assert_eq!(decode(&mut state, &ev(sys::EV_KEY, sys::BTN_NORTH, 1)), Some(PadEvent::Space));
    decode(&mut state, &ev(sys::EV_KEY, sys::BTN_TR, 1));
    assert_eq!(decode(&mut state, &ev(sys::EV_KEY, sys::BTN_NORTH, 0)), None);
}

#[test]
fn decode_events_keeps_the_acted_on_events_in_order() {
    let mut state = PadState::new();
    let events = [
        ev(sys::EV_KEY, sys::BTN_TR, 1),
        ev(sys::EV_SYN, 0, 0),
        ev(sys::EV_KEY, sys::BTN_EAST, 1),
        ev(sys::EV_KEY, sys::BTN_TR, 0),
        ev(sys::EV_KEY, sys::BTN_EAST, 0),
        ev(sys::EV_KEY, sys::BTN_EAST, 1),
    ];
    assert_eq!(
        decode_events(&mut state, &events),
        vec![
            PadEvent::R1(true),
            PadEvent::Arrow(Key::Esc),
            PadEvent::R1(false),
            PadEvent::MoveEnd,
            PadEvent::Type,
        ]
    );
}

#[test]
fn device_name_stops_at_the_first_nul() {
    assert_eq!(device_name_end(b"H700 Gamepad\0\0junk"), 12);
    assert_eq!(device_name_end(b"no terminator"), 13);
    assert_eq!(device_name_end(b"\0"), 0);
    assert_eq!(device_name_end(b""), 0);
}

#[test]
fn pad_name_matches_by_substring() {
    assert!(name_contains(b"H700 Gamepad", b"Gamepad"));
    assert!(name_contains(b"H700 Gamepad", b"H700"));
    assert!(name_contains(b"H700 Gamepad", b""));
    assert!(name_contains(b"pad", b"pad"));
    assert!(!name_contains(b"H700 Gamepad", b"gamepad"));
    assert!(!name_contains(b"pad", b"Gamepad"));
    assert!(!name_contains(b"Gamepa", b"pad"));
}

#[test]
fn pad_is_found_by_name_or_else_by_its_south_button() {
    assert!(pad_found(b"H700 Gamepad", Some(b"Gamepad"), false));
    assert!(!pad_found(b"H700 Gamepad", Some(b"Xbox"), true));
    assert!(pad_found(b"H700 Gamepad", None, true));
    assert!(!pad_found(b"H700 Gamepad", None, false));
}
