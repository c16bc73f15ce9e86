use gpkbd::keyboard::Keyboard;
use gpkbd::keys::{keys, Key};
use gpkbd::typing::{tap_sequence, uinput_keys, TapStep};

#[test]
fn plain_tap_has_no_modifier_steps() {
    assert_eq!(
        tap_sequence(false, false, Key::Q),
        vec![TapStep::Key(Key::Q, true), TapStep::Sync, TapStep::Key(Key::Q, false), TapStep::Sync]
    );
}

#[test]
fn shifted_tap_wraps_key_in_shift_press_and_release() {
    assert_eq!(
        tap_sequence(true, false, Key::Q),
        vec![
            TapStep::Key(Key::LeftShift, true),
            TapStep::Key(Key::Q, true),
            TapStep::Sync,
            TapStep::Key(Key::Q, false),
            TapStep::Key(Key::LeftShift, false),
            TapStep::Sync,
        ]
    );
}

#[test]
fn all_modifiers_press_in_order_and_release_in_reverse() {
    let seq = tap_sequence(true, true, Key::A);
    assert_eq!(
        seq,
        vec![
            TapStep::Key(Key::LeftShift, true),
            TapStep::Key(Key::LeftCtrl, true),
            TapStep::Key(Key::A, true),
            TapStep::Sync,
            TapStep::Key(Key::A, false),
            TapStep::Key(Key::LeftCtrl, false),
            TapStep::Key(Key::LeftShift, false),
            TapStep::Sync,
        ]
    );
}

#[test]
fn tap_reads_keyboards_held_shift_without_clearing_it() {
    let mut kb = Keyboard::new();
    kb.set_shift(true);

    let (shift, ctrl) = kb.modifiers();
    assert_eq!((shift, ctrl), (true, false));
    assert!(kb.shift, "shift is a held modifier: a tap must not clear it");
}

#[test]
fn ctrl_only_tap() {
    assert_eq!(
        tap_sequence(false, true, Key::C),
        vec![
            TapStep::Key(Key::LeftCtrl, true),
            TapStep::Key(Key::C, true),
            TapStep::Sync,
            TapStep::Key(Key::C, false),
            TapStep::Key(Key::LeftCtrl, false),
            TapStep::Sync,
        ]
    );
}

#[test]
fn every_tap_releases_all_it_pressed_before_its_last_sync() {
    for shift in [false, true] {
        for ctrl in [false, true] {
            let seq = tap_sequence(shift, ctrl, Key::Z);
            let mut held: Vec<Key> = Vec::new();
            let mut reports: Vec<Vec<Key>> = Vec::new();
            for step in &seq {
                match *step {
                    TapStep::Key(k, true) => held.push(k),
                    TapStep::Key(k, false) => held.retain(|&h| h != k),
                    TapStep::Sync => reports.push(held.clone()),
                }
            }
            assert_eq!(reports.len(), 2);
            assert!(reports[0].contains(&Key::Z));
            assert_eq!(reports[0].contains(&Key::LeftShift), shift);
            assert_eq!(reports[0].contains(&Key::LeftCtrl), ctrl);
            assert!(reports[1].is_empty());
            assert_eq!(seq.last(), Some(&TapStep::Sync));
        }
    }
}

#[test]
fn uinput_announces_the_grid_then_the_pad_button_keys() {
    let announced = uinput_keys();
    let grid = keys();
    let grid_keys: Vec<Key> = grid.iter().flatten().flatten().map(|k| k.code).collect();
    assert_eq!(grid_keys.len(), 50);
    assert_eq!(announced.len(), 61);
    assert_eq!(&announced[..50], &grid_keys[..]);
    assert_eq!(
        &announced[50..],
        &[
            Key::Backspace,
            Key::Space,
            Key::Enter,
            Key::LeftShift,
            Key::LeftCtrl,
            Key::PageUp,
            Key::PageDown,
            Key::Up,
            Key::Down,
            Key::Left,
            Key::Right,
        ]
    );
    assert_eq!(announced[0], Key::Grave);
    assert_eq!(announced[13], Key::Tab);
}
