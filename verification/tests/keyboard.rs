use gpkbd::keyboard::{Keyboard, RepeatAction, NS_PER_MS};
use gpkbd::keys::{Key, COLS, ROWS};

// A reading of the monotonic clock, in nanoseconds.
const T0: u64 = 5_000 * NS_PER_MS;

fn ms(n: u64) -> u64 {
    n * NS_PER_MS
}

#[test]
fn move_sel_wraps_at_grid_edges() {
    let mut kb = Keyboard::new();
    kb.move_sel(0, -1);
    assert_eq!((kb.sel_row, kb.sel_col), (0, COLS - 1));

    let mut kb = Keyboard::new();
    kb.move_sel(-1, 0);
    assert_eq!((kb.sel_row, kb.sel_col), (ROWS - 1, 0));

    let mut kb = Keyboard::new();
    for _ in 0..COLS {
        kb.move_sel(0, 1);
    }
    assert_eq!((kb.sel_row, kb.sel_col), (0, 0));
}

#[test]
fn modifiers_reads_held_state_without_clearing_it() {
    let mut kb = Keyboard::new();
    kb.set_shift(true);
    kb.dirty = false;

    assert_eq!(kb.modifiers(), (true, false));
    assert_eq!((kb.shift, kb.ctrl), (true, false));
    assert!(!kb.dirty);
}

#[test]
fn modifiers_are_false_by_default() {
    let kb = Keyboard::new();
    assert_eq!(kb.modifiers(), (false, false));
}

#[test]
fn repeat_fires_after_delay_then_at_interval() {
    let mut kb = Keyboard::new();
    let t0 = T0;
    kb.start_repeat(RepeatAction::Move(0, 1), t0);

    assert_eq!(kb.repeat_timeout_ms(t0), 400);
    assert_eq!(kb.tick_repeat(t0 + ms(399)), None);
    assert_eq!(kb.sel_col, 0);

    let t1 = t0 + ms(400);
    assert_eq!(kb.tick_repeat(t1), Some(RepeatAction::Move(0, 1)));
    assert_eq!(kb.sel_col, 1);

    assert_eq!(kb.tick_repeat(t1 + ms(119)), None);
    assert_eq!(kb.tick_repeat(t1 + ms(120)), Some(RepeatAction::Move(0, 1)));
    assert_eq!(kb.sel_col, 2);
}

#[test]
fn repeat_of_a_tap_does_not_move_the_selection() {
    let mut kb = Keyboard::new();
    let t0 = T0;
    kb.start_repeat(RepeatAction::Tap(Key::PageDown), t0);

    let t1 = t0 + ms(400);
    assert_eq!(kb.tick_repeat(t1), Some(RepeatAction::Tap(Key::PageDown)));
    assert_eq!((kb.sel_row, kb.sel_col), (0, 0));
}

#[test]
fn stop_repeat_cancels_pending_repeats() {
    let mut kb = Keyboard::new();
    let t0 = T0;
    kb.start_repeat(RepeatAction::Move(0, 1), t0);
    kb.stop_repeat();

    assert_eq!(kb.repeat_timeout_ms(t0), -1);
    assert_eq!(kb.tick_repeat(t0 + 10_000 * NS_PER_MS), None);
}

#[test]
fn timeout_counts_down_to_the_due_repeat_in_whole_milliseconds() {
    let mut kb = Keyboard::new();
    assert_eq!(kb.repeat_timeout_ms(T0), -1);
    kb.start_repeat(RepeatAction::Tap(Key::Up), T0);
    assert_eq!(kb.repeat_timeout_ms(T0 + ms(100)), 300);
    // Less than a millisecond left rounds down to zero.
    assert_eq!(kb.repeat_timeout_ms(T0 + ms(400) - 1), 0);
    assert_eq!(kb.repeat_timeout_ms(T0 + ms(400)), 0);
    assert_eq!(kb.repeat_timeout_ms(T0 + ms(1000)), 0);
}

#[test]
fn timeout_is_clamped_to_i32() {
    let mut kb = Keyboard::new();
    kb.start_repeat(RepeatAction::Tap(Key::Up), u64::MAX - 400 * NS_PER_MS);
    assert_eq!(kb.repeat_timeout_ms(0), i32::MAX);
}

#[test]
fn a_move_and_its_opposite_return_to_the_start() {
    let mut kb = Keyboard::new();
    kb.move_sel(2, 5);
    assert_eq!((kb.sel_row, kb.sel_col), (2, 5));
    kb.move_sel(3, 11);
    assert_eq!((kb.sel_row, kb.sel_col), (1, 2));
    kb.move_sel(-3, -11);
    assert_eq!((kb.sel_row, kb.sel_col), (2, 5));
}

#[test]
fn two_moves_equal_one_move_by_their_sum() {
    let mut a = Keyboard::new();
    a.move_sel(1, -3);
    a.move_sel(-6, 9);
    let mut b = Keyboard::new();
    b.move_sel(-5, 6);
    assert_eq!((a.sel_row, a.sel_col), (b.sel_row, b.sel_col));
}

#[test]
fn a_full_lap_leaves_the_selection_in_place() {
    let mut kb = Keyboard::new();
    kb.move_sel(1, 7);
    kb.move_sel(ROWS as i32, COLS as i32);
    assert_eq!((kb.sel_row, kb.sel_col), (1, 7));
}

#[test]
fn moving_marks_the_keyboard_dirty() {
    let mut kb = Keyboard::new();
    assert!(!kb.dirty);
    kb.move_sel(0, 0);
    assert!(kb.dirty);
}

#[test]
fn set_ctrl_and_latched() {
    let mut kb = Keyboard::new();
    assert!(!kb.latched());
    kb.set_ctrl(true);
    assert!(kb.latched());
    assert_eq!(kb.modifiers(), (false, true));
    kb.set_ctrl(false);
    assert!(!kb.latched());
    kb.set_shift(true);
    assert!(kb.latched());
}

#[test]
fn selected_key_reads_the_grid() {
    let mut kb = Keyboard::new();
    assert_eq!(kb.selected_key(), Some(Key::Grave));
    kb.move_sel(1, 1);
    assert_eq!(kb.selected_key(), Some(Key::Q));
    kb.move_sel(0, -2);
    assert_eq!(kb.selected_key(), Some(Key::Backslash));
    kb.move_sel(-1, 0);
    assert_eq!(kb.selected_key(), None);
}

#[test]
fn mark_dirty_only_sets_dirty() {
    let mut kb = Keyboard::new();
    kb.mark_dirty();
    assert!(kb.dirty);
    assert_eq!((kb.sel_row, kb.sel_col, kb.shift, kb.ctrl), (0, 0, false, false));
}

#[test]
fn clear_dirty_only_clears_dirty() {
    let mut kb = Keyboard::new();
    kb.set_shift(true);
    kb.move_sel(1, 2);
    kb.clear_dirty();
    assert!(!kb.dirty);
    assert_eq!((kb.sel_row, kb.sel_col, kb.shift, kb.ctrl), (1, 2, true, false));
}
