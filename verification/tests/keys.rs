use std::collections::HashSet;

use gpkbd::keys::{extra_keys, keys, Key, COLS, LEGEND, LEGEND_R1, ROWS};

#[test]
fn grid_dimensions_match_consts() {
    let grid = keys();
    assert_eq!(grid.len(), ROWS);
    for row in &grid {
        assert_eq!(row.len(), COLS);
    }
}

#[test]
fn every_key_code_is_unique() {
    let grid = keys();
    let mut seen = HashSet::new();
    for row in &grid {
        for key in row.iter().flatten() {
            assert!(seen.insert(key.code), "duplicate code for {:?}", key.label);
        }
    }
}

#[test]
fn digit_row_shifts_to_symbols() {
    let grid = keys();
    let expected = ["!", "@", "#", "$", "%", "^", "&", "*", "(", ")"];
    // Column 0 is the backtick; digits run from column 1.
    for (key, want) in grid[0][1..11].iter().zip(expected) {
        let key = key.unwrap();
        assert_eq!(key.shifted, want, "shifted label for {:?}", key.label);
    }
}

#[test]
fn letters_shift_to_uppercase() {
    let grid = keys();
    for key in grid.iter().flatten().flatten() {
        if key.label.len() == 1 && key.label.chars().next().unwrap().is_ascii_alphabetic() {
            assert_eq!(key.shifted, key.label.to_uppercase());
        }
    }
}

#[test]
fn keys_with_no_shift_variant_are_unchanged() {
    let grid = keys();
    assert_eq!(grid[1][0].unwrap().shifted, grid[1][0].unwrap().label); // Tab
    assert_eq!(grid[2][11].unwrap().shifted, grid[2][11].unwrap().label); // Ent
    assert_eq!(grid[3][0].unwrap().shifted, grid[3][0].unwrap().label); // Esc
}

#[test]
fn rows_shorter_than_the_qwerty_row_end_in_empty_cells() {
    let grid = keys();
    assert!(grid[0][13].is_none()); // digit row: 13 real keys
    assert!(grid[1].iter().all(Option::is_some)); // qwerty row: full, 14 keys
    assert!(grid[2][12].is_none()); // home row: 12 real keys
    assert!(grid[2][13].is_none());
    assert!(grid[3][11].is_none()); // bottom row: 11 real keys
    assert!(grid[3][12].is_none());
    assert!(grid[3][13].is_none());
}

#[test]
fn rows_hold_their_keys_up_to_their_length_and_nothing_after() {
    let grid = keys();
    let lengths = [13, 14, 12, 11];
    for (row, len) in grid.iter().zip(lengths) {
        for (c, cell) in row.iter().enumerate() {
            assert_eq!(cell.is_some(), c < len);
        }
    }
}

#[test]
fn grid_cells_hold_the_expected_keys() {
    let grid = keys();
    assert_eq!(grid[0][0].unwrap().code, Key::Grave);
    assert_eq!(grid[0][0].unwrap().label, "`");
    assert_eq!(grid[0][0].unwrap().shifted, "~");
    assert_eq!(grid[1][1].unwrap().code, Key::Q);
    assert_eq!(grid[1][13].unwrap().code, Key::Backslash);
    assert_eq!(grid[1][13].unwrap().label, "\\");
    assert_eq!(grid[1][13].unwrap().shifted, "|");
    assert_eq!(grid[2][10].unwrap().code, Key::Apostrophe);
    assert_eq!(grid[2][10].unwrap().shifted, "\"");
    assert_eq!(grid[2][11].unwrap().code, Key::Enter);
    assert_eq!(grid[3][10].unwrap().code, Key::Slash);
    assert_eq!(grid[3][10].unwrap().shifted, "?");
}

#[test]
fn extra_keys_are_the_pad_button_keys() {
    assert_eq!(
        extra_keys(),
        [
            Key::Backspace,
            Key::Space,
            Key::Enter,
            Key::LeftShift,
            Key::LeftCtrl,
            Key::PageUp,
            Key::PageDown,
            Key::Up,
            Key::Down,
            Key::Left,
            Key::Right,
        ]
    );
}

#[test]
fn key_codes_are_the_evdev_codes() {
    assert_eq!(Key::Esc.code(), 1);
    assert_eq!(Key::Q.code(), 16);
    assert_eq!(Key::Enter.code(), 28);
    assert_eq!(Key::Space.code(), 57);
    assert_eq!(Key::PageDown.code(), 109);
}

#[test]
fn legends_are_not_empty() {
    assert_eq!(LEGEND, "A type  B back  Y space  X enter  L1 shift  L2 ctrl  R1 nav  Select quit");
    assert!(LEGEND_R1.starts_with("D-pad arrows"));
}
