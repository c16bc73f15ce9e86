//! The key grid: which key sits in which cell, what it reads (plain and
//! shifted), and the evdev code it types.

use vstd::prelude::*;

verus! {

/// Number of columns in the grid (the width of the widest, qwerty row).
pub const COLS: usize = 14;
/// Number of rows in the grid.
pub const ROWS: usize = 4;

/// The keys this keyboard can type, named as in the Linux input layer.
/// `code` gives each one's evdev key code, which is what uinput is told.
#[derive(Clone, Copy, PartialEq, Eq, Structural, Debug, Hash)]
pub enum Key {
    Esc,
    Num1,
    Num2,
    Num3,
    Num4,
    Num5,
    Num6,
    Num7,
    Num8,
    Num9,
    Num0,
    Minus,
    Equal,
    Backspace,
    Tab,
    Q,
    W,
    E,
    R,
    T,
    Y,
    U,
    I,
    O,
    P,
    LeftBrace,
    RightBrace,
    Enter,
    LeftCtrl,
    A,
    S,
    D,
    F,
    G,
    H,
    J,
    K,
    L,
    Semicolon,
    Apostrophe,
    Grave,
    LeftShift,
    Backslash,
    Z,
    X,
    C,
    V,
    B,
    N,
    M,
    Comma,
    Dot,
    Slash,
    Space,
    Up,
    PageUp,
    Left,
    Right,
    Down,
    PageDown,
}

/// The evdev key code of `k` (linux/input-event-codes.h).
pub open spec fn key_code(k: Key) -> u16 {
    match k {
        Key::Esc => 1,
        Key::Num1 => 2,
        Key::Num2 => 3,
        Key::Num3 => 4,
        Key::Num4 => 5,
        Key::Num5 => 6,
        Key::Num6 => 7,
        Key::Num7 => 8,
        Key::Num8 => 9,
        Key::Num9 => 10,
        Key::Num0 => 11,
        Key::Minus => 12,
        Key::Equal => 13,
        Key::Backspace => 14,
        Key::Tab => 15,
        Key::Q => 16,
        Key::W => 17,
        Key::E => 18,
        Key::R => 19,
        Key::T => 20,
        Key::Y => 21,
        Key::U => 22,
        Key::I => 23,
        Key::O => 24,
        Key::P => 25,
        Key::LeftBrace => 26,
        Key::RightBrace => 27,
        Key::Enter => 28,
        Key::LeftCtrl => 29,
        Key::A => 30,
        Key::S => 31,
        Key::D => 32,
        Key::F => 33,
        Key::G => 34,
        Key::H => 35,
        Key::J => 36,
        Key::K => 37,
        Key::L => 38,
        Key::Semicolon => 39,
        Key::Apostrophe => 40,
        Key::Grave => 41,
        Key::LeftShift => 42,
        Key::Backslash => 43,
        Key::Z => 44,
        Key::X => 45,
        Key::C => 46,
        Key::V => 47,
        Key::B => 48,
        Key::N => 49,
        Key::M => 50,
        Key::Comma => 51,
        Key::Dot => 52,
        Key::Slash => 53,
        Key::Space => 57,
        Key::Up => 103,
        Key::PageUp => 104,
        Key::Left => 105,
        Key::Right => 106,
        Key::Down => 108,
        Key::PageDown => 109,
    }
}

/// The key whose evdev code is `code`, if it is one of ours.
pub open spec fn key_with_code(code: u16) -> Option<Key> {
    match code {
        1 => Some(Key::Esc),
        2 => Some(Key::Num1),
        3 => Some(Key::Num2),
        4 => Some(Key::Num3),
        5 => Some(Key::Num4),
        6 => Some(Key::Num5),
        7 => Some(Key::Num6),
        8 => Some(Key::Num7),
        9 => Some(Key::Num8),
        10 => Some(Key::Num9),
        11 => Some(Key::Num0),
        12 => Some(Key::Minus),
        13 => Some(Key::Equal),
        14 => Some(Key::Backspace),
        15 => Some(Key::Tab),
        16 => Some(Key::Q),
        17 => Some(Key::W),
        18 => Some(Key::E),
        19 => Some(Key::R),
        20 => Some(Key::T),
        21 => Some(Key::Y),
        22 => Some(Key::U),
        23 => Some(Key::I),
        24 => Some(Key::O),
        25 => Some(Key::P),
        26 => Some(Key::LeftBrace),
        27 => Some(Key::RightBrace),
        28 => Some(Key::Enter),
        29 => Some(Key::LeftCtrl),
        30 => Some(Key::A),
        31 => Some(Key::S),
        32 => Some(Key::D),
        33 => Some(Key::F),
        34 => Some(Key::G),
        35 => Some(Key::H),
        36 => Some(Key::J),
        37 => Some(Key::K),
        38 => Some(Key::L),
        39 => Some(Key::Semicolon),
        40 => Some(Key::Apostrophe),
        41 => Some(Key::Grave),
        42 => Some(Key::LeftShift),
        43 => Some(Key::Backslash),
        44 => Some(Key::Z),
        45 => Some(Key::X),
        46 => Some(Key::C),
        47 => Some(Key::V),
        48 => Some(Key::B),
        49 => Some(Key::N),
        50 => Some(Key::M),
        51 => Some(Key::Comma),
        52 => Some(Key::Dot),
        53 => Some(Key::Slash),
        57 => Some(Key::Space),
        103 => Some(Key::Up),
        104 => Some(Key::PageUp),
        105 => Some(Key::Left),
        106 => Some(Key::Right),
        108 => Some(Key::Down),
        109 => Some(Key::PageDown),
        _ => None,
    }
}

impl Key {
    /// The evdev key code to emit for this key.
    pub fn code(&self) -> (c: u16)
        ensures
            c == key_code(*self),
    {
        match self {
            Key::Esc => 1,
            Key::Num1 => 2,
            Key::Num2 => 3,
            Key::Num3 => 4,
            Key::Num4 => 5,
            Key::Num5 => 6,
            Key::Num6 => 7,
            Key::Num7 => 8,
            Key::Num8 => 9,
            Key::Num9 => 10,
            Key::Num0 => 11,
            Key::Minus => 12,
            Key::Equal => 13,
            Key::Backspace => 14,
            Key::Tab => 15,
            Key::Q => 16,
            Key::W => 17,
            Key::E => 18,
            Key::R => 19,
            Key::T => 20,
            Key::Y => 21,
            Key::U => 22,
            Key::I => 23,
            Key::O => 24,
            Key::P => 25,
            Key::LeftBrace => 26,
            Key::RightBrace => 27,
            Key::Enter => 28,
            Key::LeftCtrl => 29,
            Key::A => 30,
            Key::S => 31,
            Key::D => 32,
            Key::F => 33,
            Key::G => 34,
            Key::H => 35,
            Key::J => 36,
            Key::K => 37,
            Key::L => 38,
            Key::Semicolon => 39,
            Key::Apostrophe => 40,
            Key::Grave => 41,
            Key::LeftShift => 42,
            Key::Backslash => 43,
            Key::Z => 44,
            Key::X => 45,
            Key::C => 46,
            Key::V => 47,
            Key::B => 48,
            Key::N => 49,
            Key::M => 50,
            Key::Comma => 51,
            Key::Dot => 52,
            Key::Slash => 53,
            Key::Space => 57,
            Key::Up => 103,
            Key::PageUp => 104,
            Key::Left => 105,
            Key::Right => 106,
            Key::Down => 108,
            Key::PageDown => 109,
        }
    }
}

/// Reading a key back from its code gives the key again.
pub proof fn lemma_key_with_code_inverts(k: Key)
    ensures
        key_with_code(key_code(k)) == Some(k),
{
}

/// No two keys share an evdev code.
pub proof fn lemma_key_codes_distinct(a: Key, b: Key)
    requires
        a != b,
    ensures
        key_code(a) != key_code(b),
{
    lemma_key_with_code_inverts(a);
    lemma_key_with_code_inverts(b);
}

/// One typeable cell of the grid.
#[derive(Copy, Clone, Debug)]
pub struct KeyDef {
    pub label: &'static str,
    pub shifted: &'static str,
    pub code: Key,
}

/// What a cell shows and types, as sequences of characters.
#[verifier::ext_equal]
pub struct KeyModel {
    pub label: Seq<char>,
    pub shifted: Seq<char>,
    pub code: Key,
}

impl View for KeyDef {
    type V = KeyModel;

    open spec fn view(&self) -> KeyModel {
        KeyModel { label: self.label@, shifted: self.shifted@, code: self.code }
    }
}

/// The model of a grid cell: `None` for an empty cell.
pub open spec fn cell_view(cell: Option<KeyDef>) -> Option<KeyModel> {
    match cell {
        Some(k) => Some(k@),
        None => None,
    }
}

/// The grid, cell by cell. Each row holds the keys of the matching row of
/// an ANSI keyboard, its trailing punctuation included; rows shorter than
/// the qwerty row end in empty cells.
pub open spec fn key_cell(row: int, col: int) -> Option<KeyModel> {
    if row == 0 {
        if col == 0 {
            Some(KeyModel { label: seq!['`'], shifted: seq!['~'], code: Key::Grave })
        } else if col == 1 {
            Some(KeyModel { label: seq!['1'], shifted: seq!['!'], code: Key::Num1 })
        } else if col == 2 {
            Some(KeyModel { label: seq!['2'], shifted: seq!['@'], code: Key::Num2 })
        } else if col == 3 {
            Some(KeyModel { label: seq!['3'], shifted: seq!['#'], code: Key::Num3 })
        } else if col == 4 {
            Some(KeyModel { label: seq!['4'], shifted: seq!['$'], code: Key::Num4 })
        } else if col == 5 {
            Some(KeyModel { label: seq!['5'], shifted: seq!['%'], code: Key::Num5 })
        } else if col == 6 {
            Some(KeyModel { label: seq!['6'], shifted: seq!['^'], code: Key::Num6 })
        } else if col == 7 {
            Some(KeyModel { label: seq!['7'], shifted: seq!['&'], code: Key::Num7 })
        } else if col == 8 {
            Some(KeyModel { label: seq!['8'], shifted: seq!['*'], code: Key::Num8 })
        } else if col == 9 {
            Some(KeyModel { label: seq!['9'], shifted: seq!['('], code: Key::Num9 })
        } else if col == 10 {
            Some(KeyModel { label: seq!['0'], shifted: seq![')'], code: Key::Num0 })
        } else if col == 11 {
            Some(KeyModel { label: seq!['-'], shifted: seq!['_'], code: Key::Minus })
        } else if col == 12 {
            Some(KeyModel { label: seq!['='], shifted: seq!['+'], code: Key::Equal })
        } else {
            None
        }
    } else if row == 1 {
        if col == 0 {
            Some(KeyModel { label: seq!['T', 'a', 'b'], shifted: seq!['T', 'a', 'b'], code: Key::Tab })
        } else if col == 1 {
            Some(KeyModel { label: seq!['q'], shifted: seq!['Q'], code: Key::Q })
        } else if col == 2 {
            Some(KeyModel { label: seq!['w'], shifted: seq!['W'], code: Key::W })
        } else if col == 3 {
            Some(KeyModel { label: seq!['e'], shifted: seq!['E'], code: Key::E })
        } else if col == 4 {
            Some(KeyModel { label: seq!['r'], shifted: seq!['R'], code: Key::R })
        } else if col == 5 {
            Some(KeyModel { label: seq!['t'], shifted: seq!['T'], code: Key::T })
        } else if col == 6 {
            Some(KeyModel { label: seq!['y'], shifted: seq!['Y'], code: Key::Y })
        } else if col == 7 {
            Some(KeyModel { label: seq!['u'], shifted: seq!['U'], code: Key::U })
        } else if col == 8 {
            Some(KeyModel { label: seq!['i'], shifted: seq!['I'], code: Key::I })
        } else if col == 9 {
            Some(KeyModel { label: seq!['o'], shifted: seq!['O'], code: Key::O })
        } else if col == 10 {
            Some(KeyModel { label: seq!['p'], shifted: seq!['P'], code: Key::P })
        } else if col == 11 {
            Some(KeyModel { label: seq!['['], shifted: seq!['{'], code: Key::LeftBrace })
        } else if col == 12 {
            Some(KeyModel { label: seq![']'], shifted: seq!['}'], code: Key::RightBrace })
        } else if col == 13 {
            Some(KeyModel { label: seq!['\\'], shifted: seq!['|'], code: Key::Backslash })
        } else {
            None
        }
    } else if row == 2 {
        if col == 0 {
            Some(KeyModel { label: seq!['a'], shifted: seq!['A'], code: Key::A })
        } else if col == 1 {
            Some(KeyModel { label: seq!['s'], shifted: seq!['S'], code: Key::S })
        } else if col == 2 {
            Some(KeyModel { label: seq!['d'], shifted: seq!['D'], code: Key::D })
        } else if col == 3 {
            Some(KeyModel { label: seq!['f'], shifted: seq!['F'], code: Key::F })
        } else if col == 4 {
            Some(KeyModel { label: seq!['g'], shifted: seq!['G'], code: Key::G })
        } else if col == 5 {
            Some(KeyModel { label: seq!['h'], shifted: seq!['H'], code: Key::H })
        } else if col == 6 {
            Some(KeyModel { label: seq!['j'], shifted: seq!['J'], code: Key::J })
        } else if col == 7 {
            Some(KeyModel { label: seq!['k'], shifted: seq!['K'], code: Key::K })
        } else if col == 8 {
            Some(KeyModel { label: seq!['l'], shifted: seq!['L'], code: Key::L })
        } else if col == 9 {
            Some(KeyModel { label: seq![';'], shifted: seq![':'], code: Key::Semicolon })
        } else if col == 10 {
            Some(KeyModel { label: seq!['\''], shifted: seq!['"'], code: Key::Apostrophe })
        } else if col == 11 {
            Some(KeyModel { label: seq!['E', 'n', 't'], shifted: seq!['E', 'n', 't'], code: Key::Enter })
        } else {
            None
        }
    } else if row == 3 {
        if col == 0 {
            Some(KeyModel { label: seq!['E', 's', 'c'], shifted: seq!['E', 's', 'c'], code: Key::Esc })
        } else if col == 1 {
            Some(KeyModel { label: seq!['z'], shifted: seq!['Z'], code: Key::Z })
        } else if col == 2 {
            Some(KeyModel { label: seq!['x'], shifted: seq!['X'], code: Key::X })
        } else if col == 3 {
            Some(KeyModel { label: seq!['c'], shifted: seq!['C'], code: Key::C })
        } else if col == 4 {
            Some(KeyModel { label: seq!['v'], shifted: seq!['V'], code: Key::V })
        } else if col == 5 {
            Some(KeyModel { label: seq!['b'], shifted: seq!['B'], code: Key::B })
        } else if col == 6 {
            Some(KeyModel { label: seq!['n'], shifted: seq!['N'], code: Key::N })
        } else if col == 7 {
            Some(KeyModel { label: seq!['m'], shifted: seq!['M'], code: Key::M })
        } else if col == 8 {
            Some(KeyModel { label: seq![','], shifted: seq!['<'], code: Key::Comma })
        } else if col == 9 {
            Some(KeyModel { label: seq!['.'], shifted: seq!['>'], code: Key::Dot })
        } else if col == 10 {
            Some(KeyModel { label: seq!['/'], shifted: seq!['?'], code: Key::Slash })
        } else {
            None
        }
    } else {
        None
    }
}

/// The key code in cell `(row, col)`, or `None` for an empty cell.
pub open spec fn cell_code(row: int, col: int) -> Option<Key> {
    match key_cell(row, col) {
        Some(m) => Some(m.code),
        None => None,
    }
}

/// Where a key sits in the grid, if it is there at all.
pub open spec fn key_position(k: Key) -> Option<(int, int)> {
    match k {
        Key::Grave => Some((0, 0)),
        Key::Num1 => Some((0, 1)),
        Key::Num2 => Some((0, 2)),
        Key::Num3 => Some((0, 3)),
        Key::Num4 => Some((0, 4)),
        Key::Num5 => Some((0, 5)),
        Key::Num6 => Some((0, 6)),
        Key::Num7 => Some((0, 7)),
        Key::Num8 => Some((0, 8)),
        Key::Num9 => Some((0, 9)),
        Key::Num0 => Some((0, 10)),
        Key::Minus => Some((0, 11)),
        Key::Equal => Some((0, 12)),
        Key::Tab => Some((1, 0)),
        Key::Q => Some((1, 1)),
        Key::W => Some((1, 2)),
        Key::E => Some((1, 3)),
        Key::R => Some((1, 4)),
        Key::T => Some((1, 5)),
        Key::Y => Some((1, 6)),
        Key::U => Some((1, 7)),
        Key::I => Some((1, 8)),
        Key::O => Some((1, 9)),
        Key::P => Some((1, 10)),
        Key::LeftBrace => Some((1, 11)),
        Key::RightBrace => Some((1, 12)),
        Key::Backslash => Some((1, 13)),
        Key::A => Some((2, 0)),
        Key::S => Some((2, 1)),
        Key::D => Some((2, 2)),
        Key::F => Some((2, 3)),
        Key::G => Some((2, 4)),
        Key::H => Some((2, 5)),
        Key::J => Some((2, 6)),
        Key::K => Some((2, 7)),
        Key::L => Some((2, 8)),
        Key::Semicolon => Some((2, 9)),
        Key::Apostrophe => Some((2, 10)),
        Key::Enter => Some((2, 11)),
        Key::Esc => Some((3, 0)),
        Key::Z => Some((3, 1)),
        Key::X => Some((3, 2)),
        Key::C => Some((3, 3)),
        Key::V => Some((3, 4)),
        Key::B => Some((3, 5)),
        Key::N => Some((3, 6)),
        Key::M => Some((3, 7)),
        Key::Comma => Some((3, 8)),
        Key::Dot => Some((3, 9)),
        Key::Slash => Some((3, 10)),
        _ => None,
    }
}

/// How many real keys row `row` holds; its remaining cells are empty.
pub open spec fn row_length(row: int) -> int {
    if row == 0 {
        13
    } else if row == 1 {
        14
    } else if row == 2 {
        12
    } else {
        11
    }
}

/// True of exactly the letters `a`..`z` and `A`..`Z`.
pub open spec fn is_ascii_letter(ch: char) -> bool {
    ('a' <= ch && ch <= 'z') || ('A' <= ch && ch <= 'Z')
}

/// The upper-case form of an ASCII letter; any other character is unchanged.
pub open spec fn ascii_upper(ch: char) -> char {
    if 'a' <= ch && ch <= 'z' {
        ((ch as int) - 32) as char
    } else {
        ch
    }
}

/// Splits a claim about every cell into one claim per cell.
proof fn lemma_cell_cases(r: int, c: int)
    requires
        0 <= r < ROWS,
        0 <= c < COLS,
    ensures
        r == 0 || r == 1 || r == 2 || r == 3,
        c == 0 || c == 1 || c == 2 || c == 3 || c == 4 || c == 5 || c == 6 || c == 7 || c == 8 || c == 9 || c == 10 || c == 11 || c == 12 || c == 13,
{
}

/// A row runs out of real keys at its length: every cell before it holds a
/// key, every cell after it is empty.
pub proof fn lemma_rows_end_in_empty_cells(r: int, c: int)
    requires
        0 <= r < ROWS,
        0 <= c < COLS,
    ensures
        key_cell(r, c).is_some() <==> c < row_length(r),
{
    lemma_cell_cases(r, c);
}

/// Each key's position, read back from its code, is the cell it sits in.
proof fn lemma_key_position_of_cell(r: int, c: int)
    requires
        0 <= r < ROWS,
        0 <= c < COLS,
        key_cell(r, c).is_some(),
    ensures
        key_position(key_cell(r, c).unwrap().code) == Some((r, c)),
{
    lemma_cell_cases(r, c);
}

/// No key code appears in two cells of the grid.
pub proof fn lemma_grid_codes_unique(r1: int, c1: int, r2: int, c2: int)
    requires
        0 <= r1 < ROWS,
        0 <= c1 < COLS,
        0 <= r2 < ROWS,
        0 <= c2 < COLS,
        key_cell(r1, c1).is_some(),
        key_cell(r2, c2).is_some(),
        r1 != r2 || c1 != c2,
    ensures
        key_cell(r1, c1).unwrap().code != key_cell(r2, c2).unwrap().code,
{
    lemma_key_position_of_cell(r1, c1);
    lemma_key_position_of_cell(r2, c2);
}

/// A key labelled with a single letter types that letter's upper case
/// when shifted.
pub proof fn lemma_letters_shift_to_uppercase(r: int, c: int)
    requires
        0 <= r < ROWS,
        0 <= c < COLS,
        key_cell(r, c).is_some(),
        key_cell(r, c).unwrap().label.len() == 1,
        is_ascii_letter(key_cell(r, c).unwrap().label[0]),
    ensures
        key_cell(r, c).unwrap().shifted == seq![ascii_upper(key_cell(r, c).unwrap().label[0])],
{
    lemma_cell_cases(r, c);
}

/// A key whose label is a word (Tab, Ent, Esc) has no shifted variant: it
/// reads the same with shift held.
pub proof fn lemma_word_keys_do_not_shift(r: int, c: int)
    requires
        0 <= r < ROWS,
        0 <= c < COLS,
        key_cell(r, c).is_some(),
        key_cell(r, c).unwrap().label.len() > 1,
    ensures
        key_cell(r, c).unwrap().shifted == key_cell(r, c).unwrap().label,
{
    lemma_cell_cases(r, c);
}

fn kd(label: &'static str, shifted: &'static str, code: Key) -> (k: KeyDef)
    ensures
        k.label == label,
        k.shifted == shifted,
        k.code == code,
{
    KeyDef { label, shifted, code }
}

/// The key grid, `ROWS` rows of `COLS` cells.
pub fn keys() -> (grid: [[Option<KeyDef>; COLS]; ROWS])
    ensures
        forall|r: int, c: int|
            0 <= r < ROWS && 0 <= c < COLS ==> #[trigger] cell_view(grid[r][c]) == key_cell(r, c),
{
    let grid = [
        [
            Some(kd("`", "~", Key::Grave)),
            Some(kd("1", "!", Key::Num1)),
            Some(kd("2", "@", Key::Num2)),
            Some(kd("3", "#", Key::Num3)),
            Some(kd("4", "$", Key::Num4)),
            Some(kd("5", "%", Key::Num5)),
            Some(kd("6", "^", Key::Num6)),
            Some(kd("7", "&", Key::Num7)),
            Some(kd("8", "*", Key::Num8)),
            Some(kd("9", "(", Key::Num9)),
            Some(kd("0", ")", Key::Num0)),
            Some(kd("-", "_", Key::Minus)),
            Some(kd("=", "+", Key::Equal)),
            None,
        ],
        [
            Some(kd("Tab", "Tab", Key::Tab)),
            Some(kd("q", "Q", Key::Q)),
            Some(kd("w", "W", Key::W)),
            Some(kd("e", "E", Key::E)),
            Some(kd("r", "R", Key::R)),
            Some(kd("t", "T", Key::T)),
            Some(kd("y", "Y", Key::Y)),
            Some(kd("u", "U", Key::U)),
            Some(kd("i", "I", Key::I)),
            Some(kd("o", "O", Key::O)),
            Some(kd("p", "P", Key::P)),
            Some(kd("[", "{", Key::LeftBrace)),
            Some(kd("]", "}", Key::RightBrace)),
            Some(kd("\\", "|", Key::Backslash)),
        ],
        [
            Some(kd("a", "A", Key::A)),
            Some(kd("s", "S", Key::S)),
            Some(kd("d", "D", Key::D)),
            Some(kd("f", "F", Key::F)),
            Some(kd("g", "G", Key::G)),
            Some(kd("h", "H", Key::H)),
            Some(kd("j", "J", Key::J)),
            Some(kd("k", "K", Key::K)),
            Some(kd("l", "L", Key::L)),
            Some(kd(";", ":", Key::Semicolon)),
            Some(kd("'", "\"", Key::Apostrophe)),
            Some(kd("Ent", "Ent", Key::Enter)),
            None,
            None,
        ],
        [
            Some(kd("Esc", "Esc", Key::Esc)),
            Some(kd("z", "Z", Key::Z)),
            Some(kd("x", "X", Key::X)),
            Some(kd("c", "C", Key::C)),
            Some(kd("v", "V", Key::V)),
            Some(kd("b", "B", Key::B)),
            Some(kd("n", "N", Key::N)),
            Some(kd("m", "M", Key::M)),
            Some(kd(",", "<", Key::Comma)),
            Some(kd(".", ">", Key::Dot)),
            Some(kd("/", "?", Key::Slash)),
            None,
            None,
            None,
        ],
    ];
    proof {
        reveal_strlit("`");
        reveal_strlit("~");
        reveal_strlit("1");
        reveal_strlit("!");
        reveal_strlit("2");
        reveal_strlit("@");
        reveal_strlit("3");
        reveal_strlit("#");
        reveal_strlit("4");
        reveal_strlit("$");
        reveal_strlit("5");
        reveal_strlit("%");
        reveal_strlit("6");
        reveal_strlit("^");
        reveal_strlit("7");
        reveal_strlit("&");
        reveal_strlit("8");
        reveal_strlit("*");
        reveal_strlit("9");
        reveal_strlit("(");
        reveal_strlit("0");
        reveal_strlit(")");
        reveal_strlit("-");
        reveal_strlit("_");
        reveal_strlit("=");
        reveal_strlit("+");
        reveal_strlit("Tab");
        reveal_strlit("q");
        reveal_strlit("Q");
        reveal_strlit("w");
        reveal_strlit("W");
        reveal_strlit("e");
        reveal_strlit("E");
        reveal_strlit("r");
        reveal_strlit("R");
        reveal_strlit("t");
        reveal_strlit("T");
        reveal_strlit("y");
        reveal_strlit("Y");
        reveal_strlit("u");
        reveal_strlit("U");
        reveal_strlit("i");
        reveal_strlit("I");
        reveal_strlit("o");
        reveal_strlit("O");
        reveal_strlit("p");
        reveal_strlit("P");
        reveal_strlit("[");
        reveal_strlit("{");
        reveal_strlit("]");
        reveal_strlit("}");
        reveal_strlit("\\");
        reveal_strlit("|");
        reveal_strlit("a");
        reveal_strlit("A");
        reveal_strlit("s");
        reveal_strlit("S");
        reveal_strlit("d");
        reveal_strlit("D");
        reveal_strlit("f");
        reveal_strlit("F");
        reveal_strlit("g");
        reveal_strlit("G");
        reveal_strlit("h");
        reveal_strlit("H");
        reveal_strlit("j");
        reveal_strlit("J");
        reveal_strlit("k");
        reveal_strlit("K");
        reveal_strlit("l");
        reveal_strlit("L");
        reveal_strlit(";");
        reveal_strlit(":");
        reveal_strlit("'");
        reveal_strlit("\"");
        reveal_strlit("Ent");
        reveal_strlit("Esc");
        reveal_strlit("z");
        reveal_strlit("Z");
        reveal_strlit("x");
        reveal_strlit("X");
        reveal_strlit("c");
        reveal_strlit("C");
        reveal_strlit("v");
        reveal_strlit("V");
        reveal_strlit("b");
        reveal_strlit("B");
        reveal_strlit("n");
        reveal_strlit("N");
        reveal_strlit("m");
        reveal_strlit("M");
        reveal_strlit(",");
        reveal_strlit("<");
        reveal_strlit(".");
        reveal_strlit(">");
        reveal_strlit("/");
        reveal_strlit("?");
        assert(cell_view(grid[0][0]) =~~= key_cell(0, 0));
        assert(cell_view(grid[0][1]) =~~= key_cell(0, 1));
        assert(cell_view(grid[0][2]) =~~= key_cell(0, 2));
        assert(cell_view(grid[0][3]) =~~= key_cell(0, 3));
        assert(cell_view(grid[0][4]) =~~= key_cell(0, 4));
        assert(cell_view(grid[0][5]) =~~= key_cell(0, 5));
        assert(cell_view(grid[0][6]) =~~= key_cell(0, 6));
        assert(cell_view(grid[0][7]) =~~= key_cell(0, 7));
        assert(cell_view(grid[0][8]) =~~= key_cell(0, 8));
        assert(cell_view(grid[0][9]) =~~= key_cell(0, 9));
        assert(cell_view(grid[0][10]) =~~= key_cell(0, 10));
        assert(cell_view(grid[0][11]) =~~= key_cell(0, 11));
        assert(cell_view(grid[0][12]) =~~= key_cell(0, 12));
        assert(cell_view(grid[0][13]) =~~= key_cell(0, 13));
        assert(cell_view(grid[1][0]) =~~= key_cell(1, 0));
        assert(cell_view(grid[1][1]) =~~= key_cell(1, 1));
        assert(cell_view(grid[1][2]) =~~= key_cell(1, 2));
        assert(cell_view(grid[1][3]) =~~= key_cell(1, 3));
        assert(cell_view(grid[1][4]) =~~= key_cell(1, 4));
        assert(cell_view(grid[1][5]) =~~= key_cell(1, 5));
        assert(cell_view(grid[1][6]) =~~= key_cell(1, 6));
        assert(cell_view(grid[1][7]) =~~= key_cell(1, 7));
        assert(cell_view(grid[1][8]) =~~= key_cell(1, 8));
        assert(cell_view(grid[1][9]) =~~= key_cell(1, 9));
        assert(cell_view(grid[1][10]) =~~= key_cell(1, 10));
        assert(cell_view(grid[1][11]) =~~= key_cell(1, 11));
        assert(cell_view(grid[1][12]) =~~= key_cell(1, 12));
        assert(cell_view(grid[1][13]) =~~= key_cell(1, 13));
        assert(cell_view(grid[2][0]) =~~= key_cell(2, 0));
        assert(cell_view(grid[2][1]) =~~= key_cell(2, 1));
        assert(cell_view(grid[2][2]) =~~= key_cell(2, 2));
        assert(cell_view(grid[2][3]) =~~= key_cell(2, 3));
        assert(cell_view(grid[2][4]) =~~= key_cell(2, 4));
        assert(cell_view(grid[2][5]) =~~= key_cell(2, 5));
        assert(cell_view(grid[2][6]) =~~= key_cell(2, 6));
        assert(cell_view(grid[2][7]) =~~= key_cell(2, 7));
        assert(cell_view(grid[2][8]) =~~= key_cell(2, 8));
        assert(cell_view(grid[2][9]) =~~= key_cell(2, 9));
        assert(cell_view(grid[2][10]) =~~= key_cell(2, 10));
        assert(cell_view(grid[2][11]) =~~= key_cell(2, 11));
        assert(cell_view(grid[2][12]) =~~= key_cell(2, 12));
        assert(cell_view(grid[2][13]) =~~= key_cell(2, 13));
        assert(cell_view(grid[3][0]) =~~= key_cell(3, 0));
        assert(cell_view(grid[3][1]) =~~= key_cell(3, 1));
        assert(cell_view(grid[3][2]) =~~= key_cell(3, 2));
        assert(cell_view(grid[3][3]) =~~= key_cell(3, 3));
        assert(cell_view(grid[3][4]) =~~= key_cell(3, 4));
        assert(cell_view(grid[3][5]) =~~= key_cell(3, 5));
        assert(cell_view(grid[3][6]) =~~= key_cell(3, 6));
        assert(cell_view(grid[3][7]) =~~= key_cell(3, 7));
        assert(cell_view(grid[3][8]) =~~= key_cell(3, 8));
        assert(cell_view(grid[3][9]) =~~= key_cell(3, 9));
        assert(cell_view(grid[3][10]) =~~= key_cell(3, 10));
        assert(cell_view(grid[3][11]) =~~= key_cell(3, 11));
        assert(cell_view(grid[3][12]) =~~= key_cell(3, 12));
        assert(cell_view(grid[3][13]) =~~= key_cell(3, 13));
        assert forall|r: int, c: int| 0 <= r < ROWS && 0 <= c < COLS implies #[trigger] cell_view(grid[r][c]) == key_cell(r, c) by {
            assert(r == 0 || r == 1 || r == 2 || r == 3);
            assert(c == 0 || c == 1 || c == 2 || c == 3 || c == 4 || c == 5 || c == 6 || c == 7 || c == 8 || c == 9 || c == 10 || c == 11 || c == 12 || c == 13);
        }
    }
    grid
}

/// The keys typed from pad buttons rather than from the grid, so they cost
/// no cells: backspace, space and enter, the held modifiers, and R1's
/// paging and arrow keys.
pub fn extra_keys() -> (keys: [Key; 11])
    ensures
        keys@ == seq![
            Key::Backspace,
            Key::Space,
            Key::Enter,
            Key::LeftShift,
            Key::LeftCtrl,
            Key::PageUp,
            Key::PageDown,
            Key::Up,
            Key::Down,
            Key::Left,
            Key::Right,
        ],
{
    [
        Key::Backspace,
        Key::Space,
        Key::Enter,
        Key::LeftShift,
        Key::LeftCtrl,
        Key::PageUp,
        Key::PageDown,
        Key::Up,
        Key::Down,
        Key::Left,
        Key::Right,
    ]
}

/// What every pad button does, as shown above the grid.
pub const LEGEND: &'static str = "A type  B back  Y space  X enter  L1 shift  L2 ctrl  R1 nav  Select quit";

/// What the pad does while R1's nav chord is held, shown in place of
/// `LEGEND`.
pub const LEGEND_R1: &'static str = "D-pad arrows  X pgup  B pgdn  Y tab  A esc  release R1 to type";

} // verus!
