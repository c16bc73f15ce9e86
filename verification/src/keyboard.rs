//! Grid navigation, held modifiers and held-button auto-repeat.
//!
//! Time is a reading of a monotonic clock in nanoseconds; the caller owns the
//! clock and hands its readings in, so this module does no I/O.

use vstd::prelude::*;

use vstd::arithmetic::div_mod::{
    lemma_add_mod_noop, lemma_div_pos_is_pos, lemma_fundamental_div_mod, lemma_mod_add_multiples_vanish,
    lemma_mod_bound, lemma_mod_twice, lemma_small_mod,
};
use vstd::arithmetic::mul::lemma_mul_inequality;

use crate::keys::{cell_code, cell_view, keys, Key, COLS, ROWS};

verus! {

/// How long a direction or nav button must be held before it first repeats.
pub const REPEAT_DELAY_NS: u64 = 400_000_000;
/// How often a held action repeats after the first repeat.
pub const REPEAT_INTERVAL_NS: u64 = 120_000_000;
/// Nanoseconds per millisecond.
pub const NS_PER_MS: u64 = 1_000_000;

/// A held-button action that repeats until release: a grid move (applied
/// directly by `tick_repeat`) or a key tap (handed back to the caller, since
/// typing is I/O this state machine does not do itself).
#[derive(Clone, Copy, PartialEq, Eq, Structural, Debug)]
pub enum RepeatAction {
    Move(i32, i32),
    Tap(Key),
}

/// Navigation, modifier and held-button-repeat state for the grid.
pub struct Keyboard {
    pub sel_row: usize,
    pub sel_col: usize,
    pub shift: bool,
    pub ctrl: bool,
    pub dirty: bool,
    repeat_action: Option<RepeatAction>,
    repeat_at: u64,
}

/// The state of a `Keyboard`, field by field.
#[verifier::ext_equal]
pub struct KeyboardModel {
    pub sel_row: usize,
    pub sel_col: usize,
    pub shift: bool,
    pub ctrl: bool,
    pub dirty: bool,
    /// The action being held for auto-repeat, if any.
    pub pending: Option<RepeatAction>,
    /// When the held action next repeats.
    pub due_at: u64,
}

impl View for Keyboard {
    type V = KeyboardModel;

    closed spec fn view(&self) -> KeyboardModel {
        KeyboardModel {
            sel_row: self.sel_row,
            sel_col: self.sel_col,
            shift: self.shift,
            ctrl: self.ctrl,
            dirty: self.dirty,
            pending: self.repeat_action,
            due_at: self.repeat_at,
        }
    }
}

/// Whether stepping `pos` by `delta` stays in `i32`, as the wrap arithmetic
/// needs.
pub open spec fn can_step(pos: usize, delta: i32) -> bool {
    i32::MIN <= (pos as i32) + delta <= i32::MAX
}

/// `pos` stepped by `delta`, wrapped onto `0..n`.
pub open spec fn wrapped(pos: usize, delta: i32, n: int) -> usize {
    (((pos as i32) + delta) % n) as usize
}

/// Whether stepping `pos` by `delta` stays in `i32`.
pub fn step_fits(pos: usize, delta: i32) -> (b: bool)
    ensures
        b == can_step(pos, delta),
{
    let p = pos as i32 as i64;
    let s = p + delta as i64;
    i32::MIN as i64 <= s && s <= i32::MAX as i64
}

impl KeyboardModel {
    /// The selection lies on the grid.
    pub open spec fn on_grid(self) -> bool {
        self.sel_row < ROWS && self.sel_col < COLS
    }

    /// A held action is due to repeat at `now`.
    pub open spec fn repeat_due(self, now: u64) -> bool {
        self.pending is Some && self.due_at <= now
    }

    /// The poll timeout `repeat_timeout_ms` returns at `now`.
    pub open spec fn timeout_ms(self, now: u64) -> int {
        if self.pending is None {
            -1
        } else if self.due_at <= now {
            0
        } else {
            let ms = (self.due_at - now) / (NS_PER_MS as int);
            if ms < i32::MAX {
                ms
            } else {
                i32::MAX as int
            }
        }
    }

    /// The state after the due repeat fires at `now`: a held move is
    /// applied, and the next repeat is due an interval later.
    pub open spec fn fired(self, now: u64) -> KeyboardModel {
        match self.pending.unwrap() {
            RepeatAction::Move(dr, dc) => KeyboardModel {
                due_at: (now + REPEAT_INTERVAL_NS) as u64,
                ..self.moved(dr, dc)
            },
            RepeatAction::Tap(_) => KeyboardModel { due_at: (now + REPEAT_INTERVAL_NS) as u64, ..self },
        }
    }

    /// Firing a repeat due at `now` stays within the clock, and a held move
    /// within `i32`.
    pub open spec fn can_fire(self, now: u64) -> bool {
        self.repeat_due(now) ==> {
            &&& now + REPEAT_INTERVAL_NS <= u64::MAX
            &&& match self.pending.unwrap() {
                RepeatAction::Move(dr, dc) => can_step(self.sel_row, dr) && can_step(self.sel_col, dc),
                RepeatAction::Tap(_) => true,
            }
        }
    }

    /// The state with the selection moved by `(dr, dc)`, as `move_sel`
    /// leaves it.
    pub open spec fn moved(self, dr: i32, dc: i32) -> KeyboardModel {
        KeyboardModel {
            sel_row: wrapped(self.sel_row, dr, ROWS as int),
            sel_col: wrapped(self.sel_col, dc, COLS as int),
            dirty: true,
            ..self
        }
    }
}

impl Keyboard {
    /// A keyboard at the top-left key, with nothing held.
    pub fn new() -> (kb: Keyboard)
        ensures
            kb@ == (KeyboardModel {
                sel_row: 0,
                sel_col: 0,
                shift: false,
                ctrl: false,
                dirty: false,
                pending: None,
                due_at: 0,
            }),
    {
        Keyboard {
            sel_row: 0,
            sel_col: 0,
            shift: false,
            ctrl: false,
            dirty: false,
            repeat_action: None,
            repeat_at: 0,
        }
    }

    /// Moves the selection by `(dr, dc)` rows and columns, wrapping at the
    /// grid's edges, and marks the keyboard for redraw.
    pub fn move_sel(&mut self, dr: i32, dc: i32)
        requires
            can_step(old(self)@.sel_row, dr),
            can_step(old(self)@.sel_col, dc),
        ensures
            final(self)@ == old(self)@.moved(dr, dc),
            final(self)@.on_grid(),
    {
        let r = (self.sel_row as i32 + dr) % (ROWS as i32);
        let c = (self.sel_col as i32 + dc) % (COLS as i32);
        let r = if r < 0 { r + ROWS as i32 } else { r };
        let c = if c < 0 { c + COLS as i32 } else { c };
        self.sel_row = r as usize;
        self.sel_col = c as usize;
        self.dirty = true;
    }

    /// The key in the selected cell, or `None` on an empty cell.
    pub fn selected_key(&self) -> (k: Option<Key>)
        requires
            self@.on_grid(),
        ensures
            k == cell_code(self@.sel_row as int, self@.sel_col as int),
    {
        let grid = keys();
        proof {
            let _ = cell_view(grid[self.sel_row as int][self.sel_col as int]);
        }
        match grid[self.sel_row][self.sel_col] {
            Some(def) => Some(def.code),
            None => None,
        }
    }

    /// Sets shift to the pad's currently held state, the way a real
    /// keyboard's shift key works, rather than toggling.
    pub fn set_shift(&mut self, held: bool)
        ensures
            final(self)@ == (KeyboardModel { shift: held, dirty: true, ..old(self)@ }),
    {
        self.shift = held;
        self.dirty = true;
    }

    /// Sets ctrl to the pad's currently held state; see `set_shift`.
    pub fn set_ctrl(&mut self, held: bool)
        ensures
            final(self)@ == (KeyboardModel { ctrl: held, dirty: true, ..old(self)@ }),
    {
        self.ctrl = held;
        self.dirty = true;
    }

    /// Marks the keyboard for redraw, as when something it is drawn with
    /// changed outside it.
    pub fn mark_dirty(&mut self)
        ensures
            final(self)@ == (KeyboardModel { dirty: true, ..old(self)@ }),
    {
        self.dirty = true;
    }

    /// Marks the keyboard as drawn, once a frame showing it has been
    /// committed.
    pub fn clear_dirty(&mut self)
        ensures
            final(self)@ == (KeyboardModel { dirty: false, ..old(self)@ }),
    {
        self.dirty = false;
    }

    /// Whether any modifier is held.
    pub fn latched(&self) -> (b: bool)
        ensures
            b == (self@.shift || self@.ctrl),
    {
        self.shift || self.ctrl
    }

    /// Shift and Ctrl to apply to a tap: the held modifiers, read without
    /// consuming anything.
    pub fn modifiers(&self) -> (m: (bool, bool))
        ensures
            m == (self@.shift, self@.ctrl),
    {
        (self.shift, self.ctrl)
    }

    /// Begins auto-repeat for a just-pressed action.
    pub fn start_repeat(&mut self, action: RepeatAction, now: u64)
        requires
            now + REPEAT_DELAY_NS <= u64::MAX,
        ensures
            final(self)@ == (KeyboardModel {
                pending: Some(action),
                due_at: (now + REPEAT_DELAY_NS) as u64,
                ..old(self)@
            }),
    {
        self.repeat_action = Some(action);
        self.repeat_at = now + REPEAT_DELAY_NS;
    }

    /// Ends auto-repeat on release, whatever action was held.
    pub fn stop_repeat(&mut self)
        ensures
            final(self)@ == (KeyboardModel { pending: None, ..old(self)@ }),
    {
        self.repeat_action = None;
    }

    /// The poll timeout in milliseconds needed to wake for the next repeat,
    /// or -1 (block indefinitely) when nothing is held.
    pub fn repeat_timeout_ms(&self, now: u64) -> (t: i32)
        ensures
            t == self@.timeout_ms(now),
    {
        match self.repeat_action {
            None => -1,
            Some(_) => {
                if self.repeat_at <= now {
                    0
                } else {
                    let ms = (self.repeat_at - now) / NS_PER_MS;
                    if ms < i32::MAX as u64 {
                        ms as i32
                    } else {
                        i32::MAX
                    }
                }
            },
        }
    }

    /// Whether the selection lies on the grid.
    pub fn selection_on_grid(&self) -> (b: bool)
        ensures
            b == self@.on_grid(),
    {
        self.sel_row < ROWS && self.sel_col < COLS
    }

    /// Whether `move_sel(dr, dc)` can run: both steps stay within `i32`.
    pub fn can_move(&self, dr: i32, dc: i32) -> (b: bool)
        ensures
            b == (can_step(self@.sel_row, dr) && can_step(self@.sel_col, dc)),
    {
        step_fits(self.sel_row, dr) && step_fits(self.sel_col, dc)
    }

    /// Whether `tick_repeat(now)` can run: firing a due repeat stays within
    /// the clock, and a held move within `i32`.
    pub fn repeat_can_fire(&self, now: u64) -> (b: bool)
        ensures
            b == self@.can_fire(now),
    {
        match self.repeat_action {
            None => true,
            Some(action) => {
                if now < self.repeat_at {
                    true
                } else if now > u64::MAX - REPEAT_INTERVAL_NS {
                    false
                } else {
                    match action {
                        RepeatAction::Move(dr, dc) => step_fits(self.sel_row, dr) && step_fits(self.sel_col, dc),
                        RepeatAction::Tap(_) => true,
                    }
                }
            },
        }
    }

    /// Fires a repeat if one is due: a `Move` is applied to the selection
    /// and returned, a `Tap` is only returned, since typing it is the
    /// caller's job. `None`, with nothing changed, if nothing was due.
    pub fn tick_repeat(&mut self, now: u64) -> (fired: Option<RepeatAction>)
        requires
            old(self)@.can_fire(now),
        ensures
            !old(self)@.repeat_due(now) ==> fired is None && final(self)@ == old(self)@,
            old(self)@.repeat_due(now) ==> fired == old(self)@.pending && final(self)@ == old(self)@.fired(now),
    {
        let action = match self.repeat_action {
            Some(a) => a,
            None => {
                return None;
            },
        };
        if now < self.repeat_at {
            return None;
        }
        self.repeat_at = now + REPEAT_INTERVAL_NS;
        if let RepeatAction::Move(dr, dc) = action {
            self.move_sel(dr, dc);
        }
        Some(action)
    }
}

/// A move, wrapped at the edges, always lands on the grid.
pub proof fn lemma_moved_on_grid(m: KeyboardModel, dr: i32, dc: i32)
    requires
        can_step(m.sel_row, dr),
        can_step(m.sel_col, dc),
    ensures
        m.moved(dr, dc).on_grid(),
{
    lemma_mod_bound((m.sel_row as i32) + dr, ROWS as int);
    lemma_mod_bound((m.sel_col as i32) + dc, COLS as int);
}

/// A held action repeats until it is released: firing a due repeat keeps
/// the same action held and makes the next repeat due exactly one interval
/// later, when it is due again. A held key leaves the selection where it
/// is; a held move steps it once per repeat. Modifiers are untouched.
pub proof fn lemma_repeat_continues_until_release(m: KeyboardModel, now: u64)
    requires
        m.repeat_due(now),
        now + REPEAT_INTERVAL_NS <= u64::MAX,
    ensures
        m.fired(now).pending == m.pending,
        m.fired(now).due_at == now + REPEAT_INTERVAL_NS,
        m.fired(now).repeat_due((now + REPEAT_INTERVAL_NS) as u64),
        !m.fired(now).repeat_due((now + REPEAT_INTERVAL_NS - 1) as u64),
        m.fired(now).shift == m.shift && m.fired(now).ctrl == m.ctrl,
        m.pending matches Some(RepeatAction::Tap(_)) ==> m.fired(now).sel_row == m.sel_row && m.fired(
            now,
        ).sel_col == m.sel_col,
        m.pending matches Some(RepeatAction::Move(dr, dc)) ==> m.fired(now).sel_row == wrapped(
            m.sel_row,
            dr,
            ROWS as int,
        ) && m.fired(now).sel_col == wrapped(m.sel_col, dc, COLS as int),
{
}

/// `x` stepped by `a` and wrapped, then by `b` and wrapped, is `x` stepped by
/// `a + b` and wrapped once.
proof fn lemma_wrap_twice(x: int, a: int, b: int, n: int)
    requires
        n > 0,
    ensures
        ((x + a) % n + b) % n == (x + (a + b)) % n,
{
    lemma_add_mod_noop(x + a, b, n);
    lemma_add_mod_noop((x + a) % n, b, n);
    lemma_mod_twice(x + a, n);
}

/// Two moves in a row land where one move by their sum does.
pub proof fn lemma_moves_compose(m: KeyboardModel, dr1: i32, dc1: i32, dr2: i32, dc2: i32)
    requires
        m.on_grid(),
        can_step(m.sel_row, dr1),
        can_step(m.sel_col, dc1),
        can_step(m.moved(dr1, dc1).sel_row, dr2),
        can_step(m.moved(dr1, dc1).sel_col, dc2),
        i32::MIN <= dr1 + dr2 <= i32::MAX,
        i32::MIN <= dc1 + dc2 <= i32::MAX,
        can_step(m.sel_row, (dr1 + dr2) as i32),
        can_step(m.sel_col, (dc1 + dc2) as i32),
    ensures
        m.moved(dr1, dc1).moved(dr2, dc2) == m.moved((dr1 + dr2) as i32, (dc1 + dc2) as i32),
{
    lemma_wrap_twice(m.sel_row as int, dr1 as int, dr2 as int, ROWS as int);
    lemma_wrap_twice(m.sel_col as int, dc1 as int, dc2 as int, COLS as int);
}

/// A move followed by the opposite move returns the selection to where it
/// was.
pub proof fn lemma_move_undone(m: KeyboardModel, dr: i32, dc: i32)
    requires
        m.on_grid(),
        dr != i32::MIN,
        dc != i32::MIN,
        can_step(m.sel_row, dr),
        can_step(m.sel_col, dc),
    ensures
        m.moved(dr, dc).moved(-dr as i32, -dc as i32).sel_row == m.sel_row,
        m.moved(dr, dc).moved(-dr as i32, -dc as i32).sel_col == m.sel_col,
{
    lemma_wrap_twice(m.sel_row as int, dr as int, -dr as int, ROWS as int);
    lemma_wrap_twice(m.sel_col as int, dc as int, -dc as int, COLS as int);
    lemma_small_mod(m.sel_row as nat, ROWS as nat);
    lemma_small_mod(m.sel_col as nat, COLS as nat);
}

/// A whole lap of the grid, `ROWS` rows down or `COLS` columns across,
/// leaves the selection where it started.
pub proof fn lemma_full_lap_is_identity(m: KeyboardModel)
    requires
        m.on_grid(),
    ensures
        m.moved(ROWS as i32, COLS as i32).sel_row == m.sel_row,
        m.moved(ROWS as i32, COLS as i32).sel_col == m.sel_col,
{
    lemma_mod_add_multiples_vanish(m.sel_row as int, ROWS as int);
    lemma_mod_add_multiples_vanish(m.sel_col as int, COLS as int);
    lemma_small_mod(m.sel_row as nat, ROWS as nat);
    lemma_small_mod(m.sel_col as nat, COLS as nat);
}

/// The poll timeout and the repeat agree: nothing held means block forever
/// and never fire; a due repeat means do not block; otherwise the timeout
/// never sleeps past the due time, and falls short of it by less than a
/// millisecond unless it is clamped to `i32::MAX`.
pub proof fn lemma_timeout_matches_repeat(m: KeyboardModel, now: u64)
    ensures
        m.pending is None <==> m.timeout_ms(now) == -1,
        m.pending is None ==> !m.repeat_due(now),
        m.repeat_due(now) ==> m.timeout_ms(now) == 0,
        m.pending is Some && !m.repeat_due(now) ==> {
            &&& 0 <= m.timeout_ms(now)
            &&& now + m.timeout_ms(now) * NS_PER_MS <= m.due_at
            &&& m.timeout_ms(now) < i32::MAX ==> m.due_at < now + (m.timeout_ms(now) + 1) * NS_PER_MS
        },
{
    if m.pending is Some && !m.repeat_due(now) {
        let d = m.due_at - now;
        lemma_fundamental_div_mod(d, NS_PER_MS as int);
        lemma_mod_bound(d, NS_PER_MS as int);
        assert(0 <= d / (NS_PER_MS as int)) by {
            lemma_div_pos_is_pos(d, NS_PER_MS as int);
        }
        if d / (NS_PER_MS as int) >= i32::MAX {
            assert(i32::MAX * NS_PER_MS <= (d / (NS_PER_MS as int)) * NS_PER_MS) by {
                lemma_mul_inequality(i32::MAX as int, d / (NS_PER_MS as int), NS_PER_MS as int);
            }
        }
    }
}

/// After a press starts a repeat at `pressed`, the first repeat is due
/// exactly `REPEAT_DELAY_NS` later; after a repeat fires at `fired`, the next
/// one is due exactly `REPEAT_INTERVAL_NS` later.
pub proof fn lemma_repeat_schedule(m: KeyboardModel, a: RepeatAction, pressed: u64, fired: u64, now: u64)
    requires
        pressed + REPEAT_DELAY_NS <= u64::MAX,
        fired + REPEAT_INTERVAL_NS <= u64::MAX,
    ensures
        (KeyboardModel { pending: Some(a), due_at: (pressed + REPEAT_DELAY_NS) as u64, ..m }).repeat_due(
            now,
        ) <==> now >= pressed + REPEAT_DELAY_NS,
        (KeyboardModel { pending: Some(a), due_at: (fired + REPEAT_INTERVAL_NS) as u64, ..m }).repeat_due(
            now,
        ) <==> now >= fired + REPEAT_INTERVAL_NS,
{
}

} // verus!
