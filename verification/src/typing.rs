//! What gets written to the uinput device: the event sequence of a key tap,
//! and the keys the device must announce.

use vstd::prelude::*;

use vstd::arithmetic::div_mod::lemma_fundamental_div_mod_converse;

use crate::keys::{cell_code, cell_view, extra_keys, keys, Key, COLS, ROWS};

verus! {

/// One step of a key tap, in emission order.
#[derive(Clone, Copy, PartialEq, Eq, Structural, Debug)]
pub enum TapStep {
    /// The key goes down (`true`) or up (`false`).
    Key(Key, bool),
    /// A synchronization report: consumers see the keys' state as of here.
    Sync,
}

/// The modifier steps of a tap: presses in order shift, ctrl; releases in
/// the reverse order.
pub open spec fn modifier_steps(shift: bool, ctrl: bool, down: bool) -> Seq<TapStep> {
    let s = if shift { seq![TapStep::Key(Key::LeftShift, down)] } else { seq![] };
    let c = if ctrl { seq![TapStep::Key(Key::LeftCtrl, down)] } else { seq![] };
    if down {
        s + c
    } else {
        c + s
    }
}

/// The steps of tapping `key` with the given modifiers held: modifiers
/// down, the key down, a sync, the key up, modifiers up, a final sync.
pub open spec fn tap_steps(shift: bool, ctrl: bool, key: Key) -> Seq<TapStep> {
    modifier_steps(shift, ctrl, true) + seq![
        TapStep::Key(key, true),
        TapStep::Sync,
        TapStep::Key(key, false),
    ] + modifier_steps(shift, ctrl, false) + seq![TapStep::Sync]
}

/// Builds the event sequence for tapping `key` with the given modifiers
/// held. Consumers rely on the final sync to see a complete report.
pub fn tap_sequence(shift: bool, ctrl: bool, key: Key) -> (seq: Vec<TapStep>)
    ensures
        seq@ == tap_steps(shift, ctrl, key),
{
    let mut seq: Vec<TapStep> = Vec::new();
    if shift {
        seq.push(TapStep::Key(Key::LeftShift, true));
    }
    if ctrl {
        seq.push(TapStep::Key(Key::LeftCtrl, true));
    }

    seq.push(TapStep::Key(key, true));
    seq.push(TapStep::Sync);
    seq.push(TapStep::Key(key, false));

    if ctrl {
        seq.push(TapStep::Key(Key::LeftCtrl, false));
    }
    if shift {
        seq.push(TapStep::Key(Key::LeftShift, false));
    }
    seq.push(TapStep::Sync);
    assert(seq@ =~= tap_steps(shift, ctrl, key));
    seq
}

/// The keys held down after `step`, given those held before it.
pub open spec fn apply_step(held: Set<Key>, step: TapStep) -> Set<Key> {
    match step {
        TapStep::Key(k, down) => if down {
            held.insert(k)
        } else {
            held.remove(k)
        },
        TapStep::Sync => held,
    }
}

/// The keys held at each sync report of `steps`, starting from `held`.
pub open spec fn sync_reports(held: Set<Key>, steps: Seq<TapStep>) -> Seq<Set<Key>>
    decreases steps.len(),
{
    if steps.len() == 0 {
        seq![]
    } else {
        let now = apply_step(held, steps[0]);
        let rest = sync_reports(now, steps.drop_first());
        if steps[0] is Sync {
            seq![now].add(rest)
        } else {
            rest
        }
    }
}

/// The modifiers a tap holds.
pub open spec fn modifier_set(shift: bool, ctrl: bool) -> Set<Key> {
    let s = if shift { set![Key::LeftShift] } else { Set::empty() };
    let c = if ctrl { set![Key::LeftCtrl] } else { Set::empty() };
    s.union(c)
}

/// A tap, played from nothing held, makes exactly two reports: the first
/// shows the key down with exactly the requested modifiers, the last shows
/// every key released again.
pub proof fn lemma_tap_reports(shift: bool, ctrl: bool, key: Key)
    ensures
        sync_reports(Set::empty(), tap_steps(shift, ctrl, key)).len() == 2,
        sync_reports(Set::empty(), tap_steps(shift, ctrl, key))[0] == modifier_set(shift, ctrl).insert(key),
        sync_reports(Set::empty(), tap_steps(shift, ctrl, key))[1] == Set::<Key>::empty(),
{
    let steps = tap_steps(shift, ctrl, key);
    reveal_with_fuel(sync_reports, 9);
    let m = modifier_set(shift, ctrl);
    let e = Set::<Key>::empty();
    if shift && ctrl {
        assert(steps =~= seq![
            TapStep::Key(Key::LeftShift, true),
            TapStep::Key(Key::LeftCtrl, true),
            TapStep::Key(key, true),
            TapStep::Sync,
            TapStep::Key(key, false),
            TapStep::Key(Key::LeftCtrl, false),
            TapStep::Key(Key::LeftShift, false),
            TapStep::Sync,
        ]);
        assert(e.insert(Key::LeftShift).insert(Key::LeftCtrl).insert(key) =~= m.insert(key));
        assert(e.insert(Key::LeftShift).insert(Key::LeftCtrl).insert(key).remove(key).remove(
            Key::LeftCtrl,
        ).remove(Key::LeftShift) =~= e);
    } else if shift {
        assert(steps =~= seq![
            TapStep::Key(Key::LeftShift, true),
            TapStep::Key(key, true),
            TapStep::Sync,
            TapStep::Key(key, false),
            TapStep::Key(Key::LeftShift, false),
            TapStep::Sync,
        ]);
        assert(e.insert(Key::LeftShift).insert(key) =~= m.insert(key));
        assert(e.insert(Key::LeftShift).insert(key).remove(key).remove(Key::LeftShift) =~= e);
    } else if ctrl {
        assert(steps =~= seq![
            TapStep::Key(Key::LeftCtrl, true),
            TapStep::Key(key, true),
            TapStep::Sync,
            TapStep::Key(key, false),
            TapStep::Key(Key::LeftCtrl, false),
            TapStep::Sync,
        ]);
        assert(e.insert(Key::LeftCtrl).insert(key) =~= m.insert(key));
        assert(e.insert(Key::LeftCtrl).insert(key).remove(key).remove(Key::LeftCtrl) =~= e);
    } else {
        assert(steps =~= seq![
            TapStep::Key(key, true),
            TapStep::Sync,
            TapStep::Key(key, false),
            TapStep::Sync,
        ]);
        assert(e.insert(key) =~= m.insert(key));
        assert(e.insert(key).remove(key) =~= e);
    }
}

/// The keys of the grid's first `n` cells, counted row by row, left to
/// right, skipping empty cells.
pub open spec fn grid_keys_upto(n: int) -> Seq<Key>
    decreases n,
{
    if n <= 0 {
        seq![]
    } else {
        let before = grid_keys_upto(n - 1);
        match cell_code((n - 1) / (COLS as int), (n - 1) % (COLS as int)) {
            Some(k) => before.push(k),
            None => before,
        }
    }
}

/// The keys typed from pad buttons rather than from the grid: backspace,
/// space and enter, the held modifiers, and R1's paging and arrow keys.
pub open spec fn extra_key_seq() -> Seq<Key> {
    seq![
        Key::Backspace,
        Key::Space,
        Key::Enter,
        Key::LeftShift,
        Key::LeftCtrl,
        Key::PageUp,
        Key::PageDown,
        Key::Up,
        Key::Down,
        Key::Left,
        Key::Right,
    ]
}

/// Every key the uinput device announces: the grid's keys row by row, then
/// the keys typed from pad buttons.
pub open spec fn device_keys() -> Seq<Key> {
    grid_keys_upto((ROWS * COLS) as int) + extra_key_seq()
}

/// The keys to enable on the uinput device before creating it.
pub fn uinput_keys() -> (out: Vec<Key>)
    ensures
        out@ == device_keys(),
{
    let grid = keys();
    let mut out: Vec<Key> = Vec::new();
    let mut i: usize = 0;
    while i < ROWS * COLS
        invariant
            i <= ROWS * COLS,
            out@ == grid_keys_upto(i as int),
            forall|r: int, c: int|
                0 <= r < ROWS && 0 <= c < COLS ==> #[trigger] cell_view(grid[r][c]) == crate::keys::key_cell(r, c),
        decreases ROWS * COLS - i,
    {
        let r = i / COLS;
        let c = i % COLS;
        proof {
            let _ = cell_view(grid[r as int][c as int]);
        }
        if let Some(def) = grid[r][c] {
            out.push(def.code);
        }
        i = i + 1;
    }
    let extra = extra_keys();
    let mut j: usize = 0;
    let ghost grid_part = out@;
    while j < extra.len()
        invariant
            j <= extra@.len(),
            extra@ == extra_key_seq(),
            out@ == grid_part + extra@.take(j as int),
        decreases extra@.len() - j,
    {
        out.push(extra[j]);
        j = j + 1;
        assert(out@ =~= grid_part + extra@.take(j as int));
    }
    assert(extra@.take(extra@.len() as int) =~= extra@);
    out
}

/// A cell's key is among the first `n` cells' keys once `n` is past it.
proof fn lemma_grid_keys_upto_contains(n: int, r: int, c: int)
    requires
        0 <= r < ROWS,
        0 <= c < COLS,
        r * (COLS as int) + c < n,
        cell_code(r, c) is Some,
    ensures
        grid_keys_upto(n).contains(cell_code(r, c).unwrap()),
    decreases n,
{
    let i = r * (COLS as int) + c;
    if n - 1 == i {
        lemma_fundamental_div_mod_converse(i, COLS as int, r, c);
        assert(grid_keys_upto(n).last() == cell_code(r, c).unwrap());
    } else {
        lemma_grid_keys_upto_contains(n - 1, r, c);
        let k = cell_code(r, c).unwrap();
        let before = grid_keys_upto(n - 1);
        let j = choose|j: int| 0 <= j < before.len() && before[j] == k;
        assert(grid_keys_upto(n)[j] == k);
    }
}

/// The device announces every key of the grid.
pub proof fn lemma_device_announces_grid_keys(r: int, c: int)
    requires
        0 <= r < ROWS,
        0 <= c < COLS,
        cell_code(r, c) is Some,
    ensures
        device_keys().contains(cell_code(r, c).unwrap()),
{
    let g = grid_keys_upto((ROWS * COLS) as int);
    lemma_grid_keys_upto_contains((ROWS * COLS) as int, r, c);
    let j = choose|j: int| 0 <= j < g.len() && g[j] == cell_code(r, c).unwrap();
    assert(device_keys()[j] == cell_code(r, c).unwrap());
}

/// The device announces every key typed from a pad button.
pub proof fn lemma_device_announces_extra_keys(k: Key)
    requires
        extra_key_seq().contains(k),
    ensures
        device_keys().contains(k),
{
    let g = grid_keys_upto((ROWS * COLS) as int);
    let j = choose|j: int| 0 <= j < extra_key_seq().len() && extra_key_seq()[j] == k;
    assert(device_keys()[g.len() + j] == k);
}

} // verus!
