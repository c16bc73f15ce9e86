//! The program's decisions between I/O: what a pad event or a due repeat
//! does to the keyboard and what has to be typed, how the command line is
//! read, and how a configure from the compositor sizes the surface.

use vstd::prelude::*;

use crate::keyboard::{can_step, lemma_moved_on_grid, Keyboard, KeyboardModel, RepeatAction, REPEAT_DELAY_NS};
use crate::keys::{cell_code, Key};
use crate::pad::{decode_step, InputEvent, PadEvent, PadStateModel};
use crate::render::DEFAULT_HEIGHT;
use crate::typing::{device_keys, extra_key_seq, lemma_device_announces_extra_keys, lemma_device_announces_grid_keys};

verus! {

/// What the caller has to do after an event has been handled.
#[derive(Clone, Copy, PartialEq, Eq, Structural, Debug)]
pub enum Command {
    /// Nothing beyond redrawing if the keyboard is dirty.
    Nothing,
    /// Type this key with the keyboard's held modifiers.
    Tap(Key),
    /// Leave the program.
    Quit,
}

/// `m` with `action` held for auto-repeat from `now` on.
pub open spec fn repeating(m: KeyboardModel, action: RepeatAction, now: u64) -> KeyboardModel {
    KeyboardModel { pending: Some(action), due_at: (now + REPEAT_DELAY_NS) as u64, ..m }
}

/// What handling pad event `ev` at `now` does: the keyboard state after
/// it, whether R1's nav chord is held after it, and what to do. A direction
/// moves the selection and repeats; releasing ends the repeat; A types the
/// selected key (nothing on an empty cell); B, Y and X type backspace,
/// space and enter; L1 and L2 set shift and ctrl; a nav-chord key is typed
/// and repeats; R1 shows or hides the nav overlay; Select quits.
pub open spec fn handled(m: KeyboardModel, r1: bool, ev: PadEvent, now: u64) -> (KeyboardModel, bool, Command) {
    match ev {
        PadEvent::Move(dr, dc) => (repeating(m.moved(dr, dc), RepeatAction::Move(dr, dc), now), r1, Command::Nothing),
        PadEvent::MoveEnd => (KeyboardModel { pending: None, ..m }, r1, Command::Nothing),
        PadEvent::Type => (
            m,
            r1,
            match cell_code(m.sel_row as int, m.sel_col as int) {
                Some(k) => Command::Tap(k),
                None => Command::Nothing,
            },
        ),
        PadEvent::Backspace => (m, r1, Command::Tap(Key::Backspace)),
        PadEvent::Space => (m, r1, Command::Tap(Key::Space)),
        PadEvent::Enter => (m, r1, Command::Tap(Key::Enter)),
        PadEvent::Shift(held) => (KeyboardModel { shift: held, dirty: true, ..m }, r1, Command::Nothing),
        PadEvent::Ctrl(held) => (KeyboardModel { ctrl: held, dirty: true, ..m }, r1, Command::Nothing),
        PadEvent::Arrow(k) => (repeating(m, RepeatAction::Tap(k), now), r1, Command::Tap(k)),
        PadEvent::R1(held) => (KeyboardModel { dirty: true, ..m }, held, Command::Nothing),
        PadEvent::PageUp => (repeating(m, RepeatAction::Tap(Key::PageUp), now), r1, Command::Tap(Key::PageUp)),
        PadEvent::PageDown => (
            repeating(m, RepeatAction::Tap(Key::PageDown), now),
            r1,
            Command::Tap(Key::PageDown),
        ),
        PadEvent::Quit => (m, r1, Command::Quit),
    }
}

/// Whether `ev` can be handled at `now`: a move stays within `i32`, and a
/// repeat's due time within the clock.
pub open spec fn can_handle(m: KeyboardModel, ev: PadEvent, now: u64) -> bool {
    match ev {
        PadEvent::Move(dr, dc) => can_step(m.sel_row, dr) && can_step(m.sel_col, dc) && now + REPEAT_DELAY_NS
            <= u64::MAX,
        PadEvent::Arrow(_) | PadEvent::PageUp | PadEvent::PageDown => now + REPEAT_DELAY_NS <= u64::MAX,
        _ => true,
    }
}

/// Whether `handle_pad_event(kb, _, ev, now)` can run; see `can_handle`.
pub fn can_handle_event(kb: &Keyboard, ev: PadEvent, now: u64) -> (b: bool)
    ensures
        b == can_handle(kb@, ev, now),
{
    let clock_fits = now <= u64::MAX - REPEAT_DELAY_NS;
    match ev {
        PadEvent::Move(dr, dc) => kb.can_move(dr, dc) && clock_fits,
        PadEvent::Arrow(_) | PadEvent::PageUp | PadEvent::PageDown => clock_fits,
        _ => true,
    }
}

/// Handles one pad event at `now`: updates the keyboard and R1's held
/// state, and says what the caller has to do; see `handled`.
pub fn handle_pad_event(kb: &mut Keyboard, r1: &mut bool, ev: PadEvent, now: u64) -> (cmd: Command)
    requires
        old(kb)@.on_grid(),
        can_handle(old(kb)@, ev, now),
    ensures
        (final(kb)@, *final(r1), cmd) == handled(old(kb)@, *old(r1), ev, now),
        final(kb)@.on_grid(),
{
    match ev {
        PadEvent::Move(dr, dc) => {
            kb.move_sel(dr, dc);
            kb.start_repeat(RepeatAction::Move(dr, dc), now);
            Command::Nothing
        },
        PadEvent::MoveEnd => {
            kb.stop_repeat();
            Command::Nothing
        },
        PadEvent::Type => match kb.selected_key() {
            Some(k) => Command::Tap(k),
            None => Command::Nothing,
        },
        PadEvent::Backspace => Command::Tap(Key::Backspace),
        PadEvent::Space => Command::Tap(Key::Space),
        PadEvent::Enter => Command::Tap(Key::Enter),
        PadEvent::Shift(held) => {
            kb.set_shift(held);
            Command::Nothing
        },
        PadEvent::Ctrl(held) => {
            kb.set_ctrl(held);
            Command::Nothing
        },
        PadEvent::Arrow(k) => {
            kb.start_repeat(RepeatAction::Tap(k), now);
            Command::Tap(k)
        },
        PadEvent::R1(held) => {
            *r1 = held;
            kb.mark_dirty();
            Command::Nothing
        },
        PadEvent::PageUp => {
            kb.start_repeat(RepeatAction::Tap(Key::PageUp), now);
            Command::Tap(Key::PageUp)
        },
        PadEvent::PageDown => {
            kb.start_repeat(RepeatAction::Tap(Key::PageDown), now);
            Command::Tap(Key::PageDown)
        },
        PadEvent::Quit => Command::Quit,
    }
}

/// Fires a due repeat at `now`: a held move has already been applied to
/// the selection by the keyboard; a held key has to be typed again.
pub fn tick(kb: &mut Keyboard, now: u64) -> (cmd: Command)
    requires
        old(kb)@.can_fire(now),
    ensures
        !old(kb)@.repeat_due(now) ==> cmd == Command::Nothing && final(kb)@ == old(kb)@,
        old(kb)@.on_grid() ==> final(kb)@.on_grid(),
        old(kb)@.repeat_due(now) ==> final(kb)@ == old(kb)@.fired(now) && cmd == match old(kb)@.pending.unwrap() {
            RepeatAction::Tap(k) => Command::Tap(k),
            RepeatAction::Move(_, _) => Command::Nothing,
        },
{
    match kb.tick_repeat(now) {
        Some(RepeatAction::Tap(k)) => Command::Tap(k),
        _ => Command::Nothing,
    }
}

/// Shift and ctrl are held modifiers: only L1 and L2 change them. Every
/// other pad event, a typed key among them, and every auto-repeat leave
/// them as they were, and the selection stays on the grid throughout.
pub proof fn lemma_only_shoulders_change_modifiers(m: KeyboardModel, r1: bool, ev: PadEvent, now: u64)
    requires
        m.on_grid(),
        can_handle(m, ev, now),
        m.can_fire(now),
    ensures
        !(ev is Shift) ==> handled(m, r1, ev, now).0.shift == m.shift,
        !(ev is Ctrl) ==> handled(m, r1, ev, now).0.ctrl == m.ctrl,
        handled(m, r1, ev, now).0.on_grid(),
        m.repeat_due(now) ==> m.fired(now).shift == m.shift && m.fired(now).ctrl == m.ctrl && m.fired(
            now,
        ).on_grid(),
{
    match ev {
        PadEvent::Move(dr, dc) => {
            lemma_moved_on_grid(m, dr, dc);
        },
        _ => {},
    }
    if m.repeat_due(now) {
        match m.pending.unwrap() {
            RepeatAction::Move(dr, dc) => {
                lemma_moved_on_grid(m, dr, dc);
            },
            RepeatAction::Tap(_) => {},
        }
    }
}

/// L1 and L2 set shift and ctrl to the button's held state, pressed or
/// released, and leave the other modifier alone; they type nothing.
pub proof fn lemma_modifiers_follow_buttons(m: KeyboardModel, r1: bool, held: bool, now: u64)
    ensures
        handled(m, r1, PadEvent::Shift(held), now).0.shift == held,
        handled(m, r1, PadEvent::Shift(held), now).0.ctrl == m.ctrl,
        handled(m, r1, PadEvent::Shift(held), now).2 == Command::Nothing,
        handled(m, r1, PadEvent::Ctrl(held), now).0.ctrl == held,
        handled(m, r1, PadEvent::Ctrl(held), now).0.shift == m.shift,
        handled(m, r1, PadEvent::Ctrl(held), now).2 == Command::Nothing,
        handled(handled(m, r1, PadEvent::Ctrl(true), now).0, r1, PadEvent::Ctrl(false), now).0.ctrl == false,
        handled(handled(m, r1, PadEvent::Shift(true), now).0, r1, PadEvent::Shift(false), now).0.shift == false,
{
}

/// A key held for auto-repeat, if any, is one the uinput device announces.
pub open spec fn repeat_announced(m: KeyboardModel) -> bool {
    match m.pending {
        Some(RepeatAction::Tap(k)) => device_keys().contains(k),
        _ => true,
    }
}

/// Every key a decoded pad event can tap is one of the extra keys, or sits
/// in the grid.
proof fn lemma_pad_tap_announced(k: Key)
    requires
        k == Key::Backspace || k == Key::Space || k == Key::Enter || k == Key::PageUp || k == Key::PageDown
            || k == Key::Up || k == Key::Down || k == Key::Left || k == Key::Right || k == Key::Tab || k
            == Key::Esc,
    ensures
        device_keys().contains(k),
{
    let x = extra_key_seq();
    if k == Key::Tab {
        lemma_device_announces_grid_keys(1, 0);
    } else if k == Key::Esc {
        lemma_device_announces_grid_keys(3, 0);
    } else {
        assert(x[0] == Key::Backspace && x[1] == Key::Space && x[2] == Key::Enter && x[5] == Key::PageUp && x[6]
            == Key::PageDown && x[7] == Key::Up && x[8] == Key::Down && x[9] == Key::Left && x[10] == Key::Right);
        lemma_device_announces_extra_keys(k);
    }
}

/// Every key the pad can get typed is announced by the uinput device: the
/// key a decoded pad event taps, and the key it leaves held for
/// auto-repeat, which a due repeat then taps again.
pub proof fn lemma_tapped_keys_are_announced(
    s: PadStateModel,
    raw: InputEvent,
    m: KeyboardModel,
    r1: bool,
    now: u64,
)
    requires
        m.on_grid(),
        repeat_announced(m),
    ensures
        decode_step(s, raw).1 matches Some(ev) ==> {
            &&& handled(m, r1, ev, now).2 matches Command::Tap(k) ==> device_keys().contains(k)
            &&& repeat_announced(handled(m, r1, ev, now).0)
        },
        m.repeat_due(now) ==> repeat_announced(m.fired(now)),
{
    if let Some(ev) = decode_step(s, raw).1 {
        match ev {
            PadEvent::Type => {
                if let Some(k) = cell_code(m.sel_row as int, m.sel_col as int) {
                    lemma_device_announces_grid_keys(m.sel_row as int, m.sel_col as int);
                }
            },
            PadEvent::Backspace | PadEvent::Space | PadEvent::Enter => {
                lemma_pad_tap_announced(handled(m, r1, ev, now).2->Tap_0);
            },
            PadEvent::PageUp => {
                lemma_pad_tap_announced(Key::PageUp);
            },
            PadEvent::PageDown => {
                lemma_pad_tap_announced(Key::PageDown);
            },
            PadEvent::Arrow(k) => {
                lemma_pad_tap_announced(k);
            },
            _ => {},
        }
    }
}

/// The value of a run of decimal digits.
pub open spec fn digits_value(s: Seq<char>) -> int
    decreases s.len(),
{
    if s.len() == 0 {
        0
    } else {
        digits_value(s.drop_last()) * 10 + (s.last() as int - '0' as int)
    }
}

/// `s` is one or more decimal digits.
pub open spec fn all_digits(s: Seq<char>) -> bool {
    s.len() > 0 && forall|i: int| 0 <= i < s.len() ==> '0' <= #[trigger] s[i] <= '9'
}

/// What `str::parse::<i32>` gives for `s`: an optional `+` or `-` followed
/// by decimal digits, whose value fits in `i32`; anything else is refused.
pub open spec fn decimal_i32(s: Seq<char>) -> Option<i32> {
    let negative = s.len() > 0 && s[0] == '-';
    let body = if s.len() > 0 && (s[0] == '-' || s[0] == '+') {
        s.drop_first()
    } else {
        s
    };
    let value = if negative {
        -digits_value(body)
    } else {
        digits_value(body)
    };
    if all_digits(body) && i32::MIN <= value <= i32::MAX {
        Some(value as i32)
    } else {
        None
    }
}

/// Calls `str::parse::<i32>`; its documentation gives the accepted form as
/// an optional sign followed by digits, refusing values out of range.
#[verifier::external_body]
fn parse_i32(s: &str) -> (r: Option<i32>)
    ensures
        r == decimal_i32(s@),
{
    s.parse::<i32>().ok()
}

/// The options the command line gives, read from `args` after the program
/// name: `-h` sets the surface height, `-p` the pad name to look for. Any
/// other word, a missing value or a height that is not an `i32` is a usage
/// error (`None`). A repeated option keeps its last value.
pub open spec fn parsed_args(args: Seq<Seq<char>>, height: i32, pad_name: Option<Seq<char>>) -> Option<(i32, Option<Seq<char>>)>
    decreases args.len(),
{
    if args.len() == 0 {
        Some((height, pad_name))
    } else if args.len() >= 2 && args[0] == "-h"@ {
        match decimal_i32(args[1]) {
            Some(h) => parsed_args(args.skip(2), h, pad_name),
            None => None,
        }
    } else if args.len() >= 2 && args[0] == "-p"@ {
        parsed_args(args.skip(2), height, Some(args[1]))
    } else {
        None
    }
}

/// `-p` names the pad and never changes the height.
pub proof fn lemma_pad_option_keeps_height(v: Seq<char>, rest: Seq<Seq<char>>, height: i32, pad_name: Option<Seq<char>>)
    ensures
        parsed_args(seq!["-p"@, v] + rest, height, pad_name) == parsed_args(rest, height, Some(v)),
{
    reveal_strlit("-p");
    reveal_strlit("-h");
    let args = seq!["-p"@, v] + rest;
    assert(args[0] == "-p"@);
    assert("-p"@[1] == 'p' && "-h"@[1] == 'h');
    assert(args[0] != "-h"@);
    assert(args[1] == v);
    assert(args.skip(2) =~= rest);
}

/// A command line read in two parts, split after a complete option, reads
/// as the second part read from where the first left off.
pub proof fn lemma_parse_in_parts(
    first: Seq<Seq<char>>,
    second: Seq<Seq<char>>,
    height: i32,
    pad_name: Option<Seq<char>>,
)
    requires
        parsed_args(first, height, pad_name) is Some,
    ensures
        parsed_args(first + second, height, pad_name) == parsed_args(
            second,
            parsed_args(first, height, pad_name).unwrap().0,
            parsed_args(first, height, pad_name).unwrap().1,
        ),
    decreases first.len(),
{
    if first.len() == 0 {
        assert(first + second =~= second);
    } else {
        let all = first + second;
        assert(all[0] == first[0] && all[1] == first[1]);
        assert(all.skip(2) =~= first.skip(2) + second);
        if first[0] == "-h"@ {
            lemma_parse_in_parts(first.skip(2), second, decimal_i32(first[1]).unwrap(), pad_name);
        } else {
            lemma_parse_in_parts(first.skip(2), second, height, Some(first[1]));
        }
    }
}

/// The height read is the one the last `-h` gives: a command line that
/// reads ends in `-h v` reads with the height `v`, keeping the pad name,
/// or is refused if `v` is not a number.
pub proof fn lemma_last_height_wins(
    first: Seq<Seq<char>>,
    v: Seq<char>,
    height: i32,
    pad_name: Option<Seq<char>>,
)
    requires
        parsed_args(first, height, pad_name) is Some,
    ensures
        parsed_args(first + seq!["-h"@, v], height, pad_name) == match decimal_i32(v) {
            Some(h) => Some((h, parsed_args(first, height, pad_name).unwrap().1)),
            None => None,
        },
{
    lemma_parse_in_parts(first, seq!["-h"@, v], height, pad_name);
    let last = seq!["-h"@, v];
    assert(last.skip(2) =~= Seq::<Seq<char>>::empty());
    assert(last[0] == "-h"@ && last[1] == v);
    reveal_with_fuel(parsed_args, 2);
}

/// Without `-h` the height stays the one started from, `DEFAULT_HEIGHT`
/// for `parse_args`; without `-p` the pad name does.
pub proof fn lemma_unset_options_keep_defaults(args: Seq<Seq<char>>, height: i32, pad_name: Option<Seq<char>>)
    requires
        parsed_args(args, height, pad_name) is Some,
    ensures
        !args.contains("-h"@) ==> parsed_args(args, height, pad_name).unwrap().0 == height,
        !args.contains("-p"@) ==> parsed_args(args, height, pad_name).unwrap().1 == pad_name,
    decreases args.len(),
{
    if args.len() > 0 {
        let rest = args.skip(2);
        assert forall|i: int| 0 <= i < rest.len() implies rest[i] == args[i + 2] by {}
        if !args.contains("-h"@) {
            assert forall|i: int| 0 <= i < rest.len() implies rest[i] != "-h"@ by {
                assert(args[i + 2] == rest[i]);
            }
        }
        if !args.contains("-p"@) {
            assert forall|i: int| 0 <= i < rest.len() implies rest[i] != "-p"@ by {
                assert(args[i + 2] == rest[i]);
            }
        }
        if args[0] == "-h"@ {
            assert(args.contains("-h"@)) by { assert(args[0] == "-h"@); }
            lemma_unset_options_keep_defaults(rest, decimal_i32(args[1]).unwrap(), pad_name);
        } else {
            assert(args.contains("-p"@)) by { assert(args[0] == "-p"@); }
            lemma_unset_options_keep_defaults(rest, height, Some(args[1]));
        }
    }
}

/// The characters of each argument.
pub open spec fn args_view(args: Seq<String>) -> Seq<Seq<char>> {
    args.map_values(|a: String| a@)
}

/// The pad name, as characters.
pub open spec fn name_view(name: Option<String>) -> Option<Seq<char>> {
    match name {
        Some(n) => Some(n@),
        None => None,
    }
}

/// Reads the command line (without the program name): the surface height,
/// `DEFAULT_HEIGHT` unless `-h` gives one, and the pad name given by `-p`,
/// if any. `None` on a usage error; see `parsed_args`.
pub fn parse_args(args: &Vec<String>) -> (parsed: Option<(i32, Option<String>)>)
    ensures
        match parsed {
            Some((h, name)) => parsed_args(args_view(args@), DEFAULT_HEIGHT, None) == Some((h, name_view(name))),
            None => parsed_args(args_view(args@), DEFAULT_HEIGHT, None) is None,
        },
{
    let flag_h = "-h".to_owned();
    let flag_p = "-p".to_owned();
    let mut height = DEFAULT_HEIGHT;
    let mut pad_name: Option<String> = None;
    let mut i: usize = 0;
    assert(args_view(args@).skip(0) =~= args_view(args@));
    while i < args.len()
        invariant
            i <= args@.len(),
            flag_h@ == "-h"@,
            flag_p@ == "-p"@,
            parsed_args(args_view(args@), DEFAULT_HEIGHT, None) == parsed_args(
                args_view(args@).skip(i as int),
                height,
                name_view(pad_name),
            ),
        decreases args@.len() - i,
    {
        let ghost rest = args_view(args@).skip(i as int);
        assert(rest[0] == args@[i as int]@);
        if i + 1 < args.len() && args[i] == flag_h {
            assert(rest[1] == args@[i + 1]@);
            match parse_i32(args[i + 1].as_str()) {
                Some(h) => {
                    height = h;
                },
                None => {
                    return None;
                },
            }
            assert(rest.skip(2) =~= args_view(args@).skip(i + 2));
            i = i + 2;
        } else if i + 1 < args.len() && args[i] == flag_p {
            assert(rest[1] == args@[i + 1]@);
            pad_name = Some(args[i + 1].clone());
            assert(rest.skip(2) =~= args_view(args@).skip(i + 2));
            i = i + 2;
        } else {
            return None;
        }
    }
    assert(args_view(args@).skip(i as int).len() == 0);
    Some((height, pad_name))
}

/// A compositor global the program binds when the registry announces it.
#[derive(Clone, Copy, PartialEq, Eq, Structural, Debug)]
pub enum RegistryGlobal {
    Compositor,
    Shm,
    LayerShell,
    Output,
}

impl RegistryGlobal {
    /// The interface version bound: the compositor at 4, the others at 1.
    pub fn version(self) -> (v: u32)
        ensures
            v == (if self is Compositor { 4u32 } else { 1u32 }),
    {
        match self {
            RegistryGlobal::Compositor => 4,
            _ => 1,
        }
    }
}

/// The global to bind for an announced `interface`: the compositor, shared
/// memory, the layer shell, and the first output only (`have_output` says
/// one is bound already); nothing for any other interface.
pub open spec fn global_to_bind(interface: Seq<char>, have_output: bool) -> Option<RegistryGlobal> {
    if interface == "wl_compositor"@ {
        Some(RegistryGlobal::Compositor)
    } else if interface == "wl_shm"@ {
        Some(RegistryGlobal::Shm)
    } else if interface == "zwlr_layer_shell_v1"@ {
        Some(RegistryGlobal::LayerShell)
    } else if interface == "wl_output"@ && !have_output {
        Some(RegistryGlobal::Output)
    } else {
        None
    }
}

/// Which global, if any, to bind for an interface the registry announces;
/// see `global_to_bind`.
pub fn registry_global(interface: &String, have_output: bool) -> (g: Option<RegistryGlobal>)
    ensures
        g == global_to_bind(interface@, have_output),
{
    if *interface == "wl_compositor".to_owned() {
        Some(RegistryGlobal::Compositor)
    } else if *interface == "wl_shm".to_owned() {
        Some(RegistryGlobal::Shm)
    } else if *interface == "zwlr_layer_shell_v1".to_owned() {
        Some(RegistryGlobal::LayerShell)
    } else if *interface == "wl_output".to_owned() && !have_output {
        Some(RegistryGlobal::Output)
    } else {
        None
    }
}

/// The surface size after a configure from the compositor: a nonzero width
/// or height it sends replaces the current one (as `i32`, wrapping as Rust's
/// `as` does); zero leaves the choice to us.
pub fn configured_size(width: i32, height: i32, new_width: u32, new_height: u32) -> (size: (i32, i32))
    ensures
        size.0 == (if new_width > 0 { new_width as i32 } else { width }),
        size.1 == (if new_height > 0 { new_height as i32 } else { height }),
{
    let w = if new_width > 0 { new_width as i32 } else { width };
    let h = if new_height > 0 { new_height as i32 } else { height };
    (w, h)
}

} // verus!
