//! Turns raw evdev events from the gamepad into what the keyboard acts on.

use vstd::prelude::*;

use crate::keys::Key;

verus! {

/// evdev event type: synchronization report.
pub const EV_SYN: u16 = 0x00;
/// evdev event type: key or button.
pub const EV_KEY: u16 = 0x01;
/// evdev event type: absolute axis.
pub const EV_ABS: u16 = 0x03;
/// Absolute axis of the hat switch, horizontal.
pub const ABS_HAT0X: u16 = 0x10;
/// Absolute axis of the hat switch, vertical.
pub const ABS_HAT0Y: u16 = 0x11;
/// Face button, bottom.
pub const BTN_SOUTH: u16 = 0x130;
/// Face button, right.
pub const BTN_EAST: u16 = 0x131;
/// Face button, top.
pub const BTN_NORTH: u16 = 0x133;
/// Face button, left.
pub const BTN_WEST: u16 = 0x134;
/// Left shoulder button (L1).
pub const BTN_TL: u16 = 0x136;
/// Right shoulder button (R1).
pub const BTN_TR: u16 = 0x137;
/// Left trigger button (L2).
pub const BTN_TL2: u16 = 0x138;
/// Select button.
pub const BTN_SELECT: u16 = 0x13a;
/// Start button.
pub const BTN_START: u16 = 0x13b;
/// D-pad up.
pub const BTN_DPAD_UP: u16 = 0x220;
/// D-pad down.
pub const BTN_DPAD_DOWN: u16 = 0x221;
/// D-pad left.
pub const BTN_DPAD_LEFT: u16 = 0x222;
/// D-pad right.
pub const BTN_DPAD_RIGHT: u16 = 0x223;

/// The fields of a raw evdev event that decoding reads.
#[derive(Clone, Copy, PartialEq, Eq, Structural, Debug)]
pub struct InputEvent {
    pub type_: u16,
    pub code: u16,
    pub value: i32,
}

impl InputEvent {
    pub fn new(type_: u16, code: u16, value: i32) -> (ev: InputEvent)
        ensures
            ev == (InputEvent { type_, code, value }),
    {
        InputEvent { type_, code, value }
    }
}

/// A pad input turned into what the keyboard cares about, independent
/// of which physical button or axis produced it.
#[derive(Clone, Copy, PartialEq, Eq, Structural, Debug)]
pub enum PadEvent {
    /// A direction was pressed (D-pad button or hat axis moving off center).
    Move(i32, i32),
    /// The held direction or nav button was released; auto-repeat should
    /// stop.
    MoveEnd,
    Type,
    Backspace,
    Space,
    /// Shift's held state changed to this (L1).
    Shift(bool),
    /// Ctrl's held state changed to this (L2).
    Ctrl(bool),
    /// A key tap from R1's nav chord: a D-pad/hat press turned into an arrow
    /// key, or a face button (while R1 is held) turned into Tab/Esc.
    Arrow(Key),
    /// R1's held state changed to this (nav chord: arrows on the D-pad/hat,
    /// paging and Tab/Esc on the face buttons).
    R1(bool),
    PageUp,
    PageDown,
    Enter,
    Quit,
}

/// Cross-event pad state that a single event cannot carry by itself: which
/// chord buttons are down, and whether each face button's current press was
/// routed through R1's nav chord (set at press time, so that it survives R1
/// being released first, and read at release time).
pub struct PadState {
    tl_held: bool,
    tl2_held: bool,
    r1_held: bool,
    nav_west: bool,
    nav_south: bool,
    nav_north: bool,
    nav_east: bool,
}

/// The state of a `PadState`, field by field.
pub struct PadStateModel {
    pub tl_held: bool,
    pub tl2_held: bool,
    pub r1_held: bool,
    pub nav_west: bool,
    pub nav_south: bool,
    pub nav_north: bool,
    pub nav_east: bool,
}

impl View for PadState {
    type V = PadStateModel;

    closed spec fn view(&self) -> PadStateModel {
        PadStateModel {
            tl_held: self.tl_held,
            tl2_held: self.tl2_held,
            r1_held: self.r1_held,
            nav_west: self.nav_west,
            nav_south: self.nav_south,
            nav_north: self.nav_north,
            nav_east: self.nav_east,
        }
    }
}

/// Nothing held, nothing routed through the nav chord.
pub open spec fn idle_pad() -> PadStateModel {
    PadStateModel {
        tl_held: false,
        tl2_held: false,
        r1_held: false,
        nav_west: false,
        nav_south: false,
        nav_north: false,
        nav_east: false,
    }
}

impl PadState {
    pub fn new() -> (s: PadState)
        ensures
            s@ == idle_pad(),
    {
        PadState {
            tl_held: false,
            tl2_held: false,
            r1_held: false,
            nav_west: false,
            nav_south: false,
            nav_north: false,
            nav_east: false,
        }
    }
}

impl Default for PadState {
    fn default() -> (s: PadState)
        ensures
            s@ == idle_pad(),
    {
        PadState::new()
    }
}

/// -1, 0 or 1 by the sign of `v`.
pub open spec fn sign(v: i32) -> i32 {
    if v > 0 {
        1i32
    } else if v < 0 {
        -1i32
    } else {
        0i32
    }
}

/// The grid step of a D-pad button, if `code` is one.
pub open spec fn dpad_step(code: u16) -> Option<(i32, i32)> {
    if code == BTN_DPAD_LEFT {
        Some((0i32, -1i32))
    } else if code == BTN_DPAD_RIGHT {
        Some((0i32, 1i32))
    } else if code == BTN_DPAD_UP {
        Some((-1i32, 0i32))
    } else if code == BTN_DPAD_DOWN {
        Some((1i32, 0i32))
    } else {
        None
    }
}

/// A direction as an arrow-key tap while R1 is held, otherwise a grid move.
pub open spec fn direction_event(r1_held: bool, dr: i32, dc: i32) -> PadEvent {
    if r1_held && dc == 0 && dr < 0 {
        PadEvent::Arrow(Key::Up)
    } else if r1_held && dc == 0 && dr > 0 {
        PadEvent::Arrow(Key::Down)
    } else if r1_held && dr == 0 && dc < 0 {
        PadEvent::Arrow(Key::Left)
    } else if r1_held && dr == 0 && dc > 0 {
        PadEvent::Arrow(Key::Right)
    } else {
        PadEvent::Move(dr, dc)
    }
}

/// A hat axis event: its return to center ends the move; moving off center
/// is a one-step direction, along the row axis for the vertical hat.
pub open spec fn hat_direction(r1_held: bool, value: i32, horizontal: bool) -> PadEvent {
    if value == 0 {
        PadEvent::MoveEnd
    } else if horizontal {
        direction_event(r1_held, 0, sign(value))
    } else {
        direction_event(r1_held, sign(value), 0)
    }
}

/// A face button that means `nav_action` while R1 is held at press time and
/// `normal_action` otherwise. Gives the button's new routing flag and the
/// event: the routing is latched at press, and a release reports `MoveEnd`
/// (stopping the nav action's repeat) exactly when the press was routed.
pub open spec fn face_press(nav: bool, r1_held: bool, value: i32, nav_action: PadEvent, normal_action: PadEvent) -> (
    bool,
    Option<PadEvent>,
) {
    if value == 1 {
        (r1_held, Some(if r1_held { nav_action } else { normal_action }))
    } else if value == 0 && nav {
        (false, Some(PadEvent::MoveEnd))
    } else {
        (nav, None)
    }
}

/// Decodes one raw event against the pad state: the state after it, and
/// the event the keyboard acts on, if any.
///
/// B is the bottom face button on this device's Nintendo-style layout, so
/// it carries backspace; A types the selected key. This driver reports
/// physical X as `BTN_WEST` (enter) and physical Y as `BTN_NORTH` (space).
/// Start is unmapped. L1 holds shift, L2 holds ctrl. R1 is a held nav
/// chord: it turns the D-pad/hat into arrow keys and the face buttons into
/// PageUp (X), Tab (Y), Esc (A) and PageDown (B). Select quits.
pub open spec fn decode_step(s: PadStateModel, ev: InputEvent) -> (PadStateModel, Option<PadEvent>) {
    let held = ev.value != 0;
    if ev.type_ == EV_ABS {
        if ev.code == ABS_HAT0X {
            (s, Some(hat_direction(s.r1_held, ev.value, true)))
        } else if ev.code == ABS_HAT0Y {
            (s, Some(hat_direction(s.r1_held, ev.value, false)))
        } else {
            (s, None)
        }
    } else if ev.type_ != EV_KEY {
        (s, None)
    } else if ev.code == BTN_TR {
        (PadStateModel { r1_held: held, ..s }, Some(PadEvent::R1(held)))
    } else if ev.code == BTN_TL {
        (PadStateModel { tl_held: held, ..s }, Some(PadEvent::Shift(held)))
    } else if ev.code == BTN_TL2 {
        (PadStateModel { tl2_held: held, ..s }, Some(PadEvent::Ctrl(held)))
    } else if dpad_step(ev.code) is Some {
        let (dr, dc) = dpad_step(ev.code).unwrap();
        if ev.value == 1 {
            (s, Some(direction_event(s.r1_held, dr, dc)))
        } else if ev.value == 0 {
            (s, Some(PadEvent::MoveEnd))
        } else {
            (s, None)
        }
    } else if ev.code == BTN_WEST {
        let (nav, out) = face_press(s.nav_west, s.r1_held, ev.value, PadEvent::PageUp, PadEvent::Enter);
        (PadStateModel { nav_west: nav, ..s }, out)
    } else if ev.code == BTN_SOUTH {
        let (nav, out) = face_press(
            s.nav_south,
            s.r1_held,
            ev.value,
            PadEvent::PageDown,
            PadEvent::Backspace,
        );
        (PadStateModel { nav_south: nav, ..s }, out)
    } else if ev.code == BTN_NORTH {
        let (nav, out) = face_press(
            s.nav_north,
            s.r1_held,
            ev.value,
            PadEvent::Arrow(Key::Tab),
            PadEvent::Space,
        );
        (PadStateModel { nav_north: nav, ..s }, out)
    } else if ev.code == BTN_EAST {
        let (nav, out) = face_press(s.nav_east, s.r1_held, ev.value, PadEvent::Arrow(Key::Esc), PadEvent::Type);
        (PadStateModel { nav_east: nav, ..s }, out)
    } else if ev.value == 1 && ev.code == BTN_SELECT {
        (s, Some(PadEvent::Quit))
    } else {
        (s, None)
    }
}

fn face_button(nav: &mut bool, r1_held: bool, value: i32, nav_action: PadEvent, normal_action: PadEvent) -> (out: Option<PadEvent>)
    ensures
        (*final(nav), out) == face_press(*old(nav), r1_held, value, nav_action, normal_action),
{
    if value == 1 {
        *nav = r1_held;
        if r1_held {
            Some(nav_action)
        } else {
            Some(normal_action)
        }
    } else if value == 0 && *nav {
        *nav = false;
        Some(PadEvent::MoveEnd)
    } else {
        None
    }
}

fn dir_event(r1_held: bool, dr: i32, dc: i32) -> (e: PadEvent)
    ensures
        e == direction_event(r1_held, dr, dc),
{
    if r1_held {
        if dc == 0 && dr < 0 {
            return PadEvent::Arrow(Key::Up);
        } else if dc == 0 && dr > 0 {
            return PadEvent::Arrow(Key::Down);
        } else if dr == 0 && dc < 0 {
            return PadEvent::Arrow(Key::Left);
        } else if dr == 0 && dc > 0 {
            return PadEvent::Arrow(Key::Right);
        }
    }
    PadEvent::Move(dr, dc)
}

fn dpad_dir(code: u16) -> (d: Option<(i32, i32)>)
    ensures
        d == dpad_step(code),
{
    if code == BTN_DPAD_LEFT {
        Some((0, -1))
    } else if code == BTN_DPAD_RIGHT {
        Some((0, 1))
    } else if code == BTN_DPAD_UP {
        Some((-1, 0))
    } else if code == BTN_DPAD_DOWN {
        Some((1, 0))
    } else {
        None
    }
}

// A hat reports -1, 0 or 1; act on the press and the return to center.
fn hat_event(r1_held: bool, value: i32, horizontal: bool) -> (e: PadEvent)
    ensures
        e == hat_direction(r1_held, value, horizontal),
{
    if value == 0 {
        PadEvent::MoveEnd
    } else {
        let step: i32 = if value > 0 { 1 } else { -1 };
        if horizontal {
            dir_event(r1_held, 0, step)
        } else {
            dir_event(r1_held, step, 0)
        }
    }
}

/// Decodes one raw evdev event, or `None` if it is not one the keyboard
/// acts on; see `decode_step`.
pub fn decode(state: &mut PadState, ev: &InputEvent) -> (out: Option<PadEvent>)
    ensures
        (final(state)@, out) == decode_step(old(state)@, *ev),
{
    if ev.type_ == EV_ABS {
        if ev.code == ABS_HAT0X {
            return Some(hat_event(state.r1_held, ev.value, true));
        } else if ev.code == ABS_HAT0Y {
            return Some(hat_event(state.r1_held, ev.value, false));
        } else {
            return None;
        }
    }
    if ev.type_ != EV_KEY {
        return None;
    }
    let code = ev.code;
    let held = ev.value != 0;

    if code == BTN_TR {
        state.r1_held = held;
        return Some(PadEvent::R1(held));
    }
    if code == BTN_TL {
        state.tl_held = held;
        return Some(PadEvent::Shift(state.tl_held));
    }
    if code == BTN_TL2 {
        state.tl2_held = held;
        return Some(PadEvent::Ctrl(state.tl2_held));
    }

    if let Some((dr, dc)) = dpad_dir(code) {
        return match ev.value {
            1 => Some(dir_event(state.r1_held, dr, dc)),
            0 => Some(PadEvent::MoveEnd),
            _ => None,
        };
    }

    if code == BTN_WEST {
        return face_button(&mut state.nav_west, state.r1_held, ev.value, PadEvent::PageUp, PadEvent::Enter);
    }
    if code == BTN_SOUTH {
        return face_button(
            &mut state.nav_south,
            state.r1_held,
            ev.value,
            PadEvent::PageDown,
            PadEvent::Backspace,
        );
    }
    if code == BTN_NORTH {
        return face_button(
            &mut state.nav_north,
            state.r1_held,
            ev.value,
            PadEvent::Arrow(Key::Tab),
            PadEvent::Space,
        );
    }
    if code == BTN_EAST {
        return face_button(
            &mut state.nav_east,
            state.r1_held,
            ev.value,
            PadEvent::Arrow(Key::Esc),
            PadEvent::Type,
        );
    }

    if ev.value != 1 {
        return None;
    }

    if code == BTN_SELECT {
        Some(PadEvent::Quit)
    } else {
        None
    }
}

/// Decodes a run of raw events in order, threading the pad state through:
/// the state after the run and the events decoded from it.
pub open spec fn decode_run(s: PadStateModel, evs: Seq<InputEvent>) -> (PadStateModel, Seq<PadEvent>)
    decreases evs.len(),
{
    if evs.len() == 0 {
        (s, seq![])
    } else {
        let (before, out) = decode_run(s, evs.drop_last());
        let (after, e) = decode_step(before, evs.last());
        (
            after,
            match e {
                Some(e) => out.push(e),
                None => out,
            },
        )
    }
}

/// Decodes a batch of raw events read from the pad, in order, keeping only
/// those the keyboard acts on.
pub fn decode_events(state: &mut PadState, events: &[InputEvent]) -> (out: Vec<PadEvent>)
    ensures
        (final(state)@, out@) == decode_run(old(state)@, events@),
{
    let mut out: Vec<PadEvent> = Vec::new();
    let mut i: usize = 0;
    assert(events@.take(0) =~= Seq::<InputEvent>::empty());
    while i < events.len()
        invariant
            i <= events@.len(),
            (state@, out@) == decode_run(old(state)@, events@.take(i as int)),
        decreases events@.len() - i,
    {
        let ev = &events[i];
        assert(events@.take(i + 1).drop_last() =~= events@.take(i as int));
        if let Some(e) = decode(state, ev) {
            out.push(e);
        }
        i = i + 1;
    }
    assert(events@.take(events@.len() as int) =~= events@);
    out
}

/// The length of a device name as the kernel reports it: the bytes before
/// the first NUL, or all of them if there is none.
pub fn device_name_end(raw: &[u8]) -> (n: usize)
    ensures
        n <= raw@.len(),
        forall|k: int| 0 <= k < n ==> raw@[k] != 0,
        n < raw@.len() ==> raw@[n as int] == 0,
{
    let mut n: usize = 0;
    while n < raw.len()
        invariant
            n <= raw@.len(),
            forall|k: int| 0 <= k < n ==> raw@[k] != 0,
        decreases raw@.len() - n,
    {
        if raw[n] == 0 {
            return n;
        }
        n = n + 1;
    }
    n
}

/// `needle` occurs in `hay` starting at byte `i`.
pub open spec fn occurs_at(hay: Seq<u8>, needle: Seq<u8>, i: int) -> bool {
    0 <= i && i + needle.len() <= hay.len() && hay.subrange(i, i + needle.len()) == needle
}

/// `needle` occurs somewhere in `hay`; the empty needle occurs everywhere.
pub open spec fn contains_bytes(hay: Seq<u8>, needle: Seq<u8>) -> bool {
    exists|i: int| occurs_at(hay, needle, i)
}

fn occurs_at_exec(hay: &[u8], needle: &[u8], i: usize) -> (b: bool)
    requires
        i + needle@.len() <= hay@.len(),
    ensures
        b == occurs_at(hay@, needle@, i as int),
{
    let hay_len = hay.len();
    let mut j: usize = 0;
    while j < needle.len()
        invariant
            j <= needle@.len(),
            hay_len == hay@.len(),
            i + needle@.len() <= hay@.len(),
            forall|k: int| 0 <= k < j ==> hay@[i + k] == needle@[k],
        decreases needle@.len() - j,
    {
        if hay[i + j] != needle[j] {
            assert(hay@.subrange(i as int, i + needle@.len())[j as int] != needle@[j as int]);
            return false;
        }
        j = j + 1;
    }
    assert(hay@.subrange(i as int, i + needle@.len()) =~= needle@);
    true
}

/// Whether a pad's name contains the name asked for on the command line.
pub fn name_contains(name: &[u8], want: &[u8]) -> (b: bool)
    ensures
        b == contains_bytes(name@, want@),
{
    if want.len() > name.len() {
        return false;
    }
    let last = name.len() - want.len();
    let mut i: usize = 0;
    loop
        invariant
            last == name@.len() - want@.len(),
            i <= last,
            forall|k: int| 0 <= k < i ==> !occurs_at(name@, want@, k),
        decreases last - i,
    {
        if occurs_at_exec(name, want, i) {
            return true;
        }
        if i == last {
            return false;
        }
        i = i + 1;
    }
}

/// How many evdev nodes, `event0` on, are searched for the pad.
pub const PAD_NODES: u32 = 32;

/// Whether an evdev node is the pad: its name contains the name asked for,
/// or, when none is asked for, it has a `BTN_SOUTH` button. `has_south` is
/// only read when no name is asked for.
pub fn pad_found(name: &[u8], want: Option<&[u8]>, has_south: bool) -> (b: bool)
    ensures
        b == match want {
            Some(w) => contains_bytes(name@, w@),
            None => has_south,
        },
{
    match want {
        Some(w) => name_contains(name, w),
        None => has_south,
    }
}

/// A D-pad press, or a hat moving off center, is a one-cell step in its
/// own direction (down and right positive) while R1 is not held, and the
/// matching arrow key while it is; either way the pad state is untouched.
pub proof fn lemma_direction_presses(s: PadStateModel, v: i32)
    ensures
        decode_step(s, InputEvent { type_: EV_KEY, code: BTN_DPAD_UP, value: 1 }) == (
            s,
            Some(if s.r1_held { PadEvent::Arrow(Key::Up) } else { PadEvent::Move(-1i32, 0i32) }),
        ),
        decode_step(s, InputEvent { type_: EV_KEY, code: BTN_DPAD_DOWN, value: 1 }) == (
            s,
            Some(if s.r1_held { PadEvent::Arrow(Key::Down) } else { PadEvent::Move(1i32, 0i32) }),
        ),
        decode_step(s, InputEvent { type_: EV_KEY, code: BTN_DPAD_LEFT, value: 1 }) == (
            s,
            Some(if s.r1_held { PadEvent::Arrow(Key::Left) } else { PadEvent::Move(0i32, -1i32) }),
        ),
        decode_step(s, InputEvent { type_: EV_KEY, code: BTN_DPAD_RIGHT, value: 1 }) == (
            s,
            Some(if s.r1_held { PadEvent::Arrow(Key::Right) } else { PadEvent::Move(0i32, 1i32) }),
        ),
        v > 0 ==> decode_step(s, InputEvent { type_: EV_ABS, code: ABS_HAT0Y, value: v }) == (
            s,
            Some(if s.r1_held { PadEvent::Arrow(Key::Down) } else { PadEvent::Move(1i32, 0i32) }),
        ),
        v < 0 ==> decode_step(s, InputEvent { type_: EV_ABS, code: ABS_HAT0Y, value: v }) == (
            s,
            Some(if s.r1_held { PadEvent::Arrow(Key::Up) } else { PadEvent::Move(-1i32, 0i32) }),
        ),
        v > 0 ==> decode_step(s, InputEvent { type_: EV_ABS, code: ABS_HAT0X, value: v }) == (
            s,
            Some(if s.r1_held { PadEvent::Arrow(Key::Right) } else { PadEvent::Move(0i32, 1i32) }),
        ),
        v < 0 ==> decode_step(s, InputEvent { type_: EV_ABS, code: ABS_HAT0X, value: v }) == (
            s,
            Some(if s.r1_held { PadEvent::Arrow(Key::Left) } else { PadEvent::Move(0i32, -1i32) }),
        ),
{
}

/// Releasing a D-pad button, or a hat returning to center, ends the held
/// move, whatever R1 does.
pub proof fn lemma_direction_releases(s: PadStateModel, code: u16)
    requires
        code == BTN_DPAD_UP || code == BTN_DPAD_DOWN || code == BTN_DPAD_LEFT || code == BTN_DPAD_RIGHT,
    ensures
        decode_step(s, InputEvent { type_: EV_KEY, code, value: 0 }) == (s, Some(PadEvent::MoveEnd)),
        decode_step(s, InputEvent { type_: EV_ABS, code: ABS_HAT0X, value: 0 }) == (s, Some(PadEvent::MoveEnd)),
        decode_step(s, InputEvent { type_: EV_ABS, code: ABS_HAT0Y, value: 0 }) == (s, Some(PadEvent::MoveEnd)),
{
}

/// `ev` is a key event of the button with code `code`.
pub open spec fn is_key_event_of(ev: InputEvent, code: u16) -> bool {
    ev.type_ == EV_KEY && ev.code == code
}

/// `code` is one of the four face buttons.
pub open spec fn is_face_button(code: u16) -> bool {
    code == BTN_WEST || code == BTN_SOUTH || code == BTN_NORTH || code == BTN_EAST
}

/// Whether the current press of face button `code` went through R1's nav
/// chord.
pub open spec fn face_routed(s: PadStateModel, code: u16) -> bool {
    if code == BTN_WEST {
        s.nav_west
    } else if code == BTN_SOUTH {
        s.nav_south
    } else if code == BTN_NORTH {
        s.nav_north
    } else {
        s.nav_east
    }
}

/// What face button `code` sends when pressed with R1 held.
pub open spec fn face_nav_action(code: u16) -> PadEvent {
    if code == BTN_WEST {
        PadEvent::PageUp
    } else if code == BTN_SOUTH {
        PadEvent::PageDown
    } else if code == BTN_NORTH {
        PadEvent::Arrow(Key::Tab)
    } else {
        PadEvent::Arrow(Key::Esc)
    }
}

/// What face button `code` sends when pressed without R1.
pub open spec fn face_normal_action(code: u16) -> PadEvent {
    if code == BTN_WEST {
        PadEvent::Enter
    } else if code == BTN_SOUTH {
        PadEvent::Backspace
    } else if code == BTN_NORTH {
        PadEvent::Space
    } else {
        PadEvent::Type
    }
}

/// A face button's routing changes only on that button's own events.
pub proof fn lemma_routing_changes_only_on_own_events(s: PadStateModel, ev: InputEvent, code: u16)
    requires
        is_face_button(code),
        !is_key_event_of(ev, code),
    ensures
        face_routed(decode_step(s, ev).0, code) == face_routed(s, code),
{
}

/// A run of events none of which is the face button's own leaves its
/// routing as it was.
pub proof fn lemma_routing_survives_other_events(s: PadStateModel, evs: Seq<InputEvent>, code: u16)
    requires
        is_face_button(code),
        forall|i: int| 0 <= i < evs.len() ==> !is_key_event_of(#[trigger] evs[i], code),
    ensures
        face_routed(decode_run(s, evs).0, code) == face_routed(s, code),
    decreases evs.len(),
{
    if evs.len() > 0 {
        let init = evs.drop_last();
        assert forall|i: int| 0 <= i < init.len() implies !is_key_event_of(#[trigger] init[i], code) by {
            assert(init[i] == evs[i]);
        }
        lemma_routing_survives_other_events(s, init, code);
        lemma_routing_changes_only_on_own_events(decode_run(s, init).0, evs.last(), code);
    }
}

/// A face button pressed while R1 is held sends its nav action, and its
/// release then stops that action's repeat, whatever events of other
/// buttons came between (R1's own release among them). Pressed without R1
/// it sends its normal one-shot action, and its release sends nothing.
pub proof fn lemma_face_press_then_release(s: PadStateModel, code: u16, between: Seq<InputEvent>)
    requires
        is_face_button(code),
        forall|i: int| 0 <= i < between.len() ==> !is_key_event_of(#[trigger] between[i], code),
    ensures
        ({
            let (pressed, sent) = decode_step(s, InputEvent { type_: EV_KEY, code, value: 1 });
            let before_release = decode_run(pressed, between).0;
            let released = decode_step(before_release, InputEvent { type_: EV_KEY, code, value: 0 });
            &&& sent == Some(if s.r1_held { face_nav_action(code) } else { face_normal_action(code) })
            &&& released.1 == (if s.r1_held { Some(PadEvent::MoveEnd) } else { None::<PadEvent> })
            &&& !face_routed(released.0, code)
        }),
{
    let (pressed, sent) = decode_step(s, InputEvent { type_: EV_KEY, code, value: 1 });
    lemma_routing_survives_other_events(pressed, between, code);
}

} // verus!
