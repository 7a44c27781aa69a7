//! Driving by keyboard.
//!
//! W and S change the forward speed, A and D the turning rate, R and F the
//! sideways speed; capitals and Shift take coarser steps, the digits 1 to 5 jump
//! to a speed, 0 and Space stop, and q, Esc and Ctrl-C quit. After every key the
//! command passes the policy's limits again.

use vstd::prelude::*;

verus! {

/// A body velocity: forward, to the left, and turning to the left.
#[derive(Clone, Copy)]
pub struct Cmd<N> {
    pub vx: N,
    pub vy: N,
    pub wz: N,
}

/// The step of the forward speed, in mm/s.
pub const STEP_VX: i32 = 50;

/// The coarse step of the forward speed, in mm/s.
pub const STEP_VX_COARSE: i32 = 200;

/// The step of the sideways speed, in mm/s.
pub const STEP_VY: i32 = 50;

/// The step of the turning rate, in mrad/s.
pub const STEP_WZ: i32 = 100;

/// The forward speed of the digit 1, in mm/s; each digit up to 5 adds as much.
pub const VX_PRESET: i32 = 200;

/// The bit of the Shift key in a set of modifiers.
pub const SHIFT: u8 = 1;

/// The bit of the Control key in a set of modifiers.
pub const CONTROL: u8 = 2;

/// `KeyModifiers::contains` of crossterm, on sets of modifiers given by their
/// bits: whether every bit of `wanted` is among `modifiers`.
#[verifier::external_body]
fn modifiers_contain(modifiers: u8, wanted: u8) -> (yes: bool)
    ensures
        yes == (modifiers & wanted == wanted),
{
    crossterm::event::KeyModifiers::from_bits_retain(modifiers).contains(
        crossterm::event::KeyModifiers::from_bits_retain(wanted),
    )
}

/// A key.
#[derive(Clone, Copy, PartialEq, Eq, Structural, Debug)]
pub enum Key {
    Char(char),
    Up,
    Down,
    Left,
    Right,
    Esc,
    Other,
}

/// What a key asks for; amounts in mm/s and mrad/s.
#[derive(Clone, Copy, PartialEq, Eq, Structural, Debug)]
pub enum Change {
    AddVx(i32),
    AddVy(i32),
    AddWz(i32),
    SetVx(i32),
    Stop,
    Quit,
    Nothing,
}

/// What a key asks for, with the modifiers that are held.
pub open spec fn change_of(key: Key, modifiers: u8) -> Change {
    let shift = modifiers & SHIFT == SHIFT;
    let control = modifiers & CONTROL == CONTROL;
    match key {
        Key::Up => Change::AddVx(
            if shift {
                STEP_VX_COARSE
            } else {
                STEP_VX
            },
        ),
        Key::Down => Change::AddVx(
            (-(if shift {
                STEP_VX_COARSE
            } else {
                STEP_VX
            })) as i32,
        ),
        Key::Left => Change::AddWz(STEP_WZ),
        Key::Right => Change::AddWz((-STEP_WZ) as i32),
        Key::Esc => Change::Quit,
        Key::Other => Change::Nothing,
        Key::Char(c) => if c == 'W' {
            Change::AddVx(STEP_VX_COARSE)
        } else if c == 'S' {
            Change::AddVx((-STEP_VX_COARSE) as i32)
        } else if '1' <= c <= '5' {
            Change::SetVx((VX_PRESET * (c as u32 - '0' as u32)) as i32)
        } else if c == 'w' {
            Change::AddVx(STEP_VX)
        } else if c == 's' {
            Change::AddVx((-STEP_VX) as i32)
        } else if c == 'a' {
            Change::AddWz(STEP_WZ)
        } else if c == 'd' {
            Change::AddWz((-STEP_WZ) as i32)
        } else if c == 'r' {
            Change::AddVy(STEP_VY)
        } else if c == 'f' {
            Change::AddVy((-STEP_VY) as i32)
        } else if c == '0' || c == ' ' {
            Change::Stop
        } else if c == 'q' || (c == 'c' && control) {
            Change::Quit
        } else {
            Change::Nothing
        },
    }
}

/// Reads a key.
pub fn read_key(key: Key, modifiers: u8) -> (change: Change)
    ensures
        change == change_of(key, modifiers),
{
    match key {
        Key::Up => Change::AddVx(
            if modifiers_contain(modifiers, SHIFT) {
                STEP_VX_COARSE
            } else {
                STEP_VX
            },
        ),
        Key::Down => Change::AddVx(
            if modifiers_contain(modifiers, SHIFT) {
                -STEP_VX_COARSE
            } else {
                -STEP_VX
            },
        ),
        Key::Left => Change::AddWz(STEP_WZ),
        Key::Right => Change::AddWz(-STEP_WZ),
        Key::Esc => Change::Quit,
        Key::Other => Change::Nothing,
        Key::Char(c) => if c == 'W' {
            Change::AddVx(STEP_VX_COARSE)
        } else if c == 'S' {
            Change::AddVx(-STEP_VX_COARSE)
        } else if '1' <= c && c <= '5' {
            let digit: i32 = (c as u32 - '0' as u32) as i32;
            Change::SetVx(VX_PRESET * digit)
        } else if c == 'w' {
            Change::AddVx(STEP_VX)
        } else if c == 's' {
            Change::AddVx(-STEP_VX)
        } else if c == 'a' {
            Change::AddWz(STEP_WZ)
        } else if c == 'd' {
            Change::AddWz(-STEP_WZ)
        } else if c == 'r' {
            Change::AddVy(STEP_VY)
        } else if c == 'f' {
            Change::AddVy(-STEP_VY)
        } else if c == '0' || c == ' ' {
            Change::Stop
        } else if c == 'q' || (c == 'c' && modifiers_contain(modifiers, CONTROL)) {
            Change::Quit
        } else {
            Change::Nothing
        },
    }
}

/// Whether a change leads from `cmd` to `changed`, where `step_by` adds thousandths to
/// a number and `set` makes a number of thousandths.
pub open spec fn changes<N, A: Fn(N, i32) -> N, S: Fn(i32) -> N>(
    step_by: A,
    set: S,
    cmd: Cmd<N>,
    change: Change,
    changed: Cmd<N>,
) -> bool {
    match change {
        Change::AddVx(step) => {
            &&& call_ensures(step_by, (cmd.vx, step), changed.vx)
            &&& changed.vy == cmd.vy
            &&& changed.wz == cmd.wz
        },
        Change::AddVy(step) => {
            &&& call_ensures(step_by, (cmd.vy, step), changed.vy)
            &&& changed.vx == cmd.vx
            &&& changed.wz == cmd.wz
        },
        Change::AddWz(step) => {
            &&& call_ensures(step_by, (cmd.wz, step), changed.wz)
            &&& changed.vx == cmd.vx
            &&& changed.vy == cmd.vy
        },
        Change::SetVx(speed) => {
            &&& call_ensures(set, (speed,), changed.vx)
            &&& changed.vy == cmd.vy
            &&& changed.wz == cmd.wz
        },
        Change::Stop => {
            &&& call_ensures(set, (0i32,), changed.vx)
            &&& changed.vy == changed.vx
            &&& changed.wz == changed.vx
        },
        Change::Quit | Change::Nothing => changed == cmd,
    }
}

/// Whether a key leads from `cmd` to `next`: by what it asks for, and then by `clamp`.
pub open spec fn presses<N, A: Fn(N, i32) -> N, S: Fn(i32) -> N, C: Fn(Cmd<N>) -> Cmd<N>>(
    step_by: A,
    set: S,
    clamp: C,
    cmd: Cmd<N>,
    key: Key,
    modifiers: u8,
    next: Cmd<N>,
) -> bool {
    exists|changed: Cmd<N>| #[trigger]
        changes(step_by, set, cmd, change_of(key, modifiers), changed) && call_ensures(
            clamp,
            (changed,),
            next,
        )
}

/// Takes in a key: the command changes as the key asks and then passes `clamp`,
/// whatever the key was. Says whether to quit.
pub fn press<N: Copy, A: Fn(N, i32) -> N, S: Fn(i32) -> N, C: Fn(Cmd<N>) -> Cmd<N>>(
    cmd: &mut Cmd<N>,
    key: Key,
    modifiers: u8,
    step_by: A,
    set: S,
    clamp: C,
) -> (quit: bool)
    requires
        forall|x: N, step: i32| call_requires(step_by, (x, step)),
        forall|x: i32| call_requires(set, (x,)),
        forall|c: Cmd<N>| call_requires(clamp, (c,)),
    ensures
        quit == (change_of(key, modifiers) == Change::Quit),
        presses(step_by, set, clamp, *old(cmd), key, modifiers, *final(cmd)),
        exists|changed: Cmd<N>| #[trigger]
            changes(step_by, set, *old(cmd), change_of(key, modifiers), changed) && call_ensures(
                clamp,
                (changed,),
                *final(cmd),
            ),
{
    let mut changed = *cmd;
    let change = read_key(key, modifiers);
    let mut quit = false;
    match change {
        Change::AddVx(step) => changed.vx = step_by(changed.vx, step),
        Change::AddVy(step) => changed.vy = step_by(changed.vy, step),
        Change::AddWz(step) => changed.wz = step_by(changed.wz, step),
        Change::SetVx(speed) => changed.vx = set(speed),
        Change::Stop => {
            let zero = set(0);
            changed = Cmd { vx: zero, vy: zero, wz: zero };
        },
        Change::Quit => quit = true,
        Change::Nothing => {},
    }
    assert(changes(step_by, set, *old(cmd), change, changed));
    *cmd = clamp(changed);
    quit
}

/// Whether the limits lead from `cmd` to `clamped`: the policy's own, and then the one
/// on the forward speed alone.
pub open spec fn clamps<N, B: Fn(Cmd<N>) -> Cmd<N>, L: Fn(N, N) -> N>(
    base: B,
    limit: L,
    vx_max: Option<N>,
    cmd: Cmd<N>,
    clamped: Cmd<N>,
) -> bool {
    exists|c: Cmd<N>| #[trigger]
        call_ensures(base, (cmd,), c) && clamped.vy == c.vy && clamped.wz == c.wz && match vx_max {
            Some(m) => call_ensures(limit, (c.vx, m), clamped.vx),
            None => clamped.vx == c.vx,
        }
}

/// The policy's own limits and then, where one is given, the limit on the forward
/// speed. `limit` bounds a speed by the size of its second argument.
pub fn clamp_command<N: Copy, B: Fn(Cmd<N>) -> Cmd<N>, L: Fn(N, N) -> N>(
    cmd: Cmd<N>,
    vx_max: Option<N>,
    base: B,
    limit: L,
) -> (clamped: Cmd<N>)
    requires
        forall|c: Cmd<N>| call_requires(base, (c,)),
        forall|v: N, m: N| call_requires(limit, (v, m)),
    ensures
        clamps(base, limit, vx_max, cmd, clamped),
{
    let mut clamped = base(cmd);
    match vx_max {
        Some(m) => {
            clamped.vx = limit(clamped.vx, m);
        },
        None => {},
    }
    clamped
}

/// Brings the command one cycle closer to the one that is wanted: each speed changes
/// by what `toward` allows, from where it is, at the given rate.
pub fn limit_rate<N: Copy, T: Fn(N, N, N) -> N>(
    current: Cmd<N>,
    wanted: Cmd<N>,
    rate: N,
    toward: T,
) -> (next: Cmd<N>)
    requires
        forall|from: N, to: N, rate: N| call_requires(toward, (from, to, rate)),
    ensures
        nears(toward, rate, current, wanted, next),
{
    Cmd {
        vx: toward(current.vx, wanted.vx, rate),
        vy: toward(current.vy, wanted.vy, rate),
        wz: toward(current.wz, wanted.wz, rate),
    }
}

/// Whether each speed went from `current` towards `wanted` by what `toward` allows.
pub open spec fn nears<N, T: Fn(N, N, N) -> N>(
    toward: T,
    rate: N,
    current: Cmd<N>,
    wanted: Cmd<N>,
    next: Cmd<N>,
) -> bool {
    &&& call_ensures(toward, (current.vx, wanted.vx, rate), next.vx)
    &&& call_ensures(toward, (current.vy, wanted.vy, rate), next.vy)
    &&& call_ensures(toward, (current.wz, wanted.wz, rate), next.wz)
}

/// The key that takes a step back.
pub open spec fn opposite(key: Key) -> Option<Key> {
    match key {
        Key::Up => Some(Key::Down),
        Key::Down => Some(Key::Up),
        Key::Left => Some(Key::Right),
        Key::Right => Some(Key::Left),
        Key::Char(c) => if c == 'W' {
            Some(Key::Char('S'))
        } else if c == 'S' {
            Some(Key::Char('W'))
        } else if c == 'w' {
            Some(Key::Char('s'))
        } else if c == 's' {
            Some(Key::Char('w'))
        } else if c == 'a' {
            Some(Key::Char('d'))
        } else if c == 'd' {
            Some(Key::Char('a'))
        } else if c == 'r' {
            Some(Key::Char('f'))
        } else if c == 'f' {
            Some(Key::Char('r'))
        } else {
            None
        },
        _ => None,
    }
}

/// Opposite keys take opposite steps: with the same modifiers, the one steps back
/// by what the other stepped forward, on the same axis.
pub proof fn law_opposite_keys_take_opposite_steps(key: Key, modifiers: u8)
    requires
        opposite(key) is Some,
    ensures
        match (change_of(key, modifiers), change_of(opposite(key)->0, modifiers)) {
            (Change::AddVx(a), Change::AddVx(b)) => a == -b && a != 0,
            (Change::AddVy(a), Change::AddVy(b)) => a == -b && a != 0,
            (Change::AddWz(a), Change::AddWz(b)) => a == -b && a != 0,
            _ => false,
        },
{
}

/// Whatever key is pressed, the command afterwards is one that the limits let
/// through: what holds of everything that `clamp` returns holds of it.
pub proof fn law_commands_stay_within_limits<
    N,
    A: Fn(N, i32) -> N,
    S: Fn(i32) -> N,
    C: Fn(Cmd<N>) -> Cmd<N>,
>(
    step_by: A,
    set: S,
    clamp: C,
    before: Cmd<N>,
    key: Key,
    modifiers: u8,
    after: Cmd<N>,
    within: spec_fn(Cmd<N>) -> bool,
)
    requires
        exists|changed: Cmd<N>| #[trigger]
            changes(step_by, set, before, change_of(key, modifiers), changed) && call_ensures(
                clamp,
                (changed,),
                after,
            ),
        forall|c: Cmd<N>, d: Cmd<N>| #[trigger] call_ensures(clamp, (c,), d) ==> within(d),
    ensures
        within(after),
{
}

/// Limiting twice is limiting once, where each limit lets through what it gave, and
/// the policy's own limits let through a forward speed that was limited further.
pub proof fn law_limiting_twice_is_limiting_once<N, B: Fn(Cmd<N>) -> Cmd<N>, L: Fn(N, N) -> N>(
    base: B,
    limit: L,
    vx_max: Option<N>,
    cmd: Cmd<N>,
    once: Cmd<N>,
    twice: Cmd<N>,
)
    requires
        clamps(base, limit, vx_max, cmd, once),
        clamps(base, limit, vx_max, once, twice),
        forall|c: Cmd<N>, d: Cmd<N>, e: Cmd<N>|
            #[trigger] call_ensures(base, (c,), d) && #[trigger] call_ensures(base, (d,), e) ==> e
                == d,
        forall|c: Cmd<N>, d: Cmd<N>, m: N, e: Cmd<N>, f: Cmd<N>|
            #[trigger] call_ensures(base, (c,), d) && #[trigger] call_ensures(
                limit,
                (d.vx, m),
                e.vx,
            ) && e.vy == d.vy && e.wz == d.wz && #[trigger] call_ensures(base, (e,), f) ==> f == e,
        forall|v: N, m: N, w: N, x: N|
            #[trigger] call_ensures(limit, (v, m), w) && #[trigger] call_ensures(limit, (w, m), x)
                ==> x == w,
    ensures
        twice == once,
{
    let c = choose|c: Cmd<N>| #[trigger]
        call_ensures(base, (cmd,), c) && once.vy == c.vy && once.wz == c.wz && match vx_max {
            Some(m) => call_ensures(limit, (c.vx, m), once.vx),
            None => once.vx == c.vx,
        };
    let d = choose|d: Cmd<N>| #[trigger]
        call_ensures(base, (once,), d) && twice.vy == d.vy && twice.wz == d.wz && match vx_max {
            Some(m) => call_ensures(limit, (d.vx, m), twice.vx),
            None => twice.vx == d.vx,
        };
    match vx_max {
        Some(m) => {
            assert(call_ensures(limit, (c.vx, m), once.vx));
            assert(d == once);
        },
        None => {
            assert(once == c);
            assert(d == c);
        },
    }
}

/// The limit on the forward speed never widens the policy's own: whatever size means,
/// as long as `limit` does not enlarge, the forward speed is no larger than what the
/// policy's own limits give for the command, and the other speeds are just that.
pub proof fn law_speed_limit_never_widens<N, B: Fn(Cmd<N>) -> Cmd<N>, L: Fn(N, N) -> N>(
    base: B,
    limit: L,
    vx_max: Option<N>,
    cmd: Cmd<N>,
    clamped: Cmd<N>,
    no_larger: spec_fn(N, N) -> bool,
)
    requires
        clamps(base, limit, vx_max, cmd, clamped),
        forall|v: N, m: N, w: N| #[trigger] call_ensures(limit, (v, m), w) ==> no_larger(w, v),
        forall|v: N| #[trigger] no_larger(v, v),
    ensures
        exists|c: Cmd<N>| #[trigger]
            call_ensures(base, (cmd,), c) && no_larger(clamped.vx, c.vx) && clamped.vy == c.vy
                && clamped.wz == c.wz,
{
}

/// The command changes no faster than its rate: what `toward` never exceeds in one
/// cycle, no speed of the command exceeds, and a command that is reached is kept.
pub proof fn law_command_keeps_its_rate<N, T: Fn(N, N, N) -> N>(
    toward: T,
    rate: N,
    current: Cmd<N>,
    wanted: Cmd<N>,
    next: Cmd<N>,
    near: spec_fn(N, N, N) -> bool,
)
    requires
        nears(toward, rate, current, wanted, next),
        forall|from: N, to: N, r: N, x: N| #[trigger]
            call_ensures(toward, (from, to, r), x) ==> near(from, x, r),
        forall|to: N, r: N, x: N| #[trigger] call_ensures(toward, (to, to, r), x) ==> x == to,
    ensures
        near(current.vx, next.vx, rate),
        near(current.vy, next.vy, rate),
        near(current.wz, next.wz, rate),
        current == wanted ==> next == wanted,
{
}

/// The command that a policy is told stays within its limits: where `toward` keeps
/// within a range what lies between two values in it, a command within the limits that
/// goes from cycle to cycle towards commands within the limits never leaves them.
pub proof fn law_told_commands_stay_within_limits<N, T: Fn(N, N, N) -> N>(
    toward: T,
    rate: N,
    told: Seq<Cmd<N>>,
    wanted: Seq<Cmd<N>>,
    in_vx: spec_fn(N) -> bool,
    in_vy: spec_fn(N) -> bool,
    in_wz: spec_fn(N) -> bool,
    n: int,
)
    requires
        told.len() == wanted.len() + 1,
        forall|i: int|
            0 <= i < wanted.len() ==> nears(
                toward,
                rate,
                told[i],
                #[trigger] wanted[i],
                told[i + 1],
            ),
        forall|from: N, to: N, x: N|
            #[trigger] call_ensures(toward, (from, to, rate), x) ==> {
                &&& in_vx(from) && in_vx(to) ==> in_vx(x)
                &&& in_vy(from) && in_vy(to) ==> in_vy(x)
                &&& in_wz(from) && in_wz(to) ==> in_wz(x)
            },
        in_vx(told[0].vx) && in_vy(told[0].vy) && in_wz(told[0].wz),
        forall|i: int|
            0 <= i < wanted.len() ==> in_vx((#[trigger] wanted[i]).vx) && in_vy(wanted[i].vy)
                && in_wz(wanted[i].wz),
        0 <= n < told.len(),
    ensures
        in_vx(told[n].vx) && in_vy(told[n].vy) && in_wz(told[n].wz),
    decreases n,
{
    if n > 0 {
        law_told_commands_stay_within_limits(
            toward,
            rate,
            told,
            wanted,
            in_vx,
            in_vy,
            in_wz,
            n - 1,
        );
        assert(nears(toward, rate, told[n - 1], wanted[n - 1], told[n]));
    }
}

/// Each key steps its own speed: W, S and the upright arrows the forward one, coarsely
/// as a capital or with Shift, A, D and the sideways arrows the turning rate, R and F
/// the sideways one.
pub proof fn law_each_key_steps_its_own_speed(modifiers: u8)
    ensures
        change_of(Key::Char('w'), modifiers) == Change::AddVx(50),
        change_of(Key::Char('s'), modifiers) == Change::AddVx((-50) as i32),
        change_of(Key::Char('W'), modifiers) == Change::AddVx(200),
        change_of(Key::Char('S'), modifiers) == Change::AddVx((-200) as i32),
        modifiers & 1 == 1 ==> change_of(Key::Up, modifiers) == Change::AddVx(200),
        modifiers & 1 != 1 ==> change_of(Key::Up, modifiers) == Change::AddVx(50),
        modifiers & 1 == 1 ==> change_of(Key::Down, modifiers) == Change::AddVx((-200) as i32),
        modifiers & 1 != 1 ==> change_of(Key::Down, modifiers) == Change::AddVx((-50) as i32),
        change_of(Key::Char('a'), modifiers) == Change::AddWz(100),
        change_of(Key::Left, modifiers) == Change::AddWz(100),
        change_of(Key::Char('d'), modifiers) == Change::AddWz((-100) as i32),
        change_of(Key::Right, modifiers) == Change::AddWz((-100) as i32),
        change_of(Key::Char('r'), modifiers) == Change::AddVy(50),
        change_of(Key::Char('f'), modifiers) == Change::AddVy((-50) as i32),
{
}

/// The digits one to five set the forward speed to as many fifths of 1 m/s, and no
/// other key sets it.
pub proof fn law_digits_set_the_forward_speed(key: Key, modifiers: u8)
    ensures
        change_of(key, modifiers) is SetVx <==> (key matches Key::Char(c) && '1' <= c <= '5'),
        key matches Key::Char(c) ==> '1' <= c <= '5' ==> change_of(key, modifiers)
            == Change::SetVx((200 * (c as u32 - 48)) as i32),
{
}

/// Exactly the keys that are said to stop do, exactly those that are said to quit do,
/// and a key without a meaning changes nothing.
pub proof fn law_stop_and_quit_have_their_own_keys(key: Key, modifiers: u8)
    ensures
        change_of(key, modifiers) == Change::Stop <==> key == Key::Char('0') || key == Key::Char(
            ' ',
        ),
        change_of(key, modifiers) == Change::Quit <==> key == Key::Esc || key == Key::Char('q') || (
        key == Key::Char('c') && modifiers & 2 == 2),
        change_of(key, modifiers) is AddVx <==> key == Key::Up || key == Key::Down || key
            == Key::Char('w') || key == Key::Char('s') || key == Key::Char('W') || key == Key::Char(
            'S',
        ),
        change_of(key, modifiers) is AddVy <==> key == Key::Char('r') || key == Key::Char('f'),
        change_of(key, modifiers) is AddWz <==> key == Key::Left || key == Key::Right || key
            == Key::Char('a') || key == Key::Char('d'),
{
}

/// A change touches the speed that it names and no other: a step goes from the speed as
/// it is, a digit sets the forward speed alone, a stop clears all three alike, and
/// quitting leaves them.
pub proof fn law_a_change_touches_its_own_speed<N, A: Fn(N, i32) -> N, S: Fn(i32) -> N>(
    step_by: A,
    set: S,
    cmd: Cmd<N>,
    change: Change,
    changed: Cmd<N>,
)
    requires
        changes(step_by, set, cmd, change, changed),
    ensures
        change matches Change::AddVx(step) ==> call_ensures(step_by, (cmd.vx, step), changed.vx),
        change matches Change::AddVy(step) ==> call_ensures(step_by, (cmd.vy, step), changed.vy),
        change matches Change::AddWz(step) ==> call_ensures(step_by, (cmd.wz, step), changed.wz),
        change matches Change::SetVx(speed) ==> call_ensures(set, (speed,), changed.vx),
        change == Change::Stop ==> call_ensures(set, (0i32,), changed.vx) && call_ensures(
            set,
            (0i32,),
            changed.vy,
        ) && call_ensures(set, (0i32,), changed.wz),
        !(change is AddVx || change is SetVx || change is Stop) ==> changed.vx == cmd.vx,
        !(change is AddVy || change is Stop) ==> changed.vy == cmd.vy,
        !(change is AddWz || change is Stop) ==> changed.wz == cmd.wz,
{
}

/// Without a limit on the forward speed the policy's own limits give the command; with
/// one, only the forward speed is limited further.
pub proof fn law_the_speed_limit_acts_last<N, B: Fn(Cmd<N>) -> Cmd<N>, L: Fn(N, N) -> N>(
    base: B,
    limit: L,
    vx_max: Option<N>,
    cmd: Cmd<N>,
    clamped: Cmd<N>,
) -> (c: Cmd<N>)
    requires
        clamps(base, limit, vx_max, cmd, clamped),
    ensures
        call_ensures(base, (cmd,), c),
        clamped.vy == c.vy,
        clamped.wz == c.wz,
        vx_max is None ==> clamped.vx == c.vx,
        vx_max matches Some(m) ==> call_ensures(limit, (c.vx, m), clamped.vx),
{
    choose|c: Cmd<N>| #[trigger]
        call_ensures(base, (cmd,), c) && clamped.vy == c.vy && clamped.wz == c.wz && match vx_max {
            Some(m) => call_ensures(limit, (c.vx, m), clamped.vx),
            None => clamped.vx == c.vx,
        }
}

/// Each speed nears its own aim from where it is, at the one rate.
pub proof fn law_each_speed_nears_its_own_aim<N, T: Fn(N, N, N) -> N>(
    toward: T,
    rate: N,
    current: Cmd<N>,
    wanted: Cmd<N>,
    next: Cmd<N>,
)
    requires
        nears(toward, rate, current, wanted, next),
    ensures
        call_ensures(toward, (current.vx, wanted.vx, rate), next.vx),
        call_ensures(toward, (current.vy, wanted.vy, rate), next.vy),
        call_ensures(toward, (current.wz, wanted.wz, rate), next.wz),
{
}

/// Whatever key is pressed, the command passes the limits: it is what they gave for some
/// command, and for a key without a meaning, or one that quits, for the command that was
/// in force.
pub proof fn law_every_key_passes_the_limits<
    N,
    A: Fn(N, i32) -> N,
    S: Fn(i32) -> N,
    C: Fn(Cmd<N>) -> Cmd<N>,
>(step_by: A, set: S, clamp: C, cmd: Cmd<N>, key: Key, modifiers: u8, next: Cmd<N>)
    requires
        presses(step_by, set, clamp, cmd, key, modifiers, next),
    ensures
        exists|changed: Cmd<N>| #[trigger] call_ensures(clamp, (changed,), next),
        key == Key::Other || key == Key::Esc || key == Key::Char('q') ==> call_ensures(
            clamp,
            (cmd,),
            next,
        ),
        key == Key::Char('w') ==> exists|vx: N|
            #[trigger] call_ensures(step_by, (cmd.vx, 50i32), vx) && call_ensures(
                clamp,
                (Cmd { vx, vy: cmd.vy, wz: cmd.wz },),
                next,
            ),
        key == Key::Char('r') ==> exists|vy: N|
            #[trigger] call_ensures(step_by, (cmd.vy, 50i32), vy) && call_ensures(
                clamp,
                (Cmd { vx: cmd.vx, vy, wz: cmd.wz },),
                next,
            ),
        key == Key::Char('a') || key == Key::Left ==> exists|wz: N|
            #[trigger] call_ensures(step_by, (cmd.wz, 100i32), wz) && call_ensures(
                clamp,
                (Cmd { vx: cmd.vx, vy: cmd.vy, wz },),
                next,
            ),
{
    let changed = choose|changed: Cmd<N>| #[trigger]
        changes(step_by, set, cmd, change_of(key, modifiers), changed) && call_ensures(
            clamp,
            (changed,),
            next,
        );
    assert(changed == Cmd { vx: changed.vx, vy: changed.vy, wz: changed.wz });
    if key == Key::Char('w') {
        assert(call_ensures(step_by, (cmd.vx, 50i32), changed.vx));
    }
    if key == Key::Char('r') {
        assert(call_ensures(step_by, (cmd.vy, 50i32), changed.vy));
    }
    if key == Key::Char('a') || key == Key::Left {
        assert(call_ensures(step_by, (cmd.wz, 100i32), changed.wz));
    }
}

} // verus!
