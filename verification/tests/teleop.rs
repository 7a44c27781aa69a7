use crossterm::event::KeyModifiers;
use go2_runner::teleop::{clamp_command, limit_rate, press, read_key, CONTROL, Change, Cmd, Key, SHIFT};

fn none() -> u8 {
    KeyModifiers::NONE.bits()
}

#[test]
fn modifiers_are_those_of_the_terminal() {
    assert_eq!(KeyModifiers::SHIFT.bits(), SHIFT);
    assert_eq!(KeyModifiers::CONTROL.bits(), CONTROL);
    let both = (KeyModifiers::SHIFT | KeyModifiers::ALT).bits();
    assert_eq!(read_key(Key::Up, both), Change::AddVx(200));
    assert_eq!(read_key(Key::Up, KeyModifiers::ALT.bits()), Change::AddVx(50));
    assert_eq!(read_key(Key::Down, both), Change::AddVx(-200));
    assert_eq!(read_key(Key::Down, none()), Change::AddVx(-50));
}

#[test]
fn keys_mean_what_the_help_says() {
    for (key, change) in [
        (Key::Char('w'), Change::AddVx(50)),
        (Key::Char('s'), Change::AddVx(-50)),
        (Key::Char('W'), Change::AddVx(200)),
        (Key::Char('S'), Change::AddVx(-200)),
        (Key::Char('a'), Change::AddWz(100)),
        (Key::Char('d'), Change::AddWz(-100)),
        (Key::Left, Change::AddWz(100)),
        (Key::Right, Change::AddWz(-100)),
        (Key::Char('r'), Change::AddVy(50)),
        (Key::Char('f'), Change::AddVy(-50)),
        (Key::Char('0'), Change::Stop),
        (Key::Char(' '), Change::Stop),
        (Key::Char('1'), Change::SetVx(200)),
        (Key::Char('2'), Change::SetVx(400)),
        (Key::Char('3'), Change::SetVx(600)),
        (Key::Char('4'), Change::SetVx(800)),
        (Key::Char('5'), Change::SetVx(1000)),
        (Key::Char('6'), Change::Nothing),
        (Key::Char('q'), Change::Quit),
        (Key::Esc, Change::Quit),
        (Key::Char('c'), Change::Nothing),
        (Key::Char('A'), Change::Nothing),
        (Key::Other, Change::Nothing),
    ] {
        assert_eq!(read_key(key, none()), change, "{key:?}");
    }
    assert_eq!(read_key(Key::Char('c'), KeyModifiers::CONTROL.bits()), Change::Quit);
}

fn pressed(start: (i64, i64, i64), keys: &str) -> ((i64, i64, i64), bool) {
    let mut cmd = Cmd { vx: start.0, vy: start.1, wz: start.2 };
    let mut quit = false;
    for c in keys.chars() {
        quit |= press(
            &mut cmd,
            Key::Char(c),
            none(),
            |x: i64, step: i32| x + step as i64,
            |x: i32| x as i64,
            |c: Cmd<i64>| Cmd {
                vx: c.vx.clamp(-160, 1000),
                vy: c.vy.clamp(-300, 300),
                wz: c.wz.clamp(-800, 800),
            },
        );
    }
    ((cmd.vx, cmd.vy, cmd.wz), quit)
}

#[test]
fn five_coarse_steps_reach_one_metre_per_second() {
    assert_eq!(pressed((0, 0, 0), "WWWWW"), ((1000, 0, 0), false));
    assert_eq!(pressed((0, 0, 0), "WWWWWW"), ((1000, 0, 0), false));
}

#[test]
fn steps_add_up_and_stop_clears_them() {
    assert_eq!(pressed((0, 0, 0), "wwaarf"), ((100, 0, 200), false));
    assert_eq!(pressed((100, 50, -200), "0"), ((0, 0, 0), false));
    assert_eq!(pressed((100, 50, -200), "3"), ((600, 50, -200), false));
}

#[test]
fn any_key_passes_the_limits() {
    assert_eq!(pressed((5000, -900, 0), "x"), ((1000, -300, 0), false));
    assert_eq!(pressed((5000, 0, 0), "q"), ((1000, 0, 0), true));
    assert_eq!(pressed((0, 0, 0), "SS"), ((-160, 0, 0), false));
}

#[test]
fn opposite_keys_undo_each_other() {
    for keys in ["ws", "WS", "ad", "rf"] {
        assert_eq!(pressed((100, 100, 100), keys), ((100, 100, 100), false));
    }
}

#[test]
fn the_extra_limit_comes_after_the_policys_own() {
    let base = |c: Cmd<i64>| Cmd { vx: c.vx.clamp(-160, 1000), vy: 0, wz: c.wz };
    let limit = |v: i64, m: i64| v.clamp(-m.abs(), m.abs());
    let cmd = Cmd { vx: 5000, vy: 9, wz: 3 };
    let free = clamp_command(cmd, None, base, limit);
    assert_eq!((free.vx, free.vy, free.wz), (1000, 0, 3));
    let held = clamp_command(cmd, Some(-600), base, limit);
    assert_eq!((held.vx, held.vy, held.wz), (600, 0, 3));
}

#[test]
fn limiting_twice_is_limiting_once() {
    let base = |c: Cmd<i64>| Cmd { vx: c.vx.clamp(-160, 1000), vy: 0, wz: c.wz.clamp(-800, 800) };
    let limit = |v: i64, m: i64| v.clamp(-m.abs(), m.abs());
    for vx_max in [None, Some(600), Some(-100), Some(5000)] {
        for (vx, vy, wz) in [(5000, 9, 3), (-5000, -9, 3000), (0, 0, 0)] {
            let once = clamp_command(Cmd { vx, vy, wz }, vx_max, base, limit);
            let twice = clamp_command(once, vx_max, base, limit);
            assert_eq!((once.vx, once.vy, once.wz), (twice.vx, twice.vy, twice.wz));
            assert!(once.vx.abs() <= base(Cmd { vx, vy, wz }).vx.abs());
        }
    }
}

#[test]
fn the_command_nears_at_its_rate() {
    let toward = |from: i64, to: i64, step: i64| from + (to - from).clamp(-step, step);
    let mut cmd = Cmd { vx: 0, vy: 0, wz: 0 };
    let wanted = Cmd { vx: 25, vy: -5, wz: 40 };
    cmd = limit_rate(cmd, wanted, 10, toward);
    assert_eq!((cmd.vx, cmd.vy, cmd.wz), (10, -5, 10));
    for _ in 0..3 {
        cmd = limit_rate(cmd, wanted, 10, toward);
    }
    assert_eq!((cmd.vx, cmd.vy, cmd.wz), (25, -5, 40));
    cmd = limit_rate(cmd, wanted, 10, toward);
    assert_eq!((cmd.vx, cmd.vy, cmd.wz), (25, -5, 40));
}

#[test]
fn told_commands_stay_within_the_limits() {
    let toward = |from: i64, to: i64, step: i64| from + (to - from).clamp(-step, step);
    let mut told = Cmd { vx: 0, vy: 0, wz: 0 };
    for wanted in [(1000, 300, -800), (-160, -300, 800), (1000, 0, 0)] {
        let wanted = Cmd { vx: wanted.0, vy: wanted.1, wz: wanted.2 };
        for _ in 0..30 {
            told = limit_rate(told, wanted, 70, toward);
            assert!((-160..=1000).contains(&told.vx));
            assert!((-300..=300).contains(&told.vy));
            assert!((-800..=800).contains(&told.wz));
        }
        assert_eq!((told.vx, told.vy, told.wz), (wanted.vx, wanted.vy, wanted.wz));
    }
}
