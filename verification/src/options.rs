//! The command line of a policy run.
//!
//! Reading it takes two steps. [`scan`] cuts the arguments into options and their
//! values, up to the first that does not fit. [`parse`] then applies the options
//! in order, so that errors come in the order of the command line: a value that
//! is no number, then what `scan` stopped at, then a missing model.
//!
//! Numbers are opaque here (`N`): the caller says what text is which number, and
//! how a body height recalibrates the stance.

use vstd::prelude::*;
use crate::teleop::Cmd;
use crate::text::{context, debug_quoted, in_context, quote_for_debug, same_text};

verus! {

/// Options that take a text.
#[derive(Clone, Copy, PartialEq, Eq, Structural, Debug)]
pub enum TextOption {
    Model,
    Iface,
    Misa,
    VizEndpoint,
    Estimator,
    Cone,
}

/// Options that take a number.
#[derive(Clone, Copy, PartialEq, Eq, Structural, Debug)]
pub enum NumberOption {
    Vx,
    Vy,
    Wz,
    Duration,
    StrideGain,
    YawStrideGain,
    BodyHeight,
    VizRate,
    Friction,
    VxMax,
    JointDamping,
    Impratio,
    EstimatorBias,
    CmdAccel,
}

/// Options that stand alone.
#[derive(Clone, Copy, PartialEq, Eq, Structural, Debug)]
pub enum Switch {
    LowStance,
    Hold,
    NoKeyboard,
    NoRelease,
    Sim,
    Viz,
    OdomCalibrated,
    GruHostVelocity,
}

/// An option.
#[derive(Clone, Copy, PartialEq, Eq, Structural, Debug)]
pub enum Opt {
    Text(TextOption),
    Number(NumberOption),
    Switch(Switch),
    /// It takes two numbers.
    HeadingHold,
}

/// An option with its value.
pub enum Flag {
    Text(TextOption, String),
    Number(NumberOption, String),
    Switch(Switch),
    HeadingHold(String, String),
}

/// The option that a word names.
pub open spec fn option_of(word: Seq<char>) -> Option<Opt> {
    if word == "--model"@ {
        Some(Opt::Text(TextOption::Model))
    } else if word == "--iface"@ {
        Some(Opt::Text(TextOption::Iface))
    } else if word == "--misa"@ {
        Some(Opt::Text(TextOption::Misa))
    } else if word == "--viz-endpoint"@ {
        Some(Opt::Text(TextOption::VizEndpoint))
    } else if word == "--estimator"@ {
        Some(Opt::Text(TextOption::Estimator))
    } else if word == "--cone"@ {
        Some(Opt::Text(TextOption::Cone))
    } else if word == "--vx"@ {
        Some(Opt::Number(NumberOption::Vx))
    } else if word == "--vy"@ {
        Some(Opt::Number(NumberOption::Vy))
    } else if word == "--wz"@ {
        Some(Opt::Number(NumberOption::Wz))
    } else if word == "--duration"@ {
        Some(Opt::Number(NumberOption::Duration))
    } else if word == "--stride-gain"@ {
        Some(Opt::Number(NumberOption::StrideGain))
    } else if word == "--yaw-stride-gain"@ {
        Some(Opt::Number(NumberOption::YawStrideGain))
    } else if word == "--body-height"@ {
        Some(Opt::Number(NumberOption::BodyHeight))
    } else if word == "--viz-rate"@ {
        Some(Opt::Number(NumberOption::VizRate))
    } else if word == "--friction"@ {
        Some(Opt::Number(NumberOption::Friction))
    } else if word == "--vx-max"@ {
        Some(Opt::Number(NumberOption::VxMax))
    } else if word == "--joint-damping"@ {
        Some(Opt::Number(NumberOption::JointDamping))
    } else if word == "--impratio"@ {
        Some(Opt::Number(NumberOption::Impratio))
    } else if word == "--estimator-bias"@ {
        Some(Opt::Number(NumberOption::EstimatorBias))
    } else if word == "--cmd-accel"@ {
        Some(Opt::Number(NumberOption::CmdAccel))
    } else if word == "--heading-hold"@ {
        Some(Opt::HeadingHold)
    } else if word == "--low-stance"@ {
        Some(Opt::Switch(Switch::LowStance))
    } else if word == "--hold"@ {
        Some(Opt::Switch(Switch::Hold))
    } else if word == "--no-keyboard"@ {
        Some(Opt::Switch(Switch::NoKeyboard))
    } else if word == "--no-release"@ {
        Some(Opt::Switch(Switch::NoRelease))
    } else if word == "--sim"@ {
        Some(Opt::Switch(Switch::Sim))
    } else if word == "--viz"@ {
        Some(Opt::Switch(Switch::Viz))
    } else if word == "--odom-calibrated"@ {
        Some(Opt::Switch(Switch::OdomCalibrated))
    } else if word == "--gru-host-velocity"@ {
        Some(Opt::Switch(Switch::GruHostVelocity))
    } else {
        None
    }
}

/// Reads the name of an option.
pub fn option_named(word: &str) -> (option: Option<Opt>)
    ensures
        option == option_of(word@),
{
    if same_text(word, "--model") {
        Some(Opt::Text(TextOption::Model))
    } else if same_text(word, "--iface") {
        Some(Opt::Text(TextOption::Iface))
    } else if same_text(word, "--misa") {
        Some(Opt::Text(TextOption::Misa))
    } else if same_text(word, "--viz-endpoint") {
        Some(Opt::Text(TextOption::VizEndpoint))
    } else if same_text(word, "--estimator") {
        Some(Opt::Text(TextOption::Estimator))
    } else if same_text(word, "--cone") {
        Some(Opt::Text(TextOption::Cone))
    } else if same_text(word, "--vx") {
        Some(Opt::Number(NumberOption::Vx))
    } else if same_text(word, "--vy") {
        Some(Opt::Number(NumberOption::Vy))
    } else if same_text(word, "--wz") {
        Some(Opt::Number(NumberOption::Wz))
    } else if same_text(word, "--duration") {
        Some(Opt::Number(NumberOption::Duration))
    } else if same_text(word, "--stride-gain") {
        Some(Opt::Number(NumberOption::StrideGain))
    } else if same_text(word, "--yaw-stride-gain") {
        Some(Opt::Number(NumberOption::YawStrideGain))
    } else if same_text(word, "--body-height") {
        Some(Opt::Number(NumberOption::BodyHeight))
    } else if same_text(word, "--viz-rate") {
        Some(Opt::Number(NumberOption::VizRate))
    } else if same_text(word, "--friction") {
        Some(Opt::Number(NumberOption::Friction))
    } else if same_text(word, "--vx-max") {
        Some(Opt::Number(NumberOption::VxMax))
    } else if same_text(word, "--joint-damping") {
        Some(Opt::Number(NumberOption::JointDamping))
    } else if same_text(word, "--impratio") {
        Some(Opt::Number(NumberOption::Impratio))
    } else if same_text(word, "--estimator-bias") {
        Some(Opt::Number(NumberOption::EstimatorBias))
    } else if same_text(word, "--cmd-accel") {
        Some(Opt::Number(NumberOption::CmdAccel))
    } else if same_text(word, "--heading-hold") {
        Some(Opt::HeadingHold)
    } else if same_text(word, "--low-stance") {
        Some(Opt::Switch(Switch::LowStance))
    } else if same_text(word, "--hold") {
        Some(Opt::Switch(Switch::Hold))
    } else if same_text(word, "--no-keyboard") {
        Some(Opt::Switch(Switch::NoKeyboard))
    } else if same_text(word, "--no-release") {
        Some(Opt::Switch(Switch::NoRelease))
    } else if same_text(word, "--sim") {
        Some(Opt::Switch(Switch::Sim))
    } else if same_text(word, "--viz") {
        Some(Opt::Switch(Switch::Viz))
    } else if same_text(word, "--odom-calibrated") {
        Some(Opt::Switch(Switch::OdomCalibrated))
    } else if same_text(word, "--gru-host-velocity") {
        Some(Opt::Switch(Switch::GruHostVelocity))
    } else {
        None
    }
}

/// How an option that takes a number is written.
pub open spec fn number_name(option: NumberOption) -> Seq<char> {
    match option {
        NumberOption::Vx => "--vx"@,
        NumberOption::Vy => "--vy"@,
        NumberOption::Wz => "--wz"@,
        NumberOption::Duration => "--duration"@,
        NumberOption::StrideGain => "--stride-gain"@,
        NumberOption::YawStrideGain => "--yaw-stride-gain"@,
        NumberOption::BodyHeight => "--body-height"@,
        NumberOption::VizRate => "--viz-rate"@,
        NumberOption::Friction => "--friction"@,
        NumberOption::VxMax => "--vx-max"@,
        NumberOption::JointDamping => "--joint-damping"@,
        NumberOption::Impratio => "--impratio"@,
        NumberOption::EstimatorBias => "--estimator-bias"@,
        NumberOption::CmdAccel => "--cmd-accel"@,
    }
}

fn name_of_number(option: NumberOption) -> (name: &'static str)
    ensures
        name@ == number_name(option),
{
    match option {
        NumberOption::Vx => "--vx",
        NumberOption::Vy => "--vy",
        NumberOption::Wz => "--wz",
        NumberOption::Duration => "--duration",
        NumberOption::StrideGain => "--stride-gain",
        NumberOption::YawStrideGain => "--yaw-stride-gain",
        NumberOption::BodyHeight => "--body-height",
        NumberOption::VizRate => "--viz-rate",
        NumberOption::Friction => "--friction",
        NumberOption::VxMax => "--vx-max",
        NumberOption::JointDamping => "--joint-damping",
        NumberOption::Impratio => "--impratio",
        NumberOption::EstimatorBias => "--estimator-bias",
        NumberOption::CmdAccel => "--cmd-accel",
    }
}

/// The error of an option whose value is missing.
pub open spec fn value_missing(word: Seq<char>) -> Seq<char> {
    word + " に値がありません"@
}

/// The error of a word that is no option.
pub open spec fn option_unknown(word: Seq<char>) -> Seq<char> {
    "policy: 知らないオプション "@ + debug_quoted(word)
}

/// The options of a command line, up to the first word that does not fit.
pub open spec fn flags_of(args: Seq<String>) -> Seq<Flag>
    decreases args.len(),
{
    if args.len() == 0 {
        Seq::empty()
    } else {
        match option_of(args[0]@) {
            None => Seq::empty(),
            Some(Opt::Switch(switch)) => seq![Flag::Switch(switch)] + flags_of(args.skip(1)),
            Some(Opt::Text(option)) => if args.len() < 2 {
                Seq::empty()
            } else {
                seq![Flag::Text(option, args[1])] + flags_of(args.skip(2))
            },
            Some(Opt::Number(option)) => if args.len() < 2 {
                Seq::empty()
            } else {
                seq![Flag::Number(option, args[1])] + flags_of(args.skip(2))
            },
            Some(Opt::HeadingHold) => if args.len() < 3 {
                Seq::empty()
            } else {
                seq![Flag::HeadingHold(args[1], args[2])] + flags_of(args.skip(3))
            },
        }
    }
}

/// What is wrong with the first word that does not fit.
pub open spec fn misfit_of(args: Seq<String>) -> Option<Seq<char>>
    decreases args.len(),
{
    if args.len() == 0 {
        None
    } else {
        match option_of(args[0]@) {
            None => Some(option_unknown(args[0]@)),
            Some(Opt::Switch(_)) => misfit_of(args.skip(1)),
            Some(Opt::HeadingHold) => if args.len() < 3 {
                Some(value_missing(args[0]@))
            } else {
                misfit_of(args.skip(3))
            },
            Some(_) => if args.len() < 2 {
                Some(value_missing(args[0]@))
            } else {
                misfit_of(args.skip(2))
            },
        }
    }
}

/// The view of an optional text.
pub open spec fn text_view(text: Option<String>) -> Option<Seq<char>> {
    match text {
        Some(t) => Some(t@),
        None => None,
    }
}

/// Cuts a command line into options, up to the first word that does not fit.
pub fn scan(args: &Vec<String>) -> (result: (Vec<Flag>, Option<String>))
    ensures
        result.0@ == flags_of(args@),
        text_view(result.1) == misfit_of(args@),
{
    let mut flags: Vec<Flag> = Vec::new();
    let mut at: usize = 0;
    assert(args@.skip(0) =~= args@);
    assert(flags@ + flags_of(args@) =~= flags_of(args@));
    while at < args.len()
        invariant
            at <= args.len(),
            flags@ + flags_of(args@.skip(at as int)) == flags_of(args@),
            misfit_of(args@.skip(at as int)) == misfit_of(args@),
        decreases args.len() - at,
    {
        let ghost rest = args@.skip(at as int);
        let ghost before = flags@;
        assert(rest[0] == args@[at as int]);
        match option_named(args[at].as_str()) {
            None => {
                let mut text = "policy: 知らないオプション ".to_owned();
                text.append(quote_for_debug(args[at].as_str()).as_str());
                assert(flags@ + Seq::<Flag>::empty() =~= flags@);
                return (flags, Some(text));
            },
            Some(Opt::Switch(switch)) => {
                flags.push(Flag::Switch(switch));
                proof {
                    assert(rest.skip(1) =~= args@.skip(at + 1));
                    let tail = flags_of(rest.skip(1));
                    assert(before + (seq![Flag::Switch(switch)] + tail) =~= flags@ + tail);
                }
                at = at + 1;
            },
            Some(Opt::Text(option)) => {
                if args.len() - at < 2 {
                    let mut text = args[at].clone();
                    text.append(" に値がありません");
                    assert(flags@ + Seq::<Flag>::empty() =~= flags@);
                    return (flags, Some(text));
                }
                flags.push(Flag::Text(option, args[at + 1].clone()));
                proof {
                    assert(rest[1] == args@[at + 1]);
                    assert(rest.skip(2) =~= args@.skip(at + 2));
                    let tail = flags_of(rest.skip(2));
                    assert(before + (seq![Flag::Text(option, rest[1])] + tail) =~= flags@ + tail);
                }
                at = at + 2;
            },
            Some(Opt::Number(option)) => {
                if args.len() - at < 2 {
                    let mut text = args[at].clone();
                    text.append(" に値がありません");
                    assert(flags@ + Seq::<Flag>::empty() =~= flags@);
                    return (flags, Some(text));
                }
                flags.push(Flag::Number(option, args[at + 1].clone()));
                proof {
                    assert(rest[1] == args@[at + 1]);
                    assert(rest.skip(2) =~= args@.skip(at + 2));
                    let tail = flags_of(rest.skip(2));
                    assert(before + (seq![Flag::Number(option, rest[1])] + tail) =~= flags@ + tail);
                }
                at = at + 2;
            },
            Some(Opt::HeadingHold) => {
                if args.len() - at < 3 {
                    let mut text = args[at].clone();
                    text.append(" に値がありません");
                    assert(flags@ + Seq::<Flag>::empty() =~= flags@);
                    return (flags, Some(text));
                }
                flags.push(Flag::HeadingHold(args[at + 1].clone(), args[at + 2].clone()));
                proof {
                    assert(rest[1] == args@[at + 1]);
                    assert(rest[2] == args@[at + 2]);
                    assert(rest.skip(3) =~= args@.skip(at + 3));
                    let tail = flags_of(rest.skip(3));
                    assert(before + (seq![Flag::HeadingHold(rest[1], rest[2])] + tail) =~= flags@
                        + tail);
                }
                at = at + 3;
            },
        }
    }
    proof {
        assert(args@.skip(at as int) =~= Seq::empty());
        assert(flags@ + Seq::<Flag>::empty() =~= flags@);
    }
    (flags, None)
}

/// The stance that a policy walks in: the gains on the stride and on its turning
/// part, the height of the body, and what else the caller keeps with it.
#[derive(Clone, Copy)]
pub struct TrajectoryCfg<N, M> {
    pub stride_gain: N,
    pub yaw_stride_gain: Option<N>,
    pub body_height: Option<N>,
    /// What else belongs to the stance; it is carried along with the height.
    pub other: M,
}

/// What the command line says.
pub struct Args<N, M> {
    pub model: String,
    pub iface: Option<String>,
    pub cmd0: Cmd<N>,
    pub duration: Option<N>,
    pub cfg: TrajectoryCfg<N, M>,
    pub hold: bool,
    pub keyboard: bool,
    pub release: bool,
    /// Run in the simulator.
    pub sim: bool,
    /// The model file of the simulator.
    pub misa: String,
    /// Publish the run to a viewer.
    pub viz: bool,
    pub viz_endpoint: Option<String>,
    pub viz_rate_hz: N,
    /// The sliding friction of the feet in the simulator.
    pub friction: Option<N>,
    /// A limit on the forward speed, on top of the policy's own.
    pub vx_max: Option<N>,
    pub impratio: Option<N>,
    pub cone: Option<String>,
    /// The passive damping of the joints in the simulator.
    pub joint_damping: Option<N>,
    /// Correct the leg odometry for slipping feet.
    pub odom_calibrated: bool,
    /// The frozen velocity estimator of a recurrent policy.
    pub estimator: Option<String>,
    /// Feed a recurrent policy with leg odometry instead.
    pub gru_host_velocity: bool,
    /// What the velocity estimator reads too much while the robot moves.
    pub estimator_bias: Option<N>,
    /// The two numbers of the heading servo, where it is asked for.
    pub heading_hold: Option<(N, N)>,
    /// How fast the commanded speeds may change.
    pub cmd_accel: N,
}

/// The numbers that hold where the command line says nothing, and the stance of
/// `--low-stance`.
#[derive(Clone, Copy)]
pub struct Defaults<N, M> {
    pub standard: TrajectoryCfg<N, M>,
    pub low_stance: TrajectoryCfg<N, M>,
    pub zero: N,
    pub viz_rate_hz: N,
    pub cmd_accel: N,
}

/// A command line that has been read in part.
pub struct Parsing<N, M> {
    pub args: Args<N, M>,
    /// Whether the turning gain was given explicitly, and so outlives any change
    /// of the body height.
    pub yaw_gain_pinned: bool,
}

/// Whether nothing has been read yet.
pub open spec fn is_start<N, M>(
    p: Parsing<N, M>,
    defaults: Defaults<N, M>,
    iface: Option<String>,
) -> bool {
    &&& p.args.model@ == Seq::<char>::empty()
    &&& p.args.misa@ == "models/unitree_go2/go2.misa"@
    &&& !p.yaw_gain_pinned
    &&& p.args == (Args {
        model: p.args.model,
        iface,
        cmd0: Cmd { vx: defaults.zero, vy: defaults.zero, wz: defaults.zero },
        duration: None,
        cfg: defaults.standard,
        hold: false,
        keyboard: true,
        release: true,
        sim: false,
        misa: p.args.misa,
        viz: false,
        viz_endpoint: None,
        viz_rate_hz: defaults.viz_rate_hz,
        friction: None,
        vx_max: None,
        impratio: None,
        cone: None,
        joint_damping: None,
        odom_calibrated: false,
        estimator: None,
        gru_host_velocity: false,
        estimator_bias: None,
        heading_hold: None,
        cmd_accel: defaults.cmd_accel,
    })
}

/// A new stance, with the turning gain kept where it was given explicitly.
pub open spec fn restanced<N, M>(p: Parsing<N, M>, cfg: TrajectoryCfg<N, M>) -> Parsing<N, M> {
    Parsing {
        args: Args {
            cfg: TrajectoryCfg {
                yaw_stride_gain: if p.yaw_gain_pinned {
                    p.args.cfg.yaw_stride_gain
                } else {
                    cfg.yaw_stride_gain
                },
                ..cfg
            },
            ..p.args
        },
        ..p
    }
}

/// What an option with a text changes.
pub open spec fn with_text<N, M>(p: Parsing<N, M>, option: TextOption, text: String) -> Parsing<N, M> {
    let args = p.args;
    Parsing {
        args: match option {
            TextOption::Model => Args { model: text, ..args },
            TextOption::Iface => Args { iface: Some(text), ..args },
            TextOption::Misa => Args { misa: text, ..args },
            TextOption::VizEndpoint => Args { viz_endpoint: Some(text), ..args },
            TextOption::Estimator => Args { estimator: Some(text), ..args },
            TextOption::Cone => Args { cone: Some(text), ..args },
        },
        ..p
    }
}

/// What an option that stands alone changes. The low stance is a height and a turning
/// gain; the stride gain is not its business.
pub open spec fn with_switch<N, M>(
    p: Parsing<N, M>,
    switch: Switch,
    low_stance: TrajectoryCfg<N, M>,
) -> Parsing<N, M> {
    let args = p.args;
    match switch {
        Switch::LowStance => restanced(
            p,
            TrajectoryCfg { stride_gain: args.cfg.stride_gain, ..low_stance },
        ),
        Switch::Hold => Parsing { args: Args { hold: true, ..args }, ..p },
        Switch::NoKeyboard => Parsing { args: Args { keyboard: false, ..args }, ..p },
        Switch::NoRelease => Parsing { args: Args { release: false, ..args }, ..p },
        Switch::Sim => Parsing { args: Args { sim: true, ..args }, ..p },
        Switch::Viz => Parsing { args: Args { viz: true, ..args }, ..p },
        Switch::OdomCalibrated => Parsing { args: Args { odom_calibrated: true, ..args }, ..p },
        Switch::GruHostVelocity => Parsing { args: Args { gru_host_velocity: true, ..args }, ..p },
    }
}

/// What an option with a number changes. For the body height, `height_cfg` is the
/// stance at that height.
pub open spec fn with_number<N, M>(
    p: Parsing<N, M>,
    option: NumberOption,
    value: N,
    height_cfg: TrajectoryCfg<N, M>,
) -> Parsing<N, M> {
    let args = p.args;
    match option {
        NumberOption::Vx => Parsing {
            args: Args { cmd0: Cmd { vx: value, ..args.cmd0 }, ..args },
            ..p
        },
        NumberOption::Vy => Parsing {
            args: Args { cmd0: Cmd { vy: value, ..args.cmd0 }, ..args },
            ..p
        },
        NumberOption::Wz => Parsing {
            args: Args { cmd0: Cmd { wz: value, ..args.cmd0 }, ..args },
            ..p
        },
        NumberOption::Duration => Parsing { args: Args { duration: Some(value), ..args }, ..p },
        NumberOption::StrideGain => Parsing {
            args: Args { cfg: TrajectoryCfg { stride_gain: value, ..args.cfg }, ..args },
            ..p
        },
        NumberOption::YawStrideGain => Parsing {
            args: Args { cfg: TrajectoryCfg { yaw_stride_gain: Some(value), ..args.cfg }, ..args },
            yaw_gain_pinned: true,
        },
        NumberOption::BodyHeight => restanced(p, height_cfg),
        NumberOption::VizRate => Parsing { args: Args { viz_rate_hz: value, ..args }, ..p },
        NumberOption::Friction => Parsing { args: Args { friction: Some(value), ..args }, ..p },
        NumberOption::VxMax => Parsing { args: Args { vx_max: Some(value), ..args }, ..p },
        NumberOption::JointDamping => Parsing {
            args: Args { joint_damping: Some(value), ..args },
            ..p
        },
        NumberOption::Impratio => Parsing { args: Args { impratio: Some(value), ..args }, ..p },
        NumberOption::EstimatorBias => Parsing {
            args: Args { estimator_bias: Some(value), ..args },
            ..p
        },
        NumberOption::CmdAccel => Parsing { args: Args { cmd_accel: value, ..args }, ..p },
    }
}

/// Whether one option leads from `p` to `q`, where `number` reads texts as numbers
/// and `with_height` gives the stance at a height.
pub open spec fn flag_leads<
    N,
    M,
    F: Fn(&String) -> Result<N, String>,
    H: Fn(TrajectoryCfg<N, M>, N) -> TrajectoryCfg<N, M>,
>(
    number: F,
    with_height: H,
    low_stance: TrajectoryCfg<N, M>,
    p: Parsing<N, M>,
    flag: Flag,
    q: Parsing<N, M>,
) -> bool {
    match flag {
        Flag::Text(option, text) => q == with_text(p, option, text),
        Flag::Switch(switch) => q == with_switch(p, switch, low_stance),
        Flag::Number(option, text) => exists|value: N, cfg: TrajectoryCfg<N, M>|
            {
                &&& #[trigger] call_ensures(number, (&text,), Ok::<N, String>(value))
                &&& option == NumberOption::BodyHeight ==> call_ensures(
                    with_height,
                    (p.args.cfg, value),
                    cfg,
                )
                &&& q == #[trigger] with_number(p, option, value, cfg)
            },
        Flag::HeadingHold(first, second) => exists|a: N, b: N|
            {
                &&& #[trigger] call_ensures(number, (&first,), Ok::<N, String>(a))
                &&& #[trigger] call_ensures(number, (&second,), Ok::<N, String>(b))
                &&& q == (Parsing { args: Args { heading_hold: Some((a, b)), ..p.args }, ..p })
            },
    }
}

/// Whether each option leads from one entry of `trace` to the next.
pub open spec fn is_trace<
    N,
    M,
    F: Fn(&String) -> Result<N, String>,
    H: Fn(TrajectoryCfg<N, M>, N) -> TrajectoryCfg<N, M>,
>(
    number: F,
    with_height: H,
    low_stance: TrajectoryCfg<N, M>,
    flags: Seq<Flag>,
    trace: Seq<Parsing<N, M>>,
) -> bool {
    &&& trace.len() == flags.len() + 1
    &&& forall|i: int|
        0 <= i < flags.len() ==> flag_leads(
            number,
            with_height,
            low_stance,
            trace[i],
            #[trigger] flags[i],
            trace[i + 1],
        )
}

/// Whether a row of options leads from `p` to `q`.
pub open spec fn flags_lead<
    N,
    M,
    F: Fn(&String) -> Result<N, String>,
    H: Fn(TrajectoryCfg<N, M>, N) -> TrajectoryCfg<N, M>,
>(
    number: F,
    with_height: H,
    low_stance: TrajectoryCfg<N, M>,
    p: Parsing<N, M>,
    flags: Seq<Flag>,
    q: Parsing<N, M>,
) -> bool {
    exists|trace: Seq<Parsing<N, M>>| #[trigger]
        is_trace(number, with_height, low_stance, flags, trace) && trace.first() == p
            && trace.last() == q
}

/// One more option at the end.
proof fn lemma_one_more_flag<
    N,
    M,
    F: Fn(&String) -> Result<N, String>,
    H: Fn(TrajectoryCfg<N, M>, N) -> TrajectoryCfg<N, M>,
>(
    number: F,
    with_height: H,
    low_stance: TrajectoryCfg<N, M>,
    p: Parsing<N, M>,
    flags: Seq<Flag>,
    m: Parsing<N, M>,
    flag: Flag,
    q: Parsing<N, M>,
)
    requires
        flags_lead(number, with_height, low_stance, p, flags, m),
        flag_leads(number, with_height, low_stance, m, flag, q),
    ensures
        flags_lead(number, with_height, low_stance, p, flags.push(flag), q),
{
    let trace = choose|trace: Seq<Parsing<N, M>>| #[trigger]
        is_trace(number, with_height, low_stance, flags, trace) && trace.first() == p
            && trace.last() == m;
    let all = flags.push(flag);
    let longer = trace.push(q);
    assert forall|i: int| 0 <= i < all.len() implies flag_leads(
        number,
        with_height,
        low_stance,
        longer[i],
        #[trigger] all[i],
        longer[i + 1],
    ) by {
        if i < flags.len() {
            assert(all[i] == flags[i]);
        }
    }
    assert(is_trace(number, with_height, low_stance, all, longer));
}

/// Whether the value of an option is no number, with `text` as the error. Of two
/// values, the first is read first.
pub open spec fn number_fails<N, F: Fn(&String) -> Result<N, String>>(
    number: F,
    flag: Flag,
    text: Seq<char>,
) -> bool {
    match flag {
        Flag::Number(option, value) => exists|e: String|
            #[trigger] call_ensures(number, (&value,), Err::<N, String>(e)) && text == in_context(
                number_name(option),
                e@,
            ),
        Flag::HeadingHold(first, second) => {
            ||| exists|e: String|
                #[trigger] call_ensures(number, (&first,), Err::<N, String>(e)) && text
                    == in_context("--heading-hold"@, e@)
            ||| exists|a: N, e: String|
                #[trigger] call_ensures(number, (&first,), Ok::<N, String>(a))
                    && #[trigger] call_ensures(number, (&second,), Err::<N, String>(e)) && text
                    == in_context("--heading-hold"@, e@)
        },
        _ => false,
    }
}

/// The error of a command line without a model.
pub open spec fn model_missing() -> Seq<char> {
    "--model PATH は必須です（exported/policy.onnx。入力が 1 本なら幅で 39 = Natural / 73・76 = Pure、2 本なら GRU 契約（76 + 隠れ状態 128）。GRU には --estimator も要ります）"@
}

/// Applies one option.
fn apply<
    N: Copy,
    M: Copy,
    F: Fn(&String) -> Result<N, String>,
    H: Fn(TrajectoryCfg<N, M>, N) -> TrajectoryCfg<N, M>,
>(
    p: &mut Parsing<N, M>,
    flag: &Flag,
    number: &F,
    with_height: &H,
    low_stance: TrajectoryCfg<N, M>,
) -> (result: Result<(), String>)
    requires
        forall|text: &String| call_requires(*number, (text,)),
        forall|cfg: TrajectoryCfg<N, M>, h: N| call_requires(*with_height, (cfg, h)),
    ensures
        match result {
            Ok(_) => flag_leads(*number, *with_height, low_stance, *old(p), *flag, *final(p)),
            Err(text) => number_fails::<N, F>(*number, *flag, text@),
        },
{
    match flag {
        Flag::Text(option, text) => {
            let text = text.clone();
            match option {
                TextOption::Model => p.args.model = text,
                TextOption::Iface => p.args.iface = Some(text),
                TextOption::Misa => p.args.misa = text,
                TextOption::VizEndpoint => p.args.viz_endpoint = Some(text),
                TextOption::Estimator => p.args.estimator = Some(text),
                TextOption::Cone => p.args.cone = Some(text),
            }
            Ok(())
        },
        Flag::Switch(switch) => {
            match switch {
                Switch::LowStance => {
                    p.args.cfg.body_height = low_stance.body_height;
                    p.args.cfg.other = low_stance.other;
                    if !p.yaw_gain_pinned {
                        p.args.cfg.yaw_stride_gain = low_stance.yaw_stride_gain;
                    }
                },
                Switch::Hold => p.args.hold = true,
                Switch::NoKeyboard => p.args.keyboard = false,
                Switch::NoRelease => p.args.release = false,
                Switch::Sim => p.args.sim = true,
                Switch::Viz => p.args.viz = true,
                Switch::OdomCalibrated => p.args.odom_calibrated = true,
                Switch::GruHostVelocity => p.args.gru_host_velocity = true,
            }
            Ok(())
        },
        Flag::Number(option, text) => {
            match number(text) {
                Err(e) => Err(context(name_of_number(*option), e.as_str())),
                Ok(value) => {
                    let ghost mut height_cfg = p.args.cfg;
                    match option {
                        NumberOption::Vx => p.args.cmd0.vx = value,
                        NumberOption::Vy => p.args.cmd0.vy = value,
                        NumberOption::Wz => p.args.cmd0.wz = value,
                        NumberOption::Duration => p.args.duration = Some(value),
                        NumberOption::StrideGain => p.args.cfg.stride_gain = value,
                        NumberOption::YawStrideGain => {
                            p.args.cfg.yaw_stride_gain = Some(value);
                            p.yaw_gain_pinned = true;
                        },
                        NumberOption::BodyHeight => {
                            let pinned = p.args.cfg.yaw_stride_gain;
                            p.args.cfg = with_height(p.args.cfg, value);
                            proof {
                                height_cfg = p.args.cfg;
                            }
                            if p.yaw_gain_pinned {
                                p.args.cfg.yaw_stride_gain = pinned;
                            }
                        },
                        NumberOption::VizRate => p.args.viz_rate_hz = value,
                        NumberOption::Friction => p.args.friction = Some(value),
                        NumberOption::VxMax => p.args.vx_max = Some(value),
                        NumberOption::JointDamping => p.args.joint_damping = Some(value),
                        NumberOption::Impratio => p.args.impratio = Some(value),
                        NumberOption::EstimatorBias => p.args.estimator_bias = Some(value),
                        NumberOption::CmdAccel => p.args.cmd_accel = value,
                    }
                    proof {
                        assert(*p == with_number(*old(p), *option, value, height_cfg));
                    }
                    Ok(())
                },
            }
        },
        Flag::HeadingHold(first, second) => {
            let a = match number(first) {
                Err(e) => {
                    return Err(context("--heading-hold", e.as_str()));
                },
                Ok(a) => a,
            };
            match number(second) {
                Err(e) => Err(context("--heading-hold", e.as_str())),
                Ok(b) => {
                    p.args.heading_hold = Some((a, b));
                    Ok(())
                },
            }
        },
    }
}

/// Whether reading a command line comes out as `result`.
pub open spec fn reads_as<
    N,
    M,
    F: Fn(&String) -> Result<N, String>,
    H: Fn(TrajectoryCfg<N, M>, N) -> TrajectoryCfg<N, M>,
>(
    args: Seq<String>,
    iface: Option<String>,
    defaults: Defaults<N, M>,
    number: F,
    with_height: H,
    result: Result<Args<N, M>, String>,
) -> bool {
    exists|start: Parsing<N, M>| #[trigger]
        is_start(start, defaults, iface) && match result {
            Ok(out) => {
                &&& misfit_of(args) is None
                &&& out.model@.len() > 0
                &&& exists|end: Parsing<N, M>| #[trigger]
                    flags_lead(
                        number,
                        with_height,
                        defaults.low_stance,
                        start,
                        flags_of(args),
                        end,
                    ) && end.args == out
            },
            Err(text) => {
                // A value is no number, and all options before it were taken.
                ||| exists|k: int, m: Parsing<N, M>|
                    0 <= k < flags_of(args).len() && #[trigger] flags_lead(
                        number,
                        with_height,
                        defaults.low_stance,
                        start,
                        flags_of(args).take(k),
                        m,
                    ) && number_fails::<N, F>(number, flags_of(args)[k], text@)
                // All options were taken, and then came a word that does not fit,
                // or there was no model.
                ||| exists|end: Parsing<N, M>| #[trigger]
                    flags_lead(
                        number,
                        with_height,
                        defaults.low_stance,
                        start,
                        flags_of(args),
                        end,
                    ) && (misfit_of(args) == Some(text@) || misfit_of(args) is None
                        && end.args.model@.len() == 0 && text@ == model_missing())
            },
        }
}

/// Reads a command line. `iface` is the network interface where no option names
/// one.
pub fn parse<
    N: Copy,
    M: Copy,
    F: Fn(&String) -> Result<N, String>,
    H: Fn(TrajectoryCfg<N, M>, N) -> TrajectoryCfg<N, M>,
>(
    args: &Vec<String>,
    iface: Option<String>,
    defaults: &Defaults<N, M>,
    number: F,
    with_height: H,
) -> (result: Result<Args<N, M>, String>)
    requires
        forall|text: &String| call_requires(number, (text,)),
        forall|cfg: TrajectoryCfg<N, M>, h: N| call_requires(with_height, (cfg, h)),
    ensures
        reads_as(args@, iface, *defaults, number, with_height, result),
        exists|start: Parsing<N, M>| #[trigger]
            is_start(start, *defaults, iface) && match result {
                Ok(out) => {
                    &&& misfit_of(args@) is None
                    &&& out.model@.len() > 0
                    &&& exists|end: Parsing<N, M>| #[trigger]
                        flags_lead(
                            number,
                            with_height,
                            defaults.low_stance,
                            start,
                            flags_of(args@),
                            end,
                        ) && end.args == out
                },
                Err(text) => {
                    // A value is no number, and all options before it were taken.
                    ||| exists|k: int, m: Parsing<N, M>|
                        0 <= k < flags_of(args@).len() && #[trigger] flags_lead(
                            number,
                            with_height,
                            defaults.low_stance,
                            start,
                            flags_of(args@).take(k),
                            m,
                        ) && number_fails::<N, F>(number, flags_of(args@)[k], text@)
                    // All options were taken, and then came a word that does not fit,
                    // or there was no model.
                    ||| exists|end: Parsing<N, M>| #[trigger]
                        flags_lead(
                            number,
                            with_height,
                            defaults.low_stance,
                            start,
                            flags_of(args@),
                            end,
                        ) && (misfit_of(args@) == Some(text@) || misfit_of(args@) is None
                            && end.args.model@.len() == 0 && text@ == model_missing())
                },
            },
{
    let mut p = Parsing {
        args: Args {
            model: String::new(),
            iface,
            cmd0: Cmd { vx: defaults.zero, vy: defaults.zero, wz: defaults.zero },
            duration: None,
            cfg: defaults.standard,
            hold: false,
            keyboard: true,
            release: true,
            sim: false,
            misa: "models/unitree_go2/go2.misa".to_owned(),
            viz: false,
            viz_endpoint: None,
            viz_rate_hz: defaults.viz_rate_hz,
            friction: None,
            vx_max: None,
            impratio: None,
            cone: None,
            joint_damping: None,
            odom_calibrated: false,
            estimator: None,
            gru_host_velocity: false,
            estimator_bias: None,
            heading_hold: None,
            cmd_accel: defaults.cmd_accel,
        },
        yaw_gain_pinned: false,
    };
    let ghost start = p;
    assert(is_start(start, *defaults, iface));
    let (flags, misfit) = scan(args);
    let low_stance = defaults.low_stance;
    assert(is_trace(number, with_height, low_stance, flags@.take(0), seq![start]));
    for i in 0..flags.len()
        invariant
            forall|text: &String| call_requires(number, (text,)),
            forall|cfg: TrajectoryCfg<N, M>, h: N| call_requires(with_height, (cfg, h)),
            is_start(start, *defaults, iface),
            low_stance == defaults.low_stance,
            flags@ == flags_of(args@),
            flags_lead(number, with_height, low_stance, start, flags@.take(i as int), p),
    {
        let ghost m = p;
        match apply(&mut p, &flags[i], &number, &with_height, low_stance) {
            Ok(_) => {
                proof {
                    lemma_one_more_flag(
                        number,
                        with_height,
                        low_stance,
                        start,
                        flags@.take(i as int),
                        m,
                        flags@[i as int],
                        p,
                    );
                    assert(flags@.take(i as int).push(flags@[i as int]) =~= flags@.take(i + 1));
                }
            },
            Err(text) => {
                return Err(text);
            },
        }
    }
    assert(flags@.take(flags.len() as int) =~= flags@);
    match misfit {
        Some(text) => Err(text),
        None => if p.args.model.as_str().is_empty() {
            Err(
                "--model PATH は必須です（exported/policy.onnx。入力が 1 本なら幅で 39 = Natural / 73・76 = Pure、2 本なら GRU 契約（76 + 隠れ状態 128）。GRU には --estimator も要ります）".to_owned(),
            )
        } else {
            Ok(p.args)
        },
    }
}

/// Whether an option sets the turning gain.
pub open spec fn sets_yaw_gain(flag: Flag) -> bool {
    flag matches Flag::Number(NumberOption::YawStrideGain, _)
}

/// Whether an option touches the stance.
pub open spec fn sets_stance(flag: Flag) -> bool {
    ||| sets_yaw_gain(flag)
    ||| flag matches Flag::Number(NumberOption::StrideGain, _)
    ||| flag matches Flag::Number(NumberOption::BodyHeight, _)
    ||| flag == Flag::Switch(Switch::LowStance)
}

/// An explicit turning gain wins, whatever the order: where an option gives it and
/// no later option gives it again, the reading ends with it, whatever body heights
/// come before or after.
pub proof fn law_explicit_yaw_gain_wins<
    N,
    M,
    F: Fn(&String) -> Result<N, String>,
    H: Fn(TrajectoryCfg<N, M>, N) -> TrajectoryCfg<N, M>,
>(
    number: F,
    with_height: H,
    low_stance: TrajectoryCfg<N, M>,
    p: Parsing<N, M>,
    flags: Seq<Flag>,
    q: Parsing<N, M>,
    k: int,
    text: String,
)
    requires
        flags_lead(number, with_height, low_stance, p, flags, q),
        0 <= k < flags.len(),
        flags[k] == Flag::Number(NumberOption::YawStrideGain, text),
        forall|j: int| k < j < flags.len() ==> !sets_yaw_gain(#[trigger] flags[j]),
    ensures
        exists|value: N|
            #[trigger] call_ensures(number, (&text,), Ok::<N, String>(value))
                && q.args.cfg.yaw_stride_gain == Some(value),
{
    let trace = choose|trace: Seq<Parsing<N, M>>| #[trigger]
        is_trace(number, with_height, low_stance, flags, trace) && trace.first() == p
            && trace.last() == q;
    assert(flag_leads(number, with_height, low_stance, trace[k], flags[k], trace[k + 1]));
    lemma_pinned_gain_stays(number, with_height, low_stance, flags, trace, k + 1, flags.len() as int);
}

proof fn lemma_pinned_gain_stays<
    N,
    M,
    F: Fn(&String) -> Result<N, String>,
    H: Fn(TrajectoryCfg<N, M>, N) -> TrajectoryCfg<N, M>,
>(
    number: F,
    with_height: H,
    low_stance: TrajectoryCfg<N, M>,
    flags: Seq<Flag>,
    trace: Seq<Parsing<N, M>>,
    from: int,
    to: int,
)
    requires
        is_trace(number, with_height, low_stance, flags, trace),
        0 <= from <= to <= flags.len(),
        trace[from].yaw_gain_pinned,
        forall|j: int| from <= j < flags.len() ==> !sets_yaw_gain(#[trigger] flags[j]),
    ensures
        trace[to].yaw_gain_pinned,
        trace[to].args.cfg.yaw_stride_gain == trace[from].args.cfg.yaw_stride_gain,
    decreases to - from,
{
    if from < to {
        lemma_pinned_gain_stays(number, with_height, low_stance, flags, trace, from, to - 1);
        assert(!sets_yaw_gain(flags[to - 1]));
        assert(flag_leads(
            number,
            with_height,
            low_stance,
            trace[to - 1],
            flags[to - 1],
            trace[to],
        ));
    }
}

/// Without an option that touches it, the stance stays the standard one.
pub proof fn law_stance_stays_standard<
    N,
    M,
    F: Fn(&String) -> Result<N, String>,
    H: Fn(TrajectoryCfg<N, M>, N) -> TrajectoryCfg<N, M>,
>(
    number: F,
    with_height: H,
    low_stance: TrajectoryCfg<N, M>,
    p: Parsing<N, M>,
    flags: Seq<Flag>,
    q: Parsing<N, M>,
)
    requires
        flags_lead(number, with_height, low_stance, p, flags, q),
        forall|j: int| 0 <= j < flags.len() ==> !sets_stance(#[trigger] flags[j]),
    ensures
        q.args.cfg == p.args.cfg,
{
    let trace = choose|trace: Seq<Parsing<N, M>>| #[trigger]
        is_trace(number, with_height, low_stance, flags, trace) && trace.first() == p
            && trace.last() == q;
    lemma_stance_stays(number, with_height, low_stance, flags, trace, 0, flags.len() as int);
}

proof fn lemma_stance_stays<
    N,
    M,
    F: Fn(&String) -> Result<N, String>,
    H: Fn(TrajectoryCfg<N, M>, N) -> TrajectoryCfg<N, M>,
>(
    number: F,
    with_height: H,
    low_stance: TrajectoryCfg<N, M>,
    flags: Seq<Flag>,
    trace: Seq<Parsing<N, M>>,
    from: int,
    to: int,
)
    requires
        is_trace(number, with_height, low_stance, flags, trace),
        0 <= from <= to <= flags.len(),
        forall|j: int| from <= j < flags.len() ==> !sets_stance(#[trigger] flags[j]),
    ensures
        trace[to].args.cfg == trace[from].args.cfg,
    decreases to - from,
{
    if from < to {
        lemma_stance_stays(number, with_height, low_stance, flags, trace, from, to - 1);
        assert(!sets_stance(flags[to - 1]));
        assert(flag_leads(
            number,
            with_height,
            low_stance,
            trace[to - 1],
            flags[to - 1],
            trace[to],
        ));
    }
}

/// Whether an option touches the height or the turning gain.
pub open spec fn sets_height_or_yaw(flag: Flag) -> bool {
    sets_stance(flag) && !(flag matches Flag::Number(NumberOption::StrideGain, _))
}

/// `--low-stance` is the low stance: where it is the last option that touches the
/// height or the turning gain, and no option gives the turning gain, the reading
/// ends with the height and the turning gain of that stance.
pub proof fn law_low_stance_is_the_low_stance<
    N,
    M,
    F: Fn(&String) -> Result<N, String>,
    H: Fn(TrajectoryCfg<N, M>, N) -> TrajectoryCfg<N, M>,
>(
    number: F,
    with_height: H,
    low_stance: TrajectoryCfg<N, M>,
    p: Parsing<N, M>,
    flags: Seq<Flag>,
    q: Parsing<N, M>,
    k: int,
)
    requires
        flags_lead(number, with_height, low_stance, p, flags, q),
        !p.yaw_gain_pinned,
        0 <= k < flags.len(),
        flags[k] == Flag::Switch(Switch::LowStance),
        forall|j: int| 0 <= j < k ==> !sets_yaw_gain(#[trigger] flags[j]),
        forall|j: int| k < j < flags.len() ==> !sets_height_or_yaw(#[trigger] flags[j]),
    ensures
        q.args.cfg.body_height == low_stance.body_height,
        q.args.cfg.yaw_stride_gain == low_stance.yaw_stride_gain,
        q.args.cfg.other == low_stance.other,
{
    let trace = choose|trace: Seq<Parsing<N, M>>| #[trigger]
        is_trace(number, with_height, low_stance, flags, trace) && trace.first() == p
            && trace.last() == q;
    lemma_gain_stays_free(number, with_height, low_stance, flags, trace, k);
    assert(flag_leads(number, with_height, low_stance, trace[k], flags[k], trace[k + 1]));
    lemma_height_stays(number, with_height, low_stance, flags, trace, k + 1, flags.len() as int);
}

proof fn lemma_height_stays<
    N,
    M,
    F: Fn(&String) -> Result<N, String>,
    H: Fn(TrajectoryCfg<N, M>, N) -> TrajectoryCfg<N, M>,
>(
    number: F,
    with_height: H,
    low_stance: TrajectoryCfg<N, M>,
    flags: Seq<Flag>,
    trace: Seq<Parsing<N, M>>,
    from: int,
    to: int,
)
    requires
        is_trace(number, with_height, low_stance, flags, trace),
        0 <= from <= to <= flags.len(),
        forall|j: int| from <= j < flags.len() ==> !sets_height_or_yaw(#[trigger] flags[j]),
    ensures
        trace[to].args.cfg.body_height == trace[from].args.cfg.body_height,
        trace[to].args.cfg.yaw_stride_gain == trace[from].args.cfg.yaw_stride_gain,
        trace[to].args.cfg.other == trace[from].args.cfg.other,
    decreases to - from,
{
    if from < to {
        lemma_height_stays(number, with_height, low_stance, flags, trace, from, to - 1);
        assert(!sets_height_or_yaw(flags[to - 1]));
        assert(flag_leads(
            number,
            with_height,
            low_stance,
            trace[to - 1],
            flags[to - 1],
            trace[to],
        ));
    }
}

/// An explicit stride gain wins: where an option gives it and no later option gives
/// it again, the reading ends with it, whatever low stances and body heights come
/// before or after. This is for schedules of the body height that leave the stride
/// gain alone.
pub proof fn law_explicit_stride_gain_wins<
    N,
    M,
    F: Fn(&String) -> Result<N, String>,
    H: Fn(TrajectoryCfg<N, M>, N) -> TrajectoryCfg<N, M>,
>(
    number: F,
    with_height: H,
    low_stance: TrajectoryCfg<N, M>,
    p: Parsing<N, M>,
    flags: Seq<Flag>,
    q: Parsing<N, M>,
    k: int,
    text: String,
)
    requires
        flags_lead(number, with_height, low_stance, p, flags, q),
        0 <= k < flags.len(),
        flags[k] == Flag::Number(NumberOption::StrideGain, text),
        forall|j: int|
            k < j < flags.len() ==> !(#[trigger] flags[j] matches Flag::Number(
                NumberOption::StrideGain,
                _,
            )),
        forall|cfg: TrajectoryCfg<N, M>, h: N, new: TrajectoryCfg<N, M>| #[trigger]
            call_ensures(with_height, (cfg, h), new) ==> new.stride_gain == cfg.stride_gain,
    ensures
        exists|value: N|
            #[trigger] call_ensures(number, (&text,), Ok::<N, String>(value))
                && q.args.cfg.stride_gain == value,
{
    let trace = choose|trace: Seq<Parsing<N, M>>| #[trigger]
        is_trace(number, with_height, low_stance, flags, trace) && trace.first() == p
            && trace.last() == q;
    assert(flag_leads(number, with_height, low_stance, trace[k], flags[k], trace[k + 1]));
    lemma_stride_stays(number, with_height, low_stance, flags, trace, k + 1, flags.len() as int);
}

proof fn lemma_stride_stays<
    N,
    M,
    F: Fn(&String) -> Result<N, String>,
    H: Fn(TrajectoryCfg<N, M>, N) -> TrajectoryCfg<N, M>,
>(
    number: F,
    with_height: H,
    low_stance: TrajectoryCfg<N, M>,
    flags: Seq<Flag>,
    trace: Seq<Parsing<N, M>>,
    from: int,
    to: int,
)
    requires
        is_trace(number, with_height, low_stance, flags, trace),
        0 <= from <= to <= flags.len(),
        forall|j: int|
            from <= j < flags.len() ==> !(#[trigger] flags[j] matches Flag::Number(
                NumberOption::StrideGain,
                _,
            )),
        forall|cfg: TrajectoryCfg<N, M>, h: N, new: TrajectoryCfg<N, M>| #[trigger]
            call_ensures(with_height, (cfg, h), new) ==> new.stride_gain == cfg.stride_gain,
    ensures
        trace[to].args.cfg.stride_gain == trace[from].args.cfg.stride_gain,
    decreases to - from,
{
    if from < to {
        lemma_stride_stays(number, with_height, low_stance, flags, trace, from, to - 1);
        assert(flag_leads(
            number,
            with_height,
            low_stance,
            trace[to - 1],
            flags[to - 1],
            trace[to],
        ));
    }
}

/// The rate of the command is limited by default: without `--cmd-accel` the reading
/// ends with the limit that it began with.
pub proof fn law_command_rate_is_limited_by_default<
    N,
    M,
    F: Fn(&String) -> Result<N, String>,
    H: Fn(TrajectoryCfg<N, M>, N) -> TrajectoryCfg<N, M>,
>(
    number: F,
    with_height: H,
    low_stance: TrajectoryCfg<N, M>,
    p: Parsing<N, M>,
    flags: Seq<Flag>,
    q: Parsing<N, M>,
)
    requires
        flags_lead(number, with_height, low_stance, p, flags, q),
        forall|j: int|
            0 <= j < flags.len() ==> !(#[trigger] flags[j] matches Flag::Number(
                NumberOption::CmdAccel,
                _,
            )),
    ensures
        q.args.cmd_accel == p.args.cmd_accel,
    decreases flags.len(),
{
    if flags.len() == 0 {
        lemma_no_flag(number, with_height, low_stance, p, flags, q);
    } else {
        let m = lemma_last_flag(number, with_height, low_stance, p, flags, q);
        law_command_rate_is_limited_by_default(
            number,
            with_height,
            low_stance,
            p,
            flags.drop_last(),
            m,
        );
    }
}

/// The state before the last option.
proof fn lemma_last_flag<
    N,
    M,
    F: Fn(&String) -> Result<N, String>,
    H: Fn(TrajectoryCfg<N, M>, N) -> TrajectoryCfg<N, M>,
>(
    number: F,
    with_height: H,
    low_stance: TrajectoryCfg<N, M>,
    p: Parsing<N, M>,
    flags: Seq<Flag>,
    q: Parsing<N, M>,
) -> (m: Parsing<N, M>)
    requires
        flags_lead(number, with_height, low_stance, p, flags, q),
        flags.len() > 0,
    ensures
        flags_lead(number, with_height, low_stance, p, flags.drop_last(), m),
        flag_leads(number, with_height, low_stance, m, flags.last(), q),
{
    let trace = choose|trace: Seq<Parsing<N, M>>| #[trigger]
        is_trace(number, with_height, low_stance, flags, trace) && trace.first() == p
            && trace.last() == q;
    let front = flags.drop_last();
    let shorter = trace.drop_last();
    assert forall|i: int| 0 <= i < front.len() implies flag_leads(
        number,
        with_height,
        low_stance,
        shorter[i],
        #[trigger] front[i],
        shorter[i + 1],
    ) by {
        assert(front[i] == flags[i]);
    }
    assert(is_trace(number, with_height, low_stance, front, shorter));
    let n = flags.len() - 1;
    assert(flag_leads(number, with_height, low_stance, trace[n], flags[n], trace[n + 1]));
    shorter.last()
}

/// No option leads nowhere.
proof fn lemma_no_flag<
    N,
    M,
    F: Fn(&String) -> Result<N, String>,
    H: Fn(TrajectoryCfg<N, M>, N) -> TrajectoryCfg<N, M>,
>(
    number: F,
    with_height: H,
    low_stance: TrajectoryCfg<N, M>,
    p: Parsing<N, M>,
    flags: Seq<Flag>,
    q: Parsing<N, M>,
)
    requires
        flags_lead(number, with_height, low_stance, p, flags, q),
        flags.len() == 0,
    ensures
        q == p,
{
}

proof fn lemma_gain_stays_free<
    N,
    M,
    F: Fn(&String) -> Result<N, String>,
    H: Fn(TrajectoryCfg<N, M>, N) -> TrajectoryCfg<N, M>,
>(
    number: F,
    with_height: H,
    low_stance: TrajectoryCfg<N, M>,
    flags: Seq<Flag>,
    trace: Seq<Parsing<N, M>>,
    k: int,
)
    requires
        is_trace(number, with_height, low_stance, flags, trace),
        0 <= k <= flags.len(),
        !trace[0].yaw_gain_pinned,
        forall|j: int| 0 <= j < k ==> !sets_yaw_gain(#[trigger] flags[j]),
    ensures
        !trace[k].yaw_gain_pinned,
    decreases k,
{
    if k > 0 {
        lemma_gain_stays_free(number, with_height, low_stance, flags, trace, k - 1);
        assert(!sets_yaw_gain(flags[k - 1]));
        assert(flag_leads(number, with_height, low_stance, trace[k - 1], flags[k - 1], trace[k]));
    }
}

/// `--body-height` takes the whole stance from its schedule: where it is the last
/// option that touches the stance and no option gives the turning gain, the
/// reading ends in the stance that the schedule gives for the height.
pub proof fn law_body_height_recalibrates<
    N,
    M,
    F: Fn(&String) -> Result<N, String>,
    H: Fn(TrajectoryCfg<N, M>, N) -> TrajectoryCfg<N, M>,
>(
    number: F,
    with_height: H,
    low_stance: TrajectoryCfg<N, M>,
    p: Parsing<N, M>,
    flags: Seq<Flag>,
    q: Parsing<N, M>,
    k: int,
    text: String,
)
    requires
        flags_lead(number, with_height, low_stance, p, flags, q),
        !p.yaw_gain_pinned,
        0 <= k < flags.len(),
        flags[k] == Flag::Number(NumberOption::BodyHeight, text),
        forall|j: int| 0 <= j < k ==> !sets_yaw_gain(#[trigger] flags[j]),
        forall|j: int| k < j < flags.len() ==> !sets_stance(#[trigger] flags[j]),
    ensures
        exists|height: N, before: TrajectoryCfg<N, M>|
            #[trigger] call_ensures(number, (&text,), Ok::<N, String>(height))
                && #[trigger] call_ensures(with_height, (before, height), q.args.cfg),
{
    let trace = choose|trace: Seq<Parsing<N, M>>| #[trigger]
        is_trace(number, with_height, low_stance, flags, trace) && trace.first() == p
            && trace.last() == q;
    lemma_gain_stays_free(number, with_height, low_stance, flags, trace, k);
    assert(flag_leads(number, with_height, low_stance, trace[k], flags[k], trace[k + 1]));
    lemma_stance_stays(number, with_height, low_stance, flags, trace, k + 1, flags.len() as int);
    let (value, cfg) = choose|value: N, cfg: TrajectoryCfg<N, M>|
        {
            &&& #[trigger] call_ensures(number, (&text,), Ok::<N, String>(value))
            &&& call_ensures(with_height, (trace[k].args.cfg, value), cfg)
            &&& trace[k + 1] == #[trigger] with_number(
                trace[k],
                NumberOption::BodyHeight,
                value,
                cfg,
            )
        };
    assert(q.args.cfg == cfg);
}

/// The options without those that set the turning gain.
pub open spec fn without_yaw_gain(flags: Seq<Flag>) -> Seq<Flag>
    decreases flags.len(),
{
    if flags.len() == 0 {
        Seq::empty()
    } else if sets_yaw_gain(flags.last()) {
        without_yaw_gain(flags.drop_last())
    } else {
        without_yaw_gain(flags.drop_last()).push(flags.last())
    }
}

/// Whether two readings agree in everything but the turning gain.
pub open spec fn same_but_yaw_gain<N, M>(a: Args<N, M>, b: Args<N, M>) -> bool {
    &&& a.model@ == b.model@
    &&& a.misa@ == b.misa@
    &&& a == (Args {
        model: a.model,
        misa: a.misa,
        cfg: TrajectoryCfg { yaw_stride_gain: a.cfg.yaw_stride_gain, ..b.cfg },
        ..b
    })
}

/// Whether a text is never two numbers.
pub open spec fn reads_one_number<N, F: Fn(&String) -> Result<N, String>>(number: F) -> bool {
    forall|text: String, a: N, b: N|
        #[trigger] call_ensures(number, (&text,), Ok::<N, String>(a))
            && #[trigger] call_ensures(number, (&text,), Ok::<N, String>(b)) ==> a == b
}

/// Whether what `with_height` gives, but for the turning gain, follows from the stance
/// and the height, without a look at the turning gain.
pub open spec fn ignores_yaw_gain<N, M, H: Fn(TrajectoryCfg<N, M>, N) -> TrajectoryCfg<N, M>>(
    with_height: H,
) -> bool {
    forall|a: TrajectoryCfg<N, M>, b: TrajectoryCfg<N, M>, h: N, x: TrajectoryCfg<N, M>, y: TrajectoryCfg<N, M>|
        #[trigger] call_ensures(with_height, (a, h), x) && #[trigger] call_ensures(
            with_height,
            (b, h),
            y,
        ) && a.stride_gain == b.stride_gain && a.body_height == b.body_height && a.other == b.other
            ==> x.stride_gain == y.stride_gain && x.body_height == y.body_height && x.other
            == y.other
}

proof fn lemma_step_but_yaw_gain<
    N,
    M,
    F: Fn(&String) -> Result<N, String>,
    H: Fn(TrajectoryCfg<N, M>, N) -> TrajectoryCfg<N, M>,
>(
    number: F,
    with_height: H,
    low_stance: TrajectoryCfg<N, M>,
    p: Parsing<N, M>,
    q: Parsing<N, M>,
    flag: Flag,
    p_next: Parsing<N, M>,
    q_next: Parsing<N, M>,
)
    requires
        flag_leads(number, with_height, low_stance, p, flag, p_next),
        flag_leads(number, with_height, low_stance, q, flag, q_next),
        !sets_yaw_gain(flag),
        same_but_yaw_gain(p.args, q.args),
        reads_one_number(number),
        ignores_yaw_gain(with_height),
    ensures
        same_but_yaw_gain(p_next.args, q_next.args),
{
    match flag {
        Flag::Number(option, text) => {
            let (v, x) = choose|v: N, x: TrajectoryCfg<N, M>|
                {
                    &&& #[trigger] call_ensures(number, (&text,), Ok::<N, String>(v))
                    &&& option == NumberOption::BodyHeight ==> call_ensures(
                        with_height,
                        (p.args.cfg, v),
                        x,
                    )
                    &&& p_next == #[trigger] with_number(p, option, v, x)
                };
            let (w, y) = choose|w: N, y: TrajectoryCfg<N, M>|
                {
                    &&& #[trigger] call_ensures(number, (&text,), Ok::<N, String>(w))
                    &&& option == NumberOption::BodyHeight ==> call_ensures(
                        with_height,
                        (q.args.cfg, w),
                        y,
                    )
                    &&& q_next == #[trigger] with_number(q, option, w, y)
                };
            assert(v == w);
        },
        _ => {},
    }
}

/// The turning gain touches nothing else: command lines that agree but for the
/// options that set it end alike but for the turning gain, the height and the stride
/// gain among the rest. This is for numbers that are read one way, and for schedules
/// of the body height that do not look at the turning gain.
pub proof fn law_yaw_gain_touches_nothing_else<
    N,
    M,
    F: Fn(&String) -> Result<N, String>,
    H: Fn(TrajectoryCfg<N, M>, N) -> TrajectoryCfg<N, M>,
>(
    number: F,
    with_height: H,
    low_stance: TrajectoryCfg<N, M>,
    p: Parsing<N, M>,
    a: Seq<Flag>,
    p_end: Parsing<N, M>,
    q: Parsing<N, M>,
    b: Seq<Flag>,
    q_end: Parsing<N, M>,
)
    requires
        flags_lead(number, with_height, low_stance, p, a, p_end),
        flags_lead(number, with_height, low_stance, q, b, q_end),
        without_yaw_gain(a) == without_yaw_gain(b),
        same_but_yaw_gain(p.args, q.args),
        reads_one_number(number),
        ignores_yaw_gain(with_height),
    ensures
        same_but_yaw_gain(p_end.args, q_end.args),
    decreases a.len() + b.len(),
{
    if a.len() > 0 && sets_yaw_gain(a.last()) {
        let m = lemma_last_flag(number, with_height, low_stance, p, a, p_end);
        law_yaw_gain_touches_nothing_else(
            number,
            with_height,
            low_stance,
            p,
            a.drop_last(),
            m,
            q,
            b,
            q_end,
        );
    } else if b.len() > 0 && sets_yaw_gain(b.last()) {
        let m = lemma_last_flag(number, with_height, low_stance, q, b, q_end);
        law_yaw_gain_touches_nothing_else(
            number,
            with_height,
            low_stance,
            p,
            a,
            p_end,
            q,
            b.drop_last(),
            m,
        );
    } else if a.len() > 0 && b.len() > 0 {
        let x = without_yaw_gain(a.drop_last());
        let y = without_yaw_gain(b.drop_last());
        assert(x.push(a.last()).last() == y.push(b.last()).last());
        assert(x.push(a.last()).drop_last() =~= x);
        assert(y.push(b.last()).drop_last() =~= y);
        let m = lemma_last_flag(number, with_height, low_stance, p, a, p_end);
        let n = lemma_last_flag(number, with_height, low_stance, q, b, q_end);
        law_yaw_gain_touches_nothing_else(
            number,
            with_height,
            low_stance,
            p,
            a.drop_last(),
            m,
            q,
            b.drop_last(),
            n,
        );
        lemma_step_but_yaw_gain(number, with_height, low_stance, m, n, a.last(), p_end, q_end);
    } else {
        assert(a.len() == 0 && b.len() == 0) by {
            if a.len() > 0 {
                assert(without_yaw_gain(a).len() > 0);
            }
            if b.len() > 0 {
                assert(without_yaw_gain(b).len() > 0);
            }
        }
        lemma_no_flag(number, with_height, low_stance, p, a, p_end);
        lemma_no_flag(number, with_height, low_stance, q, b, q_end);
    }
}

/// Options that set the turning gain can be dropped: what is left reads alike but for
/// the turning gain.
pub proof fn law_yaw_gain_can_be_dropped<
    N,
    M,
    F: Fn(&String) -> Result<N, String>,
    H: Fn(TrajectoryCfg<N, M>, N) -> TrajectoryCfg<N, M>,
>(
    number: F,
    with_height: H,
    low_stance: TrajectoryCfg<N, M>,
    p: Parsing<N, M>,
    flags: Seq<Flag>,
    p_end: Parsing<N, M>,
    q: Parsing<N, M>,
    q_end: Parsing<N, M>,
)
    requires
        flags_lead(number, with_height, low_stance, p, flags, p_end),
        flags_lead(number, with_height, low_stance, q, without_yaw_gain(flags), q_end),
        same_but_yaw_gain(p.args, q.args),
        reads_one_number(number),
        ignores_yaw_gain(with_height),
    ensures
        same_but_yaw_gain(p_end.args, q_end.args),
{
    lemma_dropped_once(flags);
    law_yaw_gain_touches_nothing_else(
        number,
        with_height,
        low_stance,
        p,
        flags,
        p_end,
        q,
        without_yaw_gain(flags),
        q_end,
    );
}

proof fn lemma_dropped_once(flags: Seq<Flag>)
    ensures
        without_yaw_gain(without_yaw_gain(flags)) == without_yaw_gain(flags),
    decreases flags.len(),
{
    if flags.len() > 0 {
        lemma_dropped_once(flags.drop_last());
        let front = without_yaw_gain(flags.drop_last());
        if !sets_yaw_gain(flags.last()) {
            assert(front.push(flags.last()).drop_last() =~= front);
        }
    }
}

/// The turning gain can be given anywhere: command lines that agree but for the
/// options that set it, and that give it last with the same text, end alike.
pub proof fn law_yaw_gain_can_be_moved<
    N,
    M,
    F: Fn(&String) -> Result<N, String>,
    H: Fn(TrajectoryCfg<N, M>, N) -> TrajectoryCfg<N, M>,
>(
    number: F,
    with_height: H,
    low_stance: TrajectoryCfg<N, M>,
    p: Parsing<N, M>,
    a: Seq<Flag>,
    j: int,
    p_end: Parsing<N, M>,
    q: Parsing<N, M>,
    b: Seq<Flag>,
    k: int,
    q_end: Parsing<N, M>,
    text: String,
)
    requires
        flags_lead(number, with_height, low_stance, p, a, p_end),
        flags_lead(number, with_height, low_stance, q, b, q_end),
        without_yaw_gain(a) == without_yaw_gain(b),
        0 <= j < a.len() && a[j] == Flag::Number(NumberOption::YawStrideGain, text),
        forall|i: int| j < i < a.len() ==> !sets_yaw_gain(#[trigger] a[i]),
        0 <= k < b.len() && b[k] == Flag::Number(NumberOption::YawStrideGain, text),
        forall|i: int| k < i < b.len() ==> !sets_yaw_gain(#[trigger] b[i]),
        same_but_yaw_gain(p.args, q.args),
        reads_one_number(number),
        ignores_yaw_gain(with_height),
    ensures
        same_but_yaw_gain(p_end.args, q_end.args),
        p_end.args.cfg == q_end.args.cfg,
{
    law_yaw_gain_touches_nothing_else(number, with_height, low_stance, p, a, p_end, q, b, q_end);
    law_explicit_yaw_gain_wins(number, with_height, low_stance, p, a, p_end, j, text);
    law_explicit_yaw_gain_wins(number, with_height, low_stance, q, b, q_end, k, text);
}

/// A command line is read piece by piece: behind a piece whose words all fit, the
/// rest is read as if it stood alone.
pub proof fn law_command_lines_join(front: Seq<String>, rest: Seq<String>)
    requires
        misfit_of(front) is None,
    ensures
        flags_of(front + rest) == flags_of(front) + flags_of(rest),
        misfit_of(front + rest) == misfit_of(rest),
    decreases front.len(),
{
    let all = front + rest;
    if front.len() == 0 {
        assert(all =~= rest);
        assert(flags_of(front) + flags_of(rest) =~= flags_of(rest));
    } else {
        assert(all[0] == front[0]);
        let n: int = match option_of(front[0]@) {
            Some(Opt::Switch(_)) => 1,
            Some(Opt::HeadingHold) => 3,
            _ => 2,
        };
        assert(n <= front.len());
        law_command_lines_join(front.skip(n), rest);
        assert(all.skip(n) =~= front.skip(n) + rest);
        let first = flags_of(front).take(1);
        assert(flags_of(front) =~= first + flags_of(front.skip(n)));
        assert(flags_of(all) =~= first + flags_of(all.skip(n)));
        assert(flags_of(all) =~= flags_of(front) + flags_of(rest));
    }
}

/// The option that a read option is.
pub open spec fn option_in(flag: Flag) -> Opt {
    match flag {
        Flag::Text(option, _) => Opt::Text(option),
        Flag::Number(option, _) => Opt::Number(option),
        Flag::Switch(switch) => Opt::Switch(switch),
        Flag::HeadingHold(_, _) => Opt::HeadingHold,
    }
}

/// Whether an option is given.
pub open spec fn given(flags: Seq<Flag>, option: Opt) -> bool {
    exists|j: int| 0 <= j < flags.len() && option_in(#[trigger] flags[j]) == option
}

/// Each option touches its own place alone: every other place keeps what it held, and
/// the stance changes only by the four options that are about it.
pub proof fn law_each_option_touches_its_own_place<
    N,
    M,
    F: Fn(&String) -> Result<N, String>,
    H: Fn(TrajectoryCfg<N, M>, N) -> TrajectoryCfg<N, M>,
>(
    number: F,
    with_height: H,
    low_stance: TrajectoryCfg<N, M>,
    p: Parsing<N, M>,
    flag: Flag,
    q: Parsing<N, M>,
)
    requires
        flag_leads(number, with_height, low_stance, p, flag, q),
    ensures
        option_in(flag) != Opt::Number(NumberOption::Vx) ==> q.args.cmd0.vx == p.args.cmd0.vx,
        option_in(flag) != Opt::Number(NumberOption::Vy) ==> q.args.cmd0.vy == p.args.cmd0.vy,
        option_in(flag) != Opt::Number(NumberOption::Wz) ==> q.args.cmd0.wz == p.args.cmd0.wz,
        option_in(flag) != Opt::Number(NumberOption::Duration) ==> q.args.duration == p.args.duration,
        option_in(flag) != Opt::Number(NumberOption::VizRate) ==> q.args.viz_rate_hz == p.args.viz_rate_hz,
        option_in(flag) != Opt::Number(NumberOption::Friction) ==> q.args.friction == p.args.friction,
        option_in(flag) != Opt::Number(NumberOption::VxMax) ==> q.args.vx_max == p.args.vx_max,
        option_in(flag) != Opt::Number(NumberOption::JointDamping) ==> q.args.joint_damping == p.args.joint_damping,
        option_in(flag) != Opt::Number(NumberOption::Impratio) ==> q.args.impratio == p.args.impratio,
        option_in(flag) != Opt::Number(NumberOption::EstimatorBias) ==> q.args.estimator_bias == p.args.estimator_bias,
        option_in(flag) != Opt::Number(NumberOption::CmdAccel) ==> q.args.cmd_accel == p.args.cmd_accel,
        option_in(flag) != Opt::Text(TextOption::Model) ==> q.args.model == p.args.model,
        option_in(flag) != Opt::Text(TextOption::Iface) ==> q.args.iface == p.args.iface,
        option_in(flag) != Opt::Text(TextOption::Misa) ==> q.args.misa == p.args.misa,
        option_in(flag) != Opt::Text(TextOption::VizEndpoint) ==> q.args.viz_endpoint == p.args.viz_endpoint,
        option_in(flag) != Opt::Text(TextOption::Estimator) ==> q.args.estimator == p.args.estimator,
        option_in(flag) != Opt::Text(TextOption::Cone) ==> q.args.cone == p.args.cone,
        option_in(flag) != Opt::Switch(Switch::Hold) ==> q.args.hold == p.args.hold,
        option_in(flag) != Opt::Switch(Switch::NoKeyboard) ==> q.args.keyboard == p.args.keyboard,
        option_in(flag) != Opt::Switch(Switch::NoRelease) ==> q.args.release == p.args.release,
        option_in(flag) != Opt::Switch(Switch::Sim) ==> q.args.sim == p.args.sim,
        option_in(flag) != Opt::Switch(Switch::Viz) ==> q.args.viz == p.args.viz,
        option_in(flag) != Opt::Switch(Switch::OdomCalibrated) ==> q.args.odom_calibrated == p.args.odom_calibrated,
        option_in(flag) != Opt::Switch(Switch::GruHostVelocity) ==> q.args.gru_host_velocity == p.args.gru_host_velocity,
        option_in(flag) != Opt::HeadingHold ==> q.args.heading_hold == p.args.heading_hold,
        option_in(flag) != Opt::Number(NumberOption::StrideGain) && option_in(flag) != Opt::Number(
            NumberOption::YawStrideGain,
        ) && option_in(flag) != Opt::Number(NumberOption::BodyHeight) && option_in(flag)
            != Opt::Switch(Switch::LowStance) ==> q.args.cfg == p.args.cfg,
        option_in(flag) != Opt::Number(NumberOption::YawStrideGain) ==> q.yaw_gain_pinned
            == p.yaw_gain_pinned,
{
}

/// Each option puts its value into its own place: a text as it is, a number as it is
/// read, a switch as what it stands for. A height brings the stance that the schedule
/// gives for it, the low stance its height, and neither the turning gain where that was
/// given explicitly.
pub proof fn law_each_option_reaches_its_own_place<
    N,
    M,
    F: Fn(&String) -> Result<N, String>,
    H: Fn(TrajectoryCfg<N, M>, N) -> TrajectoryCfg<N, M>,
>(
    number: F,
    with_height: H,
    low_stance: TrajectoryCfg<N, M>,
    p: Parsing<N, M>,
    flag: Flag,
    q: Parsing<N, M>,
)
    requires
        flag_leads(number, with_height, low_stance, p, flag, q),
    ensures
        flag matches Flag::Text(TextOption::Model, text) ==> q.args.model == text,
        flag matches Flag::Text(TextOption::Iface, text) ==> q.args.iface == Some(text),
        flag matches Flag::Text(TextOption::Misa, text) ==> q.args.misa == text,
        flag matches Flag::Text(TextOption::VizEndpoint, text) ==> q.args.viz_endpoint == Some(text),
        flag matches Flag::Text(TextOption::Estimator, text) ==> q.args.estimator == Some(text),
        flag matches Flag::Text(TextOption::Cone, text) ==> q.args.cone == Some(text),
        flag == Flag::Switch(Switch::Hold) ==> q.args.hold == true,
        flag == Flag::Switch(Switch::NoKeyboard) ==> q.args.keyboard == false,
        flag == Flag::Switch(Switch::NoRelease) ==> q.args.release == false,
        flag == Flag::Switch(Switch::Sim) ==> q.args.sim == true,
        flag == Flag::Switch(Switch::Viz) ==> q.args.viz == true,
        flag == Flag::Switch(Switch::OdomCalibrated) ==> q.args.odom_calibrated == true,
        flag == Flag::Switch(Switch::GruHostVelocity) ==> q.args.gru_host_velocity == true,
        flag matches Flag::Number(NumberOption::Vx, text) ==> exists|v: N|
            #[trigger] call_ensures(number, (&text,), Ok::<N, String>(v)) && q.args.cmd0.vx == v,
        flag matches Flag::Number(NumberOption::Vy, text) ==> exists|v: N|
            #[trigger] call_ensures(number, (&text,), Ok::<N, String>(v)) && q.args.cmd0.vy == v,
        flag matches Flag::Number(NumberOption::Wz, text) ==> exists|v: N|
            #[trigger] call_ensures(number, (&text,), Ok::<N, String>(v)) && q.args.cmd0.wz == v,
        flag matches Flag::Number(NumberOption::Duration, text) ==> exists|v: N|
            #[trigger] call_ensures(number, (&text,), Ok::<N, String>(v)) && q.args.duration == Some(v),
        flag matches Flag::Number(NumberOption::VizRate, text) ==> exists|v: N|
            #[trigger] call_ensures(number, (&text,), Ok::<N, String>(v)) && q.args.viz_rate_hz == v,
        flag matches Flag::Number(NumberOption::Friction, text) ==> exists|v: N|
            #[trigger] call_ensures(number, (&text,), Ok::<N, String>(v)) && q.args.friction == Some(v),
        flag matches Flag::Number(NumberOption::VxMax, text) ==> exists|v: N|
            #[trigger] call_ensures(number, (&text,), Ok::<N, String>(v)) && q.args.vx_max == Some(v),
        flag matches Flag::Number(NumberOption::JointDamping, text) ==> exists|v: N|
            #[trigger] call_ensures(number, (&text,), Ok::<N, String>(v)) && q.args.joint_damping == Some(v),
        flag matches Flag::Number(NumberOption::Impratio, text) ==> exists|v: N|
            #[trigger] call_ensures(number, (&text,), Ok::<N, String>(v)) && q.args.impratio == Some(v),
        flag matches Flag::Number(NumberOption::EstimatorBias, text) ==> exists|v: N|
            #[trigger] call_ensures(number, (&text,), Ok::<N, String>(v)) && q.args.estimator_bias == Some(v),
        flag matches Flag::Number(NumberOption::CmdAccel, text) ==> exists|v: N|
            #[trigger] call_ensures(number, (&text,), Ok::<N, String>(v)) && q.args.cmd_accel == v,
        flag matches Flag::Number(NumberOption::StrideGain, text) ==> exists|v: N|
            #[trigger] call_ensures(number, (&text,), Ok::<N, String>(v)) && q.args.cfg == (
            TrajectoryCfg { stride_gain: v, ..p.args.cfg }),
        flag matches Flag::Number(NumberOption::YawStrideGain, text) ==> q.yaw_gain_pinned && exists|
            v: N,
        |
            #[trigger] call_ensures(number, (&text,), Ok::<N, String>(v)) && q.args.cfg == (
            TrajectoryCfg { yaw_stride_gain: Some(v), ..p.args.cfg }),
        flag matches Flag::Number(NumberOption::BodyHeight, text) ==> exists|
            v: N,
            cfg: TrajectoryCfg<N, M>,
        |
            {
                &&& #[trigger] call_ensures(number, (&text,), Ok::<N, String>(v))
                &&& #[trigger] call_ensures(with_height, (p.args.cfg, v), cfg)
                &&& q.args.cfg.body_height == cfg.body_height
                &&& q.args.cfg.stride_gain == cfg.stride_gain
                &&& q.args.cfg.other == cfg.other
                &&& p.yaw_gain_pinned ==> q.args.cfg.yaw_stride_gain == p.args.cfg.yaw_stride_gain
                &&& !p.yaw_gain_pinned ==> q.args.cfg.yaw_stride_gain == cfg.yaw_stride_gain
            },
        flag == Flag::Switch(Switch::LowStance) ==> {
            &&& q.args.cfg.body_height == low_stance.body_height
            &&& q.args.cfg.other == low_stance.other
            &&& q.args.cfg.stride_gain == p.args.cfg.stride_gain
            &&& p.yaw_gain_pinned ==> q.args.cfg.yaw_stride_gain == p.args.cfg.yaw_stride_gain
            &&& !p.yaw_gain_pinned ==> q.args.cfg.yaw_stride_gain == low_stance.yaw_stride_gain
        },
        flag matches Flag::HeadingHold(first, second) ==> exists|a: N, b: N|
            {
                &&& #[trigger] call_ensures(number, (&first,), Ok::<N, String>(a))
                &&& #[trigger] call_ensures(number, (&second,), Ok::<N, String>(b))
                &&& q.args.heading_hold == Some((a, b))
            },
{
    if let Flag::Number(option, text) = flag {
        let (v, cfg) = choose|v: N, cfg: TrajectoryCfg<N, M>|
            {
                &&& #[trigger] call_ensures(number, (&text,), Ok::<N, String>(v))
                &&& option == NumberOption::BodyHeight ==> call_ensures(
                    with_height,
                    (p.args.cfg, v),
                    cfg,
                )
                &&& q == #[trigger] with_number(p, option, v, cfg)
            };
        assert(call_ensures(number, (&text,), Ok::<N, String>(v)));
    }
}

/// What no option of a command line names keeps what it held at the start: without
/// `--vy` the sideways speed, without `--wz` the turning rate, and so for every place.
pub proof fn law_what_is_not_given_stays<
    N,
    M,
    F: Fn(&String) -> Result<N, String>,
    H: Fn(TrajectoryCfg<N, M>, N) -> TrajectoryCfg<N, M>,
>(
    number: F,
    with_height: H,
    low_stance: TrajectoryCfg<N, M>,
    p: Parsing<N, M>,
    flags: Seq<Flag>,
    q: Parsing<N, M>,
)
    requires
        flags_lead(number, with_height, low_stance, p, flags, q),
    ensures
        !given(flags, Opt::Number(NumberOption::Vx)) ==> q.args.cmd0.vx == p.args.cmd0.vx,
        !given(flags, Opt::Number(NumberOption::Vy)) ==> q.args.cmd0.vy == p.args.cmd0.vy,
        !given(flags, Opt::Number(NumberOption::Wz)) ==> q.args.cmd0.wz == p.args.cmd0.wz,
        !given(flags, Opt::Number(NumberOption::Duration)) ==> q.args.duration == p.args.duration,
        !given(flags, Opt::Number(NumberOption::VizRate)) ==> q.args.viz_rate_hz == p.args.viz_rate_hz,
        !given(flags, Opt::Number(NumberOption::Friction)) ==> q.args.friction == p.args.friction,
        !given(flags, Opt::Number(NumberOption::VxMax)) ==> q.args.vx_max == p.args.vx_max,
        !given(flags, Opt::Number(NumberOption::JointDamping)) ==> q.args.joint_damping == p.args.joint_damping,
        !given(flags, Opt::Number(NumberOption::Impratio)) ==> q.args.impratio == p.args.impratio,
        !given(flags, Opt::Number(NumberOption::EstimatorBias)) ==> q.args.estimator_bias == p.args.estimator_bias,
        !given(flags, Opt::Number(NumberOption::CmdAccel)) ==> q.args.cmd_accel == p.args.cmd_accel,
        !given(flags, Opt::Text(TextOption::Model)) ==> q.args.model == p.args.model,
        !given(flags, Opt::Text(TextOption::Iface)) ==> q.args.iface == p.args.iface,
        !given(flags, Opt::Text(TextOption::Misa)) ==> q.args.misa == p.args.misa,
        !given(flags, Opt::Text(TextOption::VizEndpoint)) ==> q.args.viz_endpoint == p.args.viz_endpoint,
        !given(flags, Opt::Text(TextOption::Estimator)) ==> q.args.estimator == p.args.estimator,
        !given(flags, Opt::Text(TextOption::Cone)) ==> q.args.cone == p.args.cone,
        !given(flags, Opt::Switch(Switch::Hold)) ==> q.args.hold == p.args.hold,
        !given(flags, Opt::Switch(Switch::NoKeyboard)) ==> q.args.keyboard == p.args.keyboard,
        !given(flags, Opt::Switch(Switch::NoRelease)) ==> q.args.release == p.args.release,
        !given(flags, Opt::Switch(Switch::Sim)) ==> q.args.sim == p.args.sim,
        !given(flags, Opt::Switch(Switch::Viz)) ==> q.args.viz == p.args.viz,
        !given(flags, Opt::Switch(Switch::OdomCalibrated)) ==> q.args.odom_calibrated == p.args.odom_calibrated,
        !given(flags, Opt::Switch(Switch::GruHostVelocity)) ==> q.args.gru_host_velocity == p.args.gru_host_velocity,
        !given(flags, Opt::HeadingHold) ==> q.args.heading_hold == p.args.heading_hold,
    decreases flags.len(),
{
    if flags.len() == 0 {
        lemma_no_flag(number, with_height, low_stance, p, flags, q);
    } else {
        let m = lemma_last_flag(number, with_height, low_stance, p, flags, q);
        let front = flags.drop_last();
        law_what_is_not_given_stays(number, with_height, low_stance, p, front, m);
        law_each_option_touches_its_own_place(
            number,
            with_height,
            low_stance,
            m,
            flags.last(),
            q,
        );
        assert forall|option: Opt| #[trigger] given(front, option) implies given(flags, option) by {
            let j = choose|j: int|
                0 <= j < front.len() && option_in(#[trigger] front[j]) == option;
            assert(flags[j] == front[j]);
        }
        assert(flags[flags.len() - 1] == flags.last());
        assert(given(flags, option_in(flags.last())));
    }
}

/// The number that an option sets, where it is not about the stance.
pub open spec fn number_at<N, M>(args: Args<N, M>, option: NumberOption) -> Option<N> {
    match option {
        NumberOption::Vx => Some(args.cmd0.vx),
        NumberOption::Vy => Some(args.cmd0.vy),
        NumberOption::Wz => Some(args.cmd0.wz),
        NumberOption::Duration => args.duration,
        NumberOption::VizRate => Some(args.viz_rate_hz),
        NumberOption::Friction => args.friction,
        NumberOption::VxMax => args.vx_max,
        NumberOption::JointDamping => args.joint_damping,
        NumberOption::Impratio => args.impratio,
        NumberOption::EstimatorBias => args.estimator_bias,
        NumberOption::CmdAccel => Some(args.cmd_accel),
        NumberOption::StrideGain => Some(args.cfg.stride_gain),
        NumberOption::YawStrideGain => args.cfg.yaw_stride_gain,
        NumberOption::BodyHeight => args.cfg.body_height,
    }
}

/// The text that an option sets.
pub open spec fn text_at<N, M>(args: Args<N, M>, option: TextOption) -> Option<String> {
    match option {
        TextOption::Model => Some(args.model),
        TextOption::Iface => args.iface,
        TextOption::Misa => Some(args.misa),
        TextOption::VizEndpoint => args.viz_endpoint,
        TextOption::Estimator => args.estimator,
        TextOption::Cone => args.cone,
    }
}

/// Whether an option is about the stance.
pub open spec fn is_about_stance(option: NumberOption) -> bool {
    option == NumberOption::StrideGain || option == NumberOption::YawStrideGain || option
        == NumberOption::BodyHeight
}

/// Of an option that is given more than once, the last value counts: the reading ends
/// with the number that it writes.
pub proof fn law_the_last_number_counts<
    N,
    M,
    F: Fn(&String) -> Result<N, String>,
    H: Fn(TrajectoryCfg<N, M>, N) -> TrajectoryCfg<N, M>,
>(
    number: F,
    with_height: H,
    low_stance: TrajectoryCfg<N, M>,
    p: Parsing<N, M>,
    flags: Seq<Flag>,
    q: Parsing<N, M>,
    k: int,
    option: NumberOption,
    text: String,
)
    requires
        flags_lead(number, with_height, low_stance, p, flags, q),
        0 <= k < flags.len(),
        flags[k] == Flag::Number(option, text),
        !is_about_stance(option),
        forall|j: int|
            k < j < flags.len() ==> option_in(#[trigger] flags[j]) != Opt::Number(option),
    ensures
        exists|v: N|
            #[trigger] call_ensures(number, (&text,), Ok::<N, String>(v)) && number_at(
                q.args,
                option,
            ) == Some(v),
    decreases flags.len(),
{
    let m = lemma_last_flag(number, with_height, low_stance, p, flags, q);
    let last = flags.last();
    if k == flags.len() - 1 {
        law_each_option_reaches_its_own_place(number, with_height, low_stance, m, last, q);
    } else {
        let front = flags.drop_last();
        assert forall|j: int| k < j < front.len() implies option_in(#[trigger] front[j])
            != Opt::Number(option) by {
            assert(front[j] == flags[j]);
        }
        assert(front[k] == flags[k]);
        law_the_last_number_counts(
            number,
            with_height,
            low_stance,
            p,
            front,
            m,
            k,
            option,
            text,
        );
        assert(option_in(flags[flags.len() - 1]) != Opt::Number(option));
        law_each_option_touches_its_own_place(number, with_height, low_stance, m, last, q);
    }
}

/// Of an option with a text that is given more than once, the last text counts.
pub proof fn law_the_last_text_counts<
    N,
    M,
    F: Fn(&String) -> Result<N, String>,
    H: Fn(TrajectoryCfg<N, M>, N) -> TrajectoryCfg<N, M>,
>(
    number: F,
    with_height: H,
    low_stance: TrajectoryCfg<N, M>,
    p: Parsing<N, M>,
    flags: Seq<Flag>,
    q: Parsing<N, M>,
    k: int,
    option: TextOption,
    text: String,
)
    requires
        flags_lead(number, with_height, low_stance, p, flags, q),
        0 <= k < flags.len(),
        flags[k] == Flag::Text(option, text),
        forall|j: int|
            k < j < flags.len() ==> option_in(#[trigger] flags[j]) != Opt::Text(option),
    ensures
        text_at(q.args, option) == Some(text),
    decreases flags.len(),
{
    let m = lemma_last_flag(number, with_height, low_stance, p, flags, q);
    let last = flags.last();
    if k == flags.len() - 1 {
        law_each_option_reaches_its_own_place(number, with_height, low_stance, m, last, q);
    } else {
        let front = flags.drop_last();
        assert forall|j: int| k < j < front.len() implies option_in(#[trigger] front[j])
            != Opt::Text(option) by {
            assert(front[j] == flags[j]);
        }
        assert(front[k] == flags[k]);
        law_the_last_text_counts(number, with_height, low_stance, p, front, m, k, option, text);
        assert(option_in(flags[flags.len() - 1]) != Opt::Text(option));
        law_each_option_touches_its_own_place(number, with_height, low_stance, m, last, q);
    }
}

/// A switch that is given stays given, wherever it stands.
pub proof fn law_switches_stay_given<
    N,
    M,
    F: Fn(&String) -> Result<N, String>,
    H: Fn(TrajectoryCfg<N, M>, N) -> TrajectoryCfg<N, M>,
>(
    number: F,
    with_height: H,
    low_stance: TrajectoryCfg<N, M>,
    p: Parsing<N, M>,
    flags: Seq<Flag>,
    q: Parsing<N, M>,
)
    requires
        flags_lead(number, with_height, low_stance, p, flags, q),
    ensures
        given(flags, Opt::Switch(Switch::Hold)) ==> q.args.hold == true,
        given(flags, Opt::Switch(Switch::NoKeyboard)) ==> q.args.keyboard == false,
        given(flags, Opt::Switch(Switch::NoRelease)) ==> q.args.release == false,
        given(flags, Opt::Switch(Switch::Sim)) ==> q.args.sim == true,
        given(flags, Opt::Switch(Switch::Viz)) ==> q.args.viz == true,
        given(flags, Opt::Switch(Switch::OdomCalibrated)) ==> q.args.odom_calibrated == true,
        given(flags, Opt::Switch(Switch::GruHostVelocity)) ==> q.args.gru_host_velocity == true,
    decreases flags.len(),
{
    if flags.len() > 0 {
        let m = lemma_last_flag(number, with_height, low_stance, p, flags, q);
        let front = flags.drop_last();
        law_switches_stay_given(number, with_height, low_stance, p, front, m);
        law_each_option_touches_its_own_place(
            number,
            with_height,
            low_stance,
            m,
            flags.last(),
            q,
        );
        law_each_option_reaches_its_own_place(
            number,
            with_height,
            low_stance,
            m,
            flags.last(),
            q,
        );
        assert forall|switch: Switch| #[trigger]
            given(flags, Opt::Switch(switch)) implies given(front, Opt::Switch(switch))
            || flags.last() == Flag::Switch(switch) by {
            let j = choose|j: int|
                0 <= j < flags.len() && option_in(#[trigger] flags[j]) == Opt::Switch(switch);
            if j < front.len() {
                assert(front[j] == flags[j]);
            }
        }
    }
}

/// The options without one.
pub open spec fn without(flags: Seq<Flag>, option: Opt) -> Seq<Flag>
    decreases flags.len(),
{
    if flags.len() == 0 {
        Seq::empty()
    } else if option_in(flags.last()) == option {
        without(flags.drop_last(), option)
    } else {
        without(flags.drop_last(), option).push(flags.last())
    }
}

/// Whether two readings agree in everything but the number that one option sets.
pub open spec fn same_but<N, M>(a: Args<N, M>, b: Args<N, M>, option: NumberOption) -> bool {
    &&& a.model == b.model
    &&& a.iface == b.iface
    &&& a.misa == b.misa
    &&& a.viz_endpoint == b.viz_endpoint
    &&& a.estimator == b.estimator
    &&& a.cone == b.cone
    &&& a.hold == b.hold
    &&& a.keyboard == b.keyboard
    &&& a.release == b.release
    &&& a.sim == b.sim
    &&& a.viz == b.viz
    &&& a.odom_calibrated == b.odom_calibrated
    &&& a.gru_host_velocity == b.gru_host_velocity
    &&& a.heading_hold == b.heading_hold
    &&& a.cfg == b.cfg
    &&& option != NumberOption::Vx ==> a.cmd0.vx == b.cmd0.vx
    &&& option != NumberOption::Vy ==> a.cmd0.vy == b.cmd0.vy
    &&& option != NumberOption::Wz ==> a.cmd0.wz == b.cmd0.wz
    &&& option != NumberOption::Duration ==> a.duration == b.duration
    &&& option != NumberOption::VizRate ==> a.viz_rate_hz == b.viz_rate_hz
    &&& option != NumberOption::Friction ==> a.friction == b.friction
    &&& option != NumberOption::VxMax ==> a.vx_max == b.vx_max
    &&& option != NumberOption::JointDamping ==> a.joint_damping == b.joint_damping
    &&& option != NumberOption::Impratio ==> a.impratio == b.impratio
    &&& option != NumberOption::EstimatorBias ==> a.estimator_bias == b.estimator_bias
    &&& option != NumberOption::CmdAccel ==> a.cmd_accel == b.cmd_accel
}

/// Whether a schedule of the body height gives one stance for one.
pub open spec fn schedules_one_way<N, M, H: Fn(TrajectoryCfg<N, M>, N) -> TrajectoryCfg<N, M>>(
    with_height: H,
) -> bool {
    forall|a: TrajectoryCfg<N, M>, h: N, x: TrajectoryCfg<N, M>, y: TrajectoryCfg<N, M>|
        #[trigger] call_ensures(with_height, (a, h), x) && #[trigger] call_ensures(
            with_height,
            (a, h),
            y,
        ) ==> x == y
}

/// Of two readings, one with an option and one without it, everything but the number
/// that it sets agrees: with or without `--vx`, all but the forward speed.
pub proof fn law_an_option_can_be_dropped<
    N,
    M,
    F: Fn(&String) -> Result<N, String>,
    H: Fn(TrajectoryCfg<N, M>, N) -> TrajectoryCfg<N, M>,
>(
    number: F,
    with_height: H,
    low_stance: TrajectoryCfg<N, M>,
    p: Parsing<N, M>,
    flags: Seq<Flag>,
    p_end: Parsing<N, M>,
    q: Parsing<N, M>,
    q_end: Parsing<N, M>,
    option: NumberOption,
)
    requires
        flags_lead(number, with_height, low_stance, p, flags, p_end),
        flags_lead(number, with_height, low_stance, q, without(flags, Opt::Number(option)), q_end),
        !is_about_stance(option),
        same_but(p.args, q.args, option),
        p.yaw_gain_pinned == q.yaw_gain_pinned,
        reads_one_number(number),
        schedules_one_way(with_height),
    ensures
        same_but(p_end.args, q_end.args, option),
        p_end.yaw_gain_pinned == q_end.yaw_gain_pinned,
    decreases flags.len(),
{
    let opt = Opt::Number(option);
    if flags.len() == 0 {
        lemma_no_flag(number, with_height, low_stance, p, flags, p_end);
        lemma_no_flag(number, with_height, low_stance, q, without(flags, opt), q_end);
    } else {
        let m = lemma_last_flag(number, with_height, low_stance, p, flags, p_end);
        let front = flags.drop_last();
        let last = flags.last();
        if option_in(last) == opt {
            law_an_option_can_be_dropped(
                number,
                with_height,
                low_stance,
                p,
                front,
                m,
                q,
                q_end,
                option,
            );
            law_each_option_touches_its_own_place(
                number,
                with_height,
                low_stance,
                m,
                last,
                p_end,
            );
        } else {
            let rest = without(flags, opt);
            let n = lemma_last_flag(number, with_height, low_stance, q, rest, q_end);
            assert(rest.drop_last() =~= without(front, opt));
            assert(rest.last() == last);
            law_an_option_can_be_dropped(
                number,
                with_height,
                low_stance,
                p,
                front,
                m,
                q,
                n,
                option,
            );
            lemma_step_but(number, with_height, low_stance, m, n, last, p_end, q_end, option);
        }
    }
}

proof fn lemma_step_but<
    N,
    M,
    F: Fn(&String) -> Result<N, String>,
    H: Fn(TrajectoryCfg<N, M>, N) -> TrajectoryCfg<N, M>,
>(
    number: F,
    with_height: H,
    low_stance: TrajectoryCfg<N, M>,
    p: Parsing<N, M>,
    q: Parsing<N, M>,
    flag: Flag,
    p_next: Parsing<N, M>,
    q_next: Parsing<N, M>,
    option: NumberOption,
)
    requires
        flag_leads(number, with_height, low_stance, p, flag, p_next),
        flag_leads(number, with_height, low_stance, q, flag, q_next),
        option_in(flag) != Opt::Number(option),
        !is_about_stance(option),
        same_but(p.args, q.args, option),
        p.yaw_gain_pinned == q.yaw_gain_pinned,
        reads_one_number(number),
        schedules_one_way(with_height),
    ensures
        same_but(p_next.args, q_next.args, option),
        p_next.yaw_gain_pinned == q_next.yaw_gain_pinned,
{
    if let Flag::Number(other, text) = flag {
        let (v, x) = choose|v: N, x: TrajectoryCfg<N, M>|
            {
                &&& #[trigger] call_ensures(number, (&text,), Ok::<N, String>(v))
                &&& other == NumberOption::BodyHeight ==> call_ensures(
                    with_height,
                    (p.args.cfg, v),
                    x,
                )
                &&& p_next == #[trigger] with_number(p, other, v, x)
            };
        let (w, y) = choose|w: N, y: TrajectoryCfg<N, M>|
            {
                &&& #[trigger] call_ensures(number, (&text,), Ok::<N, String>(w))
                &&& other == NumberOption::BodyHeight ==> call_ensures(
                    with_height,
                    (q.args.cfg, w),
                    y,
                )
                &&& q_next == #[trigger] with_number(q, other, w, y)
            };
        assert(v == w);
        assert(p.args.cfg == q.args.cfg);
    }
}

/// A reading starts at rest, in the standard stance, on the robot and with the keyboard,
/// without a limit or a file but the usual model, and with the default rates.
pub proof fn law_a_reading_starts_at_rest<N, M>(
    p: Parsing<N, M>,
    defaults: Defaults<N, M>,
    iface: Option<String>,
)
    requires
        is_start(p, defaults, iface),
    ensures
        p.args.model@.len() == 0,
        p.args.misa@ == "models/unitree_go2/go2.misa"@,
        p.args.iface == iface,
        p.args.cmd0.vx == defaults.zero,
        p.args.cmd0.vy == defaults.zero,
        p.args.cmd0.wz == defaults.zero,
        p.args.cfg == defaults.standard,
        p.args.keyboard && p.args.release,
        !p.args.hold && !p.args.sim && !p.args.viz,
        !p.args.odom_calibrated && !p.args.gru_host_velocity,
        p.args.duration is None && p.args.friction is None && p.args.vx_max is None,
        p.args.impratio is None && p.args.cone is None && p.args.joint_damping is None,
        p.args.viz_endpoint is None && p.args.estimator is None,
        p.args.estimator_bias is None && p.args.heading_hold is None,
        p.args.viz_rate_hz == defaults.viz_rate_hz,
        p.args.cmd_accel == defaults.cmd_accel,
        !p.yaw_gain_pinned,
{
}

/// The words of one option are read as that option with the words that follow its name
/// as its values, and what stands behind them is read next.
pub proof fn law_options_take_the_words_behind_them(args: Seq<String>)
    requires
        args.len() > 0,
    ensures
        option_of(args[0]@) matches Some(Opt::Switch(switch)) ==> flags_of(args) == seq![
            Flag::Switch(switch),
        ] + flags_of(args.skip(1)) && misfit_of(args) == misfit_of(args.skip(1)),
        option_of(args[0]@) matches Some(Opt::Text(option)) ==> args.len() >= 2 ==> flags_of(args)
            == seq![Flag::Text(option, args[1])] + flags_of(args.skip(2)) && misfit_of(args)
            == misfit_of(args.skip(2)),
        option_of(args[0]@) matches Some(Opt::Number(option)) ==> args.len() >= 2 ==> flags_of(args)
            == seq![Flag::Number(option, args[1])] + flags_of(args.skip(2)) && misfit_of(args)
            == misfit_of(args.skip(2)),
        option_of(args[0]@) == Some(Opt::HeadingHold) && args.len() >= 3 ==> flags_of(args) == seq![
            Flag::HeadingHold(args[1], args[2]),
        ] + flags_of(args.skip(3)) && misfit_of(args) == misfit_of(args.skip(3)),
        option_of(args[0]@) is None ==> misfit_of(args) == Some(
            "policy: 知らないオプション "@ + debug_quoted(args[0]@),
        ),
        args.len() == 1 && option_of(args[0]@) is Some && !(option_of(args[0]@)->0 is Switch)
            ==> misfit_of(args) == Some(args[0]@ + " に値がありません"@),
        args.len() == 2 && option_of(args[0]@) == Some(Opt::HeadingHold) ==> misfit_of(args)
            == Some(args[0]@ + " に値がありません"@),
        misfit_of(Seq::empty()) is None,
        flags_of(Seq::empty()) == Seq::<Flag>::empty(),
{
}

/// A value that is no number is named by its option: the error is the option's name, a
/// colon and what is wrong with the value.
pub proof fn law_a_bad_number_is_named<N, F: Fn(&String) -> Result<N, String>>(
    number: F,
    flag: Flag,
    text: Seq<char>,
)
    requires
        number_fails::<N, F>(number, flag, text),
    ensures
        flag is Number || flag is HeadingHold,
        flag matches Flag::Number(option, value) ==> exists|e: String|
            #[trigger] call_ensures(number, (&value,), Err::<N, String>(e)) && text == number_name(
                option,
            ) + ": "@ + e@,
        flag matches Flag::HeadingHold(first, second) ==> exists|e: String|
            (call_ensures(number, (&first,), Err::<N, String>(e)) || call_ensures(
                number,
                (&second,),
                Err::<N, String>(e),
            )) && text == "--heading-hold"@ + ": "@ + #[trigger] e@,
{
}

/// Whatever a command line does not name stands as at the start of every reading: a
/// speed that is not given is zero, a limit that is not given is none, the robot is not
/// simulated, and so on for every place.
pub proof fn law_what_is_not_given_is_the_default<
    N,
    M,
    F: Fn(&String) -> Result<N, String>,
    H: Fn(TrajectoryCfg<N, M>, N) -> TrajectoryCfg<N, M>,
>(
    args: Seq<String>,
    iface: Option<String>,
    defaults: Defaults<N, M>,
    number: F,
    with_height: H,
    out: Args<N, M>,
)
    requires
        reads_as(
            args,
            iface,
            defaults,
            number,
            with_height,
            Ok::<Args<N, M>, String>(out),
        ),
    ensures
        ({
            let flags = flags_of(args);
            &&& !given(flags, Opt::Number(NumberOption::Vx)) ==> out.cmd0.vx == defaults.zero
            &&& !given(flags, Opt::Number(NumberOption::Vy)) ==> out.cmd0.vy == defaults.zero
            &&& !given(flags, Opt::Number(NumberOption::Wz)) ==> out.cmd0.wz == defaults.zero
            &&& !given(flags, Opt::Number(NumberOption::Duration)) ==> out.duration is None
            &&& !given(flags, Opt::Number(NumberOption::Friction)) ==> out.friction is None
            &&& !given(flags, Opt::Number(NumberOption::VxMax)) ==> out.vx_max is None
            &&& !given(flags, Opt::Number(NumberOption::JointDamping)) ==> out.joint_damping is None
            &&& !given(flags, Opt::Number(NumberOption::Impratio)) ==> out.impratio is None
            &&& !given(flags, Opt::Number(NumberOption::EstimatorBias))
                ==> out.estimator_bias is None
            &&& !given(flags, Opt::Number(NumberOption::VizRate)) ==> out.viz_rate_hz
                == defaults.viz_rate_hz
            &&& !given(flags, Opt::Number(NumberOption::CmdAccel)) ==> out.cmd_accel
                == defaults.cmd_accel
            &&& !given(flags, Opt::Text(TextOption::Iface)) ==> out.iface == iface
            &&& !given(flags, Opt::Text(TextOption::Misa)) ==> out.misa@
                == "models/unitree_go2/go2.misa"@
            &&& !given(flags, Opt::Text(TextOption::VizEndpoint)) ==> out.viz_endpoint is None
            &&& !given(flags, Opt::Text(TextOption::Estimator)) ==> out.estimator is None
            &&& !given(flags, Opt::Text(TextOption::Cone)) ==> out.cone is None
            &&& out.hold <==> given(flags, Opt::Switch(Switch::Hold))
            &&& out.keyboard <==> !given(flags, Opt::Switch(Switch::NoKeyboard))
            &&& out.release <==> !given(flags, Opt::Switch(Switch::NoRelease))
            &&& out.sim <==> given(flags, Opt::Switch(Switch::Sim))
            &&& out.viz <==> given(flags, Opt::Switch(Switch::Viz))
            &&& out.odom_calibrated <==> given(flags, Opt::Switch(Switch::OdomCalibrated))
            &&& out.gru_host_velocity <==> given(flags, Opt::Switch(Switch::GruHostVelocity))
            &&& !given(flags, Opt::HeadingHold) ==> out.heading_hold is None
        }),
        given(flags_of(args), Opt::Text(TextOption::Model)),
        out.model@.len() > 0,
        misfit_of(args) is None,
{
    let flags = flags_of(args);
    let start = choose|start: Parsing<N, M>| #[trigger]
        is_start(start, defaults, iface) && exists|end: Parsing<N, M>| #[trigger]
            flags_lead(number, with_height, defaults.low_stance, start, flags, end) && end.args
                == out;
    let end = choose|end: Parsing<N, M>| #[trigger]
        flags_lead(number, with_height, defaults.low_stance, start, flags, end) && end.args == out;
    law_what_is_not_given_stays(number, with_height, defaults.low_stance, start, flags, end);
    law_switches_stay_given(number, with_height, defaults.low_stance, start, flags, end);
    law_a_reading_starts_at_rest(start, defaults, iface);
}

/// The errors come in the order of the words: a value that is no number is reported
/// before a later word that does not fit, and that the model is missing only where
/// everything else was fine.
pub proof fn law_the_first_error_is_reported<
    N,
    M,
    F: Fn(&String) -> Result<N, String>,
    H: Fn(TrajectoryCfg<N, M>, N) -> TrajectoryCfg<N, M>,
>(
    args: Seq<String>,
    iface: Option<String>,
    defaults: Defaults<N, M>,
    number: F,
    with_height: H,
    text: String,
)
    requires
        reads_as(
            args,
            iface,
            defaults,
            number,
            with_height,
            Err::<Args<N, M>, String>(text),
        ),
        forall|value: &String, e: String| !#[trigger] call_ensures(
            number,
            (value,),
            Err::<N, String>(e),
        ),
    ensures
        misfit_of(args) is Some ==> misfit_of(args) == Some(text@),
        misfit_of(args) is None ==> text@ == model_missing(),
{
    let flags = flags_of(args);
    assert forall|k: int| 0 <= k < flags.len() implies !#[trigger] number_fails::<N, F>(
        number,
        flags[k],
        text@,
    ) by {
        if number_fails::<N, F>(number, flags[k], text@) {
            law_a_bad_number_is_named::<N, F>(number, flags[k], text@);
        }
    }
}

} // verus!
