//! Which kind of policy a network is, and what follows from it.
//!
//! The number of a network's inputs comes first, their width second: a recurrent
//! network and a plain one with a velocity input are equally wide, and differ in
//! everything else.

use vstd::prelude::*;
use crate::text::{context, in_context};

verus! {

/// The width of a plain network that adds to a reference gait.
pub const NATURAL_WIDTH: usize = 39;

/// The width of a plain network.
pub const PURE_WIDTH: usize = 73;

/// The width of a plain network that takes the body's velocity too.
pub const PURE_VELOCITY_WIDTH: usize = 76;

/// The kind of a policy.
#[derive(Clone, Copy, PartialEq, Eq, Structural, Debug)]
pub enum Contract {
    /// A reference gait, with a network that adds to it.
    Natural,
    /// A network alone; it may take the body's velocity.
    Pure { wants_velocity: bool },
    /// A recurrent network; its velocity comes from its own estimator, or from
    /// the leg odometry.
    Gru { host_velocity: bool },
}

impl Contract {
    /// The name of the kind.
    pub open spec fn name_text(self) -> Seq<char> {
        match self {
            Contract::Natural => "Natural (39 入力)"@,
            Contract::Pure { wants_velocity } => if wants_velocity {
                "Pure (76 入力, 体速度推定つき)"@
            } else {
                "Pure (73 入力)"@
            },
            Contract::Gru { host_velocity } => if host_velocity {
                "GRU (76 入力 + 隠れ状態 128, 脚オドメトリ)"@
            } else {
                "GRU (76 入力 + 隠れ状態 128, 凍結推定器)"@
            },
        }
    }

    /// The name of the kind.
    pub fn name(&self) -> (name: &'static str)
        ensures
            name@ == self.name_text(),
    {
        match self {
            Contract::Natural => "Natural (39 入力)",
            Contract::Pure { wants_velocity } => if *wants_velocity {
                "Pure (76 入力, 体速度推定つき)"
            } else {
                "Pure (73 入力)"
            },
            Contract::Gru { host_velocity } => if *host_velocity {
                "GRU (76 入力 + 隠れ状態 128, 脚オドメトリ)"
            } else {
                "GRU (76 入力 + 隠れ状態 128, 凍結推定器)"
            },
        }
    }

    /// Whether the policy takes the leg odometry's velocity.
    pub open spec fn takes_odometry(self) -> bool {
        match self {
            Contract::Natural => false,
            Contract::Pure { wants_velocity } => wants_velocity,
            Contract::Gru { host_velocity } => host_velocity,
        }
    }

    /// Whether the policy takes the leg odometry's velocity.
    pub fn wants_velocity(&self) -> (yes: bool)
        ensures
            yes == self.takes_odometry(),
    {
        match self {
            Contract::Natural => false,
            Contract::Pure { wants_velocity } => *wants_velocity,
            Contract::Gru { host_velocity } => *host_velocity,
        }
    }

    /// Whether the policy was trained in the crouch.
    pub fn is_crouch_contract(&self) -> (yes: bool)
        ensures
            yes == !(self is Natural),
    {
        match self {
            Contract::Natural => false,
            Contract::Pure { .. } | Contract::Gru { .. } => true,
        }
    }

    /// The body height that the simulator starts from.
    pub open spec fn height_at_start<N>(self, given: Option<N>, crouch: N, upright: N) -> N {
        match given {
            Some(h) => h,
            None => if self is Natural {
                upright
            } else {
                crouch
            },
        }
    }

    /// The body height that the simulator starts from, where none is given: the
    /// crouch for the policies trained in it.
    pub fn start_height<N: Copy>(&self, given: Option<N>, crouch: N, upright: N) -> (height: N)
        ensures
            height == self.height_at_start(given, crouch, upright),
            height == match given {
                Some(h) => h,
                None => if self is Natural {
                    upright
                } else {
                    crouch
                },
            },
    {
        match given {
            Some(h) => h,
            None => if self.is_crouch_contract() {
                crouch
            } else {
                upright
            },
        }
    }
}

/// The error of odometry calibration for a robot policy without odometry.
pub open spec fn calibration_refused() -> Seq<char> {
    "--odom-calibrated は脚オドメトリを入力に使う契約専用です（76 入力 Pure、または --gru-host-velocity の GRU）"@
}

/// The error of odometry calibration for a simulated policy without odometry.
pub open spec fn sim_calibration_refused() -> Seq<char> {
    "--odom-calibrated は76入力Pureポリシー専用です"@
}

/// The error of an estimator for a policy that is not recurrent.
pub open spec fn estimator_refused() -> Seq<char> {
    "--estimator は GRU 契約（2 入力グラフ）専用です"@
}

/// Why the options of a run on the robot do not fit the policy, where they do not.
pub open spec fn misfit_options(contract: Contract, odom_calibrated: bool, estimator: bool) -> Option<
    Seq<char>,
> {
    if odom_calibrated && !contract.takes_odometry() {
        Some(calibration_refused())
    } else if estimator && !(contract is Gru) {
        Some(estimator_refused())
    } else {
        None
    }
}

/// Why the options of a simulated run do not fit the policy, where they do not.
pub open spec fn misfit_sim_options(contract: Contract, odom_calibrated: bool) -> Option<Seq<char>> {
    if odom_calibrated && !contract.takes_odometry() {
        Some(sim_calibration_refused())
    } else {
        None
    }
}

/// Whether the options of a run on the robot fit the policy: the odometry is
/// calibrated only where it is taken, and an estimator is given only to a
/// recurrent policy.
pub fn check_options(contract: Contract, odom_calibrated: bool, estimator: bool) -> (result: Result<
    (),
    String,
>)
    ensures
        match (result, misfit_options(contract, odom_calibrated, estimator)) {
            (Ok(_), None) => true,
            (Err(text), Some(why)) => text@ == why,
            _ => false,
        },
        match result {
            Ok(_) => (odom_calibrated ==> contract.takes_odometry()) && (estimator
                ==> contract is Gru),
            Err(text) => if odom_calibrated && !contract.takes_odometry() {
                text@ == calibration_refused()
            } else {
                estimator && !(contract is Gru) && text@ == estimator_refused()
            },
        },
{
    if odom_calibrated && !contract.wants_velocity() {
        return Err(
            "--odom-calibrated は脚オドメトリを入力に使う契約専用です（76 入力 Pure、または --gru-host-velocity の GRU）".to_owned(),
        );
    }
    let recurrent = match contract {
        Contract::Gru { .. } => true,
        _ => false,
    };
    if estimator && !recurrent {
        return Err("--estimator は GRU 契約（2 入力グラフ）専用です".to_owned());
    }
    Ok(())
}

/// Whether the options of a simulated run fit the policy.
pub fn check_sim_options(contract: Contract, odom_calibrated: bool) -> (result: Result<(), String>)
    ensures
        match (result, misfit_sim_options(contract, odom_calibrated)) {
            (Ok(_), None) => true,
            (Err(text), Some(why)) => text@ == why,
            _ => false,
        },
        match result {
            Ok(_) => odom_calibrated ==> contract.takes_odometry(),
            Err(text) => odom_calibrated && !contract.takes_odometry() && text@
                == sim_calibration_refused(),
        },
{
    if odom_calibrated && !contract.wants_velocity() {
        Err("--odom-calibrated は76入力Pureポリシー専用です".to_owned())
    } else {
        Ok(())
    }
}

/// The limit on the forward speed in the simulator.
pub open spec fn limit_in_simulator<N>(
    given: Option<N>,
    damping_lowered: bool,
    trained_beyond_safe: bool,
    safe: N,
) -> Option<N> {
    match given {
        Some(v) => Some(v),
        None => if !damping_lowered && trained_beyond_safe {
            Some(safe)
        } else {
            None
        },
    }
}

/// The limit on the forward speed in the simulator: the one that is given, else
/// `safe` where the joints are damped as heavily as in the conservative model and
/// the policy was trained for more.
pub fn sim_speed_limit<N: Copy>(
    given: Option<N>,
    damping_lowered: bool,
    trained_beyond_safe: bool,
    safe: N,
) -> (limit: Option<N>)
    ensures
        limit == limit_in_simulator(given, damping_lowered, trained_beyond_safe, safe),
        limit == match given {
            Some(v) => Some(v),
            None => if !damping_lowered && trained_beyond_safe {
                Some(safe)
            } else {
                None
            },
        },
{
    match given {
        Some(v) => Some(v),
        None => if !damping_lowered && trained_beyond_safe {
            Some(safe)
        } else {
            None
        },
    }
}

/// Whether `tau` holds the feed-forward torques of a cycle.
pub open spec fn feeds_forward<N, F: Fn() -> [N; 12]>(
    contract: Contract,
    hold: bool,
    zero: N,
    support: F,
    tau: [N; 12],
) -> bool {
    if hold || !(contract is Natural) {
        forall|i: int| 0 <= i < 12 ==> #[trigger] tau@[i] == zero
    } else {
        call_ensures(support, (), tau)
    }
}

/// The feed-forward torques of a cycle: those that support the body, which only a
/// reference gait has, and none while the pose is only held. `support` computes them.
pub fn feed_forward<N: Copy, F: Fn() -> [N; 12]>(
    contract: Contract,
    hold: bool,
    zero: N,
    support: F,
) -> (tau: [N; 12])
    requires
        call_requires(support, ()),
    ensures
        feeds_forward(contract, hold, zero, support, tau),
        if hold || !(contract is Natural) {
            forall|i: int| 0 <= i < 12 ==> #[trigger] tau@[i] == zero
        } else {
            call_ensures(support, (), tau)
        },
{
    match contract {
        Contract::Natural => if hold {
            [zero; 12]
        } else {
            support()
        },
        _ => [zero; 12],
    }
}

/// Where a recurrent policy's velocity comes from.
pub enum VelocitySource<E> {
    Host,
    Estimator(E),
}

/// What was loaded.
pub enum Loaded<R, E, P> {
    /// A recurrent network and the source of its velocity.
    Gru(R, VelocitySource<E>),
    /// A plain network that adds to a reference gait.
    Natural(P),
    /// A plain network.
    Pure(P),
}

/// The error of asking for both sources of velocity.
pub open spec fn sources_clash() -> Seq<char> {
    "--gru-host-velocity と --estimator は同時に使えません"@
}

/// The error of a recurrent policy without a source of velocity.
pub open spec fn estimator_missing() -> Seq<char> {
    "GRU 契約（2 入力グラフ）には --estimator PATH が要ります（6×73 → 3 の凍結速度推定器。脚オドメトリで代用するなら --gru-host-velocity を明示してください）"@
}

/// The error of a plain network of an unknown width, from the errors at each.
pub open spec fn width_unknown(e39: Seq<char>, e73: Seq<char>, e76: Seq<char>) -> Seq<char> {
    "--model は 39/73/76 入力のいずれとしても読めません — "@ + in_context("39"@, e39) + " / "@
        + in_context("73"@, e73) + " / "@ + in_context("76"@, e76)
}

/// Whether loading a recurrent policy, whose network `policy` is at hand, comes out
/// as `result`.
pub open spec fn gru_comes_out<R, E, P, FE: Fn(&String) -> Result<E, String>>(
    host_velocity: bool,
    estimator: Option<String>,
    history: FE,
    policy: R,
    result: Result<Loaded<R, E, P>, String>,
) -> bool {
    if host_velocity {
        match estimator {
            Some(_) => result matches Err(text) && text@ == sources_clash(),
            None => result == Ok::<Loaded<R, E, P>, String>(
                Loaded::Gru(policy, VelocitySource::Host),
            ),
        }
    } else {
        match estimator {
            None => result matches Err(text) && text@ == estimator_missing(),
            Some(path) => exists|loaded: Result<E, String>| #[trigger]
                call_ensures(history, (&path,), loaded) && result == match loaded {
                    Ok(e) => Ok::<Loaded<R, E, P>, String>(
                        Loaded::Gru(policy, VelocitySource::Estimator(e)),
                    ),
                    Err(e) => Err(e),
                },
        }
    }
}

/// Whether trying a plain network at each width, narrowest first, comes out as
/// `result`: the first that fits is taken.
pub open spec fn plain_comes_out<R, E, P, FP: Fn(usize) -> Result<P, String>>(
    plain: FP,
    result: Result<Loaded<R, E, P>, String>,
) -> bool {
    exists|a: Result<P, String>| #[trigger]
        call_ensures(plain, (NATURAL_WIDTH,), a) && match a {
            Ok(p) => result == Ok::<Loaded<R, E, P>, String>(Loaded::Natural(p)),
            Err(e39) => exists|b: Result<P, String>| #[trigger]
                call_ensures(plain, (PURE_WIDTH,), b) && match b {
                    Ok(p) => result == Ok::<Loaded<R, E, P>, String>(Loaded::Pure(p)),
                    Err(e73) => exists|c: Result<P, String>| #[trigger]
                        call_ensures(plain, (PURE_VELOCITY_WIDTH,), c) && match c {
                            Ok(p) => result == Ok::<Loaded<R, E, P>, String>(Loaded::Pure(p)),
                            Err(e76) => result matches Err(text) && text@ == width_unknown(
                                e39@,
                                e73@,
                                e76@,
                            ),
                        },
                },
        }
}

/// Whether loading a policy whose network has `arity` inputs comes out as `result`.
pub open spec fn comes_out<
    R,
    E,
    P,
    FR: Fn() -> Result<R, String>,
    FE: Fn(&String) -> Result<E, String>,
    FP: Fn(usize) -> Result<P, String>,
>(
    arity: Result<usize, String>,
    host_velocity: bool,
    estimator: Option<String>,
    recurrent: FR,
    history: FE,
    plain: FP,
    result: Result<Loaded<R, E, P>, String>,
) -> bool {
    match arity {
        Err(e) => result == Err::<Loaded<R, E, P>, String>(e),
        Ok(n) => if n == 2 {
            exists|r: Result<R, String>| #[trigger]
                call_ensures(recurrent, (), r) && match r {
                    Err(e) => result == Err::<Loaded<R, E, P>, String>(e),
                    Ok(policy) => gru_comes_out(host_velocity, estimator, history, policy, result),
                }
        } else {
            plain_comes_out(plain, result)
        },
    }
}

/// Loads a policy. `arity` is the number of the network's inputs, where it could
/// be read; `recurrent`, `history` and `plain` load the files.
pub fn load<
    R,
    E,
    P,
    FR: Fn() -> Result<R, String>,
    FE: Fn(&String) -> Result<E, String>,
    FP: Fn(usize) -> Result<P, String>,
>(
    arity: Result<usize, String>,
    host_velocity: bool,
    estimator: &Option<String>,
    recurrent: FR,
    history: FE,
    plain: FP,
) -> (result: Result<Loaded<R, E, P>, String>)
    requires
        call_requires(recurrent, ()),
        forall|path: &String| call_requires(history, (path,)),
        forall|width: usize| call_requires(plain, (width,)),
    ensures
        comes_out(arity, host_velocity, *estimator, recurrent, history, plain, result),
        match arity {
            Err(e) => result == Err::<Loaded<R, E, P>, String>(e),
            Ok(n) => if n == 2 {
                exists|r: Result<R, String>| #[trigger]
                    call_ensures(recurrent, (), r) && match r {
                        Err(e) => result == Err::<Loaded<R, E, P>, String>(e),
                        Ok(policy) => gru_comes_out(
                            host_velocity,
                            *estimator,
                            history,
                            policy,
                            result,
                        ),
                    }
            } else {
                plain_comes_out(plain, result)
            },
        },
{
    let inputs: usize = match arity {
        Err(e) => {
            return Err(e);
        },
        Ok(n) => n,
    };
    if inputs == 2 {
        let loaded = recurrent();
        let ghost r = loaded;
        assert(call_ensures(recurrent, (), r));
        let policy = match loaded {
            Err(e) => {
                return Err(e);
            },
            Ok(policy) => policy,
        };
        if host_velocity {
            if estimator.is_some() {
                return Err("--gru-host-velocity と --estimator は同時に使えません".to_owned());
            }
            return Ok(Loaded::Gru(policy, VelocitySource::Host));
        }
        match estimator {
            None => Err(
                "GRU 契約（2 入力グラフ）には --estimator PATH が要ります（6×73 → 3 の凍結速度推定器。脚オドメトリで代用するなら --gru-host-velocity を明示してください）".to_owned(),
            ),
            Some(path) => match history(path) {
                Err(e) => Err(e),
                Ok(e) => Ok(Loaded::Gru(policy, VelocitySource::Estimator(e))),
            },
        }
    } else {
        let e39 = match plain(NATURAL_WIDTH) {
            Ok(p) => {
                return Ok(Loaded::Natural(p));
            },
            Err(e) => e,
        };
        let e73 = match plain(PURE_WIDTH) {
            Ok(p) => {
                return Ok(Loaded::Pure(p));
            },
            Err(e) => e,
        };
        let e76 = match plain(PURE_VELOCITY_WIDTH) {
            Ok(p) => {
                return Ok(Loaded::Pure(p));
            },
            Err(e) => e,
        };
        let mut text = "--model は 39/73/76 入力のいずれとしても読めません — ".to_owned();
        text.append(context("39", e39.as_str()).as_str());
        text.append(" / ");
        text.append(context("73", e73.as_str()).as_str());
        text.append(" / ");
        text.append(context("76", e76.as_str()).as_str());
        Err(text)
    }
}

/// The number of inputs decides before any width does: a network with two inputs
/// never loads as a plain policy, and any other never as a recurrent one.
pub proof fn law_arity_decides_before_width<
    R,
    E,
    P,
    FE: Fn(&String) -> Result<E, String>,
    FP: Fn(usize) -> Result<P, String>,
>(
    host_velocity: bool,
    estimator: Option<String>,
    history: FE,
    policy: R,
    plain: FP,
    result: Result<Loaded<R, E, P>, String>,
)
    ensures
        gru_comes_out(host_velocity, estimator, history, policy, result) ==> (result matches Ok(l)
            ==> l is Gru),
        plain_comes_out(plain, result) ==> (result matches Ok(l) ==> !(l is Gru)),
{
}

/// A recurrent policy takes its velocity from one source: from the leg odometry exactly
/// where that is asked for and no estimator is given, from the estimator exactly where
/// one is given, loaded and the odometry not asked for; both and neither are refused.
pub proof fn law_a_recurrent_policy_has_one_source<R, E, P, FE: Fn(&String) -> Result<E, String>>(
    host_velocity: bool,
    estimator: Option<String>,
    history: FE,
    policy: R,
    result: Result<Loaded<R, E, P>, String>,
)
    requires
        gru_comes_out(host_velocity, estimator, history, policy, result),
    ensures
        host_velocity && estimator is None ==> result == Ok::<Loaded<R, E, P>, String>(
            Loaded::Gru(policy, VelocitySource::Host),
        ),
        host_velocity && estimator is Some ==> result is Err && result->Err_0@ == sources_clash(),
        !host_velocity && estimator is None ==> result is Err && result->Err_0@
            == estimator_missing(),
        !host_velocity && (estimator matches Some(path) && result is Ok) ==> exists|e: E|
            #[trigger] call_ensures(history, (&estimator->0,), Ok::<E, String>(e)) && result == Ok::<
                Loaded<R, E, P>,
                String,
            >(Loaded::Gru(policy, VelocitySource::Estimator(e))),
        !host_velocity && (estimator matches Some(path) && result is Err) ==> call_ensures(
            history,
            (&estimator->0,),
            Err::<E, String>(result->Err_0),
        ),
{
}

/// A plain policy is what its width says, the narrowest first: a reference gait is one
/// that fits 39 inputs, another fits 73 after 39 failed or 76 after both failed, and
/// only one that fits none is refused.
pub proof fn law_a_plain_policy_is_what_its_width_says<
    R,
    E,
    P,
    FP: Fn(usize) -> Result<P, String>,
>(plain: FP, result: Result<Loaded<R, E, P>, String>)
    requires
        plain_comes_out(plain, result),
    ensures
        result matches Ok(Loaded::Natural(p)) ==> call_ensures(
            plain,
            (39usize,),
            Ok::<P, String>(p),
        ),
        result matches Ok(Loaded::Pure(p)) ==> {
            &&& exists|e: String| #[trigger] call_ensures(plain, (39usize,), Err::<P, String>(e))
            &&& {
                ||| call_ensures(plain, (73usize,), Ok::<P, String>(p))
                ||| call_ensures(plain, (76usize,), Ok::<P, String>(p)) && exists|e: String|
                    #[trigger] call_ensures(plain, (73usize,), Err::<P, String>(e))
            }
        },
        !(result matches Ok(Loaded::Gru(_, _))),
        result is Err ==> {
            &&& exists|e: String| #[trigger] call_ensures(plain, (39usize,), Err::<P, String>(e))
            &&& exists|e: String| #[trigger] call_ensures(plain, (73usize,), Err::<P, String>(e))
            &&& exists|e: String| #[trigger] call_ensures(plain, (76usize,), Err::<P, String>(e))
        },
{
    let a = choose|a: Result<P, String>| #[trigger]
        call_ensures(plain, (NATURAL_WIDTH,), a) && match a {
            Ok(p) => result == Ok::<Loaded<R, E, P>, String>(Loaded::Natural(p)),
            Err(e39) => exists|b: Result<P, String>| #[trigger]
                call_ensures(plain, (PURE_WIDTH,), b) && match b {
                    Ok(p) => result == Ok::<Loaded<R, E, P>, String>(Loaded::Pure(p)),
                    Err(e73) => exists|c: Result<P, String>| #[trigger]
                        call_ensures(plain, (PURE_VELOCITY_WIDTH,), c) && match c {
                            Ok(p) => result == Ok::<Loaded<R, E, P>, String>(Loaded::Pure(p)),
                            Err(e76) => result matches Err(text) && text@ == width_unknown(
                                e39@,
                                e73@,
                                e76@,
                            ),
                        },
                },
        };
    if let Err(e39) = a {
        assert(call_ensures(plain, (39usize,), Err::<P, String>(e39)));
        let b = choose|b: Result<P, String>| #[trigger]
            call_ensures(plain, (PURE_WIDTH,), b) && match b {
                Ok(p) => result == Ok::<Loaded<R, E, P>, String>(Loaded::Pure(p)),
                Err(e73) => exists|c: Result<P, String>| #[trigger]
                    call_ensures(plain, (PURE_VELOCITY_WIDTH,), c) && match c {
                        Ok(p) => result == Ok::<Loaded<R, E, P>, String>(Loaded::Pure(p)),
                        Err(e76) => result matches Err(text) && text@ == width_unknown(
                            e39@,
                            e73@,
                            e76@,
                        ),
                    },
            };
        if let Err(e73) = b {
            assert(call_ensures(plain, (73usize,), Err::<P, String>(e73)));
            let c = choose|c: Result<P, String>| #[trigger]
                call_ensures(plain, (PURE_VELOCITY_WIDTH,), c) && match c {
                    Ok(p) => result == Ok::<Loaded<R, E, P>, String>(Loaded::Pure(p)),
                    Err(e76) => result matches Err(text) && text@ == width_unknown(
                        e39@,
                        e73@,
                        e76@,
                    ),
                };
            if let Err(e76) = c {
                assert(call_ensures(plain, (76usize,), Err::<P, String>(e76)));
            }
        }
    }
}

/// The leg odometry is taken by the plain policy with a velocity input and by the
/// recurrent one that was told so, and by no other.
pub proof fn law_who_takes_the_odometry(contract: Contract)
    ensures
        contract.takes_odometry() <==> contract == (Contract::Pure { wants_velocity: true })
            || contract == (Contract::Gru { host_velocity: true }),
{
}

/// Each kind of policy has its own name.
pub proof fn law_kinds_have_their_own_names(contract: Contract)
    ensures
        match contract {
            Contract::Natural => contract.name_text() == "Natural (39 入力)"@,
            Contract::Pure { wants_velocity: true } => contract.name_text()
                == "Pure (76 入力, 体速度推定つき)"@,
            Contract::Pure { wants_velocity: false } => contract.name_text() == "Pure (73 入力)"@,
            Contract::Gru { host_velocity: true } => contract.name_text()
                == "GRU (76 入力 + 隠れ状態 128, 脚オドメトリ)"@,
            Contract::Gru { host_velocity: false } => contract.name_text()
                == "GRU (76 入力 + 隠れ状態 128, 凍結推定器)"@,
        },
{
}

/// A height that is given is taken. Without one, every policy but the one with a
/// reference gait starts in the crouch.
pub proof fn law_trained_in_the_crouch_starts_in_it<N>(
    contract: Contract,
    given: Option<N>,
    crouch: N,
    upright: N,
)
    ensures
        given matches Some(h) ==> contract.height_at_start(given, crouch, upright) == h,
        given is None && contract == Contract::Natural ==> contract.height_at_start(
            given,
            crouch,
            upright,
        ) == upright,
        given is None && contract is Pure ==> contract.height_at_start(given, crouch, upright)
            == crouch,
        given is None && contract is Gru ==> contract.height_at_start(given, crouch, upright)
            == crouch,
{
}

/// Options are refused exactly where the policy has no use for them: calibration
/// without leg odometry, an estimator without recurrence. The calibration is named
/// first, and the simulator refuses it to the same policies.
pub proof fn law_options_are_refused_where_useless(
    contract: Contract,
    odom_calibrated: bool,
    estimator: bool,
)
    ensures
        misfit_options(contract, false, false) is None,
        misfit_options(contract, true, estimator) is None ==> contract == (Contract::Pure {
            wants_velocity: true,
        }) || contract == (Contract::Gru { host_velocity: true }),
        misfit_options(contract, odom_calibrated, true) is None ==> contract is Gru,
        misfit_options(Contract::Gru { host_velocity: true }, odom_calibrated, estimator) is None,
        misfit_options(Contract::Gru { host_velocity: false }, false, estimator) is None,
        misfit_options(Contract::Pure { wants_velocity: true }, odom_calibrated, false) is None,
        misfit_sim_options(contract, true) is Some <==> misfit_options(contract, true, estimator)
            == Some(calibration_refused()),
        misfit_sim_options(contract, false) is None,
{
    assert(calibration_refused() != estimator_refused()) by {
        reveal_strlit(
            "--odom-calibrated は脚オドメトリを入力に使う契約専用です（76 入力 Pure、または --gru-host-velocity の GRU）",
        );
        reveal_strlit("--estimator は GRU 契約（2 入力グラフ）専用です");
        assert(calibration_refused()[2] == 'o');
        assert(estimator_refused()[2] == 'e');
    }
}

/// A limit that is given is taken as it is. Without one, the forward speed is limited,
/// to the safe speed, exactly where heavy damping meets a policy trained for more.
pub proof fn law_heavy_damping_limits_the_speed<N>(
    given: Option<N>,
    damping_lowered: bool,
    trained_beyond_safe: bool,
    safe: N,
)
    ensures
        given is Some ==> limit_in_simulator(given, damping_lowered, trained_beyond_safe, safe)
            == given,
        given is None ==> (limit_in_simulator(given, damping_lowered, trained_beyond_safe, safe)
            == Some(safe) <==> !damping_lowered && trained_beyond_safe),
        given is None && (damping_lowered || !trained_beyond_safe) ==> limit_in_simulator(
            given,
            damping_lowered,
            trained_beyond_safe,
            safe,
        ) is None,
{
}

/// Only a walking reference gait is supported: every other policy, and every pose that
/// is only held, gets no torque on any joint.
pub proof fn law_only_a_walking_gait_is_supported<N, F: Fn() -> [N; 12]>(
    contract: Contract,
    hold: bool,
    zero: N,
    support: F,
    tau: [N; 12],
    i: int,
)
    requires
        feeds_forward(contract, hold, zero, support, tau),
        0 <= i < 12,
    ensures
        hold ==> tau@[i] == zero,
        contract is Pure || contract is Gru ==> tau@[i] == zero,
        contract == Contract::Natural && !hold ==> call_ensures(support, (), tau),
{
}

/// A network with two inputs is loaded as a recurrent policy or not at all, one with any
/// other number as a plain policy or not at all, and one whose inputs could not be
/// counted fails with that error.
pub proof fn law_two_inputs_are_recurrent<
    R,
    E,
    P,
    FR: Fn() -> Result<R, String>,
    FE: Fn(&String) -> Result<E, String>,
    FP: Fn(usize) -> Result<P, String>,
>(
    arity: Result<usize, String>,
    host_velocity: bool,
    estimator: Option<String>,
    recurrent: FR,
    history: FE,
    plain: FP,
    result: Result<Loaded<R, E, P>, String>,
)
    requires
        comes_out(arity, host_velocity, estimator, recurrent, history, plain, result),
    ensures
        arity is Err ==> result is Err && result->Err_0 == arity->Err_0,
        arity == Ok::<usize, String>(2) && result is Ok ==> result->Ok_0 is Gru,
        arity == Ok::<usize, String>(2) && (result matches Ok(Loaded::Gru(policy, _)))
            ==> call_ensures(recurrent, (), Ok::<R, String>(result->Ok_0->Gru_0)),
        arity is Ok && arity->Ok_0 != 2 ==> plain_comes_out(plain, result),
        result is Ok && result->Ok_0 is Gru ==> arity == Ok::<usize, String>(2),
{
    law_arity_decides_before_width(
        host_velocity,
        estimator,
        history,
        arbitrary(),
        plain,
        result,
    );
}

/// Each refusal says what does not fit and names the option that puts it right.
pub proof fn law_refusals_name_their_option(e39: Seq<char>, e73: Seq<char>, e76: Seq<char>)
    ensures
        calibration_refused()
            == "--odom-calibrated は脚オドメトリを入力に使う契約専用です（76 入力 Pure、または --gru-host-velocity の GRU）"@,
        sim_calibration_refused() == "--odom-calibrated は76入力Pureポリシー専用です"@,
        estimator_refused() == "--estimator は GRU 契約（2 入力グラフ）専用です"@,
        sources_clash() == "--gru-host-velocity と --estimator は同時に使えません"@,
        estimator_missing()
            == "GRU 契約（2 入力グラフ）には --estimator PATH が要ります（6×73 → 3 の凍結速度推定器。脚オドメトリで代用するなら --gru-host-velocity を明示してください）"@,
        width_unknown(e39, e73, e76)
            == "--model は 39/73/76 入力のいずれとしても読めません — "@ + ("39"@ + ": "@ + e39) + " / "@
            + ("73"@ + ": "@ + e73) + " / "@ + ("76"@ + ": "@ + e76),
{
}

} // verus!
