//! How the robot is offered to the model-based runner, and what the environment
//! says about it.

use vstd::prelude::*;
use crate::text::same_text;

verus! {

/// The robot, as a backend of the model-based runner.
pub struct Go2Backend;

/// The profile that this backend serves.
pub open spec fn is_go2(name: Seq<char>) -> bool {
    name == "go2"@
}

/// The error of a profile without gains.
pub open spec fn gains_missing() -> Seq<char> {
    "kind = \"ros2\" のプロファイルではありません"@
}

impl Go2Backend {
    /// The gains to connect with: those of the profile, where it is this robot's.
    pub fn connect<G>(&self, profile: &str, gains: Option<G>) -> (connect: Option<G>)
        ensures
            connect == (if is_go2(profile@) {
                gains
            } else {
                None
            }),
            profile@ == "go2"@ ==> connect == gains,
            profile@ != "go2"@ ==> connect is None,
    {
        if same_text(profile, "go2") {
            gains
        } else {
            None
        }
    }

    /// The gains to look at the robot with; another robot's profile is left to
    /// others, and a profile without gains is an error.
    pub fn diagnose<G>(&self, profile: &str, gains: Option<G>) -> (look: Option<Result<G, String>>)
        ensures
            look is Some <==> is_go2(profile@),
            look is Some <==> profile@ == "go2"@,
            look matches Some(Ok(g)) ==> gains == Some(g),
            look matches Some(Err(text)) ==> gains is None && text@
                == "kind = \"ros2\" のプロファイルではありません"@,
            is_go2(profile@) ==> match (gains, look->0) {
                (Some(g), Ok(r)) => r == g,
                (None, Err(text)) => text@ == gains_missing(),
                _ => false,
            },
    {
        if !same_text(profile, "go2") {
            return None;
        }
        match gains {
            Some(g) => Some(Ok(g)),
            None => Some(Err("kind = \"ros2\" のプロファイルではありません".to_owned())),
        }
    }
}

/// A look at the robot that only listens: how often something was heard.
pub struct Listener {
    pub count: u64,
}

/// Whether a look at the bus leads from one count to the next.
pub open spec fn hears(before: Listener, received: bool, after: Listener) -> bool {
    after.count == before.count + if received {
        1int
    } else {
        0int
    }
}

/// Whether to look at the bus again.
pub open spec fn listens_on(elapsed_ns: u64, wanted_ns: u64) -> bool {
    elapsed_ns < wanted_ns
}

impl Listener {
    /// Nothing heard yet.
    pub fn new() -> (listener: Self)
        ensures
            listener.count == 0,
    {
        Listener { count: 0 }
    }

    /// Counts a look at the bus that heard something, and says whether to look again:
    /// as long as the time that is wanted has not passed.
    pub fn heard(&mut self, received: bool, elapsed_ns: u64, wanted_ns: u64) -> (go_on: bool)
        requires
            old(self).count < u64::MAX,
        ensures
            final(self).count == old(self).count + if received {
                1int
            } else {
                0int
            },
            go_on == (elapsed_ns < wanted_ns),
            hears(*old(self), received, *final(self)),
            go_on == listens_on(elapsed_ns, wanted_ns),
    {
        if received {
            self.count = self.count + 1;
        }
        elapsed_ns < wanted_ns
    }
}

/// What a pilot asks for. All speeds that it does not mention are zero.
#[derive(Clone, Copy)]
pub struct Intent<T> {
    pub time: T,
    pub mode: ModeRequest,
    pub gait: GaitSelect,
    pub link_ok: bool,
}

/// What the robot is asked to do.
#[derive(Clone, Copy, PartialEq, Eq, Structural, Debug)]
pub enum ModeRequest {
    Stand,
}

/// The gait that is asked for.
#[derive(Clone, Copy, PartialEq, Eq, Structural, Debug)]
pub enum GaitSelect {
    Crawl,
}

/// A pilot that keeps the robot standing: the safe default while nobody steers.
pub struct HoldPilot;

impl HoldPilot {
    /// Stand, with the link up.
    pub fn poll<T>(&self, now: T) -> (intent: Intent<T>)
        ensures
            intent == (Intent {
                time: now,
                mode: ModeRequest::Stand,
                gait: GaitSelect::Crawl,
                link_ok: true,
            }),
    {
        Intent { time: now, mode: ModeRequest::Stand, gait: GaitSelect::Crawl, link_ok: true }
    }

    /// What the pilot says of itself.
    pub fn status_line(&self) -> (line: String)
        ensures
            line@ == "HoldPilot（速度 0 保持。操縦は --pilot keys）"@,
    {
        "HoldPilot（速度 0 保持。操縦は --pilot keys）".to_owned()
    }
}

/// The network interface that a word names.
pub open spec fn iface_named(value: Option<String>) -> Option<String> {
    match value {
        Some(name) => if name@.len() > 0 {
            Some(name)
        } else {
            None
        },
        None => None,
    }
}

/// Whether a word of the environment says yes.
pub open spec fn says_yes(word: Option<String>) -> bool {
    match word {
        Some(w) => w@ == "1"@,
        None => false,
    }
}

/// The network interface, from the environment's word for it: an empty word names
/// none.
pub fn iface_from_env(value: Option<String>) -> (iface: Option<String>)
    ensures
        iface == iface_named(value),
        iface == match value {
            Some(name) => if name@.len() > 0 {
                Some(name)
            } else {
                None
            },
            None => None,
        },
{
    match value {
        Some(name) => if name.as_str().is_empty() {
            None
        } else {
            Some(name)
        },
        None => None,
    }
}

/// Whether the robot's own walking mode is to be released, from the environment's
/// word against it: only "1" forbids it.
pub fn release_wanted(no_release: &Option<String>) -> (wanted: bool)
    ensures
        wanted == !says_yes(*no_release),
        wanted == match no_release {
            Some(word) => word@ != "1"@,
            None => true,
        },
{
    match no_release {
        Some(word) => !same_text(word.as_str(), "1"),
        None => true,
    }
}

/// Whether a simulated policy is to be told the true velocity, from the environment's
/// word for it: only "1" asks for it.
pub fn truth_velocity_wanted(word: &Option<String>) -> (yes: bool)
    ensures
        yes == says_yes(*word),
        yes == match word {
            Some(w) => w@ == "1"@,
            None => false,
        },
{
    match word {
        Some(w) => same_text(w.as_str(), "1"),
        None => false,
    }
}

/// An interface is named exactly by a word that is not empty, and it is that word.
pub proof fn law_an_empty_word_names_no_interface(value: Option<String>)
    ensures
        iface_named(value) is Some <==> value is Some && value->0@ != Seq::<char>::empty(),
        iface_named(value) is Some ==> iface_named(value) == value,
{
    if let Some(name) = value {
        if name@.len() == 0 {
            assert(name@ =~= Seq::<char>::empty());
        }
    }
}

/// Only the word "1" says yes: not saying anything does not, nor does any longer or
/// shorter word, nor any other sign.
pub proof fn law_only_one_says_yes(word: Option<String>)
    ensures
        says_yes(word) <==> word is Some && word->0@.len() == 1 && word->0@[0] == '1',
{
    reveal_strlit("1");
    if let Some(w) = word {
        if w@.len() == 1 && w@[0] == '1' {
            assert(w@ =~= "1"@);
        }
    }
}

/// A look that heard something counts once, another not at all, and the looking ends when
/// the time that was wanted has passed, not before.
pub proof fn law_looks_that_hear_are_counted(
    before: Listener,
    received: bool,
    after: Listener,
    elapsed_ns: u64,
    wanted_ns: u64,
)
    requires
        hears(before, received, after),
    ensures
        received ==> after.count - before.count == 1,
        !received ==> after.count == before.count,
        listens_on(elapsed_ns, wanted_ns) <==> !(elapsed_ns >= wanted_ns),
{
}

} // verus!
