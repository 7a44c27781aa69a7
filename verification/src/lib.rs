//! Verified decision layer of a Unitree Go2 runner.
//!
//! What the runner decides stands here, each decision with its contract: which
//! number goes to which motor ([`joints`], [`motors`], [`plant`]), how a policy run
//! proceeds and ends on the robot ([`run`]) and in the simulator ([`sim`]), what
//! the command line and the keyboard ask for ([`options`], [`teleop`]), which kind
//! of policy a network is ([`contract`]), which legs tell the body's velocity
//! ([`odometry`]), how the robot is offered to the model-based runner
//! ([`backend`]), and how the simulator's model file and the viewer's port are
//! prepared ([`model_file`], [`viz`]).
//!
//! Measured and commanded numbers are opaque here. Arithmetic on them is handed in
//! as functions, and the contracts say on which numbers they are called and where
//! their results go.

pub mod backend;
pub mod contract;
pub mod joints;
pub mod model_file;
pub mod motors;
pub mod odometry;
pub mod options;
pub mod plant;
pub mod run;
pub mod sim;
pub mod teleop;
pub mod text;
pub mod viz;
