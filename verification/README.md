# go2-runner

Runs a Unitree Go2, model-based or by a learned policy, on the robot and in MuJoCo.

`src/` is the decision layer, written in Verus: what the runner decides without
floating point or I/O is executable code with contracts there, and the laws that span
several functions are proof functions (`law_*`). Measured and commanded numbers are
opaque there; the arithmetic on them is handed in.

| module | what it decides |
|---|---|
| `joints` | the three joint orders and the tables between them |
| `motors` | which number each motor is sent, for each control mode and for a policy |
| `plant` | what was last heard from the robot, and what the layers above see of it |
| `run` | the course of a policy run on the robot, from the first ramp to going limp |
| `sim` | the course of a policy run in the simulator |
| `options` | the command line of `policy` |
| `contract` | which kind of policy a network is, which options fit it, and whether it gets torques |
| `teleop` | what a key does to the commanded speeds, their limits and their rate |
| `odometry` | which legs tell the body's velocity, when the estimate moves, and what a policy is told of it |
| `backend` | how the robot is offered to misa-runner |
| `model_file` | the simulator's model file with another damping and friction |
| `viz` | the viewer's port |
| `text` | characters, lines and decimal numbers |

`app/` is the program around it: the bus, the networks, MuJoCo and its constants, the
keyboard thread, the floating-point arithmetic and the comparisons of measured numbers
with their limits. `tests/` runs the library on concrete values.

On the safe side, a policy run keeps the command in force after an anomalous
observation or a failed inference, breaks off after ten of them in a row, and goes
limp at once beyond 35° of tilt. A robot state that stays stale counts towards the ten
whatever the policy answers to it. Every end but the tilt goes through the lying pose.
