//! The thrusters and servos of the robot: which output of the PWM controller
//! drives each, which way each thruster spins, and how a tick of the motor
//! system turns the selected speeds into one pulse width per output.

use vstd::prelude::*;
use crate::key::str_eq;
use crate::tokens;

verus! {

/// A thruster or servo of the robot.
#[derive(Debug, Clone, Copy, PartialEq, Eq, Hash, Structural)]
pub enum MotorId {
    FrontLeftBottom,
    FrontLeftTop,
    FrontRightBottom,
    FrontRightTop,
    BackLeftBottom,
    BackLeftTop,
    BackRightBottom,
    BackRightTop,

    Camera1,
    Camera2,
    Camera3,
    Camera4,

    Aux1,
    Aux2,
    Aux3,
    Aux4,
}

/// Whether the motors may run.
#[derive(Debug, Clone, Copy, Default, PartialEq, Eq, Structural)]
pub enum Armed {
    Armed,
    #[default]
    Disarmed,
}

/// How many outputs the PWM controller has.
pub const PWM_CHANNELS: usize = 16;

/// The pulse width, in microseconds, that holds a motor still.
pub const STOP_PULSE_US: u64 = 1500;

/// How old, in milliseconds, a speed or arming update may be before the motor
/// system stops trusting it.
pub const MAX_UPDATE_AGE_MS: u64 = 250;

/// The controller output that drives each motor.
pub open spec fn channel_of(id: MotorId) -> int {
    match id {
        MotorId::FrontLeftBottom => 0,
        MotorId::FrontLeftTop => 4,
        MotorId::FrontRightBottom => 5,
        MotorId::FrontRightTop => 3,
        MotorId::BackLeftBottom => 7,
        MotorId::BackLeftTop => 6,
        MotorId::BackRightBottom => 1,
        MotorId::BackRightTop => 2,
        MotorId::Camera1 => 15,
        MotorId::Camera2 => 14,
        MotorId::Camera3 => 13,
        MotorId::Camera4 => 12,
        MotorId::Aux1 => 11,
        MotorId::Aux2 => 10,
        MotorId::Aux3 => 9,
        MotorId::Aux4 => 8,
    }
}

/// The motor on each controller output.
pub open spec fn motor_on(channel: int) -> MotorId {
    if channel == 0 { MotorId::FrontLeftBottom }
    else if channel == 1 { MotorId::BackRightBottom }
    else if channel == 2 { MotorId::BackRightTop }
    else if channel == 3 { MotorId::FrontRightTop }
    else if channel == 4 { MotorId::FrontLeftTop }
    else if channel == 5 { MotorId::FrontRightBottom }
    else if channel == 6 { MotorId::BackLeftTop }
    else if channel == 7 { MotorId::BackLeftBottom }
    else if channel == 8 { MotorId::Aux4 }
    else if channel == 9 { MotorId::Aux3 }
    else if channel == 10 { MotorId::Aux2 }
    else if channel == 11 { MotorId::Aux1 }
    else if channel == 12 { MotorId::Camera4 }
    else if channel == 13 { MotorId::Camera3 }
    else if channel == 14 { MotorId::Camera2 }
    else { MotorId::Camera1 }
}

/// Whether a motor is a thruster (as opposed to a servo).
pub open spec fn is_thruster_spec(id: MotorId) -> bool {
    match id {
        MotorId::FrontLeftBottom | MotorId::FrontLeftTop | MotorId::FrontRightBottom
        | MotorId::FrontRightTop | MotorId::BackLeftBottom | MotorId::BackLeftTop
        | MotorId::BackRightBottom | MotorId::BackRightTop => true,
        _ => false,
    }
}

/// Whether a thruster is mounted so that a positive speed spins it
/// counter-clockwise, which reverses its direction.
pub open spec fn is_reversed_spec(id: MotorId) -> bool {
    match id {
        MotorId::FrontLeftBottom | MotorId::FrontRightTop | MotorId::BackLeftTop
        | MotorId::BackRightBottom => true,
        _ => false,
    }
}

/// Which side of the robot a thruster sits on, from its name: 1 right, -1
/// left; 0 for a servo.
pub open spec fn side_of(id: MotorId) -> int {
    match id {
        MotorId::FrontRightBottom | MotorId::FrontRightTop | MotorId::BackRightBottom | MotorId::BackRightTop => 1,
        MotorId::FrontLeftBottom | MotorId::FrontLeftTop | MotorId::BackLeftBottom | MotorId::BackLeftTop => -1,
        _ => 0,
    }
}

/// Which end of the robot a thruster sits at, from its name: 1 front, -1
/// back; 0 for a servo.
pub open spec fn fore_of(id: MotorId) -> int {
    match id {
        MotorId::FrontLeftBottom | MotorId::FrontLeftTop | MotorId::FrontRightBottom | MotorId::FrontRightTop => 1,
        MotorId::BackLeftBottom | MotorId::BackLeftTop | MotorId::BackRightBottom | MotorId::BackRightTop => -1,
        _ => 0,
    }
}

/// Which layer of the robot a thruster sits in, from its name: 1 top, -1
/// bottom; 0 for a servo.
pub open spec fn height_of(id: MotorId) -> int {
    match id {
        MotorId::FrontLeftTop | MotorId::FrontRightTop | MotorId::BackLeftTop | MotorId::BackRightTop => 1,
        MotorId::FrontLeftBottom | MotorId::FrontRightBottom | MotorId::BackLeftBottom | MotorId::BackRightBottom => -1,
        _ => 0,
    }
}

/// The motors in the order of the controller's outputs, as the harness
/// wires them: output `k` drives the `k`-th of these.
pub open spec fn harness() -> Seq<MotorId> {
    seq![
        MotorId::FrontLeftBottom, MotorId::BackRightBottom, MotorId::BackRightTop, MotorId::FrontRightTop,
        MotorId::FrontLeftTop, MotorId::FrontRightBottom, MotorId::BackLeftTop, MotorId::BackLeftBottom,
        MotorId::Aux4, MotorId::Aux3, MotorId::Aux2, MotorId::Aux1,
        MotorId::Camera4, MotorId::Camera3, MotorId::Camera2, MotorId::Camera1,
    ]
}

/// Wiring law: each motor is routed to the output that the harness wires it
/// to, and each output drives the motor the harness puts there. The thrusters
/// take outputs 0 to 7, the auxiliary servos 8 to 11 (Aux`k` on 12 - `k`), the
/// camera servos 12 to 15 (Camera`k` on 16 - `k`).
pub proof fn lemma_channels_follow_harness(id: MotorId, channel: int)
    ensures
        harness().len() == PWM_CHANNELS,
        harness()[channel_of(id)] == id,
        0 <= channel < PWM_CHANNELS ==> motor_on(channel) == harness()[channel],
        is_thruster_spec(id) <==> channel_of(id) < 8,
        id == MotorId::Aux1 ==> channel_of(id) == 12 - 1,
        id == MotorId::Aux2 ==> channel_of(id) == 12 - 2,
        id == MotorId::Aux3 ==> channel_of(id) == 12 - 3,
        id == MotorId::Aux4 ==> channel_of(id) == 12 - 4,
        id == MotorId::Camera1 ==> channel_of(id) == 16 - 1,
        id == MotorId::Camera2 ==> channel_of(id) == 16 - 2,
        id == MotorId::Camera3 ==> channel_of(id) == 16 - 3,
        id == MotorId::Camera4 ==> channel_of(id) == 16 - 4,
{
}

/// Spin law: the thrusters that a positive speed spins counter-clockwise are
/// those at the corners where side, end and layer multiply to 1 (right is 1,
/// front is 1, top is 1), so two thrusters that sit next to each other, apart
/// in just one of the three, always spin opposite ways and their torques
/// cancel. Servos never count as reversed.
pub proof fn lemma_reversed_alternates(a: MotorId, b: MotorId)
    ensures
        is_reversed_spec(a) <==> (is_thruster_spec(a) && side_of(a) * fore_of(a) * height_of(a) == 1),
        is_thruster_spec(a) && is_thruster_spec(b)
            && (side_of(a) != side_of(b)) as int + (fore_of(a) != fore_of(b)) as int
                + (height_of(a) != height_of(b)) as int == 1
            ==> is_reversed_spec(a) != is_reversed_spec(b),
{
    match a {
        MotorId::FrontLeftBottom => {},
        MotorId::FrontLeftTop => {},
        MotorId::FrontRightBottom => {},
        MotorId::FrontRightTop => {},
        MotorId::BackLeftBottom => {},
        MotorId::BackLeftTop => {},
        MotorId::BackRightBottom => {},
        MotorId::BackRightTop => {},
        _ => {},
    }
}

/// Motor law: every motor has its own controller output, and every output
/// drives exactly one motor.
pub proof fn lemma_channels_are_a_bijection(id: MotorId, channel: int)
    ensures
        0 <= channel_of(id) < PWM_CHANNELS,
        motor_on(channel_of(id)) == id,
        0 <= channel < PWM_CHANNELS ==> channel_of(motor_on(channel)) == channel,
{
}

impl MotorId {
    /// The controller output that drives this motor.
    pub fn channel(self) -> (r: u8)
        ensures
            r == channel_of(self),
    {
        match self {
            MotorId::FrontLeftBottom => 0,
            MotorId::FrontLeftTop => 4,
            MotorId::FrontRightBottom => 5,
            MotorId::FrontRightTop => 3,
            MotorId::BackLeftBottom => 7,
            MotorId::BackLeftTop => 6,
            MotorId::BackRightBottom => 1,
            MotorId::BackRightTop => 2,
            MotorId::Camera1 => 15,
            MotorId::Camera2 => 14,
            MotorId::Camera3 => 13,
            MotorId::Camera4 => 12,
            MotorId::Aux1 => 11,
            MotorId::Aux2 => 10,
            MotorId::Aux3 => 9,
            MotorId::Aux4 => 8,
        }
    }

    /// Whether this motor is a thruster.
    pub fn is_thruster(self) -> (r: bool)
        ensures
            r == is_thruster_spec(self),
    {
        match self {
            MotorId::FrontLeftBottom | MotorId::FrontLeftTop | MotorId::FrontRightBottom
            | MotorId::FrontRightTop | MotorId::BackLeftBottom | MotorId::BackLeftTop
            | MotorId::BackRightBottom | MotorId::BackRightTop => true,
            _ => false,
        }
    }

    /// Whether a positive speed spins this thruster counter-clockwise.
    pub fn is_reversed(self) -> (r: bool)
        ensures
            r == is_reversed_spec(self),
    {
        match self {
            MotorId::FrontLeftBottom | MotorId::FrontRightTop | MotorId::BackLeftTop
            | MotorId::BackRightBottom => true,
            _ => false,
        }
    }
}

/// A direction of motion the robot can be commanded in.
#[derive(Debug, Clone, Copy, PartialEq, Eq, Structural)]
pub enum Axis {
    /// Right.
    X,
    /// Forwards.
    Y,
    /// Up.
    Z,
    /// Pitch up.
    XRot,
    /// Roll clockwise.
    YRot,
    /// Yaw clockwise, seen from above.
    ZRot,
}

/// How a command on `axis` enters the speed of thruster `id`: added (1),
/// subtracted (-1), or not at all (0, for servos).
pub open spec fn mix_sign_spec(id: MotorId, axis: Axis) -> int {
    let row: (int, int, int, int, int, int) = match id {
        MotorId::FrontLeftBottom => (-1, -1, 1, 1, 1, -1),
        MotorId::FrontLeftTop => (-1, -1, -1, -1, -1, -1),
        MotorId::FrontRightBottom => (1, -1, 1, 1, -1, 1),
        MotorId::FrontRightTop => (1, -1, -1, -1, 1, 1),
        MotorId::BackLeftBottom => (-1, 1, 1, -1, 1, 1),
        MotorId::BackLeftTop => (-1, 1, -1, 1, -1, 1),
        MotorId::BackRightBottom => (1, 1, 1, -1, -1, -1),
        MotorId::BackRightTop => (1, 1, -1, 1, 1, -1),
        _ => (0, 0, 0, 0, 0, 0),
    };
    match axis {
        Axis::X => row.0,
        Axis::Y => row.1,
        Axis::Z => row.2,
        Axis::XRot => row.3,
        Axis::YRot => row.4,
        Axis::ZRot => row.5,
    }
}

/// The sum over the thrusters of the products of their signs for two axes.
pub open spec fn axis_dot(a: Axis, b: Axis) -> int {
    mix_sign_spec(MotorId::FrontLeftBottom, a) * mix_sign_spec(MotorId::FrontLeftBottom, b)
        + mix_sign_spec(MotorId::FrontLeftTop, a) * mix_sign_spec(MotorId::FrontLeftTop, b)
        + mix_sign_spec(MotorId::FrontRightBottom, a) * mix_sign_spec(MotorId::FrontRightBottom, b)
        + mix_sign_spec(MotorId::FrontRightTop, a) * mix_sign_spec(MotorId::FrontRightTop, b)
        + mix_sign_spec(MotorId::BackLeftBottom, a) * mix_sign_spec(MotorId::BackLeftBottom, b)
        + mix_sign_spec(MotorId::BackLeftTop, a) * mix_sign_spec(MotorId::BackLeftTop, b)
        + mix_sign_spec(MotorId::BackRightBottom, a) * mix_sign_spec(MotorId::BackRightBottom, b)
        + mix_sign_spec(MotorId::BackRightTop, a) * mix_sign_spec(MotorId::BackRightTop, b)
}

/// Mixing law: the thruster sign patterns of the six axes are mutually
/// orthogonal, each with all eight thrusters taking part, so a command on one
/// axis is not mistaken for one on another.
#[verifier::spinoff_prover]
pub proof fn lemma_mix_axes_orthogonal(a: Axis, b: Axis)
    ensures
        axis_dot(a, b) == if a == b { 8int } else { 0int },
{
    match a {
        Axis::X => {},
        Axis::Y => {},
        Axis::Z => {},
        Axis::XRot => {},
        Axis::YRot => {},
        Axis::ZRot => {},
    }
}

/// Mixing law: how a command enters a thruster follows where the thruster
/// sits. A move right enters by the thruster's side (1 right, -1 left), a move
/// forwards against its end (1 front, -1 back), a move up against its layer
/// (1 top, -1 bottom). A turn about an axis enters by the product of the two
/// position coordinates across that axis: pitch by minus end times layer,
/// roll by side times layer, yaw by side times end. Servos take no part.
pub proof fn lemma_mix_follows_position(id: MotorId, axis: Axis)
    ensures
        mix_sign_spec(id, axis) == match axis {
            Axis::X => side_of(id),
            Axis::Y => -fore_of(id),
            Axis::Z => -height_of(id),
            Axis::XRot => -(fore_of(id) * height_of(id)),
            Axis::YRot => side_of(id) * height_of(id),
            Axis::ZRot => side_of(id) * fore_of(id),
        },
{
}

impl MotorId {
    /// How a command on `axis` enters the speed of this thruster.
    pub fn mix_sign(self, axis: Axis) -> (r: i8)
        ensures
            r == mix_sign_spec(self, axis),
    {
        let row: (i8, i8, i8, i8, i8, i8) = match self {
            MotorId::FrontLeftBottom => (-1, -1, 1, 1, 1, -1),
            MotorId::FrontLeftTop => (-1, -1, -1, -1, -1, -1),
            MotorId::FrontRightBottom => (1, -1, 1, 1, -1, 1),
            MotorId::FrontRightTop => (1, -1, -1, -1, 1, 1),
            MotorId::BackLeftBottom => (-1, 1, 1, -1, 1, 1),
            MotorId::BackLeftTop => (-1, 1, -1, 1, -1, 1),
            MotorId::BackRightBottom => (1, 1, 1, -1, -1, -1),
            MotorId::BackRightTop => (1, 1, -1, 1, 1, -1),
            _ => (0, 0, 0, 0, 0, 0),
        };
        match axis {
            Axis::X => row.0,
            Axis::Y => row.1,
            Axis::Z => row.2,
            Axis::XRot => row.3,
            Axis::YRot => row.4,
            Axis::ZRot => row.5,
        }
    }
}

/// The pulse width that output `channel` gets from the pulses `frames`, in
/// order: the last pulse for a motor on that output, else the stop pulse.
pub open spec fn pulse_at(frames: Seq<(MotorId, u64)>, channel: int) -> u64
    decreases frames.len(),
{
    if frames.len() == 0 {
        STOP_PULSE_US
    } else if channel_of(frames.last().0) == channel {
        frames.last().1
    } else {
        pulse_at(frames.drop_last(), channel)
    }
}

/// One pulse width per controller output, from pulse widths per motor: each
/// output gets the last pulse given for its motor, the others the stop pulse.
pub fn pulses_by_channel(frames: &Vec<(MotorId, u64)>) -> (pulses: Vec<u64>)
    ensures
        pulses.len() == PWM_CHANNELS,
        forall|c: int| 0 <= c < PWM_CHANNELS ==> #[trigger] pulses[c] == pulse_at(frames@, c),
{
    let mut pulses: Vec<u64> = Vec::new();
    let mut c: usize = 0;
    while c < PWM_CHANNELS
        invariant
            c <= PWM_CHANNELS,
            pulses.len() == c,
            forall|k: int| 0 <= k < c ==> #[trigger] pulses[k] == STOP_PULSE_US,
        decreases PWM_CHANNELS - c,
    {
        pulses.push(STOP_PULSE_US);
        c = c + 1;
    }
    let n = frames.len();
    let mut i: usize = 0;
    while i < n
        invariant
            i <= n,
            n == frames.len(),
            pulses.len() == PWM_CHANNELS,
            forall|k: int| 0 <= k < PWM_CHANNELS ==> #[trigger] pulses[k] == pulse_at(frames@.subrange(0, i as int), k),
        decreases n - i,
    {
        let (id, pulse) = frames[i];
        let ch = id.channel();
        proof {
            lemma_channels_are_a_bijection(id, 0);
        }
        pulses.set(ch as usize, pulse);
        assert forall|k: int| 0 <= k < PWM_CHANNELS implies #[trigger] pulses[k] == pulse_at(frames@.subrange(0, i + 1), k) by {
            assert(frames@.subrange(0, i + 1).drop_last() =~= frames@.subrange(0, i as int));
            assert(frames@.subrange(0, i + 1).last() == (id, pulse));
        }
        i = i + 1;
    }
    assert(frames@.subrange(0, n as int) =~= frames@);
    pulses
}

/// Where the speeds of a motor tick come from.
#[derive(Debug, Clone, Copy, PartialEq, Eq, Structural)]
pub enum SpeedSource {
    /// Every motor holds still.
    Stopped,
    /// The per-motor override speeds are used as they are.
    Override,
    /// The movement requests are summed and mixed into motor speeds.
    Mixed,
}

/// The speed source of a motor tick, from the arming state when it is fresh
/// (`None` when it is missing or too old) and whether override speeds are
/// present: the motors run only while armed, and an override wins over the
/// movement requests.
pub fn speed_source(armed: Option<Armed>, has_override: bool) -> (r: SpeedSource)
    ensures
        r == (match armed {
            Some(Armed::Armed) => if has_override { SpeedSource::Override } else { SpeedSource::Mixed },
            _ => SpeedSource::Stopped,
        }),
{
    match armed {
        Some(Armed::Armed) => {
            if has_override {
                SpeedSource::Override
            } else {
                SpeedSource::Mixed
            }
        },
        _ => SpeedSource::Stopped,
    }
}

/// Whether a store update for `key` concerns the motor system: the arming
/// state and the movement requests.
pub fn motor_listens_to(key: &str) -> (r: bool)
    ensures
        r == (key@ == tokens::ARMED@ || key@ == tokens::MOVEMENT_JOYSTICK@
            || key@ == tokens::MOVEMENT_OPENCV@ || key@ == tokens::MOVEMENT_DEPTH@
            || key@ == tokens::MOVEMENT_LEVELING@),
{
    str_eq(key, tokens::ARMED) || str_eq(key, tokens::MOVEMENT_JOYSTICK)
        || str_eq(key, tokens::MOVEMENT_OPENCV) || str_eq(key, tokens::MOVEMENT_DEPTH)
        || str_eq(key, tokens::MOVEMENT_LEVELING)
}

} // verus!
