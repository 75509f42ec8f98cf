//! The state of the robot as the surface sees it: the arming state and the
//! latest value of each measurement and command, each with the time it last
//! changed. A state changes only through updates, and a state's updates
//! rebuild it from a blank state.

use vstd::prelude::*;
use vstd::std_specs::cmp::PartialEqSpec;
use vstd::laws_eq::obeys_concrete_eq;
use std::time::Instant;
use crate::motor::{Armed, MotorId};
use crate::store::instant_now;

verus! {

/// The types of the values a robot state holds.
pub trait StateValues {
    type Orientation: PartialEq + Copy;
    type Movement: PartialEq + Copy;
    type Depth: PartialEq + Copy;
    type Inertial: PartialEq + Copy;
    type Mag: PartialEq + Copy;
    type Motor: PartialEq + Copy + Default;
    type Meters: PartialEq + Copy;
}

/// A change of one part of the state.
pub enum RobotStateUpdate<P: StateValues> {
    Armed(Armed),
    Orientation(P::Orientation),
    Movement(P::Movement),
    Depth(P::Depth),
    Inertial(P::Inertial),
    Magnetometer(P::Mag),
    Motor(MotorId, P::Motor),
    DepthTarget(P::Meters),
}

/// The values of a state, without the times of change.
pub struct StateView<P: StateValues> {
    pub armed: Armed,
    pub orientation: Option<P::Orientation>,
    pub movement: Option<P::Movement>,
    pub depth: Option<P::Depth>,
    pub inertial: Option<P::Inertial>,
    pub mag: Option<P::Mag>,
    pub motors: Seq<(MotorId, P::Motor)>,
    pub depth_target: Option<P::Meters>,
}

/// A state with nothing known: disarmed, no values, no motors.
pub open spec fn blank<P: StateValues>() -> StateView<P> {
    StateView {
        armed: Armed::Disarmed,
        orientation: None,
        movement: None,
        depth: None,
        inertial: None,
        mag: None,
        motors: Seq::empty(),
        depth_target: None,
    }
}

/// The position of motor `id` in `motors`, or their number when absent.
pub open spec fn motor_index<F>(motors: Seq<(MotorId, F)>, id: MotorId) -> int
    decreases motors.len(),
{
    if motors.len() == 0 {
        0
    } else if motors.last().0 == id {
        motors.len() - 1
    } else {
        let k = motor_index(motors.drop_last(), id);
        if k == motors.len() - 1 { motors.len() as int } else { k }
    }
}

/// `motors` with motor `id` set to `f`: replaced in place, or added last.
pub open spec fn set_motor<F>(motors: Seq<(MotorId, F)>, id: MotorId, f: F) -> Seq<(MotorId, F)> {
    let k = motor_index(motors, id);
    if 0 <= k < motors.len() { motors.update(k, (id, f)) } else { motors.push((id, f)) }
}

/// The value of motor `id` in `motors`, if it has one.
pub open spec fn motor_value<F>(motors: Seq<(MotorId, F)>, id: MotorId) -> Option<F> {
    let k = motor_index(motors, id);
    if 0 <= k < motors.len() { Some(motors[k].1) } else { None }
}

/// Whether `new` differs from the `previous` value, by the value type's
/// equality: a value that was not there yet always differs.
pub open spec fn differs<T: PartialEq>(previous: Option<T>, new: T) -> bool {
    match previous {
        None => true,
        Some(p) => !p.eq_spec(&new),
    }
}

/// Whether update `u` changes what values `v` hold: the arming state or the
/// value it sets differs from the one there.
pub open spec fn update_changes<P: StateValues>(v: StateView<P>, u: RobotStateUpdate<P>) -> bool {
    match u {
        RobotStateUpdate::Armed(a) => v.armed != a,
        RobotStateUpdate::Orientation(x) => differs(v.orientation, x),
        RobotStateUpdate::Movement(x) => differs(v.movement, x),
        RobotStateUpdate::Depth(x) => differs(v.depth, x),
        RobotStateUpdate::Inertial(x) => differs(v.inertial, x),
        RobotStateUpdate::Magnetometer(x) => differs(v.mag, x),
        RobotStateUpdate::Motor(id, f) => differs(motor_value(v.motors, id), f),
        RobotStateUpdate::DepthTarget(x) => differs(v.depth_target, x),
    }
}

/// Whether the value type that update `u` sets states its equality.
pub open spec fn states_equality<P: StateValues>(u: RobotStateUpdate<P>) -> bool {
    match u {
        RobotStateUpdate::Armed(_) => true,
        RobotStateUpdate::Orientation(_) => P::Orientation::obeys_eq_spec(),
        RobotStateUpdate::Movement(_) => P::Movement::obeys_eq_spec(),
        RobotStateUpdate::Depth(_) => P::Depth::obeys_eq_spec(),
        RobotStateUpdate::Inertial(_) => P::Inertial::obeys_eq_spec(),
        RobotStateUpdate::Magnetometer(_) => P::Mag::obeys_eq_spec(),
        RobotStateUpdate::Motor(_, _) => P::Motor::obeys_eq_spec(),
        RobotStateUpdate::DepthTarget(_) => P::Meters::obeys_eq_spec(),
    }
}

/// The values after an update that takes effect.
pub open spec fn apply_update<P: StateValues>(v: StateView<P>, u: RobotStateUpdate<P>) -> StateView<P> {
    match u {
        RobotStateUpdate::Armed(a) => StateView { armed: a, ..v },
        RobotStateUpdate::Orientation(x) => StateView { orientation: Some(x), ..v },
        RobotStateUpdate::Movement(x) => StateView { movement: Some(x), ..v },
        RobotStateUpdate::Depth(x) => StateView { depth: Some(x), ..v },
        RobotStateUpdate::Inertial(x) => StateView { inertial: Some(x), ..v },
        RobotStateUpdate::Magnetometer(x) => StateView { mag: Some(x), ..v },
        RobotStateUpdate::Motor(id, f) => StateView { motors: set_motor(v.motors, id, f), ..v },
        RobotStateUpdate::DepthTarget(x) => StateView { depth_target: Some(x), ..v },
    }
}

/// Whether an update surely takes effect: the arming state and the motors
/// always take the new value; a measurement or command does when there was
/// none yet.
pub open spec fn takes_effect<P: StateValues>(v: StateView<P>, u: RobotStateUpdate<P>) -> bool {
    match u {
        RobotStateUpdate::Armed(_) => true,
        RobotStateUpdate::Orientation(_) => v.orientation is None,
        RobotStateUpdate::Movement(_) => v.movement is None,
        RobotStateUpdate::Depth(_) => v.depth is None,
        RobotStateUpdate::Inertial(_) => v.inertial is None,
        RobotStateUpdate::Magnetometer(_) => v.mag is None,
        RobotStateUpdate::Motor(_, _) => true,
        RobotStateUpdate::DepthTarget(_) => v.depth_target is None,
    }
}

/// The values after updates that all take effect, in order.
pub open spec fn replay<P: StateValues>(v: StateView<P>, us: Seq<RobotStateUpdate<P>>) -> StateView<P>
    decreases us.len(),
{
    if us.len() == 0 {
        v
    } else {
        apply_update(replay(v, us.drop_last()), us.last())
    }
}

/// Whether each of `us`, applied in order from `v`, surely takes effect.
pub open spec fn all_take_effect<P: StateValues>(v: StateView<P>, us: Seq<RobotStateUpdate<P>>) -> bool
    decreases us.len(),
{
    if us.len() == 0 {
        true
    } else {
        all_take_effect(v, us.drop_last()) && takes_effect(replay(v, us.drop_last()), us.last())
    }
}

/// One update for a present value, none for an absent one.
pub open spec fn optional<T, P: StateValues>(x: Option<T>, make: spec_fn(T) -> RobotStateUpdate<P>) -> Seq<RobotStateUpdate<P>> {
    match x {
        Some(t) => seq![make(t)],
        None => Seq::empty(),
    }
}

/// The updates of the motors, in order.
pub open spec fn motor_updates<P: StateValues>(motors: Seq<(MotorId, P::Motor)>) -> Seq<RobotStateUpdate<P>> {
    motors.map_values(|m: (MotorId, P::Motor)| RobotStateUpdate::<P>::Motor(m.0, m.1))
}

/// The updates that rebuild `v` from a blank state, in the order the state
/// lists them.
pub open spec fn updates_of<P: StateValues>(v: StateView<P>) -> Seq<RobotStateUpdate<P>> {
    seq![RobotStateUpdate::<P>::Armed(v.armed)]
        + optional(v.orientation, |x: P::Orientation| RobotStateUpdate::<P>::Orientation(x))
        + optional(v.movement, |x: P::Movement| RobotStateUpdate::<P>::Movement(x))
        + optional(v.depth, |x: P::Depth| RobotStateUpdate::<P>::Depth(x))
        + optional(v.inertial, |x: P::Inertial| RobotStateUpdate::<P>::Inertial(x))
        + optional(v.mag, |x: P::Mag| RobotStateUpdate::<P>::Magnetometer(x))
        + motor_updates::<P>(v.motors)
        + optional(v.depth_target, |x: P::Meters| RobotStateUpdate::<P>::DepthTarget(x))
}

/// Whether motor `id` appears in `motors`.
pub open spec fn has_motor<F>(motors: Seq<(MotorId, F)>, id: MotorId) -> bool {
    exists|k: int| 0 <= k < motors.len() && #[trigger] motors[k].0 == id
}

/// Whether no motor appears twice.
pub open spec fn distinct_motors<F>(motors: Seq<(MotorId, F)>) -> bool {
    forall|i: int, j: int| 0 <= i < j < motors.len() ==> motors[i].0 != motors[j].0
}

proof fn lemma_replay_append<P: StateValues>(v: StateView<P>, a: Seq<RobotStateUpdate<P>>, b: Seq<RobotStateUpdate<P>>)
    ensures
        replay(v, a + b) == replay(replay(v, a), b),
        all_take_effect(v, a + b) == (all_take_effect(v, a) && all_take_effect(replay(v, a), b)),
    decreases b.len(),
{
    if b.len() == 0 {
        assert(a + b =~= a);
    } else {
        assert((a + b).drop_last() =~= a + b.drop_last());
        assert((a + b).last() == b.last());
        lemma_replay_append(v, a, b.drop_last());
    }
}

proof fn lemma_motor_index_absent<F>(motors: Seq<(MotorId, F)>, id: MotorId)
    requires
        forall|i: int| 0 <= i < motors.len() ==> motors[i].0 != id,
    ensures
        motor_index(motors, id) == motors.len(),
    decreases motors.len(),
{
    if motors.len() > 0 {
        lemma_motor_index_absent(motors.drop_last(), id);
    }
}

proof fn lemma_motor_index_found<F>(motors: Seq<(MotorId, F)>, k: int)
    requires
        distinct_motors(motors),
        0 <= k < motors.len(),
    ensures
        motor_index(motors, motors[k].0) == k,
    decreases motors.len(),
{
    if k < motors.len() - 1 {
        let front = motors.drop_last();
        assert(motors[k].0 != motors.last().0);
        assert(front[k] == motors[k]);
        lemma_motor_index_found(front, k);
    }
}

proof fn lemma_motor_index_range<F>(motors: Seq<(MotorId, F)>, id: MotorId)
    ensures
        0 <= motor_index(motors, id) <= motors.len(),
        motor_index(motors, id) < motors.len() ==> motors[motor_index(motors, id)].0 == id,
        motor_index(motors, id) == motors.len() ==> forall|i: int| 0 <= i < motors.len() ==> motors[i].0 != id,
    decreases motors.len(),
{
    if motors.len() > 0 {
        let front = motors.drop_last();
        lemma_motor_index_range(front, id);
        if motor_index(motors, id) == motors.len() {
            assert forall|i: int| 0 <= i < motors.len() implies motors[i].0 != id by {
                if i < motors.len() - 1 {
                    assert(front[i] == motors[i]);
                }
            }
        } else if motors.last().0 != id {
            assert(front[motor_index(front, id)] == motors[motor_index(front, id)]);
        }
    }
}

/// Replaying the updates of distinct motors onto no motors gives the motors.
proof fn lemma_replay_motors<P: StateValues>(v: StateView<P>, motors: Seq<(MotorId, P::Motor)>)
    requires
        v.motors == Seq::<(MotorId, P::Motor)>::empty(),
        distinct_motors(motors),
    ensures
        replay(v, motor_updates::<P>(motors)) == (StateView::<P> { motors, ..v }),
        all_take_effect(v, motor_updates::<P>(motors)),
    decreases motors.len(),
{
    let us = motor_updates::<P>(motors);
    if motors.len() == 0 {
        assert(motors =~= Seq::<(MotorId, P::Motor)>::empty());
        assert(us.len() == 0);
    } else {
        let front = motors.drop_last();
        assert(distinct_motors(front));
        assert(us.drop_last() =~= motor_updates::<P>(front));
        lemma_replay_motors(v, front);
        let m = motors.last();
        assert(us.last() == RobotStateUpdate::<P>::Motor(m.0, m.1));
        assert forall|i: int| 0 <= i < front.len() implies front[i].0 != m.0 by {
            assert(front[i] == motors[i]);
        }
        lemma_motor_index_absent(front, m.0);
        assert(set_motor(front, m.0, m.1) =~= motors);
    }
}

proof fn lemma_optional<T, P: StateValues>(r: StateView<P>, x: Option<T>, make: spec_fn(T) -> RobotStateUpdate<P>)
    ensures
        x is None ==> replay(r, optional(x, make)) == r && all_take_effect(r, optional(x, make)),
        x matches Some(t) ==> replay(r, optional(x, make)) == apply_update(r, make(t))
            && all_take_effect(r, optional(x, make)) == takes_effect(r, make(t)),
{
    let us = optional(x, make);
    if x is Some {
        assert(us.drop_last() =~= Seq::<RobotStateUpdate<P>>::empty());
        assert(replay(r, us.drop_last()) == r);
        assert(all_take_effect(r, us.drop_last()));
    } else {
        assert(us =~= Seq::<RobotStateUpdate<P>>::empty());
    }
}

/// State law: the updates a state lists rebuild it from a blank state, each
/// of them taking effect.
#[verifier::rlimit(40)]
/// Values that follow updates `us` from a blank state, each step applying
/// its update wherever that update surely takes effect, are the replay of
/// the updates so far, as long as every one of them takes effect.
proof fn lemma_steps_replay<P: StateValues>(us: Seq<RobotStateUpdate<P>>, steps: Seq<StateView<P>>, k: int)
    requires
        all_take_effect(blank::<P>(), us),
        steps.len() == us.len() + 1,
        steps[0] == blank::<P>(),
        forall|i: int| 0 <= i < us.len() && takes_effect(steps[i], us[i])
            ==> #[trigger] steps[i + 1] == apply_update(steps[i], us[i]),
        0 <= k <= us.len(),
    ensures
        steps[k] == replay(blank::<P>(), us.take(k)),
    decreases k,
{
    if k == 0 {
        assert(us.take(0) =~= Seq::<RobotStateUpdate<P>>::empty());
    } else {
        lemma_steps_replay(us, steps, k - 1);
        let front = us.take(k);
        assert(front.drop_last() =~= us.take(k - 1));
        assert(front.last() == us[k - 1]);
        lemma_replay_append(blank::<P>(), front, us.skip(k));
        assert(front + us.skip(k) =~= us);
        assert(takes_effect(steps[k - 1], us[k - 1]));
        assert(steps[(k - 1) + 1] == apply_update(steps[k - 1], us[k - 1]));
    }
}

/// State law: the updates that a state lists rebuild its values. Feeding
/// them one by one, in order, to a blank state, where each call applies its
/// update whenever the update surely takes effect (as `update` does), ends
/// with the values of the state the updates came from.
pub proof fn lemma_rebuild_by_updates<P: StateValues>(v: StateView<P>, steps: Seq<StateView<P>>)
    requires
        distinct_motors(v.motors),
        steps.len() == updates_of(v).len() + 1,
        steps[0] == blank::<P>(),
        forall|i: int| 0 <= i < updates_of(v).len() && takes_effect(steps[i], updates_of(v)[i])
            ==> #[trigger] steps[i + 1] == apply_update(steps[i], updates_of(v)[i]),
    ensures
        steps.last() == v,
{
    let us = updates_of(v);
    lemma_updates_rebuild(v);
    lemma_steps_replay(us, steps, us.len() as int);
    assert(us.take(us.len() as int) =~= us);
}

/// Whether the value type that update `u` sets has an equality that is
/// equality of values.
pub open spec fn exact_equality<P: StateValues>(u: RobotStateUpdate<P>) -> bool {
    match u {
        RobotStateUpdate::Armed(_) => true,
        RobotStateUpdate::Orientation(_) => obeys_concrete_eq::<P::Orientation>(),
        RobotStateUpdate::Movement(_) => obeys_concrete_eq::<P::Movement>(),
        RobotStateUpdate::Depth(_) => obeys_concrete_eq::<P::Depth>(),
        RobotStateUpdate::Inertial(_) => obeys_concrete_eq::<P::Inertial>(),
        RobotStateUpdate::Magnetometer(_) => obeys_concrete_eq::<P::Mag>(),
        RobotStateUpdate::Motor(_, _) => obeys_concrete_eq::<P::Motor>(),
        RobotStateUpdate::DepthTarget(_) => obeys_concrete_eq::<P::Meters>(),
    }
}

/// After motor `id` is set to `f`, its value is `f`, and no motor appears
/// twice.
proof fn lemma_set_motor_value<F>(motors: Seq<(MotorId, F)>, id: MotorId, f: F)
    requires
        distinct_motors(motors),
    ensures
        distinct_motors(set_motor(motors, id, f)),
        motor_value(set_motor(motors, id, f), id) == Some(f),
{
    lemma_motor_index_range(motors, id);
    let k = motor_index(motors, id);
    let after = set_motor(motors, id, f);
    if k < motors.len() {
        assert forall|a: int, b: int| 0 <= a < b < after.len() implies after[a].0 != after[b].0 by {
            assert(after[a].0 == motors[a].0);
            assert(after[b].0 == motors[b].0);
        }
        lemma_motor_index_found(after, k);
    } else {
        assert forall|a: int, b: int| 0 <= a < b < after.len() implies after[a].0 != after[b].0 by {
            if b < motors.len() {
                assert(after[a].0 == motors[a].0);
                assert(after[b].0 == motors[b].0);
            } else {
                assert(after[a].0 == motors[a].0);
            }
        }
        lemma_motor_index_found(after, motors.len() as int);
    }
}

/// State law: an update is idempotent. For a value type whose equality is
/// equality of values, an update that changes nothing leaves the values as
/// they are, so it is applied either way; and the same update right after it
/// reports no change.
pub proof fn lemma_update_idempotent<P: StateValues>(v: StateView<P>, u: RobotStateUpdate<P>)
    requires
        distinct_motors(v.motors),
        exact_equality(u),
    ensures
        states_equality(u),
        !update_changes(v, u) ==> apply_update(v, u) == v,
        !update_changes(apply_update(v, u), u),
{
    reveal(obeys_concrete_eq);
    match u {
        RobotStateUpdate::Motor(id, f) => {
            lemma_set_motor_value(v.motors, id, f);
            lemma_motor_index_range(v.motors, id);
            if !update_changes(v, u) {
                let k = motor_index(v.motors, id);
                assert(v.motors.update(k, (id, f)) =~= v.motors);
            }
        },
        _ => {},
    }
}

pub proof fn lemma_updates_rebuild<P: StateValues>(v: StateView<P>)
    requires
        distinct_motors(v.motors),
    ensures
        replay(blank::<P>(), updates_of(v)) == v,
        all_take_effect(blank::<P>(), updates_of(v)),
{
    let b = blank::<P>();
    let s0 = seq![RobotStateUpdate::<P>::Armed(v.armed)];
    let s1 = optional(v.orientation, |x: P::Orientation| RobotStateUpdate::<P>::Orientation(x));
    let s2 = optional(v.movement, |x: P::Movement| RobotStateUpdate::<P>::Movement(x));
    let s3 = optional(v.depth, |x: P::Depth| RobotStateUpdate::<P>::Depth(x));
    let s4 = optional(v.inertial, |x: P::Inertial| RobotStateUpdate::<P>::Inertial(x));
    let s5 = optional(v.mag, |x: P::Mag| RobotStateUpdate::<P>::Magnetometer(x));
    let s6 = motor_updates::<P>(v.motors);
    let s7 = optional(v.depth_target, |x: P::Meters| RobotStateUpdate::<P>::DepthTarget(x));
    let a1 = s0 + s1;
    let a2 = a1 + s2;
    let a3 = a2 + s3;
    let a4 = a3 + s4;
    let a5 = a4 + s5;
    let a6 = a5 + s6;
    let a7 = a6 + s7;
    assert(updates_of(v) == a7);

    lemma_optional(b, Some(v.armed), |x: Armed| RobotStateUpdate::<P>::Armed(x));
    assert(optional(Some(v.armed), |x: Armed| RobotStateUpdate::<P>::Armed(x)) =~= s0);
    let r0 = replay(b, s0);
    assert(r0.armed == v.armed);

    lemma_replay_append(b, s0, s1);
    lemma_optional(r0, v.orientation, |x: P::Orientation| RobotStateUpdate::<P>::Orientation(x));
    let r1 = replay(b, a1);
    assert(r1.armed == v.armed && r1.orientation == v.orientation && r1.movement is None && r1.depth is None
        && r1.inertial is None && r1.mag is None && r1.depth_target is None && r1.motors == b.motors);

    lemma_replay_append(b, a1, s2);
    lemma_optional(r1, v.movement, |x: P::Movement| RobotStateUpdate::<P>::Movement(x));
    let r2 = replay(b, a2);
    assert(r2.armed == v.armed && r2.orientation == v.orientation && r2.movement == v.movement && r2.depth is None
        && r2.inertial is None && r2.mag is None && r2.depth_target is None && r2.motors == b.motors);

    lemma_replay_append(b, a2, s3);
    lemma_optional(r2, v.depth, |x: P::Depth| RobotStateUpdate::<P>::Depth(x));
    let r3 = replay(b, a3);
    assert(r3.armed == v.armed && r3.orientation == v.orientation && r3.movement == v.movement && r3.depth == v.depth
        && r3.inertial is None && r3.mag is None && r3.depth_target is None && r3.motors == b.motors);

    lemma_replay_append(b, a3, s4);
    lemma_optional(r3, v.inertial, |x: P::Inertial| RobotStateUpdate::<P>::Inertial(x));
    let r4 = replay(b, a4);
    assert(r4.armed == v.armed && r4.orientation == v.orientation && r4.movement == v.movement && r4.depth == v.depth
        && r4.inertial == v.inertial && r4.mag is None && r4.depth_target is None && r4.motors == b.motors);

    lemma_replay_append(b, a4, s5);
    lemma_optional(r4, v.mag, |x: P::Mag| RobotStateUpdate::<P>::Magnetometer(x));
    let r5 = replay(b, a5);
    assert(r5.armed == v.armed && r5.orientation == v.orientation && r5.movement == v.movement && r5.depth == v.depth
        && r5.inertial == v.inertial && r5.mag == v.mag && r5.depth_target is None && r5.motors == b.motors);

    lemma_replay_append(b, a5, s6);
    lemma_replay_motors(r5, v.motors);
    let r6 = replay(b, a6);
    assert(r6.armed == v.armed && r6.orientation == v.orientation && r6.movement == v.movement && r6.depth == v.depth
        && r6.inertial == v.inertial && r6.mag == v.mag && r6.depth_target is None && r6.motors == v.motors);

    lemma_replay_append(b, a6, s7);
    lemma_optional(r6, v.depth_target, |x: P::Meters| RobotStateUpdate::<P>::DepthTarget(x));
    let r7 = replay(b, a7);
    assert(r7.armed == v.armed && r7.orientation == v.orientation && r7.movement == v.movement && r7.depth == v.depth
        && r7.inertial == v.inertial && r7.mag == v.mag && r7.depth_target == v.depth_target && r7.motors == v.motors);
}

/// The state of the robot, with the time each part last changed.
pub struct RobotState<P: StateValues> {
    armed: Armed,
    orientation: Option<(P::Orientation, Instant)>,
    movement: Option<(P::Movement, Instant)>,
    depth: Option<(P::Depth, Instant)>,
    inertial: Option<(P::Inertial, Instant)>,
    mag: Option<(P::Mag, Instant)>,
    motors: Vec<(MotorId, (P::Motor, Instant))>,
    depth_target: Option<(P::Meters, Instant)>,
}

/// The value of an optional value with its time.
pub open spec fn value_of<T>(x: Option<(T, Instant)>) -> Option<T> {
    match x {
        Some((t, _)) => Some(t),
        None => None,
    }
}

impl<P: StateValues> RobotState<P> {
    /// The values of the state.
    pub closed spec fn values(&self) -> StateView<P> {
        StateView {
            armed: self.armed,
            orientation: value_of(self.orientation),
            movement: value_of(self.movement),
            depth: value_of(self.depth),
            inertial: value_of(self.inertial),
            mag: value_of(self.mag),
            motors: self.motors@.map_values(|m: (MotorId, (P::Motor, Instant))| (m.0, m.1.0)),
            depth_target: value_of(self.depth_target),
        }
    }

    /// No motor appears twice.
    pub closed spec fn wf(&self) -> bool {
        distinct_motors(self.values().motors)
    }

    /// The position of `id` among the motors.
    fn motor_position(&self, id: MotorId) -> (r: Option<usize>)
        ensures
            r matches Some(k) ==> k < self.motors.len() && self.motors@[k as int].0 == id,
            r is None ==> forall|i: int| 0 <= i < self.motors.len() ==> self.motors@[i].0 != id,
    {
        let n = self.motors.len();
        let mut i: usize = 0;
        while i < n
            invariant
                i <= n,
                n == self.motors.len(),
                forall|j: int| 0 <= j < i ==> self.motors@[j].0 != id,
            decreases n - i,
        {
            if self.motors[i].0 == id {
                return Some(i);
            }
            i = i + 1;
        }
        None
    }

    /// Sets motor `id`, replacing its entry or adding one last; says whether
    /// it had an entry.
    fn put_motor(&mut self, id: MotorId, frame: P::Motor, now: Instant) -> (previous: Option<P::Motor>)
        requires
            old(self).wf(),
        ensures
            final(self).wf(),
            final(self).values() == (StateView::<P> { motors: set_motor(old(self).values().motors, id, frame), ..old(self).values() }),
            previous is None <==> forall|i: int| 0 <= i < old(self).values().motors.len() ==> old(self).values().motors[i].0 != id,
            previous == motor_value(old(self).values().motors, id),
    {
        let ghost ms = self.values().motors;
        match self.motor_position(id) {
            Some(k) => {
                let previous = self.motors[k].1.0;
                let _ = self.motors.remove(k);
                self.motors.insert(k, (id, (frame, now)));
                proof {
                    assert(ms[k as int].0 == id);
                    lemma_motor_index_found(ms, k as int);
                    assert(self.values().motors =~= ms.update(k as int, (id, frame)));
                    assert forall|a: int, b: int| 0 <= a < b < self.values().motors.len()
                        implies self.values().motors[a].0 != self.values().motors[b].0 by {
                        assert(self.values().motors[a].0 == ms[a].0);
                        assert(self.values().motors[b].0 == ms[b].0);
                    }
                }
                Some(previous)
            },
            None => {
                self.motors.push((id, (frame, now)));
                proof {
                    assert forall|i: int| 0 <= i < ms.len() implies ms[i].0 != id by {
                        assert(ms[i].0 == old(self).motors@[i].0);
                    }
                    lemma_motor_index_absent(ms, id);
                    assert(self.values().motors =~= ms.push((id, frame)));
                    assert forall|a: int, b: int| 0 <= a < b < self.values().motors.len()
                        implies self.values().motors[a].0 != self.values().motors[b].0 by {
                        if b == ms.len() {
                            assert(self.values().motors[a].0 == ms[a].0);
                        }
                    }
                }
                None
            },
        }
    }

    /// A blank state with the motors `motor_ids`, each at its default frame.
    pub fn new(motor_ids: &[MotorId]) -> (s: Self)
        ensures
            s.wf(),
            s.values().armed == Armed::Disarmed,
            s.values().orientation is None,
            s.values().movement is None,
            s.values().depth is None,
            s.values().inertial is None,
            s.values().mag is None,
            s.values().depth_target is None,
            forall|id: MotorId| motor_ids@.contains(id) <==> #[trigger] has_motor(s.values().motors, id),
    {
        let mut s = RobotState {
            armed: Armed::Disarmed,
            orientation: None,
            movement: None,
            depth: None,
            inertial: None,
            mag: None,
            motors: Vec::new(),
            depth_target: None,
        };
        assert(s.values().motors =~= Seq::<(MotorId, P::Motor)>::empty());
        let n = motor_ids.len();
        let mut i: usize = 0;
        while i < n
            invariant
                i <= n,
                n == motor_ids@.len(),
                s.wf(),
                s.values().armed == Armed::Disarmed,
                s.values().orientation is None,
                s.values().movement is None,
                s.values().depth is None,
                s.values().inertial is None,
                s.values().mag is None,
                s.values().depth_target is None,
                forall|id: MotorId| motor_ids@.subrange(0, i as int).contains(id) <==> #[trigger] has_motor(s.values().motors, id),
            decreases n - i,
        {
            let id = motor_ids[i];
            let ghost before = s.values().motors;
            let frame = P::Motor::default();
            let _ = s.put_motor(id, frame, instant_now());
            proof {
                lemma_motor_index_range(before, id);
                let after = s.values().motors;
                assert forall|x: MotorId| motor_ids@.subrange(0, i + 1).contains(x) <==> #[trigger] has_motor(after, x) by {
                    assert(motor_ids@.subrange(0, i + 1) =~= motor_ids@.subrange(0, i as int).push(id));
                    if x == id {
                        let k = motor_index(before, id);
                        if k < before.len() {
                            assert(after[k].0 == id);
                        } else {
                            assert(after[before.len() as int].0 == id);
                        }
                        assert(motor_ids@.subrange(0, i + 1)[i as int] == id);
                    } else {
                        if has_motor(before, x) {
                            let k = choose|k: int| 0 <= k < before.len() && #[trigger] before[k].0 == x;
                            assert(after[k].0 == x);
                        }
                        if has_motor(after, x) {
                            let k = choose|k: int| 0 <= k < after.len() && #[trigger] after[k].0 == x;
                            if k < before.len() {
                                assert(before[k].0 == x);
                            }
                        }
                        if motor_ids@.subrange(0, i as int).push(id).contains(x) {
                            let k = choose|k: int| 0 <= k < i + 1 && motor_ids@.subrange(0, i as int).push(id)[k] == x;
                            assert(motor_ids@.subrange(0, i as int)[k] == x);
                        }
                        if motor_ids@.subrange(0, i as int).contains(x) {
                            let k = choose|k: int| 0 <= k < i && motor_ids@.subrange(0, i as int)[k] == x;
                            assert(motor_ids@.subrange(0, i as int).push(id)[k] == x);
                        }
                    }
                }
            }
            i = i + 1;
        }
        assert(motor_ids@.subrange(0, n as int) =~= motor_ids@);
        s
    }

    /// Whether the motors may run.
    pub fn armed(&self) -> (r: Armed)
        ensures
            r == self.values().armed,
    {
        self.armed
    }

    /// The orientation with its time of change.
    pub fn orientation(&self) -> (r: Option<(P::Orientation, Instant)>)
        ensures
            value_of(r) == self.values().orientation,
    {
        self.orientation
    }

    /// The movement with its time of change.
    pub fn movement(&self) -> (r: Option<(P::Movement, Instant)>)
        ensures
            value_of(r) == self.values().movement,
    {
        self.movement
    }

    /// The depth frame with its time of change.
    pub fn depth(&self) -> (r: Option<(P::Depth, Instant)>)
        ensures
            value_of(r) == self.values().depth,
    {
        self.depth
    }

    /// The inertial frame with its time of change.
    pub fn inertial(&self) -> (r: Option<(P::Inertial, Instant)>)
        ensures
            value_of(r) == self.values().inertial,
    {
        self.inertial
    }

    /// The magnetometer frame with its time of change.
    pub fn mag(&self) -> (r: Option<(P::Mag, Instant)>)
        ensures
            value_of(r) == self.values().mag,
    {
        self.mag
    }

    /// The depth target with its time of change.
    pub fn depth_target(&self) -> (r: Option<(P::Meters, Instant)>)
        ensures
            value_of(r) == self.values().depth_target,
    {
        self.depth_target
    }

    /// The frame of motor `id` with its time of change.
    pub fn motor(&self, id: MotorId) -> (r: Option<(P::Motor, Instant)>)
        ensures
            r is Some <==> has_motor(self.values().motors, id),
            r matches Some((f, _)) ==> exists|i: int| 0 <= i < self.values().motors.len() && #[trigger] self.values().motors[i] == (id, f),
    {
        match self.motor_position(id) {
            Some(k) => {
                assert(self.values().motors[k as int] == (id, self.motors@[k as int].1.0));
                assert(self.values().motors[k as int].0 == id);
                Some(self.motors[k].1)
            },
            None => {
                assert(!has_motor(self.values().motors, id)) by {
                    if has_motor(self.values().motors, id) {
                        let k = choose|k: int| 0 <= k < self.values().motors.len() && #[trigger] self.values().motors[k].0 == id;
                        assert(self.values().motors[k].0 == self.motors@[k].0);
                    }
                }
                None
            },
        }
    }

    /// The motors with their frames and times of change, in order.
    pub fn motors(&self) -> (r: &Vec<(MotorId, (P::Motor, Instant))>)
        ensures
            r@.map_values(|m: (MotorId, (P::Motor, Instant))| (m.0, m.1.0)) == self.values().motors,
    {
        &self.motors
    }

    /// Applies an update and says whether it changed the state. The arming
    /// state and the motors always take the new value; a measurement or
    /// command takes it unless it equals the present one, and when it takes
    /// it the time of change is now.
    pub fn update(&mut self, update: &RobotStateUpdate<P>) -> (changed: bool)
        requires
            old(self).wf(),
        ensures
            final(self).wf(),
            changed || (update is Motor) ==> final(self).values() == apply_update(old(self).values(), *update),
            !changed && !(update is Motor) ==> final(self).values() == old(self).values(),
            !changed && !(update is Motor) ==> *final(self) == *old(self),
            takes_effect(old(self).values(), *update) ==> final(self).values() == apply_update(old(self).values(), *update),
            takes_effect(old(self).values(), *update) && !(update is Motor) && !(update is Armed) ==> changed,
            update matches RobotStateUpdate::Armed(a) ==> changed == (old(self).values().armed != a),
            update matches RobotStateUpdate::Motor(id, _) ==> ((forall|i: int| 0 <= i < old(self).values().motors.len()
                ==> old(self).values().motors[i].0 != id) ==> changed),
            states_equality(*update) ==> changed == update_changes(old(self).values(), *update),
    {
        let now = instant_now();
        match update {
            RobotStateUpdate::Armed(armed) => {
                if self.armed != *armed {
                    self.armed = *armed;
                    true
                } else {
                    false
                }
            },
            RobotStateUpdate::Orientation(x) => {
                let changed = match &self.orientation {
                    Some((current, _)) => *current != *x,
                    None => true,
                };
                if changed {
                    self.orientation = Some((*x, now));
                }
                changed
            },
            RobotStateUpdate::Movement(x) => {
                let changed = match &self.movement {
                    Some((current, _)) => *current != *x,
                    None => true,
                };
                if changed {
                    self.movement = Some((*x, now));
                }
                changed
            },
            RobotStateUpdate::Depth(x) => {
                let changed = match &self.depth {
                    Some((current, _)) => *current != *x,
                    None => true,
                };
                if changed {
                    self.depth = Some((*x, now));
                }
                changed
            },
            RobotStateUpdate::Inertial(x) => {
                let changed = match &self.inertial {
                    Some((current, _)) => *current != *x,
                    None => true,
                };
                if changed {
                    self.inertial = Some((*x, now));
                }
                changed
            },
            RobotStateUpdate::Magnetometer(x) => {
                let changed = match &self.mag {
                    Some((current, _)) => *current != *x,
                    None => true,
                };
                if changed {
                    self.mag = Some((*x, now));
                }
                changed
            },
            RobotStateUpdate::Motor(id, frame) => {
                match self.put_motor(*id, *frame, now) {
                    Some(previous) => previous != *frame,
                    None => true,
                }
            },
            RobotStateUpdate::DepthTarget(x) => {
                let changed = match &self.depth_target {
                    Some((current, _)) => *current != *x,
                    None => true,
                };
                if changed {
                    self.depth_target = Some((*x, now));
                }
                changed
            },
        }
    }

    /// The updates that rebuild this state from a blank one: the arming
    /// state, each present value, and each motor, in order.
    pub fn to_updates(&self) -> (us: Vec<RobotStateUpdate<P>>)
        ensures
            us@ == updates_of(self.values()),
    {
        let ghost v = self.values();
        let mut us: Vec<RobotStateUpdate<P>> = Vec::new();
        us.push(RobotStateUpdate::Armed(self.armed));
        let ghost a0 = us@;
        assert(a0 =~= seq![RobotStateUpdate::<P>::Armed(v.armed)]);
        if let Some((x, _)) = self.orientation {
            us.push(RobotStateUpdate::Orientation(x));
        }
        let ghost a1 = us@;
        assert(a1 =~= a0 + optional(v.orientation, |x: P::Orientation| RobotStateUpdate::<P>::Orientation(x)));
        if let Some((x, _)) = self.movement {
            us.push(RobotStateUpdate::Movement(x));
        }
        let ghost a2 = us@;
        assert(a2 =~= a1 + optional(v.movement, |x: P::Movement| RobotStateUpdate::<P>::Movement(x)));
        if let Some((x, _)) = self.depth {
            us.push(RobotStateUpdate::Depth(x));
        }
        let ghost a3 = us@;
        assert(a3 =~= a2 + optional(v.depth, |x: P::Depth| RobotStateUpdate::<P>::Depth(x)));
        if let Some((x, _)) = self.inertial {
            us.push(RobotStateUpdate::Inertial(x));
        }
        let ghost a4 = us@;
        assert(a4 =~= a3 + optional(v.inertial, |x: P::Inertial| RobotStateUpdate::<P>::Inertial(x)));
        if let Some((x, _)) = self.mag {
            us.push(RobotStateUpdate::Magnetometer(x));
        }
        let ghost head = us@;
        assert(head =~= a4 + optional(v.mag, |x: P::Mag| RobotStateUpdate::<P>::Magnetometer(x)));
        let n = self.motors.len();
        let mut i: usize = 0;
        while i < n
            invariant
                i <= n,
                n == self.motors.len(),
                v == self.values(),
                us@ == head + motor_updates::<P>(v.motors.subrange(0, i as int)),
            decreases n - i,
        {
            let (id, (frame, _)) = self.motors[i];
            us.push(RobotStateUpdate::Motor(id, frame));
            assert(v.motors[i as int] == (id, frame));
            assert(motor_updates::<P>(v.motors.subrange(0, i + 1))
                =~= motor_updates::<P>(v.motors.subrange(0, i as int)).push(RobotStateUpdate::<P>::Motor(id, frame)));
            i = i + 1;
        }
        assert(v.motors.subrange(0, n as int) =~= v.motors);
        let ghost a6 = us@;
        if let Some((x, _)) = self.depth_target {
            us.push(RobotStateUpdate::DepthTarget(x));
        }
        assert(us@ =~= a6 + optional(v.depth_target, |x: P::Meters| RobotStateUpdate::<P>::DepthTarget(x)));
        us
    }
}

} // verus!
