use mate::motor::{Armed, MotorId};
use mate::state::{RobotState, RobotStateUpdate, StateValues};

/// Plain numbers for every value of the state.
struct Numbers;

impl StateValues for Numbers {
    type Orientation = u32;
    type Movement = u32;
    type Depth = u32;
    type Inertial = u32;
    type Mag = u32;
    type Motor = u32;
    type Meters = u32;
}

fn values(s: &RobotState<Numbers>) -> (Armed, Option<u32>, Option<u32>, Option<u32>, Vec<(MotorId, u32)>) {
    (
        s.armed(),
        s.orientation().map(|x| x.0),
        s.depth().map(|x| x.0),
        s.depth_target().map(|x| x.0),
        s.motors().iter().map(|(id, (f, _))| (*id, *f)).collect(),
    )
}

#[test]
fn state_update_reports_changes() {
    let mut s: RobotState<Numbers> = RobotState::new(&[MotorId::Aux1]);
    assert_eq!(s.motor(MotorId::Aux1).map(|m| m.0), Some(0));
    assert!(s.motor(MotorId::Aux2).is_none());
    assert!(s.update(&RobotStateUpdate::Orientation(3)));
    assert!(!s.update(&RobotStateUpdate::Orientation(3)));
    assert!(s.update(&RobotStateUpdate::Orientation(4)));
    assert_eq!(s.orientation().map(|x| x.0), Some(4));
    assert!(!s.update(&RobotStateUpdate::Armed(Armed::Disarmed)));
    assert!(s.update(&RobotStateUpdate::Armed(Armed::Armed)));
    assert_eq!(s.armed(), Armed::Armed);
    assert!(!s.update(&RobotStateUpdate::Motor(MotorId::Aux1, 0)));
    assert!(s.update(&RobotStateUpdate::Motor(MotorId::Aux1, 9)));
    assert!(s.update(&RobotStateUpdate::Motor(MotorId::Aux2, 9)));
    assert_eq!(s.motors().len(), 2);
}

#[test]
fn state_updates_rebuild_the_state() {
    let mut s: RobotState<Numbers> = RobotState::new(&[MotorId::Camera1, MotorId::Aux3]);
    s.update(&RobotStateUpdate::Armed(Armed::Armed));
    s.update(&RobotStateUpdate::Depth(12));
    s.update(&RobotStateUpdate::DepthTarget(5));
    s.update(&RobotStateUpdate::Motor(MotorId::Aux3, 7));
    let updates = s.to_updates();
    assert_eq!(updates.len(), 5);
    let mut rebuilt: RobotState<Numbers> = RobotState::new(&[]);
    for u in &updates {
        assert!(rebuilt.update(u));
    }
    assert_eq!(values(&rebuilt), values(&s));
    assert_eq!(values(&rebuilt).4, vec![(MotorId::Camera1, 0), (MotorId::Aux3, 7)]);
}

#[test]
fn update_reports_whether_the_value_changed() {
    let mut s: RobotState<Numbers> = RobotState::new(&[MotorId::Aux1]);
    let u = RobotStateUpdate::Motor(MotorId::Aux1, 50);
    let r1 = s.update(&u);
    let r2 = s.update(&u);
    let r3 = s.update(&RobotStateUpdate::Armed(Armed::Disarmed));
    let r4 = s.update(&RobotStateUpdate::Armed(Armed::Armed));
    assert_eq!((r1, r2, r3, r4), (true, false, false, true));
    assert_eq!(s.armed(), Armed::Armed);
    assert_eq!(s.motor(MotorId::Aux1).map(|m| m.0), Some(50));
    assert!(s.update(&RobotStateUpdate::Orientation(7)));
    assert!(!s.update(&RobotStateUpdate::Orientation(7)));
    assert!(s.update(&RobotStateUpdate::Orientation(8)));
}
