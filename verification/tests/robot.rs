use mate::cameras::{camera_changes, next_stream_port, split_lines, FIRST_STREAM_PORT};
use mate::events::SystemId;
use mate::indicators::{dim, steady_color, Rgb};
use mate::link::Link;
use mate::motor::{
    motor_listens_to, pulses_by_channel, speed_source, Armed, Axis, MotorId, SpeedSource,
    STOP_PULSE_US,
};
use mate::sensors::{tick_plan, SensorBatcher};
use mate::spi::{inertial_read_command, inertial_write_command, mag_read_command, mag_write_command};
use mate::systems::{
    camera_watch, control_step, control_watch, motor_watch, store_action, store_sync, BusEvent,
    ControlStep, MotorSystem, NetworkSystem, StatusKind, StatusTracker, StoreAction, StoreSync,
    StoreTraffic, SystemManager, Watch,
};
use mate::tokens;
use mate::types::Protocol;
use std::time::{Duration, SystemTime};

const ALL_MOTORS: [MotorId; 16] = [
    MotorId::FrontLeftBottom,
    MotorId::FrontLeftTop,
    MotorId::FrontRightBottom,
    MotorId::FrontRightTop,
    MotorId::BackLeftBottom,
    MotorId::BackLeftTop,
    MotorId::BackRightBottom,
    MotorId::BackRightTop,
    MotorId::Camera1,
    MotorId::Camera2,
    MotorId::Camera3,
    MotorId::Camera4,
    MotorId::Aux1,
    MotorId::Aux2,
    MotorId::Aux3,
    MotorId::Aux4,
];

#[test]
fn motor_channels_cover_every_output_once() {
    let mut seen = [false; 16];
    for id in ALL_MOTORS {
        let c = id.channel() as usize;
        assert!(!seen[c]);
        seen[c] = true;
    }
    assert!(seen.iter().all(|s| *s));
    assert_eq!(MotorId::FrontLeftTop.channel(), 4);
    assert_eq!(MotorId::Camera1.channel(), 15);
    assert_eq!(MotorId::Aux4.channel(), 8);
}

#[test]
fn motor_mix_axes_are_orthogonal() {
    let axes = [Axis::X, Axis::Y, Axis::Z, Axis::XRot, Axis::YRot, Axis::ZRot];
    for a in axes {
        for b in axes {
            let dot: i32 = ALL_MOTORS
                .iter()
                .map(|m| m.mix_sign(a) as i32 * m.mix_sign(b) as i32)
                .sum();
            assert_eq!(dot, if a == b { 8 } else { 0 });
        }
    }
    assert_eq!(MotorId::FrontLeftBottom.mix_sign(Axis::Z), 1);
    assert_eq!(MotorId::BackRightTop.mix_sign(Axis::Y), 1);
    assert_eq!(MotorId::Camera2.mix_sign(Axis::X), 0);
    assert!(MotorId::BackLeftTop.is_reversed());
    assert!(!MotorId::BackLeftBottom.is_reversed());
    assert!(MotorId::BackLeftBottom.is_thruster());
    assert!(!MotorId::Aux1.is_thruster());
}

#[test]
fn motor_pulses_land_on_their_channels() {
    let pulses = pulses_by_channel(&vec![
        (MotorId::Camera1, 1900),
        (MotorId::FrontLeftBottom, 1100),
        (MotorId::Camera1, 1700),
    ]);
    assert_eq!(pulses.len(), 16);
    assert_eq!(pulses[15], 1700);
    assert_eq!(pulses[0], 1100);
    assert_eq!(pulses[1], STOP_PULSE_US);
    assert!(pulses_by_channel(&Vec::new()).iter().all(|p| *p == 1500));
}

#[test]
fn motor_speed_source() {
    assert_eq!(speed_source(Some(Armed::Armed), true), SpeedSource::Override);
    assert_eq!(speed_source(Some(Armed::Armed), false), SpeedSource::Mixed);
    assert_eq!(speed_source(Some(Armed::Disarmed), true), SpeedSource::Stopped);
    assert_eq!(speed_source(None, false), SpeedSource::Stopped);
    assert_eq!(Armed::default(), Armed::Disarmed);
}

#[test]
fn motor_listens_to_arming_and_movement() {
    assert!(motor_listens_to("robot.motors.armed"));
    assert!(motor_listens_to(tokens::MOVEMENT_JOYSTICK));
    assert!(motor_listens_to("robot.movement.depth"));
    assert!(!motor_listens_to("robot.movement.calculated"));
    assert!(!motor_listens_to(tokens::STATUS));
    assert_eq!(motor_watch(BusEvent::Store, true), Watch::Forward);
    assert_eq!(motor_watch(BusEvent::Store, false), Watch::Ignore);
    assert_eq!(motor_watch(BusEvent::SyncStore, false), Watch::Forward);
    assert_eq!(motor_watch(BusEvent::Exit, false), Watch::Stop);
    assert_eq!(motor_watch(BusEvent::PacketRx, true), Watch::Ignore);
    assert_eq!(MotorSystem::ID, SystemId::Motor);
}

#[test]
fn adapted_keys_are_registered() {
    assert_eq!(tokens::adapted_keys().len(), 21);
    assert!(tokens::is_adapted("robot.leveling.mode"));
    assert!(tokens::is_adapted(tokens::ORIENTATION));
    assert!(!tokens::is_adapted("robot.nothing"));
}

#[test]
fn watchers_forward_what_their_system_needs() {
    assert_eq!(control_watch(BusEvent::Store), Watch::Forward);
    assert_eq!(control_watch(BusEvent::ResetForeignStore), Watch::Forward);
    assert_eq!(control_watch(BusEvent::PeerConnected), Watch::Ignore);
    assert_eq!(control_watch(BusEvent::Exit), Watch::Stop);
    assert_eq!(camera_watch(BusEvent::PeerConnected, false), Watch::Forward);
    assert_eq!(camera_watch(BusEvent::Store, false), Watch::Ignore);
    assert_eq!(camera_watch(BusEvent::Store, true), Watch::Stop);
    assert_eq!(store_sync(BusEvent::SyncStore), StoreSync::Refresh);
    assert_eq!(store_sync(BusEvent::ResetForeignStore), StoreSync::ResetShared);
    assert_eq!(store_sync(BusEvent::Store), StoreSync::Apply);
    assert_eq!(store_sync(BusEvent::Error), StoreSync::Keep);
    assert_eq!(control_step(Some(true), true), ControlStep::Run);
    assert_eq!(control_step(Some(true), false), ControlStep::Reset);
    assert_eq!(control_step(Some(false), true), ControlStep::Reset);
    assert_eq!(control_step(None, true), ControlStep::Reset);
}

#[test]
fn store_system_routes_traffic() {
    assert_eq!(store_action(StoreTraffic::Received(true), true), StoreAction::Decode);
    assert_eq!(store_action(StoreTraffic::Received(false), true), StoreAction::ForwardRemoval);
    assert_eq!(store_action(StoreTraffic::Received(true), false), StoreAction::UnknownKey);
    assert_eq!(store_action(StoreTraffic::Published(true), true), StoreAction::Encode);
    assert_eq!(store_action(StoreTraffic::Published(false), true), StoreAction::SendRemoval);
    assert_eq!(store_action(StoreTraffic::Published(false), false), StoreAction::UnknownKey);
    assert_eq!(store_action(StoreTraffic::PeerDisconnected, false), StoreAction::ResetAndResync);
    assert_eq!(store_action(StoreTraffic::SyncRequested, false), StoreAction::Resync);
    assert_eq!(store_action(StoreTraffic::Exit, true), StoreAction::Stop);
    assert_eq!(store_action(StoreTraffic::Other, true), StoreAction::Nothing);
}

#[test]
fn status_follows_peers_and_arming() {
    let mut tracker = StatusTracker::new();
    assert_eq!(tracker.status(true, true), StatusKind::NoPeer);
    assert!(tracker.on_event(BusEvent::PeerConnected));
    assert_eq!(tracker.status(false, false), StatusKind::Disarmed);
    assert_eq!(tracker.status(true, false), StatusKind::Ready);
    assert_eq!(tracker.status(true, true), StatusKind::Moving);
    assert!(tracker.on_event(BusEvent::Store));
    assert!(tracker.on_event(BusEvent::Error));
    assert!(!tracker.on_event(BusEvent::SyncStore));
    assert!(tracker.on_event(BusEvent::PeerDisconnected));
    assert_eq!(tracker.status(true, true), StatusKind::NoPeer);
}

#[test]
fn status_light_colors() {
    assert_eq!(steady_color(StatusKind::NoPeer, 0), Some(Rgb { r: 0, g: 0, b: 0 }));
    assert_eq!(steady_color(StatusKind::NoPeer, 1), Some(Rgb { r: 0, g: 0, b: 255 }));
    assert_eq!(steady_color(StatusKind::Ready, 5), Some(Rgb { r: 0, g: 255, b: 0 }));
    assert_eq!(steady_color(StatusKind::Moving, 5), None);
    assert_eq!(dim(Rgb { r: 255, g: 7, b: 2 }), Rgb { r: 85, g: 2, b: 0 });
}

#[test]
fn system_manager_keeps_registration_order() {
    let mut manager: SystemManager<u8> = SystemManager::new();
    manager.add_system(1, SystemId::Stop);
    manager.add_system(2, SystemId::Store);
    assert!(manager.contains(SystemId::Store));
    assert!(!manager.contains(SystemId::Motor));
    assert_eq!(manager.system_ids(), vec![SystemId::Stop, SystemId::Store]);
    assert_eq!(manager.into_systems(), vec![(1, SystemId::Stop), (2, SystemId::Store)]);
}

#[test]
fn network_system_answers_pings() {
    let sent = SystemTime::UNIX_EPOCH + Duration::from_secs(5);
    let now = SystemTime::UNIX_EPOCH + Duration::from_secs(9);
    match NetworkSystem::reply(&Protocol::Ping(sent), now) {
        Some(Protocol::Pong(a, b)) => {
            assert_eq!(a, sent);
            assert_eq!(b, now);
        }
        other => panic!("unexpected reply {other:?}"),
    }
    assert!(NetworkSystem::reply(&Protocol::RequestSync, now).is_none());
}

#[test]
fn camera_lines_like_str_lines() {
    for text in ["", "a", "a\n", "a\r\nb", "a\n\nb\n", "\n", "x\r", "/dev/video0\n/dev/video2\n"] {
        let expected: Vec<String> = text.lines().map(|l| l.to_owned()).collect();
        assert_eq!(split_lines(text), expected, "text {text:?}");
    }
}

#[test]
fn camera_changes_stop_gone_and_start_new() {
    let last = vec!["a".to_owned(), "b".to_owned()];
    let next = vec!["b".to_owned(), "c".to_owned()];
    let (gone, new) = camera_changes(&last, &next);
    assert_eq!(gone, vec!["a".to_owned()]);
    assert_eq!(new, vec!["c".to_owned()]);
    assert_eq!(next_stream_port(FIRST_STREAM_PORT), Some(1025));
    assert_eq!(next_stream_port(u16::MAX), None);
}

#[test]
fn inertial_schedule_and_batches() {
    let p = tick_plan(40);
    assert!(p.read_inertial && p.read_mag && p.send_batch);
    let p = tick_plan(30);
    assert!(p.read_inertial && p.read_mag && !p.send_batch);
    let p = tick_plan(7);
    assert!(p.read_inertial && !p.read_mag && !p.send_batch);

    let mut batcher: SensorBatcher<u32, u32> = SensorBatcher::new();
    for i in 0..25 {
        batcher.push_inertial(i);
    }
    batcher.push_mag(100);
    assert!(batcher.take_batch().is_none());
    batcher.push_mag(101);
    batcher.push_mag(102);
    let (inertial, mag) = batcher.take_batch().unwrap();
    assert_eq!(inertial, (0..20).collect::<Vec<u32>>());
    assert_eq!(mag, vec![100, 101]);
    assert!(batcher.take_batch().is_none());
}

#[test]
fn link_keeps_live_connection() {
    let mut link: Link<u32> = Link::new();
    assert!(link.on_accepted(1, false));
    assert!(!link.on_accepted(2, false));
    assert_eq!(link.connection(), Some(&1));
    assert!(link.on_accepted(3, true));
    if let Some(c) = link.connection_mut() {
        *c = 4;
    }
    assert_eq!(link.connection(), Some(&4));
    link.drop_connection();
    assert!(link.connection_mut().is_none());
    link.on_connected(5);
    assert_eq!(link.connection(), Some(&5));
}

#[test]
fn spi_command_bytes() {
    assert_eq!(mag_read_command(0x28), 0xE8);
    assert_eq!(mag_write_command(0x20), 0x60);
    assert_eq!(inertial_read_command(0x0F), 0x8F);
    assert_eq!(inertial_write_command(0x90), 0x10);
}
