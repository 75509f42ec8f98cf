use mate::events::{EventHandle, SystemId};

fn handles(ids: Vec<SystemId>) -> Vec<(SystemId, EventHandle<u32>)> {
    EventHandle::create(ids)
}

#[test]
fn create_gives_one_handle_per_system() {
    let hs = handles(vec![SystemId::Motor, SystemId::Store, SystemId::Camera]);
    assert_eq!(hs.len(), 3);
    assert_eq!(hs[0].0, SystemId::Motor);
    assert_eq!(hs[1].1.id(), SystemId::Store);
    assert!(hs[2].1.listner().is_some());
}

#[test]
fn send_reaches_every_other_system_but_not_the_sender() {
    let mut hs = handles(vec![SystemId::Motor, SystemId::Store, SystemId::Camera]);
    let (_, mut camera) = hs.pop().unwrap();
    let (_, store) = hs.pop().unwrap();
    let (_, mut motor) = hs.pop().unwrap();
    motor.send(42);
    let at_store = store.listner().unwrap().try_recv().unwrap();
    assert_eq!(*at_store, 42);
    let camera_rx = camera.take_listner().unwrap();
    assert_eq!(*camera_rx.try_recv().unwrap(), 42);
    assert!(camera.listner().is_none());
    assert!(motor.listner().unwrap().try_recv().is_err());
}

#[test]
fn send_to_reaches_only_the_named_systems() {
    let mut hs = handles(vec![SystemId::Inertial, SystemId::Orientation, SystemId::Leak]);
    let (_, leak) = hs.pop().unwrap();
    let (_, orientation) = hs.pop().unwrap();
    let (_, mut inertial) = hs.pop().unwrap();
    inertial.send_to(7, vec![SystemId::Orientation, SystemId::Camera]);
    assert_eq!(*orientation.listner().unwrap().try_recv().unwrap(), 7);
    assert!(leak.listner().unwrap().try_recv().is_err());
}

#[test]
fn gone_systems_are_no_longer_reached() {
    let mut hs = handles(vec![SystemId::Error, SystemId::Network]);
    let (_, network) = hs.pop().unwrap();
    let (_, mut error) = hs.pop().unwrap();
    drop(network);
    error.send(1);
    error.send(2);
    let clone = error.clone();
    assert_eq!(clone.id(), SystemId::Error);
    assert!(clone.listner().is_some());
}

#[test]
fn full_queue_drops_events() {
    let mut hs = handles(vec![SystemId::Depth, SystemId::Leveling]);
    let (_, leveling) = hs.pop().unwrap();
    let (_, mut depth) = hs.pop().unwrap();
    for i in 0..60u32 {
        depth.send(i);
    }
    let rx = leveling.listner().unwrap();
    let received: Vec<u32> = rx.try_iter().map(|e| *e).collect();
    assert_eq!(received, (0..50).collect::<Vec<u32>>());
}
