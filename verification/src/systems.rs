//! The decisions of the robot's systems. Each system runs threads that react
//! to events on the bus and to timer ticks; what a system does with an event
//! is decided here, from the kind of the event and the system's state, and
//! the threads carry it out.

use vstd::prelude::*;
use crate::events::SystemId;
use crate::types::Protocol;
use std::time::SystemTime;

verus! {

/// Stops the robot on ctrl-c.
pub struct StopSystem;

impl StopSystem {
    /// The system's id on the event bus.
    pub const ID: SystemId = SystemId::Stop;
}

/// Logs every event on the bus.
pub struct LogEventSystem;

impl LogEventSystem {
    /// The system's id on the event bus.
    pub const ID: SystemId = SystemId::LogEvents;
}

/// Reports errors to the surface.
pub struct ErrorSystem;

impl ErrorSystem {
    /// The system's id on the event bus.
    pub const ID: SystemId = SystemId::Error;
}

/// Carries store updates between the bus and the surface.
pub struct StoreSystem;

impl StoreSystem {
    /// The system's id on the event bus.
    pub const ID: SystemId = SystemId::Store;
}

/// Talks to the surface.
pub struct NetworkSystem;

impl NetworkSystem {
    /// The system's id on the event bus.
    pub const ID: SystemId = SystemId::Network;
}

/// Publishes statistics of the robot's computer.
pub struct HwStatSystem;

impl HwStatSystem {
    /// The system's id on the event bus.
    pub const ID: SystemId = SystemId::HwStatus;
}

/// Publishes the robot's status.
pub struct StatusSystem;

impl StatusSystem {
    /// The system's id on the event bus.
    pub const ID: SystemId = SystemId::RobotStatus;
}

/// Drives the thrusters and servos.
pub struct MotorSystem;

impl MotorSystem {
    /// The system's id on the event bus.
    pub const ID: SystemId = SystemId::Motor;
}

/// Shows the status on the status light.
pub struct IndicatorsSystem;

impl IndicatorsSystem {
    /// The system's id on the event bus.
    pub const ID: SystemId = SystemId::Indicators;
}

/// Watches the leak sensor.
pub struct LeakSystem;

impl LeakSystem {
    /// The system's id on the event bus.
    pub const ID: SystemId = SystemId::Leak;
}

/// Samples the inertial sensor and the magnetometer.
pub struct InertialSystem;

impl InertialSystem {
    /// The system's id on the event bus.
    pub const ID: SystemId = SystemId::Inertial;
}

/// Fuses the sensor batches into an orientation.
pub struct OrientationSystem;

impl OrientationSystem {
    /// The system's id on the event bus.
    pub const ID: SystemId = SystemId::Orientation;
}

/// Holds the requested depth.
pub struct DepthControlSystem;

impl DepthControlSystem {
    /// The system's id on the event bus.
    pub const ID: SystemId = SystemId::DepthControl;
}

/// Keeps the robot level.
pub struct LevelingSystem;

impl LevelingSystem {
    /// The system's id on the event bus.
    pub const ID: SystemId = SystemId::Leveling;
}

/// Samples the depth sensor.
pub struct DepthSystem;

impl DepthSystem {
    /// The system's id on the event bus.
    pub const ID: SystemId = SystemId::Depth;
}

/// Streams the cameras to the surface.
pub struct CameraSystem;

impl CameraSystem {
    /// The system's id on the event bus.
    pub const ID: SystemId = SystemId::Camera;
}

impl NetworkSystem {
    /// The network system's answer to a packet from the surface received at
    /// `now`: a ping is answered with a pong carrying both times; nothing else
    /// is answered.
    pub fn reply(packet: &Protocol, now: SystemTime) -> (r: Option<Protocol>)
        ensures
            r == (match *packet {
                Protocol::Ping(sent) => Some(Protocol::Pong(sent, now)),
                _ => None,
            }),
    {
        match packet {
            Protocol::Ping(sent) => Some(Protocol::Pong(*sent, now)),
            _ => None,
        }
    }
}

/// What a system sees of an event on the bus: its kind.
#[derive(Debug, Clone, Copy, PartialEq, Eq, Structural)]
pub enum BusEvent {
    PeerConnected,
    PeerDisconnected,
    PacketTx,
    PacketRx,
    Store,
    SyncStore,
    ResetForeignStore,
    SensorFrame,
    Error,
    Exit,
}

/// What a system's watcher thread does with an event.
#[derive(Debug, Clone, Copy, PartialEq, Eq, Structural)]
pub enum Watch {
    /// Hands the event to the system's worker.
    Forward,
    /// Drops the event.
    Ignore,
    /// Tells the worker to exit, and stops watching.
    Stop,
}

/// Whether an event carries store traffic: an update, a resync or a reset of
/// the entries the other side shares.
pub open spec fn is_store_traffic(e: BusEvent) -> bool {
    e == BusEvent::Store || e == BusEvent::SyncStore || e == BusEvent::ResetForeignStore
}

/// The watcher of a controller system (leveling, depth hold): it forwards
/// store traffic and stops at exit.
pub fn control_watch(e: BusEvent) -> (w: Watch)
    ensures
        w == (if e == BusEvent::Exit { Watch::Stop } else if is_store_traffic(e) { Watch::Forward } else { Watch::Ignore }),
{
    match e {
        BusEvent::Exit => Watch::Stop,
        BusEvent::Store | BusEvent::SyncStore | BusEvent::ResetForeignStore => Watch::Forward,
        _ => Watch::Ignore,
    }
}

/// The watcher of the motor system: it forwards the store updates of keys the
/// motors listen to, resyncs and resets, and stops at exit.
pub fn motor_watch(e: BusEvent, listened_key: bool) -> (w: Watch)
    ensures
        w == (if e == BusEvent::Exit { Watch::Stop }
            else if e == BusEvent::SyncStore || e == BusEvent::ResetForeignStore || (e == BusEvent::Store && listened_key) { Watch::Forward }
            else { Watch::Ignore }),
{
    match e {
        BusEvent::Exit => Watch::Stop,
        BusEvent::SyncStore | BusEvent::ResetForeignStore => Watch::Forward,
        BusEvent::Store => if listened_key { Watch::Forward } else { Watch::Ignore },
        _ => Watch::Ignore,
    }
}

/// The watcher of the camera system: it stops at exit or once the robot is
/// shutting down, and forwards new peers and resyncs.
pub fn camera_watch(e: BusEvent, world_stopped: bool) -> (w: Watch)
    ensures
        w == (if world_stopped || e == BusEvent::Exit { Watch::Stop }
            else if e == BusEvent::PeerConnected || e == BusEvent::SyncStore { Watch::Forward }
            else { Watch::Ignore }),
{
    if world_stopped {
        return Watch::Stop;
    }
    match e {
        BusEvent::Exit => Watch::Stop,
        BusEvent::PeerConnected | BusEvent::SyncStore => Watch::Forward,
        _ => Watch::Ignore,
    }
}

/// What a worker does to its copy of the store for an event.
#[derive(Debug, Clone, Copy, PartialEq, Eq, Structural)]
pub enum StoreSync {
    /// Publishes every owned entry again.
    Refresh,
    /// Forgets the entries the other side shares.
    ResetShared,
    /// Applies the update the event carries.
    Apply,
    /// Leaves the store alone.
    Keep,
}

/// What store traffic does to a worker's copy of the store.
pub fn store_sync(e: BusEvent) -> (s: StoreSync)
    ensures
        s == (match e {
            BusEvent::SyncStore => StoreSync::Refresh,
            BusEvent::ResetForeignStore => StoreSync::ResetShared,
            BusEvent::Store => StoreSync::Apply,
            _ => StoreSync::Keep,
        }),
{
    match e {
        BusEvent::SyncStore => StoreSync::Refresh,
        BusEvent::ResetForeignStore => StoreSync::ResetShared,
        BusEvent::Store => StoreSync::Apply,
        _ => StoreSync::Keep,
    }
}

/// What a controller does on a tick.
#[derive(Debug, Clone, Copy, PartialEq, Eq, Structural)]
pub enum ControlStep {
    /// Runs the controller and publishes its correction.
    Run,
    /// Resets the controller and withdraws its movement request.
    Reset,
}

/// A controller runs on a tick only when its mode is present and enabled and
/// a measurement is present; otherwise it starts over and withdraws its
/// request. `mode` is `None` when no mode is set, else whether it is enabled.
pub fn control_step(mode: Option<bool>, has_measurement: bool) -> (s: ControlStep)
    ensures
        s == (if mode == Some(true) && has_measurement { ControlStep::Run } else { ControlStep::Reset }),
{
    match mode {
        Some(true) => if has_measurement { ControlStep::Run } else { ControlStep::Reset },
        _ => ControlStep::Reset,
    }
}

/// What the store system does with an event.
#[derive(Debug, Clone, Copy, PartialEq, Eq, Structural)]
pub enum StoreAction {
    /// Decodes a received value and puts it on the bus as a store update.
    Decode,
    /// Puts a received removal on the bus as a store update.
    ForwardRemoval,
    /// Encodes a local update and sends it to the surface.
    Encode,
    /// Sends a local removal to the surface.
    SendRemoval,
    /// Reports that the key has no serialization adapter.
    UnknownKey,
    /// Resets the entries the surface shared, then asks for a resync.
    ResetAndResync,
    /// Asks every system to publish its entries again.
    Resync,
    /// Stops the system.
    Stop,
    /// Nothing.
    Nothing,
}

/// The traffic the store system handles.
#[derive(Debug, Clone, Copy, PartialEq, Eq, Structural)]
pub enum StoreTraffic {
    /// A store packet from the surface; whether it carries a value.
    Received(bool),
    /// A store update on the bus; whether it carries a value.
    Published(bool),
    /// The surface went away.
    PeerDisconnected,
    /// The surface asked for a resync.
    SyncRequested,
    /// The robot is shutting down.
    Exit,
    /// Anything else.
    Other,
}

/// The store system's routing: store traffic for a key without an adapter is
/// reported; otherwise values are decoded on the way in and encoded on the way
/// out, and removals pass as they are.
pub fn store_action(t: StoreTraffic, key_adapted: bool) -> (a: StoreAction)
    ensures
        a == (match t {
            StoreTraffic::Received(v) => if !key_adapted { StoreAction::UnknownKey }
                else if v { StoreAction::Decode } else { StoreAction::ForwardRemoval },
            StoreTraffic::Published(v) => if !key_adapted { StoreAction::UnknownKey }
                else if v { StoreAction::Encode } else { StoreAction::SendRemoval },
            StoreTraffic::PeerDisconnected => StoreAction::ResetAndResync,
            StoreTraffic::SyncRequested => StoreAction::Resync,
            StoreTraffic::Exit => StoreAction::Stop,
            StoreTraffic::Other => StoreAction::Nothing,
        }),
{
    match t {
        StoreTraffic::Received(v) => {
            if !key_adapted {
                StoreAction::UnknownKey
            } else if v {
                StoreAction::Decode
            } else {
                StoreAction::ForwardRemoval
            }
        },
        StoreTraffic::Published(v) => {
            if !key_adapted {
                StoreAction::UnknownKey
            } else if v {
                StoreAction::Encode
            } else {
                StoreAction::SendRemoval
            }
        },
        StoreTraffic::PeerDisconnected => StoreAction::ResetAndResync,
        StoreTraffic::SyncRequested => StoreAction::Resync,
        StoreTraffic::Exit => StoreAction::Stop,
        StoreTraffic::Other => StoreAction::Nothing,
    }
}

/// The robot's status, without the speed of the moving state.
#[derive(Debug, Clone, Copy, PartialEq, Eq, Structural)]
pub enum StatusKind {
    /// No surface is connected.
    NoPeer,
    /// A surface is connected and the motors are disarmed.
    Disarmed,
    /// A surface is connected and the motors are armed.
    Ready,
    /// The motors are armed and turning.
    Moving,
}

/// The status from the number of connected surfaces, whether a fresh arming
/// state says armed, and whether fresh motor speeds are present.
pub open spec fn status_of(peers: int, armed: bool, moving: bool) -> StatusKind {
    if peers == 0 {
        StatusKind::NoPeer
    } else if !armed {
        StatusKind::Disarmed
    } else if moving {
        StatusKind::Moving
    } else {
        StatusKind::Ready
    }
}

/// The status system's state: how many surfaces are connected.
pub struct StatusTracker {
    peers: i32,
}

impl StatusTracker {
    /// The number of connected surfaces.
    pub closed spec fn peer_count(&self) -> int {
        self.peers as int
    }

    /// No surface connected yet.
    pub fn new() -> (t: Self)
        ensures
            t.peer_count() == 0,
    {
        StatusTracker { peers: 0 }
    }

    /// Counts a surface in or out and says whether the status must be
    /// computed again: after a peer change, a store update or an error.
    pub fn on_event(&mut self, e: BusEvent) -> (recompute: bool)
        requires
            i32::MIN < old(self).peer_count() < i32::MAX,
        ensures
            final(self).peer_count() == old(self).peer_count()
                + (if e == BusEvent::PeerConnected { 1int } else if e == BusEvent::PeerDisconnected { -1int } else { 0int }),
            recompute == (e == BusEvent::PeerConnected || e == BusEvent::PeerDisconnected
                || e == BusEvent::Store || e == BusEvent::Error),
    {
        match e {
            BusEvent::PeerConnected => {
                self.peers = self.peers + 1;
                true
            },
            BusEvent::PeerDisconnected => {
                self.peers = self.peers - 1;
                true
            },
            BusEvent::Store | BusEvent::Error => true,
            _ => false,
        }
    }

    /// The status, from whether a fresh arming state says armed and whether
    /// fresh motor speeds are present.
    pub fn status(&self, armed: bool, moving: bool) -> (s: StatusKind)
        ensures
            s == status_of(self.peer_count(), armed, moving),
    {
        if self.peers == 0 {
            StatusKind::NoPeer
        } else if !armed {
            StatusKind::Disarmed
        } else if moving {
            StatusKind::Moving
        } else {
            StatusKind::Ready
        }
    }
}

/// Status law: the robot reports no peer exactly when none is connected, and
/// reports moving only while armed.
pub proof fn lemma_status_consistent(peers: int, armed: bool, moving: bool)
    ensures
        (status_of(peers, armed, moving) == StatusKind::NoPeer) <==> peers == 0,
        status_of(peers, armed, moving) == StatusKind::Moving ==> armed && moving,
        status_of(peers, armed, moving) == StatusKind::Disarmed ==> !armed,
{
}

/// The registered systems, each with what starts it.
pub struct SystemManager<F> {
    systems: Vec<(F, SystemId)>,
}

impl<F> SystemManager<F> {
    /// The ids of the registered systems, in the order of registration.
    pub closed spec fn ids(&self) -> Seq<SystemId> {
        self.systems@.map_values(|s: (F, SystemId)| s.1)
    }

    /// The registered systems, in order.
    pub closed spec fn entries(&self) -> Seq<(F, SystemId)> {
        self.systems@
    }

    /// No system is registered twice, so every system gets its own handle on
    /// the event bus.
    pub closed spec fn wf(&self) -> bool {
        crate::events::distinct_ids(self.ids())
    }

    /// No system registered yet.
    pub fn new() -> (m: Self)
        ensures
            m.wf(),
            m.entries() == Seq::<(F, SystemId)>::empty(),
            m.ids() == Seq::<SystemId>::empty(),
    {
        let m = SystemManager { systems: Vec::new() };
        assert(m.ids() =~= Seq::<SystemId>::empty());
        m
    }

    /// Registers a system. A system is registered at most once.
    pub fn add_system(&mut self, start: F, id: SystemId)
        requires
            old(self).wf(),
            !old(self).ids().contains(id),
        ensures
            final(self).wf(),
            final(self).entries() == old(self).entries().push((start, id)),
            final(self).ids() == old(self).ids().push(id),
    {
        self.systems.push((start, id));
        assert(self.ids() =~= old(self).ids().push(id));
        assert forall|i: int, j: int| 0 <= i < j < self.ids().len() implies self.ids()[i] != self.ids()[j] by {
            if j == old(self).ids().len() {
                assert(old(self).ids()[i] == self.ids()[i]);
            }
        }
    }

    /// Whether `id` is registered.
    pub fn contains(&self, id: SystemId) -> (r: bool)
        ensures
            r == self.ids().contains(id),
    {
        let n = self.systems.len();
        let mut i: usize = 0;
        while i < n
            invariant
                i <= n,
                n == self.systems.len(),
                forall|j: int| 0 <= j < i ==> self.ids()[j] != id,
            decreases n - i,
        {
            if self.systems[i].1 == id {
                assert(self.ids()[i as int] == id);
                return true;
            }
            i = i + 1;
        }
        false
    }

    /// The ids of the registered systems, in order.
    pub fn system_ids(&self) -> (ids: Vec<SystemId>)
        ensures
            ids@ == self.ids(),
            self.wf() ==> crate::events::distinct_ids(ids@),
    {
        let mut ids: Vec<SystemId> = Vec::new();
        let n = self.systems.len();
        let mut i: usize = 0;
        while i < n
            invariant
                i <= n,
                n == self.systems.len(),
                ids@ == self.ids().subrange(0, i as int),
            decreases n - i,
        {
            ids.push(self.systems[i].1);
            assert(ids@ =~= self.ids().subrange(0, i + 1));
            i = i + 1;
        }
        assert(self.ids().subrange(0, n as int) =~= self.ids());
        ids
    }

    /// Hands out the registered systems, in order.
    pub fn into_systems(self) -> (systems: Vec<(F, SystemId)>)
        ensures
            systems@ == self.entries(),
    {
        self.systems
    }
}

} // verus!
