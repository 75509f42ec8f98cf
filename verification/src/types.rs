//! Plain data shared by the robot and the surface.

use vstd::prelude::*;
use std::time::SystemTime;

verus! {

#[verifier::external_type_specification]
#[verifier::external_body]
pub struct ExSystemTime(SystemTime);

/// How important a logged message is.
#[derive(Debug, Clone, Copy, PartialEq, Eq, Structural)]
pub enum LogLevel {
    Debug,
    Info,
    Warn,
    Error,
}

/// The entries of the small key-value channel for data that has no packet of
/// its own.
#[derive(Debug, Clone, Copy, PartialEq, Eq, Hash, Structural)]
pub enum Key {
    SystemInfo,
    Cameras,
}

/// Memory use of the robot's computer, in bytes.
#[derive(Debug, Clone, Copy, PartialEq, Eq, Structural)]
pub struct Memory {
    pub total_mem: u64,
    pub used_mem: u64,
    pub free_mem: u64,

    pub total_swap: u64,
    pub used_swap: u64,
    pub free_swap: u64,
}

/// A disk of the robot's computer.
#[derive(Debug, Clone, PartialEq, Eq)]
pub struct Disk {
    pub name: String,
    pub mount_point: String,
    pub total_space: u64,
    pub available_space: u64,
    pub removable: bool,
}

/// The messages between the robot and the surface.
#[derive(Debug)]
pub enum Protocol {
    /// Updates an entry of the peer's store: the key, and the encoded value or
    /// `None` for a removal.
    Store(String, Option<Vec<u8>>),
    /// Asks the peer to publish all its entries again.
    RequestSync,
    /// Logs a message on the peer's console.
    Log(LogLevel, String),
    /// Asks the peer to answer with a pong, to measure the latency.
    Ping(SystemTime),
    /// Answers a ping: its time, and the time of the answer.
    Pong(SystemTime, SystemTime),
}

} // verus!
