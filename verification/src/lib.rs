//! Verified core of the Sea Owls underwater robot software: byte streams,
//! framing, the shared key-value store, sensor decoding and the decision
//! logic of the robot's systems.

pub mod cameras;
pub mod depth;
pub mod events;
pub mod framing;
pub mod indicators;
pub mod key;
pub mod keyed;
pub mod link;
pub mod lis3mdl;
pub mod motor;
pub mod net;
pub mod peer;
pub mod peripheral;
pub mod sensors;
pub mod spi;
pub mod state;
pub mod store;
pub mod stream;
pub mod systems;
pub mod tokens;
pub mod types;
pub mod worker;
