//! Voxel world core: dense chunk storage, deterministic terrain generation,
//! a connection-oriented session layer over unreliable datagrams, and a
//! fixed-point position primitive for replicated entity state.

pub mod address;
pub mod channel;
pub mod codec;
pub mod data_uri;
pub mod generation;
pub mod marker;
pub mod position;
pub mod registry;
pub mod scene;
pub mod session;
pub mod storage;
