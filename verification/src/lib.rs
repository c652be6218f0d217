//! Peer-to-peer networking protocols.

pub mod address;
pub mod collections;
pub mod error;
pub mod noise;
pub mod peer_id;
pub mod protocol;
pub mod random;
pub mod time;
pub mod types;
pub mod varint;
