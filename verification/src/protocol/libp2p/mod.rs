//! Protocols of libp2p.

pub mod bitswap;
pub mod identify;
pub mod kademlia;
pub mod ping;
