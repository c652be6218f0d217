//! Kademlia.

pub mod bucket;
pub mod config;
pub mod distance_map;
pub mod executor;
pub mod flows;
pub mod handle;
pub mod laws;
pub mod message;
pub mod node;
pub mod query;
pub mod record;
pub mod routing_table;
pub mod schema;
pub mod search;
pub mod serving;
pub mod store;
pub mod table;
pub mod types;
pub mod u256;
