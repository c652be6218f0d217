//! Bitswap configuration.

use crate::protocol::ProtocolCodec;
use crate::types::ProtocolName;
use vstd::prelude::*;

verus! {

/// IPFS Bitswap protocol name as a string.
pub const PROTOCOL_NAME: &'static str = "/ipfs/bitswap/1.2.0";

/// Size for `/ipfs/bitswap/1.2.0` payloads.
pub const PAYLOAD_SIZE: usize = 2_097_152;

/// Bitswap configuration.
#[derive(Debug, PartialEq, Eq)]
pub struct BitswapConfig {
    /// Protocol name.
    pub protocol_name: ProtocolName,
    /// Protocol codec.
    pub codec: ProtocolCodec,
}

/// Bitswap configuration builder.
#[derive(Debug, PartialEq, Eq)]
pub struct BitswapConfigBuilder {
    /// Protocol name.
    pub protocol_name: ProtocolName,
}

impl BitswapConfigBuilder {
    /// Create new [`BitswapConfigBuilder`].
    pub fn new() -> (r: Self)
        ensures
            r.protocol_name@ == PROTOCOL_NAME@,
    {
        BitswapConfigBuilder { protocol_name: ProtocolName::from_name(PROTOCOL_NAME.to_string()) }
    }

    /// Build [`BitswapConfig`].
    pub fn build(self) -> (r: BitswapConfig)
        ensures
            r.protocol_name == self.protocol_name,
            r.codec == ProtocolCodec::UnsignedVarint(Some(PAYLOAD_SIZE)),
    {
        BitswapConfig {
            protocol_name: self.protocol_name,
            codec: ProtocolCodec::UnsignedVarint(Some(PAYLOAD_SIZE)),
        }
    }
}

} // verus!
