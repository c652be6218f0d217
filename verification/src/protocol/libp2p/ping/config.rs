//! Ping configuration.

use crate::protocol::ProtocolCodec;
use crate::types::ProtocolName;
use vstd::prelude::*;

verus! {

/// IPFS Ping protocol name as a string.
pub const PROTOCOL_NAME: &'static str = "/ipfs/ping/1.0.0";

/// Size for `/ipfs/ping/1.0.0` payloads.
pub const PING_PAYLOAD_SIZE: usize = 32;

/// Maximum PING failures.
pub const MAX_FAILURES: usize = 3;

/// Ping configuration.
#[derive(Debug, PartialEq, Eq)]
pub struct PingConfig {
    /// Protocol name.
    pub protocol: ProtocolName,
    /// Codec used by the protocol.
    pub codec: ProtocolCodec,
    /// Maximum failures before the peer is considered unreachable.
    pub max_failures: usize,
    /// Should the connection be kept alive using PING.
    pub keep_alive: bool,
}

impl Default for PingConfig {
    /// Create new [`PingConfig`] with default values.
    fn default() -> (r: Self)
        ensures
            r.protocol@ == PROTOCOL_NAME@,
            r.codec == ProtocolCodec::Identity(PING_PAYLOAD_SIZE),
            r.max_failures == MAX_FAILURES,
            !r.keep_alive,
    {
        PingConfig {
            protocol: ProtocolName::from_name(PROTOCOL_NAME.to_string()),
            codec: ProtocolCodec::Identity(PING_PAYLOAD_SIZE),
            max_failures: MAX_FAILURES,
            keep_alive: false,
        }
    }
}

impl PingConfig {
    /// Create new [`PingConfig`] with a number of failures.
    pub fn new(max_failures: usize) -> (r: Self)
        ensures
            r.protocol@ == PROTOCOL_NAME@,
            r.codec == ProtocolCodec::Identity(PING_PAYLOAD_SIZE),
            r.max_failures == max_failures,
            !r.keep_alive,
    {
        PingConfigBuilder::new().with_max_failure(max_failures).build()
    }
}

/// PING configuration builder.
#[derive(Debug, PartialEq, Eq)]
pub struct PingConfigBuilder {
    /// Protocol name.
    pub protocol: ProtocolName,
    /// Codec used by the protocol.
    pub codec: ProtocolCodec,
    /// Maximum failures before the peer is considered unreachable.
    pub max_failures: usize,
    /// Should the connection be kept alive using PING.
    pub keep_alive: bool,
}

impl PingConfigBuilder {
    /// Create new default [`PingConfig`] which can be modified by the user.
    pub fn new() -> (r: Self)
        ensures
            r.protocol@ == PROTOCOL_NAME@,
            r.codec == ProtocolCodec::Identity(PING_PAYLOAD_SIZE),
            r.max_failures == MAX_FAILURES,
            !r.keep_alive,
    {
        PingConfigBuilder {
            protocol: ProtocolName::from_name(PROTOCOL_NAME.to_string()),
            codec: ProtocolCodec::Identity(PING_PAYLOAD_SIZE),
            max_failures: MAX_FAILURES,
            keep_alive: false,
        }
    }

    /// Set maximum failures the protocol.
    pub fn with_max_failure(self, max_failures: usize) -> (r: Self)
        ensures
            r == (PingConfigBuilder { max_failures, ..self }),
    {
        PingConfigBuilder { max_failures, ..self }
    }

    /// Set keep alive mode for the protocol.
    pub fn with_keep_alive(self, keep_alive: bool) -> (r: Self)
        ensures
            r == (PingConfigBuilder { keep_alive, ..self }),
    {
        PingConfigBuilder { keep_alive, ..self }
    }

    /// Build [`PingConfig`].
    pub fn build(self) -> (r: PingConfig)
        ensures
            r == (PingConfig {
                protocol: self.protocol,
                codec: self.codec,
                max_failures: self.max_failures,
                keep_alive: self.keep_alive,
            }),
    {
        PingConfig {
            protocol: self.protocol,
            codec: self.codec,
            max_failures: self.max_failures,
            keep_alive: self.keep_alive,
        }
    }
}

} // verus!
