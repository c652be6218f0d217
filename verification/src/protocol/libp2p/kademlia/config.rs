//! Kademlia configuration.

use super::handle::{IncomingRecordValidationMode, RoutingTableUpdateMode};
use crate::address::Multiaddr;
use crate::peer_id::PeerId;
use crate::protocol::ProtocolCodec;
use crate::types::ProtocolName;
use vstd::prelude::*;

verus! {

/// Default TTL for the records, in seconds: 36 hours.
pub const DEFAULT_TTL: u64 = 129_600;

/// Kademlia replication factor.
pub const REPLICATION_FACTOR: usize = 20;

/// Protocol name.
fn default_protocol_name() -> (r: ProtocolName)
    ensures
        r@ == "/ipfs/kad/1.0.0"@,
{
    ProtocolName::from_name("/ipfs/kad/1.0.0".to_string())
}

/// Kademlia configuration.
pub struct Config {
    /// Protocol names.
    pub protocol_names: Vec<ProtocolName>,
    /// Protocol codec.
    pub codec: ProtocolCodec,
    /// Replication factor.
    pub replication_factor: usize,
    /// Known peers.
    pub known_peers: Vec<(PeerId, Vec<Multiaddr>)>,
    /// Routing table update mode.
    pub update_mode: RoutingTableUpdateMode,
    /// Incoming records validation mode.
    pub validation_mode: IncomingRecordValidationMode,
    /// Default record TTL, in seconds.
    pub record_ttl: u64,
}

impl Config {
    /// Whether the configuration has the given names, or the default one in place of none.
    pub open spec fn has_names(self, names: Seq<ProtocolName>) -> bool {
        if names.len() == 0 {
            self.protocol_names@.len() == 1 && self.protocol_names@[0]@ == "/ipfs/kad/1.0.0"@
        } else {
            self.protocol_names@ == names
        }
    }

    fn new(
        replication_factor: usize,
        known_peers: Vec<(PeerId, Vec<Multiaddr>)>,
        protocol_names: Vec<ProtocolName>,
        update_mode: RoutingTableUpdateMode,
        validation_mode: IncomingRecordValidationMode,
        record_ttl: u64,
    ) -> (r: Self)
        ensures
            r.has_names(protocol_names@),
            r.codec == ProtocolCodec::UnsignedVarint(None),
            r.replication_factor == replication_factor,
            r.known_peers == known_peers,
            r.update_mode == update_mode,
            r.validation_mode == validation_mode,
            r.record_ttl == record_ttl,
    {
        let mut protocol_names = protocol_names;
        // if no protocol names were provided, use the default protocol
        if protocol_names.len() == 0 {
            protocol_names.push(default_protocol_name());
        }
        Config {
            protocol_names,
            codec: ProtocolCodec::UnsignedVarint(None),
            replication_factor,
            known_peers,
            update_mode,
            validation_mode,
            record_ttl,
        }
    }

    /// Build default Kademlia configuration.
    pub fn default() -> (r: Self)
        ensures
            r.has_names(Seq::empty()),
            r.codec == ProtocolCodec::UnsignedVarint(None),
            r.replication_factor == REPLICATION_FACTOR,
            r.known_peers@.len() == 0,
            r.update_mode == RoutingTableUpdateMode::Automatic,
            r.validation_mode == IncomingRecordValidationMode::Automatic,
            r.record_ttl == DEFAULT_TTL,
    {
        Config::new(
            REPLICATION_FACTOR,
            Vec::new(),
            Vec::new(),
            RoutingTableUpdateMode::Automatic,
            IncomingRecordValidationMode::Automatic,
            DEFAULT_TTL,
        )
    }
}

/// Configuration builder for Kademlia.
pub struct ConfigBuilder {
    /// Replication factor.
    pub replication_factor: usize,
    /// Routing table update mode.
    pub update_mode: RoutingTableUpdateMode,
    /// Incoming records validation mode.
    pub validation_mode: IncomingRecordValidationMode,
    /// Known peers.
    pub known_peers: Vec<(PeerId, Vec<Multiaddr>)>,
    /// Protocol names.
    pub protocol_names: Vec<ProtocolName>,
    /// Default TTL for the records, in seconds.
    pub record_ttl: u64,
}

impl Default for ConfigBuilder {
    fn default() -> (r: Self)
        ensures
            r.replication_factor == REPLICATION_FACTOR,
            r.update_mode == RoutingTableUpdateMode::Automatic,
            r.validation_mode == IncomingRecordValidationMode::Automatic,
            r.known_peers@.len() == 0,
            r.protocol_names@.len() == 0,
            r.record_ttl == DEFAULT_TTL,
    {
        ConfigBuilder::new()
    }
}

impl ConfigBuilder {
    /// Create new [`ConfigBuilder`].
    pub fn new() -> (r: Self)
        ensures
            r.replication_factor == REPLICATION_FACTOR,
            r.update_mode == RoutingTableUpdateMode::Automatic,
            r.validation_mode == IncomingRecordValidationMode::Automatic,
            r.known_peers@.len() == 0,
            r.protocol_names@.len() == 0,
            r.record_ttl == DEFAULT_TTL,
    {
        ConfigBuilder {
            replication_factor: REPLICATION_FACTOR,
            known_peers: Vec::new(),
            protocol_names: Vec::new(),
            update_mode: RoutingTableUpdateMode::Automatic,
            validation_mode: IncomingRecordValidationMode::Automatic,
            record_ttl: DEFAULT_TTL,
        }
    }

    /// Set replication factor.
    pub fn with_replication_factor(self, replication_factor: usize) -> (r: Self)
        ensures
            r == (ConfigBuilder { replication_factor, ..self }),
    {
        let mut r = self;
        r.replication_factor = replication_factor;
        r
    }

    /// Seed Kademlia with one or more known peers.
    pub fn with_known_peers(self, peers: Vec<(PeerId, Vec<Multiaddr>)>) -> (r: Self)
        ensures
            r == (ConfigBuilder { known_peers: peers, ..self }),
    {
        let mut r = self;
        r.known_peers = peers;
        r
    }

    /// Set routing table update mode.
    pub fn with_routing_table_update_mode(self, mode: RoutingTableUpdateMode) -> (r: Self)
        ensures
            r == (ConfigBuilder { update_mode: mode, ..self }),
    {
        let mut r = self;
        r.update_mode = mode;
        r
    }

    /// Set incoming records validation mode.
    pub fn with_incoming_records_validation_mode(
        self,
        mode: IncomingRecordValidationMode,
    ) -> (r: Self)
        ensures
            r == (ConfigBuilder { validation_mode: mode, ..self }),
    {
        let mut r = self;
        r.validation_mode = mode;
        r
    }

    /// Set Kademlia protocol names, overriding the default protocol name.
    ///
    /// The order of the protocol names signifies preference so if, for example, there are two
    /// protocols:
    ///  * `/kad/2.0.0`
    ///  * `/kad/1.0.0`
    ///
    /// Where `/kad/2.0.0` is the preferred version, then that should be in `protocol_names` before
    /// `/kad/1.0.0`.
    pub fn with_protocol_names(self, protocol_names: Vec<ProtocolName>) -> (r: Self)
        ensures
            r == (ConfigBuilder { protocol_names, ..self }),
    {
        let mut r = self;
        r.protocol_names = protocol_names;
        r
    }

    /// Set default TTL for the records, in seconds.
    ///
    /// If unspecified, the default TTL is 36 hours.
    pub fn with_record_ttl(self, record_ttl: u64) -> (r: Self)
        ensures
            r == (ConfigBuilder { record_ttl, ..self }),
    {
        let mut r = self;
        r.record_ttl = record_ttl;
        r
    }

    /// Build Kademlia [`Config`].
    pub fn build(self) -> (r: Config)
        ensures
            r.has_names(self.protocol_names@),
            r.codec == ProtocolCodec::UnsignedVarint(None),
            r.replication_factor == self.replication_factor,
            r.known_peers == self.known_peers,
            r.update_mode == self.update_mode,
            r.validation_mode == self.validation_mode,
            r.record_ttl == self.record_ttl,
    {
        Config::new(
            self.replication_factor,
            self.known_peers,
            self.protocol_names,
            self.update_mode,
            self.validation_mode,
            self.record_ttl,
        )
    }
}

} // verus!
