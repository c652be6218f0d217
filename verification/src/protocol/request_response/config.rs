//! Configuration of a request-response protocol.

use super::handle::RequestResponseHandle;
use crate::protocol::ProtocolCodec;
use crate::types::{ProtocolName, RequestId};
use vstd::prelude::*;

verus! {

/// Default request timeout, in nanoseconds.
pub const REQUEST_TIMEOUT: u64 = 5_000_000_000;

/// Request-response configuration.
#[derive(Debug, PartialEq, Eq)]
pub struct RequestResponseConfig {
    /// Protocol name.
    pub protocol_name: ProtocolName,
    /// Codec used by the protocol.
    pub codec: ProtocolCodec,
    /// Timeout for outbound requests and for responses, in nanoseconds.
    pub timeout: u64,
    /// Maximum concurrent inbound requests, if specified.
    pub max_concurrent_inbound_requests: Option<usize>,
}

impl RequestResponseConfig {
    /// Create new [`RequestResponseConfig`] and the handle of its protocol.
    ///
    /// At most `max_slots` inbound requests are handled at a time.
    pub fn new(protocol_name: ProtocolName, max_slots: usize) -> (r: (Self, RequestResponseHandle))
        ensures
            r.0.protocol_name == protocol_name,
            r.0.codec == ProtocolCodec::UnsignedVarint(None),
            r.0.timeout == REQUEST_TIMEOUT,
            r.0.max_concurrent_inbound_requests == Some(max_slots),
            r.1@ == RequestId(0),
    {
        (
            RequestResponseConfig {
                protocol_name,
                codec: ProtocolCodec::UnsignedVarint(None),
                timeout: REQUEST_TIMEOUT,
                max_concurrent_inbound_requests: Some(max_slots),
            },
            RequestResponseHandle::new(),
        )
    }

    /// Get protocol name.
    pub fn protocol_name(&self) -> (r: &ProtocolName)
        ensures
            *r == self.protocol_name,
    {
        &self.protocol_name
    }
}

/// Builder of a [`RequestResponseConfig`].
pub struct ConfigBuilder {
    /// Protocol name.
    protocol_name: ProtocolName,
    /// Maximum message size.
    max_message_size: Option<usize>,
    /// Timeout for outbound requests and for responses, in nanoseconds.
    timeout: u64,
    /// Maximum concurrent inbound requests.
    max_concurrent_inbound_requests: Option<usize>,
}

/// The settings that a builder has collected.
pub struct BuilderView {
    /// Protocol name.
    pub protocol_name: Seq<char>,
    /// Maximum message size.
    pub max_message_size: Option<usize>,
    /// Timeout, in nanoseconds.
    pub timeout: u64,
    /// Maximum concurrent inbound requests.
    pub max_concurrent_inbound_requests: Option<usize>,
}

impl View for ConfigBuilder {
    type V = BuilderView;

    closed spec fn view(&self) -> BuilderView {
        BuilderView {
            protocol_name: self.protocol_name@,
            max_message_size: self.max_message_size,
            timeout: self.timeout,
            max_concurrent_inbound_requests: self.max_concurrent_inbound_requests,
        }
    }
}

impl ConfigBuilder {
    /// Create new [`ConfigBuilder`].
    pub fn new(protocol_name: ProtocolName) -> (r: Self)
        ensures
            r@ == (BuilderView {
                protocol_name: protocol_name@,
                max_message_size: None,
                timeout: REQUEST_TIMEOUT,
                max_concurrent_inbound_requests: None,
            }),
    {
        ConfigBuilder {
            protocol_name,
            max_message_size: None,
            timeout: REQUEST_TIMEOUT,
            max_concurrent_inbound_requests: None,
        }
    }

    /// Set maximum message size.
    pub fn with_max_size(self, max_message_size: usize) -> (r: Self)
        ensures
            r@ == (BuilderView { max_message_size: Some(max_message_size), ..self@ }),
    {
        ConfigBuilder { max_message_size: Some(max_message_size), ..self }
    }

    /// Set timeout for outbound requests and for responses, in nanoseconds.
    pub fn with_timeout(self, timeout: u64) -> (r: Self)
        ensures
            r@ == (BuilderView { timeout, ..self@ }),
    {
        ConfigBuilder { timeout, ..self }
    }

    /// Set maximum concurrent inbound requests.
    pub fn with_max_concurrent_inbound_requests(self, max: usize) -> (r: Self)
        ensures
            r@ == (BuilderView { max_concurrent_inbound_requests: Some(max), ..self@ }),
    {
        ConfigBuilder { max_concurrent_inbound_requests: Some(max), ..self }
    }

    /// Build the configuration and the handle of its protocol.
    pub fn build(self) -> (r: (RequestResponseConfig, RequestResponseHandle))
        ensures
            r.0.protocol_name@ == self@.protocol_name,
            r.0.codec == ProtocolCodec::UnsignedVarint(self@.max_message_size),
            r.0.timeout == self@.timeout,
            r.0.max_concurrent_inbound_requests == self@.max_concurrent_inbound_requests,
            r.1@ == RequestId(0),
    {
        (
            RequestResponseConfig {
                protocol_name: self.protocol_name,
                codec: ProtocolCodec::UnsignedVarint(self.max_message_size),
                timeout: self.timeout,
                max_concurrent_inbound_requests: self.max_concurrent_inbound_requests,
            },
            RequestResponseHandle::new(),
        )
    }
}

} // verus!
