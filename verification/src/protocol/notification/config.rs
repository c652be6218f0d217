//! Notification configuration.

use crate::protocol::connection;
use crate::protocol::ProtocolCodec;
use crate::types::ProtocolName;
use vstd::prelude::*;

verus! {

/// Notification configuration.
#[derive(Debug, PartialEq, Eq)]
pub struct Config {
    /// Protocol name.
    pub protocol_name: ProtocolName,
    /// Protocol codec.
    pub codec: ProtocolCodec,
    /// Maximum notification size.
    pub max_notification_size: usize,
    /// Handshake bytes.
    pub handshake: Vec<u8>,
    /// Auto accept inbound substream.
    pub auto_accept: bool,
    /// Protocol aliases.
    pub fallback_names: Vec<ProtocolName>,
}

impl Config {
    /// Create new [`Config`].
    pub fn new(
        protocol_name: ProtocolName,
        max_notification_size: usize,
        handshake: Vec<u8>,
        fallback_names: Vec<ProtocolName>,
        auto_accept: bool,
    ) -> (r: Self)
        ensures
            r == (Config {
                protocol_name,
                codec: ProtocolCodec::UnsignedVarint(Some(max_notification_size)),
                max_notification_size,
                handshake,
                auto_accept,
                fallback_names,
            }),
    {
        Config {
            protocol_name,
            codec: ProtocolCodec::UnsignedVarint(Some(max_notification_size)),
            max_notification_size,
            handshake,
            auto_accept,
            fallback_names,
        }
    }

    /// Get protocol name.
    pub fn protocol_name(&self) -> (r: &ProtocolName)
        ensures
            *r == self.protocol_name,
    {
        &self.protocol_name
    }
}

/// Notification configuration builder.
#[derive(Debug, PartialEq, Eq)]
pub struct ConfigBuilder {
    /// Protocol name.
    protocol_name: ProtocolName,
    /// Maximum notification size.
    max_notification_size: Option<usize>,
    /// Handshake bytes.
    handshake: Option<Vec<u8>>,
    /// Fallback names.
    fallback_names: Vec<ProtocolName>,
    /// Auto accept inbound substream.
    auto_accept_inbound_for_initiated: bool,
}

/// The settings that a builder has collected.
#[verifier::ext_equal]
pub struct BuilderView {
    /// Protocol name.
    pub protocol_name: Seq<char>,
    /// Maximum notification size.
    pub max_notification_size: Option<usize>,
    /// Handshake bytes.
    pub handshake: Option<Seq<u8>>,
    /// Fallback names.
    pub fallback_names: Seq<Seq<char>>,
    /// Auto accept inbound substream.
    pub auto_accept_inbound_for_initiated: bool,
}

impl View for ConfigBuilder {
    type V = BuilderView;

    closed spec fn view(&self) -> BuilderView {
        BuilderView {
            protocol_name: self.protocol_name@,
            max_notification_size: self.max_notification_size,
            handshake: match self.handshake {
                Some(handshake) => Some(handshake@),
                None => None,
            },
            fallback_names: connection::name_views(self.fallback_names@),
            auto_accept_inbound_for_initiated: self.auto_accept_inbound_for_initiated,
        }
    }
}

impl ConfigBuilder {
    /// Create new [`ConfigBuilder`].
    pub fn new(protocol_name: ProtocolName) -> (r: Self)
        ensures
            r@ == (BuilderView {
                protocol_name: protocol_name@,
                max_notification_size: None,
                handshake: None,
                fallback_names: Seq::empty(),
                auto_accept_inbound_for_initiated: false,
            }),
    {
        let r = ConfigBuilder {
            protocol_name,
            max_notification_size: None,
            handshake: None,
            fallback_names: Vec::new(),
            auto_accept_inbound_for_initiated: false,
        };
        assert(r@.fallback_names =~= Seq::empty());
        r
    }

    /// Set maximum notification size.
    pub fn with_max_size(self, max_notification_size: usize) -> (r: Self)
        ensures
            r@ == (BuilderView { max_notification_size: Some(max_notification_size), ..self@ }),
    {
        ConfigBuilder { max_notification_size: Some(max_notification_size), ..self }
    }

    /// Set handshake.
    pub fn with_handshake(self, handshake: Vec<u8>) -> (r: Self)
        ensures
            r@ == (BuilderView { handshake: Some(handshake@), ..self@ }),
    {
        ConfigBuilder { handshake: Some(handshake), ..self }
    }

    /// Set fallback names.
    pub fn with_fallback_names(self, fallback_names: Vec<ProtocolName>) -> (r: Self)
        ensures
            r@ == (BuilderView {
                fallback_names: connection::name_views(fallback_names@),
                ..self@
            }),
    {
        ConfigBuilder { fallback_names, ..self }
    }

    /// Auto-accept inbound substreams for those connections where it was was initiated by the local
    /// node.
    ///
    /// Connection in this context means a bidirectional substream pair between two peers over a
    /// given protocol.
    ///
    /// By default, when a node starts a connection with a remote peer and opens an outbound
    /// substream to them, that substream is validated and if it's accepted, remote peer sends
    /// their handshake over that substream and opens another substream to local node. The
    /// substream that was opened by the local node is used for sending data and the one opened
    /// by the remote peer is used for receiving data.
    ///
    /// By default, even if the local node was the one that opened the first substream, this inbound
    /// substream coming from remote peer must be validated as the handshake of the remote peer
    /// may reveal that it's not someone that the local node is willing to accept.
    ///
    /// To disable this behavior, auto accepting for the inbound substream can be enabled. If local
    /// node is the one that opened the connection and it was accepted by the remote peer, local
    /// node is only notified via
    /// [`NotificationStreamOpened`](super::types::NotificationEvent::NotificationStreamOpened).
    pub fn with_auto_accept_inbound(self, auto_accept: bool) -> (r: Self)
        ensures
            r@ == (BuilderView { auto_accept_inbound_for_initiated: auto_accept, ..self@ }),
    {
        ConfigBuilder { auto_accept_inbound_for_initiated: auto_accept, ..self }
    }

    /// Build notification configuration. The notification size and the handshake must have been
    /// specified.
    pub fn build(self) -> (r: Config)
        requires
            self@.max_notification_size is Some,
            self@.handshake is Some,
        ensures
            r.protocol_name@ == self@.protocol_name,
            r.codec == ProtocolCodec::UnsignedVarint(self@.max_notification_size),
            r.max_notification_size == self@.max_notification_size->Some_0,
            r.handshake@ == self@.handshake->Some_0,
            r.auto_accept == self@.auto_accept_inbound_for_initiated,
            connection::name_views(r.fallback_names@) == self@.fallback_names,
    {
        let max_notification_size: usize = match self.max_notification_size {
            Some(size) => size,
            None => {
                assert(false);
                0
            },
        };
        let handshake = match self.handshake {
            Some(handshake) => handshake,
            None => {
                assert(false);
                Vec::new()
            },
        };
        Config::new(
            self.protocol_name,
            max_notification_size,
            handshake,
            self.fallback_names,
            self.auto_accept_inbound_for_initiated,
        )
    }
}

} // verus!
