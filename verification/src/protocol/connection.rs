//! Connection-related helper code.

use crate::error::Error;
use crate::types::{ConnectionId, ProtocolName, SubstreamId};
use vstd::prelude::*;

verus! {

/// Connection type, from the point of view of the protocol.
#[derive(Clone, Copy, Debug, PartialEq, Eq, Structural)]
pub enum ConnectionType {
    /// Connection is actively kept open.
    Active,
    /// Connection is considered inactive as far as the protocol is concerned
    /// and if no substreams are being opened and no protocol is interested in
    /// keeping the connection open, it will be closed.
    Inactive,
}

/// Type representing a handle to connection which allows protocols to communicate with the
/// connection.
#[derive(Clone, Copy, Debug, PartialEq, Eq, Structural)]
pub struct ConnectionHandle {
    /// Connection type.
    pub connection: ConnectionType,
    /// Connection ID.
    pub connection_id: ConnectionId,
}

/// Type which allows the connection to be kept open.
#[derive(Clone, Copy, Debug, PartialEq, Eq, Structural)]
pub struct Permit {
    /// Connection ID.
    pub connection_id: ConnectionId,
}

/// Events emitted by the installed protocols to transport.
#[derive(Debug, PartialEq, Eq)]
pub enum ProtocolCommand {
    /// Open substream.
    OpenSubstream {
        /// Protocol name.
        protocol: ProtocolName,
        /// Fallback names.
        ///
        /// If the protocol has changed its name but wishes to suppor the old name(s), it must
        /// provide the old protocol names in `fallback_names`. These are fed into
        /// `multistream-select` which them attempts to negotiate a protocol for the substream
        /// using one of the provided names and if the substream is negotiated successfully, will
        /// report back the actual protocol name that was negotiated, in case the protocol
        /// needs to deal with the old version of the protocol in different way compared to
        /// the new version.
        fallback_names: Vec<ProtocolName>,
        /// Substream ID.
        ///
        /// Protocol allocates an ephemeral ID for outbound substreams which allows it to track
        /// the state of its pending substream. The ID is given back to protocol when the
        /// substream opens or fails to open.
        ///
        /// This allows the protocol to distinguish inbound substreams from outbound substreams
        /// and associate incoming substreams with whatever logic it has.
        substream_id: SubstreamId,
        /// Connection permit.
        ///
        /// `Permit` allows the connection to be kept open while the permit is held and it is given
        /// to the substream to hold once it has been opened. When the substream is dropped, the
        /// permit is dropped and the connection may be closed if no other permit is being
        /// held.
        permit: Permit,
    },
}

/// Whether a command asks for a substream of a protocol over a connection.
pub open spec fn opens_substream(
    command: ProtocolCommand,
    protocol: Seq<char>,
    fallback_names: Seq<Seq<char>>,
    substream_id: SubstreamId,
    permit: Permit,
) -> bool {
    match command {
        ProtocolCommand::OpenSubstream {
            protocol: p,
            fallback_names: f,
            substream_id: id,
            permit: held,
        } => {
            &&& p@ == protocol
            &&& name_views(f@) == fallback_names
            &&& id == substream_id
            &&& held == permit
        },
    }
}

/// Names, by their views.
pub open spec fn name_views(names: Seq<ProtocolName>) -> Seq<Seq<char>> {
    Seq::new(names.len(), |i: int| names[i]@)
}

/// A copy of a list of names.
pub fn copy_names(names: &Vec<ProtocolName>) -> (r: Vec<ProtocolName>)
    ensures
        name_views(r@) == name_views(names@),
{
    let mut r: Vec<ProtocolName> = Vec::new();
    let mut i: usize = 0;
    while i < names.len()
        invariant
            i <= names@.len(),
            r@.len() == i,
            forall|j: int| 0 <= j < i ==> (#[trigger] r@[j])@ == names@[j]@,
        decreases names@.len() - i,
    {
        r.push(names[i].clone());
        i += 1;
    }
    assert(name_views(r@) =~= name_views(names@));
    r
}

impl ConnectionHandle {
    /// Create new [`ConnectionHandle`].
    ///
    /// By default the connection is set as `Active` to give protocols time to open a substream if
    /// they wish.
    pub fn new(connection_id: ConnectionId) -> (r: Self)
        ensures
            r == (ConnectionHandle { connection: ConnectionType::Active, connection_id }),
    {
        ConnectionHandle { connection: ConnectionType::Active, connection_id }
    }

    /// Get active handle from the [`ConnectionHandle`] and then downgrade it to an inactive
    /// connection.
    ///
    /// This function is only called once when the connection is established to remote peer and that
    /// one time the connection type must be `Active`.
    pub fn downgrade(&mut self) -> (r: Self)
        requires
            old(self).connection is Active,
        ensures
            r == *old(self),
            *final(self) == (ConnectionHandle {
                connection: ConnectionType::Inactive,
                ..*old(self)
            }),
    {
        let handle = ConnectionHandle::new(self.connection_id);
        self.connection = ConnectionType::Inactive;
        handle
    }

    /// Get reference to connection ID.
    pub fn connection_id(&self) -> (r: ConnectionId)
        ensures
            r == self.connection_id,
    {
        self.connection_id
    }

    /// Mark connection as closed, and say whether it has been active.
    pub fn close(&mut self) -> (r: bool)
        ensures
            r == (old(self).connection is Active),
            *final(self) == (ConnectionHandle {
                connection: ConnectionType::Inactive,
                ..*old(self)
            }),
    {
        match self.connection {
            ConnectionType::Active => {
                self.connection = ConnectionType::Inactive;
                true
            },
            ConnectionType::Inactive => false,
        }
    }

    /// Whether a permit can be had: an active connection is open, and an inactive one is as long as
    /// somebody keeps it open, which `kept_open` says.
    pub open spec fn permits(self, kept_open: bool) -> bool {
        self.connection is Active || kept_open
    }

    /// Attempt to acquire permit which will keep the connection open for indefinite time.
    ///
    /// `kept_open` says whether somebody keeps the connection open.
    pub fn try_get_permit(&self, kept_open: bool) -> (r: Option<Permit>)
        ensures
            r == (if self.permits(kept_open) {
                Some(Permit { connection_id: self.connection_id })
            } else {
                None
            }),
    {
        match self.connection {
            ConnectionType::Active => Some(Permit::new(self.connection_id)),
            ConnectionType::Inactive => if kept_open {
                Some(Permit::new(self.connection_id))
            } else {
                None
            },
        }
    }

    /// Open substream to remote peer over `protocol` and send the acquired permit to the
    /// transport so it can be given to the opened substream: the command for the connection.
    ///
    /// Call fails if the connection is closed.
    pub fn open_substream(
        &self,
        protocol: ProtocolName,
        fallback_names: Vec<ProtocolName>,
        substream_id: SubstreamId,
        permit: Permit,
        kept_open: bool,
    ) -> (r: Result<ProtocolCommand, Error>)
        ensures
            match r {
                Ok(command) => self.permits(kept_open) && opens_substream(
                    command,
                    protocol@,
                    name_views(fallback_names@),
                    substream_id,
                    permit,
                ),
                Err(error) => !self.permits(kept_open) && error == Error::ConnectionClosed,
            },
    {
        let open = match self.connection {
            ConnectionType::Active => true,
            ConnectionType::Inactive => kept_open,
        };
        if open {
            Ok(ProtocolCommand::OpenSubstream { protocol, fallback_names, substream_id, permit })
        } else {
            Err(Error::ConnectionClosed)
        }
    }
}

impl Permit {
    /// Create new [`Permit`] which allows the connection to be kept open.
    pub fn new(connection_id: ConnectionId) -> (r: Self)
        ensures
            r == (Permit { connection_id }),
    {
        Permit { connection_id }
    }

    /// Get mutable access to inner connection.
    pub fn inner(&mut self) -> (r: &mut ConnectionId)
        ensures
            *r == old(self).connection_id,
            *final(self) == (Permit { connection_id: *final(r) }),
    {
        &mut self.connection_id
    }
}

} // verus!
