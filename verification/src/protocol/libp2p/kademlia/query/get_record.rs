//! `GET_VALUE` queries.

use super::super::handle::Quorum;
use super::super::message;
use super::super::message::KademliaMessage;
use super::super::record::{PeerRecord, Record, RecordKey};
use super::super::types::{Distance, KademliaPeer, Key};
use super::candidates;
use super::candidates::{Peers, PeersView};
use super::find_node::NextStep;
use super::{QueryAction, QueryActionView, QueryId};
use crate::peer_id::PeerId;
use crate::time::Instant;
use vstd::prelude::*;

verus! {

/// The configuration needed to instantiate a new [`GetRecordContext`].
pub struct GetRecordConfig {
    /// Local peer ID.
    pub local_peer_id: PeerId,
    /// How many records we already know about (ie extracted from storage).
    ///
    /// This can either be 0 or 1 when the record is extracted local storage.
    pub known_records: usize,
    /// Quorum for the query.
    pub quorum: Quorum,
    /// Replication factor.
    pub replication_factor: usize,
    /// Parallelism factor.
    pub parallelism_factor: usize,
    /// Query ID.
    pub query: QueryId,
    /// Target key.
    pub target: Key<RecordKey>,
}

impl GetRecordConfig {
    /// Whether `records` found records, with those known before, meet the quorum.
    pub open spec fn sufficient(self, records: nat) -> bool {
        let total = self.known_records + records;
        match self.quorum {
            Quorum::All => total >= self.replication_factor,
            Quorum::One => total >= 1,
            Quorum::N(needed) => total >= needed.spec_get(),
        }
    }

    /// Checks if the found number of records meets the specified quorum.
    ///
    /// Used to determine if the query found enough records to stop.
    pub fn sufficient_records(&self, records: usize) -> (r: bool)
        ensures
            r == self.sufficient(records as nat),
    {
        // The total number of known records is the sum of the records we knew about before starting
        // the query and the records we found along the way.
        let total_known: usize = self.known_records.saturating_add(records);
        match self.quorum {
            Quorum::All => total_known >= self.replication_factor,
            Quorum::One => total_known >= 1,
            Quorum::N(needed_responses) => total_known >= needed_responses.get(),
        }
    }
}

/// Context for `GET_VALUE` queries.
pub struct GetRecordContext {
    /// Query immutable config.
    pub config: GetRecordConfig,
    /// Peers that are to be asked, are to answer or have been asked.
    pub peers: Peers,
    /// Found records.
    pub found_records: Vec<PeerRecord>,
}

/// A `GET_VALUE` query: its peers and the records that they have answered with.
pub struct GetRecordView {
    /// Peers that are to be asked, are to answer or have been asked.
    pub peers: PeersView,
    /// Found records.
    pub found: Seq<PeerRecord>,
}

impl GetRecordView {
    /// What the query does next.
    pub open spec fn next_step(self, config: GetRecordConfig) -> NextStep {
        let nobody_pending = self.peers.pending == Map::<PeerId, KademliaPeer>::empty();
        let no_candidates = self.peers.candidates == Map::<Distance, KademliaPeer>::empty();
        if nobody_pending && no_candidates {
            if config.known_records + self.found.len() == 0 {
                NextStep::Failed
            } else {
                NextStep::Succeeded
            }
        } else if config.sufficient(self.found.len()) {
            NextStep::Succeeded
        } else if self.peers.pending.len() == config.parallelism_factor || no_candidates {
            NextStep::Wait
        } else {
            NextStep::Schedule
        }
    }

    /// The records after `peer` has answered with `record` at `now`. An expired record is none.
    pub open spec fn found_with(self, peer: PeerId, record: Option<Record>, now: Instant) -> Seq<
        PeerRecord,
    > {
        match record {
            Some(record) => if record@.expired(now) {
                self.found
            } else {
                self.found.push(PeerRecord { peer, record })
            },
            None => self.found,
        }
    }

    /// After `peer` has answered with `record` and `peers` at `now`. An answer that was not
    /// expected changes nothing.
    pub open spec fn answered(
        self,
        config: GetRecordConfig,
        peer: PeerId,
        record: Option<Record>,
        peers: Seq<KademliaPeer>,
        now: Instant,
    ) -> Self {
        if self.peers.pending.contains_key(peer) {
            let answered = self.peers.answered(peer);
            GetRecordView {
                peers: PeersView {
                    candidates: answered.heard_of(
                        config.local_peer_id,
                        config.target.bytes,
                        peers,
                    ),
                    ..answered
                },
                found: self.found_with(self.peers.pending[peer].peer, record, now),
            }
        } else {
            self
        }
    }
}

impl View for GetRecordContext {
    type V = GetRecordView;

    open spec fn view(&self) -> GetRecordView {
        GetRecordView { peers: self.peers@, found: self.found_records@ }
    }
}

impl GetRecordContext {
    /// The message that the query sends.
    pub open spec fn request(self) -> super::super::schema::MessageView {
        message::get_record_message(self.config.target.preimage@)
    }

    /// Create new [`GetRecordContext`].
    pub fn new(
        config: GetRecordConfig,
        in_peers: Vec<KademliaPeer>,
        found_records: Vec<PeerRecord>,
    ) -> (r: Self)
        ensures
            r.config == config,
            r@.peers.pending == Map::<PeerId, KademliaPeer>::empty(),
            r@.peers.queried == Set::<PeerId>::empty(),
            r@.peers.candidates == candidates::initial_candidates(config.target.bytes, in_peers@),
            r@.found == found_records@,
    {
        let peers = Peers::new(&config.target.bytes, in_peers);
        GetRecordContext { config, peers, found_records }
    }

    /// Get the found records.
    pub fn found_records(self) -> (r: Vec<PeerRecord>)
        ensures
            r@ == self@.found,
    {
        self.found_records
    }

    /// Register response failure for `peer`.
    pub fn register_response_failure(&mut self, peer: PeerId)
        ensures
            final(self).config == old(self).config,
            final(self)@.found == old(self)@.found,
            final(self)@.peers == (if old(self)@.peers.pending.contains_key(peer) {
                old(self)@.peers.answered(peer)
            } else {
                old(self)@.peers
            }),
    {
        let _ = self.peers.answer(&peer);
    }

    /// Register `GET_VALUE` response from `peer`, with the current time.
    pub fn register_response(
        &mut self,
        peer: PeerId,
        record: Option<Record>,
        peers: Vec<KademliaPeer>,
    )
        ensures
            final(self).config == old(self).config,
            exists|now: Instant|
                final(self)@ == #[trigger] old(self)@.answered(
                    old(self).config,
                    peer,
                    record,
                    peers@,
                    now,
                ),
    {
        let now = Instant::now();
        self.register_response_at(peer, record, peers, now);
    }

    /// Register `GET_VALUE` response from `peer` at `now`.
    pub fn register_response_at(
        &mut self,
        peer: PeerId,
        record: Option<Record>,
        peers: Vec<KademliaPeer>,
        now: Instant,
    )
        ensures
            final(self).config == old(self).config,
            final(self)@ == old(self)@.answered(old(self).config, peer, record, peers@, now),
    {
        let entry = match self.peers.answer(&peer) {
            Some(entry) => entry,
            None => {
                return;
            },
        };
        match record {
            Some(record) => {
                if !record.is_expired(now) {
                    self.found_records.push(PeerRecord { peer: entry.peer, record });
                }
            },
            None => {},
        }
        self.peers.hear_of(self.config.local_peer_id, &self.config.target.bytes, peers);
    }

    /// Get next action for `peer`.
    pub fn next_peer_action(&self, peer: &PeerId) -> (r: Option<QueryAction>)
        ensures
            match r {
                Some(action) => {
                    &&& self@.peers.pending.contains_key(*peer)
                    &&& action@ == (QueryActionView::SendMessage {
                        query: self.config.query,
                        peer: *peer,
                        message: self.request(),
                    })
                },
                None => !self@.peers.pending.contains_key(*peer),
            },
    {
        if self.peers.is_pending(peer) {
            Some(
                QueryAction::SendMessage {
                    query: self.config.query,
                    peer: *peer,
                    message: KademliaMessage::get_record(&self.config.target.preimage),
                },
            )
        } else {
            None
        }
    }

    /// Schedule next peer for outbound `GET_VALUE` query.
    fn schedule_next_peer(&mut self) -> (r: Option<QueryAction>)
        ensures
            final(self).config == old(self).config,
            final(self)@.found == old(self)@.found,
            if old(self)@.peers.candidates == Map::<Distance, KademliaPeer>::empty() {
                r is None && final(self)@.peers == old(self)@.peers
            } else {
                &&& final(self)@.peers == old(self)@.peers.scheduled()
                &&& r matches Some(action) && action@ == (QueryActionView::SendMessage {
                    query: old(self).config.query,
                    peer: old(self)@.peers.next_peer().peer,
                    message: old(self).request(),
                })
            },
    {
        match self.peers.schedule() {
            Some(peer) => Some(
                QueryAction::SendMessage {
                    query: self.config.query,
                    peer,
                    message: KademliaMessage::get_record(&self.config.target.preimage),
                },
            ),
            None => None,
        }
    }

    /// Check if the query cannot make any progress.
    ///
    /// Returns true when there are no pending responses and no candidates to query.
    pub fn is_done(&self) -> (r: bool)
        ensures
            r == (self@.peers.pending == Map::<PeerId, KademliaPeer>::empty()
                && self@.peers.candidates == Map::<Distance, KademliaPeer>::empty()),
    {
        self.peers.nobody_pending() && self.peers.no_candidates()
    }

    /// Get next action for a `GET_VALUE` query.
    pub fn next_action(&mut self) -> (r: Option<QueryAction>)
        ensures
            final(self).config == old(self).config,
            final(self)@.found == old(self)@.found,
            match old(self)@.next_step(old(self).config) {
                NextStep::Failed => {
                    &&& r matches Some(action) && action@ == (QueryActionView::QueryFailed {
                        query: old(self).config.query,
                    })
                    &&& final(self)@.peers == old(self)@.peers
                },
                NextStep::Succeeded => {
                    &&& r matches Some(action) && action@ == (QueryActionView::QuerySucceeded {
                        query: old(self).config.query,
                    })
                    &&& final(self)@.peers == old(self)@.peers
                },
                NextStep::Wait => {
                    &&& r is None
                    &&& final(self)@.peers == old(self)@.peers
                },
                NextStep::Schedule => {
                    &&& r matches Some(action) && action@ == (QueryActionView::SendMessage {
                        query: old(self).config.query,
                        peer: old(self)@.peers.next_peer().peer,
                        message: old(self).request(),
                    })
                    &&& final(self)@.peers == old(self)@.peers.scheduled()
                },
            },
    {
        // If we cannot make progress, return the final result.
        // A query failed when we are not able to identify one single record.
        if self.is_done() {
            return if self.config.known_records == 0 && self.found_records.len() == 0 {
                Some(QueryAction::QueryFailed { query: self.config.query })
            } else {
                Some(QueryAction::QuerySucceeded { query: self.config.query })
            };
        }
        // Check if enough records have been found

        if self.config.sufficient_records(self.found_records.len()) {
            return Some(QueryAction::QuerySucceeded { query: self.config.query });
        }
        // At this point, we either have pending responses or candidates to query; and we need more
        // records. Ensure we do not exceed the parallelism factor.

        if self.peers.pending_len() == self.config.parallelism_factor {
            return None;
        }
        self.schedule_next_peer()
    }
}

} // verus!
