//! `FIND_NODE` queries.

use super::super::distance_map;
use super::super::distance_map::DistanceMap;
use super::super::message;
use super::super::message::KademliaMessage;
use super::super::types;
use super::super::types::{Distance, KademliaPeer, Key, Preimage};
use super::candidates;
use super::candidates::{Peers, PeersView};
use super::{QueryAction, QueryActionView, QueryId};
use crate::peer_id::PeerId;
use vstd::prelude::*;

verus! {

/// The configuration needed to instantiate a new [`FindNodeContext`].
pub struct FindNodeConfig<T: Preimage> {
    /// Local peer ID.
    pub local_peer_id: PeerId,
    /// Replication factor.
    pub replication_factor: usize,
    /// Parallelism factor.
    pub parallelism_factor: usize,
    /// Query ID.
    pub query: QueryId,
    /// Target key.
    pub target: Key<T>,
}

/// Context for `FIND_NODE` queries.
pub struct FindNodeContext<T: Preimage> {
    /// Query immutable config.
    pub config: FindNodeConfig<T>,
    /// Peers that are to be asked, are to answer or have been asked.
    pub peers: Peers,
    /// Responses.
    pub responses: DistanceMap<KademliaPeer>,
}

/// A `FIND_NODE` query: its peers, and those of them that have answered, by their distance.
pub struct FindNodeView {
    /// Peers that are to be asked, are to answer or have been asked.
    pub peers: PeersView,
    /// Responses.
    pub responses: Map<Distance, KademliaPeer>,
}

/// What a query does next.
pub enum NextStep {
    /// It fails.
    Failed,
    /// It succeeds.
    Succeeded,
    /// It waits for answers.
    Wait,
    /// It asks the candidate closest to the target.
    Schedule,
}

impl FindNodeView {
    /// The responses after `peer` has answered, which is filed under its own distance. There are at
    /// most `replication_factor` of them; once there are that many, a closer peer takes the place of
    /// the farthest one.
    pub open spec fn responses_with(
        self,
        replication_factor: usize,
        distance: Distance,
        peer: KademliaPeer,
    ) -> Map<Distance, KademliaPeer> {
        if self.responses.len() < replication_factor || self.responses.contains_key(distance) {
            self.responses.insert(distance, peer)
        } else if self.responses != Map::<Distance, KademliaPeer>::empty()
            && distance_map::greatest(self.responses).value() > distance.value() {
            self.responses.remove(distance_map::greatest(self.responses)).insert(distance, peer)
        } else {
            self.responses
        }
    }

    /// What the query does next.
    pub open spec fn next_step<T: Preimage>(self, config: FindNodeConfig<T>) -> NextStep {
        let no_response = self.responses == Map::<Distance, KademliaPeer>::empty();
        let nobody_pending = self.peers.pending == Map::<PeerId, KademliaPeer>::empty();
        let no_candidates = self.peers.candidates == Map::<Distance, KademliaPeer>::empty();
        if nobody_pending && no_candidates {
            // nobody is left to ask or to answer
            if no_response {
                NextStep::Failed
            } else {
                NextStep::Succeeded
            }
        } else if self.responses.len() < config.replication_factor {
            // more responses are needed
            if no_candidates || self.peers.pending.len() == config.parallelism_factor {
                NextStep::Wait
            } else {
                NextStep::Schedule
            }
        } else if !no_candidates && !no_response && types::xor_distance(
            config.target.bytes,
            self.peers.next_peer().key.bytes,
        ).value() < distance_map::greatest(self.responses).value() && self.peers.pending.len()
            < config.parallelism_factor {
            // a candidate is closer than the farthest response
            NextStep::Schedule
        } else {
            NextStep::Succeeded
        }
    }
}

impl<T: Preimage> View for FindNodeContext<T> {
    type V = FindNodeView;

    open spec fn view(&self) -> FindNodeView {
        FindNodeView { peers: self.peers@, responses: self.responses@ }
    }
}

impl<T: Preimage> FindNodeContext<T> {
    /// The message that the query sends.
    pub open spec fn request(self) -> super::super::schema::MessageView {
        message::find_node_message(self.config.target.preimage.spec_preimage())
    }

    /// Create new [`FindNodeContext`].
    pub fn new(config: FindNodeConfig<T>, in_peers: Vec<KademliaPeer>) -> (r: Self)
        ensures
            r.config == config,
            r@.peers.pending == Map::<PeerId, KademliaPeer>::empty(),
            r@.peers.queried == Set::<PeerId>::empty(),
            r@.peers.candidates == candidates::initial_candidates(config.target.bytes, in_peers@),
            r@.responses == Map::<Distance, KademliaPeer>::empty(),
    {
        let peers = Peers::new(&config.target.bytes, in_peers);
        FindNodeContext { config, peers, responses: DistanceMap::new() }
    }

    /// Register response failure for `peer`.
    pub fn register_response_failure(&mut self, peer: PeerId)
        ensures
            final(self).config == old(self).config,
            final(self)@.responses == old(self)@.responses,
            final(self)@.peers == (if old(self)@.peers.pending.contains_key(peer) {
                old(self)@.peers.answered(peer)
            } else {
                old(self)@.peers
            }),
    {
        let _ = self.peers.answer(&peer);
    }

    /// Register `FIND_NODE` response from `peer`.
    pub fn register_response(&mut self, peer: PeerId, peers: Vec<KademliaPeer>)
        ensures
            final(self).config == old(self).config,
            if old(self)@.peers.pending.contains_key(peer) {
                let entry = old(self)@.peers.pending[peer];
                let answered = old(self)@.peers.answered(peer);
                &&& final(self)@.responses == old(self)@.responses_with(
                    old(self).config.replication_factor,
                    types::xor_distance(old(self).config.target.bytes, entry.key.bytes),
                    entry,
                )
                &&& final(self)@.peers == (PeersView {
                    candidates: answered.heard_of(
                        old(self).config.local_peer_id,
                        old(self).config.target.bytes,
                        peers@,
                    ),
                    ..answered
                })
            } else {
                final(self)@ == old(self)@
            },
    {
        let entry = match self.peers.answer(&peer) {
            Some(entry) => entry,
            None => {
                return;
            },
        };
        let distance = self.config.target.distance(&entry.key);
        if self.responses.len() < self.config.replication_factor || self.responses.contains_key(
            &distance,
        ) {
            self.responses.insert(distance, entry);
        } else {
            match self.responses.last_key() {
                Some(last) => {
                    proof {
                        assert(self.responses@.contains_key(last));
                    }
                    // the farthest response makes place for a closer one
                    if distance.less_than(&last) {
                        let _ = self.responses.pop_last();
                        self.responses.insert(distance, entry);
                    }
                },
                None => {},
            }
        }
        self.peers.hear_of(self.config.local_peer_id, &self.config.target.bytes, peers);
    }

    /// Get next action for `peer`.
    pub fn next_peer_action(&self, peer: &PeerId) -> (r: Option<QueryAction>)
        ensures
            match r {
                Some(action) => {
                    &&& self@.peers.pending.contains_key(*peer)
                    &&& action@ == (QueryActionView::SendMessage {
                        query: self.config.query,
                        peer: *peer,
                        message: self.request(),
                    })
                },
                None => !self@.peers.pending.contains_key(*peer),
            },
    {
        if self.peers.is_pending(peer) {
            Some(
                QueryAction::SendMessage {
                    query: self.config.query,
                    peer: *peer,
                    message: KademliaMessage::find_node(
                        self.config.target.preimage.preimage_bytes(),
                    ),
                },
            )
        } else {
            None
        }
    }

    /// Schedule next peer for outbound `FIND_NODE` query.
    fn schedule_next_peer(&mut self) -> (r: Option<QueryAction>)
        requires
            old(self)@.peers.candidates != Map::<Distance, KademliaPeer>::empty(),
        ensures
            final(self).config == old(self).config,
            final(self)@.responses == old(self)@.responses,
            final(self)@.peers == old(self)@.peers.scheduled(),
            r matches Some(action) && action@ == (QueryActionView::SendMessage {
                query: old(self).config.query,
                peer: old(self)@.peers.next_peer().peer,
                message: old(self).request(),
            }),
    {
        match self.peers.schedule() {
            Some(peer) => Some(
                QueryAction::SendMessage {
                    query: self.config.query,
                    peer,
                    message: KademliaMessage::find_node(
                        self.config.target.preimage.preimage_bytes(),
                    ),
                },
            ),
            None => None,
        }
    }

    /// Get next action for a `FIND_NODE` query.
    pub fn next_action(&mut self) -> (r: Option<QueryAction>)
        ensures
            final(self).config == old(self).config,
            final(self)@.responses == old(self)@.responses,
            match old(self)@.next_step(old(self).config) {
                NextStep::Failed => {
                    &&& r matches Some(action) && action@ == (QueryActionView::QueryFailed {
                        query: old(self).config.query,
                    })
                    &&& final(self)@.peers == old(self)@.peers
                },
                NextStep::Succeeded => {
                    &&& r matches Some(action) && action@ == (QueryActionView::QuerySucceeded {
                        query: old(self).config.query,
                    })
                    &&& final(self)@.peers == old(self)@.peers
                },
                NextStep::Wait => {
                    &&& r is None
                    &&& final(self)@.peers == old(self)@.peers
                },
                NextStep::Schedule => {
                    &&& r matches Some(action) && action@ == (QueryActionView::SendMessage {
                        query: old(self).config.query,
                        peer: old(self)@.peers.next_peer().peer,
                        message: old(self).request(),
                    })
                    &&& final(self)@.peers == old(self)@.peers.scheduled()
                },
            },
    {
        let nobody_pending = self.peers.nobody_pending();
        let no_candidates = self.peers.no_candidates();
        let no_response = self.responses.is_empty();

        // we didn't receive any responses and there are no candidates or pending queries left.
        if no_response && nobody_pending && no_candidates {
            return Some(QueryAction::QueryFailed { query: self.config.query });
        }
        // there are still possible peers to query or peers who are being queried

        if self.responses.len() < self.config.replication_factor && (!nobody_pending
            || !no_candidates) {
            if self.peers.pending_len() == self.config.parallelism_factor || no_candidates {
                return None;
            }
            return self.schedule_next_peer();
        }
        // query succeeded with one or more results

        if nobody_pending && no_candidates {
            return Some(QueryAction::QuerySucceeded { query: self.config.query });
        }
        // check if any candidate has lower distance than the current worst

        match (self.peers.closest_candidate(), self.responses.last_key()) {
            (Some(candidate), Some(worst)) => {
                let distance = self.config.target.distance(&candidate.key);
                if distance.less_than(&worst) && self.peers.pending_len()
                    < self.config.parallelism_factor {
                    return self.schedule_next_peer();
                }
            },
            _ => {},
        }
        Some(QueryAction::QuerySucceeded { query: self.config.query })
    }
}

} // verus!
