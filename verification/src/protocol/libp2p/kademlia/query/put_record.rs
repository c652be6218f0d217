//! `PUT_VALUE` responses.

use super::super::handle::Quorum;
use super::{QueryAction, QueryActionView, QueryId};
use crate::collections::AssocSet;
use crate::peer_id::PeerId;
use vstd::prelude::*;

verus! {

/// Context for tracking `PUT_VALUE` responses from peers.
pub struct PutRecordToFoundNodesContext {
    /// Query ID.
    pub query: QueryId,
    /// Quorum that needs to be reached for the query to succeed.
    peers_to_succeed: usize,
    /// Peers we're waiting for responses from.
    pending_peers: AssocSet<PeerId>,
    /// Successfully responded peers.
    successful_peers: AssocSet<PeerId>,
    /// Failed peers.
    failed_peers: AssocSet<PeerId>,
}

/// The responses to a record that was put.
pub struct PutRecordView {
    /// Query ID.
    pub query: QueryId,
    /// Quorum that needs to be reached for the query to succeed.
    pub peers_to_succeed: nat,
    /// Peers we're waiting for responses from.
    pub pending: Set<PeerId>,
    /// Successfully responded peers.
    pub successful: Set<PeerId>,
    /// Failed peers.
    pub failed: Set<PeerId>,
}

impl PutRecordView {
    /// After a response from `peer`; one that was not expected changes nothing.
    pub open spec fn succeeded(self, peer: PeerId) -> Self {
        if self.pending.contains(peer) {
            PutRecordView {
                pending: self.pending.remove(peer),
                successful: self.successful.insert(peer),
                ..self
            }
        } else {
            self
        }
    }

    /// After a failure of `peer`; one that was not expected changes nothing.
    pub open spec fn failed(self, peer: PeerId) -> Self {
        if self.pending.contains(peer) {
            PutRecordView {
                pending: self.pending.remove(peer),
                failed: self.failed.insert(peer),
                ..self
            }
        } else {
            self
        }
    }

    /// All peers that the record was put to.
    pub open spec fn all(self) -> Set<PeerId> {
        self.pending.union(self.successful).union(self.failed)
    }

    /// No peer is in two places.
    pub open spec fn disjoint(self) -> bool {
        &&& self.pending.disjoint(self.successful)
        &&& self.pending.disjoint(self.failed)
        &&& self.successful.disjoint(self.failed)
    }
}

impl View for PutRecordToFoundNodesContext {
    type V = PutRecordView;

    closed spec fn view(&self) -> PutRecordView {
        PutRecordView {
            query: self.query,
            peers_to_succeed: self.peers_to_succeed as nat,
            pending: self.pending_peers@,
            successful: self.successful_peers@,
            failed: self.failed_peers@,
        }
    }
}

/// How many peers a quorum asks for, of `peers` distinct ones.
pub open spec fn quorum_size(quorum: Quorum, peers: nat) -> nat {
    match quorum {
        Quorum::One => 1,
        Quorum::N(n) => n.spec_get() as nat,
        Quorum::All => if peers >= 1 {
            peers
        } else {
            1
        },
    }
}

impl PutRecordToFoundNodesContext {
    /// Create new [`PutRecordToFoundNodesContext`].
    pub fn new(query: QueryId, peers: Vec<PeerId>, quorum: Quorum) -> (r: Self)
        ensures
            r@.query == query,
            r@.peers_to_succeed == quorum_size(quorum, peers@.to_set().len()),
            r@.pending == peers@.to_set(),
            r@.successful == Set::<PeerId>::empty(),
            r@.failed == Set::<PeerId>::empty(),
    {
        let mut pending_peers: AssocSet<PeerId> = AssocSet::new();
        let mut i: usize = 0;
        assert(peers@.take(0).to_set() =~= Set::<PeerId>::empty());
        while i < peers.len()
            invariant
                i <= peers.len(),
                pending_peers@ == peers@.take(i as int).to_set(),
            decreases peers.len() - i,
        {
            pending_peers.insert(peers[i]);
            proof {
                let before = peers@.take(i as int);
                let after = peers@.take(i + 1);
                assert(after =~= before.push(peers@[i as int]));
                assert(after.to_set() =~= before.to_set().insert(peers@[i as int])) by {
                    assert forall|p: PeerId|
                        after.contains(p) <==> (before.contains(p) || p == peers@[i as int]) by {
                        if before.contains(p) {
                            let j = choose|j: int| 0 <= j < before.len() && before[j] == p;
                            assert(after[j] == p);
                        }
                        assert(after[i as int] == peers@[i as int]);
                    }
                }
            }
            i += 1;
        }
        assert(peers@.take(i as int) =~= peers@);
        let distinct: usize = pending_peers.len();
        let peers_to_succeed: usize = match quorum {
            Quorum::One => 1,
            Quorum::N(n) => n.get(),
            Quorum::All => if distinct >= 1 {
                distinct
            } else {
                1
            },
        };
        PutRecordToFoundNodesContext {
            query,
            peers_to_succeed,
            pending_peers,
            successful_peers: AssocSet::new(),
            failed_peers: AssocSet::new(),
        }
    }

    /// Register successful response from peer.
    pub fn register_response(&mut self, peer: PeerId)
        ensures
            final(self)@ == old(self)@.succeeded(peer),
    {
        if self.pending_peers.remove(&peer) {
            self.successful_peers.insert(peer);
        } else {
            assert(old(self).pending_peers@.remove(peer) =~= old(self).pending_peers@);
        }
    }

    /// Register failed response from peer.
    pub fn register_response_failure(&mut self, peer: PeerId)
        ensures
            final(self)@ == old(self)@.failed(peer),
    {
        if self.pending_peers.remove(&peer) {
            self.failed_peers.insert(peer);
        } else {
            assert(old(self).pending_peers@.remove(peer) =~= old(self).pending_peers@);
        }
    }

    /// Check if all responses have been received.
    pub fn is_finished(&self) -> (r: bool)
        ensures
            r == (self@.pending == Set::<PeerId>::empty()),
    {
        self.pending_peers.is_empty()
    }

    /// Check if all requests were successful.
    pub fn is_succeded(&self) -> (r: bool)
        ensures
            r == (self@.successful.len() >= self@.peers_to_succeed),
    {
        self.successful_peers.len() >= self.peers_to_succeed
    }

    /// Get next action if the context is finished.
    pub fn next_action(&self) -> (r: Option<QueryAction>)
        ensures
            match r {
                Some(action) => {
                    &&& self@.pending == Set::<PeerId>::empty()
                    &&& action@ == if self@.successful.len() >= self@.peers_to_succeed {
                        QueryActionView::QuerySucceeded { query: self@.query }
                    } else {
                        QueryActionView::QueryFailed { query: self@.query }
                    }
                },
                None => self@.pending != Set::<PeerId>::empty(),
            },
    {
        if self.is_finished() {
            if self.is_succeded() {
                Some(QueryAction::QuerySucceeded { query: self.query })
            } else {
                Some(QueryAction::QueryFailed { query: self.query })
            }
        } else {
            None
        }
    }
}

/// A peer is always in one place: it is to answer, it has answered or it has failed; and no answer
/// loses or adds one.
pub proof fn law_put_record_conserves_peers(view: PutRecordView, peer: PeerId)
    requires
        view.disjoint(),
    ensures
        view.succeeded(peer).disjoint(),
        view.succeeded(peer).all() == view.all(),
        view.failed(peer).disjoint(),
        view.failed(peer).all() == view.all(),
{
    let s = view.succeeded(peer);
    let f = view.failed(peer);
    assert(s.all() =~= view.all());
    assert(f.all() =~= view.all());
}

/// Where the record has to reach all peers, the query succeeds once each of them has answered, however
/// often a peer was named.
pub proof fn law_all_peers_reached(view: PutRecordView, peers: Seq<PeerId>)
    requires
        peers.len() > 0,
        view.peers_to_succeed == quorum_size(Quorum::All, peers.to_set().len()),
        view.successful.subset_of(peers.to_set()),
    ensures
        view.successful.len() >= view.peers_to_succeed <==> view.successful == peers.to_set(),
{
    vstd::seq_lib::seq_to_set_is_finite(peers);
    let all = peers.to_set();
    assert(all.contains(peers[0]));
    vstd::set_lib::lemma_len_subset(view.successful, all);
    if view.successful.len() >= view.peers_to_succeed {
        vstd::set_lib::lemma_subset_equality(view.successful, all);
    }
    if all.len() == 0 {
        assert(all =~= Set::<PeerId>::empty());
    }
}

/// A second answer of the same peer changes nothing.
pub proof fn law_put_record_answers_once(view: PutRecordView, peer: PeerId)
    ensures
        view.succeeded(peer).succeeded(peer) == view.succeeded(peer),
        view.succeeded(peer).failed(peer) == view.succeeded(peer),
        view.failed(peer).succeeded(peer) == view.failed(peer),
        view.failed(peer).failed(peer) == view.failed(peer),
{
}

/// A peer that answers counts among those that the record has reached, and one that fails does
/// not; either way it is not waited for any more.
pub proof fn law_put_record_outcome(view: PutRecordView, peer: PeerId)
    requires
        view.pending.contains(peer),
    ensures
        ({
            let after = view.succeeded(peer);
            &&& after.successful.contains(peer)
            &&& !after.pending.contains(peer)
            &&& after.failed == view.failed
            &&& forall|other: PeerId|
                other != peer ==> (#[trigger] after.pending.contains(other) <==> view.pending.contains(
                    other,
                )) && (after.successful.contains(other) <==> view.successful.contains(other))
        }),
        ({
            let after = view.failed(peer);
            &&& after.failed.contains(peer)
            &&& !after.pending.contains(peer)
            &&& after.successful == view.successful
            &&& forall|other: PeerId|
                other != peer ==> (#[trigger] after.pending.contains(other) <==> view.pending.contains(
                    other,
                )) && (after.failed.contains(other) <==> view.failed.contains(other))
        }),
{
}

/// A quorum asks for one peer, for as many as it says, or for all of them, and never for none.
pub proof fn law_quorum_sizes(quorum: Quorum, peers: nat)
    ensures
        quorum is One ==> quorum_size(quorum, peers) == 1,
        quorum is All && peers > 0 ==> quorum_size(quorum, peers) == peers,
        quorum is All && peers == 0 ==> quorum_size(quorum, peers) == 1,
        quorum matches Quorum::N(n) ==> quorum_size(quorum, peers) == n.spec_get(),
{
}

} // verus!
