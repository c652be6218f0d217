//! The peers of a query: those to ask, those that have been asked, and those that have answered.

use super::super::distance_map;
use super::super::distance_map::DistanceMap;
use super::super::types;
use super::super::types::{Distance, KademliaPeer};
use super::super::u256::U256;
use crate::collections::{AssocMap, AssocSet, MapKey};
use crate::peer_id::PeerId;
use vstd::prelude::*;

verus! {

/// Which peers a query has to do with.
pub struct PeersView {
    /// Peers that are to answer.
    pub pending: Map<PeerId, KademliaPeer>,
    /// Peers that have answered, or failed to.
    pub queried: Set<PeerId>,
    /// Peers to ask, by their distance to the target.
    pub candidates: Map<Distance, KademliaPeer>,
}

impl PeersView {
    /// Whether a peer that was heard of becomes a candidate: it has not answered, it is not asked
    /// already, and it is not the local node.
    pub open spec fn admits(self, local: PeerId, peer: PeerId) -> bool {
        &&& !self.queried.contains(peer)
        &&& !self.pending.contains_key(peer)
        &&& local != peer
    }

    /// The candidates after having heard of `peers`.
    pub open spec fn heard_of(self, local: PeerId, target: U256, peers: Seq<KademliaPeer>) -> Map<
        Distance,
        KademliaPeer,
    >
        decreases peers.len(),
    {
        if peers.len() == 0 {
            self.candidates
        } else {
            let before = self.heard_of(local, target, peers.drop_last());
            let peer = peers.last();
            if self.admits(local, peer.peer) {
                before.insert(types::xor_distance(target, peer.key.bytes), peer)
            } else {
                before
            }
        }
    }

    /// The peer that is asked next: the candidate closest to the target.
    pub open spec fn next_peer(self) -> KademliaPeer {
        self.candidates[distance_map::least(self.candidates)]
    }

    /// After the next peer has been asked.
    pub open spec fn scheduled(self) -> PeersView {
        let peer = self.next_peer();
        PeersView {
            pending: self.pending.insert(peer.peer, peer),
            candidates: self.candidates.remove(distance_map::least(self.candidates)),
            ..self
        }
    }

    /// After `peer` has answered, or failed to.
    pub open spec fn answered(self, peer: PeerId) -> PeersView {
        PeersView {
            pending: self.pending.remove(peer),
            queried: self.queried.insert(self.pending[peer].peer),
            ..self
        }
    }
}

/// The candidates that a query starts with.
pub open spec fn initial_candidates(target: U256, peers: Seq<KademliaPeer>) -> Map<
    Distance,
    KademliaPeer,
>
    decreases peers.len(),
{
    if peers.len() == 0 {
        Map::empty()
    } else {
        initial_candidates(target, peers.drop_last()).insert(
            types::xor_distance(target, peers.last().key.bytes),
            peers.last(),
        )
    }
}

/// The peers of a query.
pub struct Peers {
    pending: AssocMap<PeerId, KademliaPeer>,
    queried: AssocSet<PeerId>,
    candidates: DistanceMap<KademliaPeer>,
}

impl View for Peers {
    type V = PeersView;

    closed spec fn view(&self) -> PeersView {
        PeersView {
            pending: self.pending@,
            queried: self.queried@,
            candidates: self.candidates@,
        }
    }
}

impl Peers {
    /// The peers that a query for `target` starts with.
    pub fn new(target: &U256, in_peers: Vec<KademliaPeer>) -> (r: Self)
        ensures
            r@.pending == Map::<PeerId, KademliaPeer>::empty(),
            r@.queried == Set::<PeerId>::empty(),
            r@.candidates == initial_candidates(*target, in_peers@),
    {
        let ghost all = in_peers@;
        let mut in_peers = in_peers;
        let mut candidates: DistanceMap<KademliaPeer> = DistanceMap::new();
        let mut done: Ghost<int> = Ghost(0);
        while in_peers.len() > 0
            invariant
                0 <= done@ <= all.len(),
                in_peers@ == all.skip(done@),
                candidates@ == initial_candidates(*target, all.take(done@)),
            decreases in_peers.len(),
        {
            let peer = in_peers.remove(0);
            proof {
                assert(peer == all[done@]);
                assert(all.take(done@ + 1).drop_last() =~= all.take(done@));
                assert(all.take(done@ + 1).last() == peer);
                assert(in_peers@ =~= all.skip(done@ + 1));
            }
            let distance = Distance(target.xor(&peer.key.bytes));
            candidates.insert(distance, peer);
            proof {
                done@ = done@ + 1;
            }
        }
        assert(all.take(done@) =~= all);
        Peers { pending: AssocMap::new(), queried: AssocSet::new(), candidates }
    }

    /// The number of peers that are to answer.
    pub fn pending_len(&self) -> (r: usize)
        ensures
            r == self@.pending.len(),
            self@.pending.dom().finite(),
    {
        self.pending.len()
    }

    /// Whether `peer` is to answer.
    pub fn is_pending(&self, peer: &PeerId) -> (r: bool)
        ensures
            r == self@.pending.contains_key(*peer),
    {
        self.pending.contains_key(peer)
    }

    /// Whether `peer` has answered, or failed to.
    pub fn is_queried(&self, peer: &PeerId) -> (r: bool)
        ensures
            r == self@.queried.contains(*peer),
    {
        self.queried.contains(peer)
    }

    /// The number of peers that have answered, or failed to.
    pub fn queried_len(&self) -> (r: usize)
        ensures
            r == self@.queried.len(),
    {
        self.queried.len()
    }

    /// The number of candidates.
    pub fn candidates_len(&self) -> (r: usize)
        ensures
            r == self@.candidates.len(),
    {
        self.candidates.len()
    }

    /// Whether no peer is to answer.
    pub fn nobody_pending(&self) -> (r: bool)
        ensures
            r == (self@.pending == Map::<PeerId, KademliaPeer>::empty()),
    {
        self.pending.is_empty()
    }

    /// Whether there is no candidate.
    pub fn no_candidates(&self) -> (r: bool)
        ensures
            r == (self@.candidates == Map::<Distance, KademliaPeer>::empty()),
    {
        self.candidates.is_empty()
    }

    /// The candidate closest to the target, by the distance that it was entered under.
    pub fn closest_candidate(&self) -> (r: Option<&KademliaPeer>)
        ensures
            match r {
                Some(peer) => {
                    &&& self@.candidates != Map::<Distance, KademliaPeer>::empty()
                    &&& *peer == self@.next_peer()
                },
                None => self@.candidates == Map::<Distance, KademliaPeer>::empty(),
            },
    {
        match self.candidates.first() {
            Some((_, peer)) => Some(peer),
            None => None,
        }
    }

    /// Asks the candidate closest to the target, if there is one.
    pub fn schedule(&mut self) -> (r: Option<PeerId>)
        ensures
            match r {
                Some(peer) => {
                    &&& old(self)@.candidates != Map::<Distance, KademliaPeer>::empty()
                    &&& peer == old(self)@.next_peer().peer
                    &&& final(self)@ == old(self)@.scheduled()
                },
                None => {
                    &&& old(self)@.candidates == Map::<Distance, KademliaPeer>::empty()
                    &&& final(self)@ == old(self)@
                },
            },
    {
        match self.candidates.pop_first() {
            Some((_, candidate)) => {
                let peer = candidate.peer;
                self.pending.insert(peer, candidate);
                Some(peer)
            },
            None => None,
        }
    }

    /// Notes that `peer` has answered, or failed to, if it was to answer.
    pub fn answer(&mut self, peer: &PeerId) -> (r: Option<KademliaPeer>)
        ensures
            match r {
                Some(entry) => {
                    &&& old(self)@.pending.contains_key(*peer)
                    &&& entry == old(self)@.pending[*peer]
                    &&& final(self)@ == old(self)@.answered(*peer)
                },
                None => {
                    &&& !old(self)@.pending.contains_key(*peer)
                    &&& final(self)@ == old(self)@
                },
            },
    {
        match self.pending.remove(peer) {
            Some(entry) => {
                self.queried.insert(entry.peer);
                Some(entry)
            },
            None => {
                assert(self.pending@ =~= old(self).pending@);
                None
            },
        }
    }

    /// Adds those of `peers` to the candidates that may become one.
    pub fn hear_of(&mut self, local: PeerId, target: &U256, peers: Vec<KademliaPeer>)
        ensures
            final(self)@ == (PeersView {
                candidates: old(self)@.heard_of(local, *target, peers@),
                ..old(self)@
            }),
    {
        let ghost all = peers@;
        let ghost before = self@;
        let mut peers = peers;
        let mut done: Ghost<int> = Ghost(0);
        while peers.len() > 0
            invariant
                0 <= done@ <= all.len(),
                peers@ == all.skip(done@),
                self@.pending == before.pending,
                self@.queried == before.queried,
                self@.candidates == before.heard_of(local, *target, all.take(done@)),
            decreases peers.len(),
        {
            let peer = peers.remove(0);
            proof {
                assert(peer == all[done@]);
                assert(all.take(done@ + 1).drop_last() =~= all.take(done@));
                assert(all.take(done@ + 1).last() == peer);
                assert(peers@ =~= all.skip(done@ + 1));
            }
            if !self.queried.contains(&peer.peer) && !self.pending.contains_key(&peer.peer)
                && !local.same(&peer.peer) {
                let distance = Distance(target.xor(&peer.key.bytes));
                self.candidates.insert(distance, peer);
            }
            proof {
                done@ = done@ + 1;
            }
        }
        assert(all.take(done@) =~= all);
    }
}

} // verus!
