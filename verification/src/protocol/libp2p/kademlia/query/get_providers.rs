//! `GET_PROVIDERS` queries.

use super::super::message;
use super::super::message::KademliaMessage;
use super::super::record::{ContentProvider, RecordKey};
use super::super::types;
use super::super::types::{Distance, KademliaPeer, Key};
use super::super::u256::U256;
use super::candidates;
use super::candidates::{Peers, PeersView};
use super::find_node::NextStep;
use super::{QueryAction, QueryActionView, QueryId};
use crate::address;
use crate::address::Multiaddr;
use crate::collections::{AssocSet, MapKey};
use crate::peer_id::PeerId;
use vstd::prelude::*;

verus! {

/// The configuration needed to instantiate a new [`GetProvidersContext`].
pub struct GetProvidersConfig {
    /// Local peer ID.
    pub local_peer_id: PeerId,
    /// Parallelism factor.
    pub parallelism_factor: usize,
    /// Query ID.
    pub query: QueryId,
    /// Target key.
    pub target: Key<RecordKey>,
    /// Known providers from the local store.
    pub known_providers: Vec<KademliaPeer>,
}

/// Context for `GET_PROVIDERS` queries.
pub struct GetProvidersContext {
    /// Query immutable config.
    pub config: GetProvidersConfig,
    /// Peers that are to be asked, are to answer or have been asked.
    pub peers: Peers,
    /// Found providers.
    pub found_providers: Vec<KademliaPeer>,
}

/// A `GET_PROVIDERS` query: its peers and the providers that they have answered with.
pub struct GetProvidersView {
    /// Peers that are to be asked, are to answer or have been asked.
    pub peers: PeersView,
    /// Found providers.
    pub found: Seq<KademliaPeer>,
}

impl GetProvidersView {
    /// What the query does next.
    pub open spec fn next_step(self, parallelism_factor: usize) -> NextStep {
        let nobody_pending = self.peers.pending == Map::<PeerId, KademliaPeer>::empty();
        let no_candidates = self.peers.candidates == Map::<Distance, KademliaPeer>::empty();
        if nobody_pending && no_candidates {
            if self.found.len() == 0 {
                NextStep::Failed
            } else {
                NextStep::Succeeded
            }
        } else if self.peers.pending.len() == parallelism_factor || no_candidates {
            NextStep::Wait
        } else {
            NextStep::Schedule
        }
    }
}

/// The distance of a peer to a place, as a number.
pub open spec fn peer_distance(peer: PeerId, target: U256) -> nat {
    types::xor_distance(types::place_of(peer.spec_bytes()), target).value()
}

/// All addresses that `providers` have for `peer`.
pub open spec fn addresses_of(providers: Seq<KademliaPeer>, peer: PeerId) -> Set<Seq<u8>>
    decreases providers.len(),
{
    if providers.len() == 0 {
        Set::empty()
    } else {
        let before = addresses_of(providers.drop_last(), peer);
        if providers.last().peer == peer {
            before.union(address::address_views(providers.last().addresses@).to_set())
        } else {
            before
        }
    }
}

/// Whether some of `providers` is `peer`.
pub open spec fn provides(providers: Seq<KademliaPeer>, peer: PeerId) -> bool {
    exists|i: int| 0 <= i < providers.len() && (#[trigger] providers[i]).peer == peer
}

/// Whether `merged` are the peers of `providers`, each once, with all addresses that there are for
/// it, each once, from the shortest distance to `target` to the longest.
pub open spec fn is_merged(
    providers: Seq<KademliaPeer>,
    target: U256,
    merged: Seq<ContentProvider>,
) -> bool {
    &&& forall|peer: PeerId| #[trigger]
        provides(providers, peer) <==> exists|i: int|
            0 <= i < merged.len() && (#[trigger] merged[i]).peer == peer
    &&& forall|i: int, j: int|
        0 <= i < j < merged.len() ==> (#[trigger] merged[i]).peer != (#[trigger] merged[j]).peer
    &&& forall|i: int, j: int|
        0 <= i < j < merged.len() ==> peer_distance((#[trigger] merged[i]).peer, target)
            <= peer_distance((#[trigger] merged[j]).peer, target)
    &&& forall|i: int|
        #![trigger merged[i]]
        0 <= i < merged.len() ==> {
            let addresses = address::address_views(merged[i].addresses@);
            &&& addresses.no_duplicates()
            &&& addresses.to_set() == addresses_of(providers, merged[i].peer)
        }
}

struct Merged {
    distance: Distance,
    peer: PeerId,
    addresses: AssocSet<Multiaddr>,
}

spec fn merging(providers: Seq<KademliaPeer>, target: U256, merged: Seq<Merged>) -> bool {
    &&& forall|peer: PeerId| #[trigger]
        provides(providers, peer) <==> exists|i: int|
            0 <= i < merged.len() && (#[trigger] merged[i]).peer == peer
    &&& forall|i: int, j: int|
        0 <= i < j < merged.len() ==> (#[trigger] merged[i]).peer != (#[trigger] merged[j]).peer
    &&& forall|i: int, j: int|
        0 <= i < j < merged.len() ==> (#[trigger] merged[i]).distance.value() <= (
        #[trigger] merged[j]).distance.value()
    &&& forall|i: int|
        #![trigger merged[i]]
        0 <= i < merged.len() ==> {
            &&& merged[i].distance.value() == peer_distance(merged[i].peer, target)
            &&& merged[i].addresses@ == addresses_of(providers, merged[i].peer)
        }
}

proof fn lemma_addresses_of_stranger(providers: Seq<KademliaPeer>, peer: PeerId)
    requires
        !provides(providers, peer),
    ensures
        addresses_of(providers, peer) == Set::<Seq<u8>>::empty(),
    decreases providers.len(),
{
    if providers.len() > 0 {
        let before = providers.drop_last();
        assert(providers.last() == providers[providers.len() - 1]);
        assert(!provides(before, peer)) by {
            if provides(before, peer) {
                let i = choose|i: int| 0 <= i < before.len() && (#[trigger] before[i]).peer == peer;
                assert(providers[i].peer == peer);
            }
        }
        lemma_addresses_of_stranger(before, peer);
    }
}

proof fn lemma_provides_push(before: Seq<KademliaPeer>, next: KademliaPeer, peer: PeerId)
    ensures
        provides(before.push(next), peer) <==> (provides(before, peer) || next.peer == peer),
{
    let after = before.push(next);
    if provides(before, peer) {
        let i = choose|i: int| 0 <= i < before.len() && (#[trigger] before[i]).peer == peer;
        assert(after[i].peer == peer);
    }
    assert(after[before.len() as int] == next);
    if provides(after, peer) {
        let i = choose|i: int| 0 <= i < after.len() && (#[trigger] after[i]).peer == peer;
        if i < before.len() {
            assert(before[i].peer == peer);
        }
    }
}

fn add_addresses(set: &mut AssocSet<Multiaddr>, addresses: Vec<Multiaddr>)
    ensures
        final(set)@ == old(set)@.union(address::address_views(addresses@).to_set()),
{
    let ghost views = address::address_views(addresses@);
    let ghost before = set@;
    let mut i: usize = 0;
    assert(before.union(views.take(0).to_set()) =~= before);
    while i < addresses.len()
        invariant
            i <= addresses.len(),
            views == address::address_views(addresses@),
            set@ == before.union(views.take(i as int).to_set()),
        decreases addresses.len() - i,
    {
        set.insert(addresses[i].clone());
        proof {
            let a = views.take(i as int);
            let b = views.take(i + 1);
            let next = addresses@[i as int]@;
            assert(b =~= a.push(next));
            assert forall|x: Seq<u8>| b.contains(x) <==> (a.contains(x) || x == next) by {
                if a.contains(x) {
                    let j = choose|j: int| 0 <= j < a.len() && a[j] == x;
                    assert(b[j] == x);
                }
                assert(b[i as int] == next);
            }
            assert(before.union(b.to_set()) =~= before.union(a.to_set()).insert(next));
        }
        i += 1;
    }
    assert(views.take(i as int) =~= views);
}

fn to_list(set: &AssocSet<Multiaddr>) -> (r: Vec<Multiaddr>)
    ensures
        address::address_views(r@).no_duplicates(),
        address::address_views(r@).to_set() == set@,
{
    let mut r: Vec<Multiaddr> = Vec::new();
    let n: usize = set.len();
    let mut i: usize = 0;
    while i < n
        invariant
            i <= n,
            n == set.order().len(),
            r.len() == i,
            forall|j: int| 0 <= j < i ==> (#[trigger] r@[j])@ == set.order()[j],
        decreases n - i,
    {
        r.push(set.at(i).clone());
        i += 1;
    }
    assert(address::address_views(r@) =~= set.order());
    r
}

proof fn lemma_merged_existing(
    before: Seq<KademliaPeer>,
    next: KademliaPeer,
    target: U256,
    merged: Seq<Merged>,
    p: int,
    entry: Merged,
)
    requires
        merging(before, target, merged),
        0 <= p < merged.len(),
        merged[p].peer == next.peer,
        entry.peer == merged[p].peer,
        entry.distance == merged[p].distance,
        entry.addresses@ == merged[p].addresses@.union(
            address::address_views(next.addresses@).to_set(),
        ),
    ensures
        merging(before.push(next), target, merged.update(p, entry)),
{
    let after = before.push(next);
    let m = merged.update(p, entry);
    assert(after.drop_last() =~= before);
    assert forall|i: int| 0 <= i < m.len() implies (#[trigger] m[i]).peer == merged[i].peer
        && m[i].distance == merged[i].distance by {}
    assert forall|peer: PeerId| #[trigger] provides(after, peer) <==> exists|i: int|
        0 <= i < m.len() && (#[trigger] m[i]).peer == peer by {
        lemma_provides_push(before, next, peer);
        if provides(before, peer) {
            let i = choose|i: int| 0 <= i < merged.len() && (#[trigger] merged[i]).peer == peer;
            assert(m[i].peer == peer);
        }
        if exists|i: int| 0 <= i < m.len() && (#[trigger] m[i]).peer == peer {
            let i = choose|i: int| 0 <= i < m.len() && (#[trigger] m[i]).peer == peer;
            assert(merged[i].peer == peer);
        }
        assert(m[p].peer == next.peer);
    }
    assert forall|i: int, j: int| 0 <= i < j < m.len() implies (#[trigger] m[i]).peer != (
    #[trigger] m[j]).peer && m[i].distance.value() <= m[j].distance.value() by {
        assert(merged[i].peer != merged[j].peer);
        assert(merged[i].distance.value() <= merged[j].distance.value());
    }
    assert forall|i: int|
        #![trigger m[i]]
        0 <= i < m.len() implies m[i].distance.value() == peer_distance(m[i].peer, target)
        && m[i].addresses@ == addresses_of(after, m[i].peer) by {
        assert(merged[i].addresses@ == addresses_of(before, merged[i].peer));
        if i != p {
            if i < p {
                assert(merged[i].peer != merged[p].peer);
            } else {
                assert(merged[p].peer != merged[i].peer);
            }
        }
    }
}

proof fn lemma_merged_new(
    before: Seq<KademliaPeer>,
    next: KademliaPeer,
    target: U256,
    merged: Seq<Merged>,
    p: int,
    entry: Merged,
)
    requires
        merging(before, target, merged),
        0 <= p <= merged.len(),
        forall|i: int| 0 <= i < merged.len() ==> (#[trigger] merged[i]).peer != next.peer,
        forall|i: int|
            0 <= i < p ==> (#[trigger] merged[i]).distance.value() <= entry.distance.value(),
        forall|i: int|
            p <= i < merged.len() ==> entry.distance.value() <= (
            #[trigger] merged[i]).distance.value(),
        entry.peer == next.peer,
        entry.distance.value() == peer_distance(next.peer, target),
        entry.addresses@ == address::address_views(next.addresses@).to_set(),
    ensures
        merging(before.push(next), target, merged.insert(p, entry)),
{
    let after = before.push(next);
    let m = merged.insert(p, entry);
    assert(after.drop_last() =~= before);
    assert forall|i: int| 0 <= i < m.len() implies #[trigger] m[i] == (if i < p {
        merged[i]
    } else if i == p {
        entry
    } else {
        merged[i - 1]
    }) by {}
    assert(!provides(before, next.peer));
    lemma_addresses_of_stranger(before, next.peer);
    assert forall|peer: PeerId| #[trigger] provides(after, peer) <==> exists|i: int|
        0 <= i < m.len() && (#[trigger] m[i]).peer == peer by {
        lemma_provides_push(before, next, peer);
        if provides(before, peer) {
            let i = choose|i: int| 0 <= i < merged.len() && (#[trigger] merged[i]).peer == peer;
            if i < p {
                assert(m[i].peer == peer);
            } else {
                assert(m[i + 1].peer == peer);
            }
        }
        if exists|i: int| 0 <= i < m.len() && (#[trigger] m[i]).peer == peer {
            let i = choose|i: int| 0 <= i < m.len() && (#[trigger] m[i]).peer == peer;
            if i < p {
                assert(merged[i].peer == peer);
            } else if i > p {
                assert(merged[i - 1].peer == peer);
            }
        }
        assert(m[p].peer == next.peer);
    }
    assert forall|i: int, j: int| 0 <= i < j < m.len() implies (#[trigger] m[i]).peer != (
    #[trigger] m[j]).peer && m[i].distance.value() <= m[j].distance.value() by {
        let i2 = if i < p { i } else { i - 1 };
        let j2 = if j < p { j } else { j - 1 };
        if i != p && j != p {
            assert(merged[i2].peer != merged[j2].peer);
            assert(merged[i2].distance.value() <= merged[j2].distance.value());
        } else if i == p {
            assert(merged[j2].peer != next.peer);
        } else {
            assert(merged[i2].peer != next.peer);
        }
    }
    assert forall|i: int|
        #![trigger m[i]]
        0 <= i < m.len() implies m[i].distance.value() == peer_distance(m[i].peer, target)
        && m[i].addresses@ == addresses_of(after, m[i].peer) by {
        if i == p {
            assert(addresses_of(after, next.peer) =~= entry.addresses@);
        } else {
            let i2 = if i < p { i } else { i - 1 };
            assert(merged[i2].peer != next.peer);
            assert(merged[i2].addresses@ == addresses_of(before, merged[i2].peer));
        }
    }
}

/// Merges the addresses of different provider records of the same peer and sorts the providers by
/// their distance to the target key.
pub fn merge_and_sort_providers(found_providers: Vec<KademliaPeer>, target: &U256) -> (r: Vec<
    ContentProvider,
>)
    ensures
        is_merged(found_providers@, *target, r@),
{
    let ghost all = found_providers@;
    let mut providers = found_providers;
    let mut merged: Vec<Merged> = Vec::new();
    let mut done: Ghost<int> = Ghost(0);
    while providers.len() > 0
        invariant
            0 <= done@ <= all.len(),
            providers@ == all.skip(done@),
            merging(all.take(done@), *target, merged@),
        decreases providers.len(),
    {
        let provider = providers.remove(0);
        let ghost before = all.take(done@);
        let ghost next = provider;
        proof {
            assert(next == all[done@]);
            assert(all.take(done@ + 1) =~= before.push(next));
            assert(providers@ =~= all.skip(done@ + 1));
        }
        let key = Key::from_peer(provider.peer);
        let distance = Distance(key.bytes.xor(target));
        let mut i: usize = 0;
        let mut place: usize = 0;
        let mut found: Option<usize> = None;
        while i < merged.len()
            invariant
                i <= merged.len(),
                place <= i,
                merging(before, *target, merged@),
                forall|j: int| 0 <= j < i && found is None ==> (#[trigger] merged@[j]).peer
                    != provider.peer,
                found matches Some(p) ==> p < merged.len() && merged@[p as int].peer
                    == provider.peer,
                forall|j: int|
                    0 <= j < place ==> (#[trigger] merged@[j]).distance.value()
                        <= distance.value(),
                forall|j: int|
                    place <= j < i ==> distance.value() <= (
                    #[trigger] merged@[j]).distance.value(),
            decreases merged.len() - i,
        {
            if merged[i].peer.same(&provider.peer) {
                found = Some(i);
            }
            if merged[i].distance.less_than(&distance) {
                proof {
                    assert forall|j: int| 0 <= j < i + 1 implies (
                    #[trigger] merged@[j]).distance.value() <= distance.value() by {
                        if j < i {
                            assert(merged@[j].distance.value() <= merged@[i as int].distance.value());
                        }
                    }
                }
                place = i + 1;
            }
            i += 1;
        }
        match found {
            Some(p) => {
                let ghost old_merged = merged@;
                let mut entry = merged.remove(p);
                add_addresses(&mut entry.addresses, provider.addresses);
                let ghost new_entry = entry;
                merged.insert(p, entry);
                proof {
                    assert(merged@ =~= old_merged.update(p as int, new_entry));
                    lemma_merged_existing(
                        before,
                        next,
                        *target,
                        old_merged,
                        p as int,
                        new_entry,
                    );
                }
            },
            None => {
                let ghost old_merged = merged@;
                let mut addresses: AssocSet<Multiaddr> = AssocSet::new();
                add_addresses(&mut addresses, provider.addresses);
                proof {
                    assert(Set::<Seq<u8>>::empty().union(
                        address::address_views(next.addresses@).to_set(),
                    ) =~= address::address_views(next.addresses@).to_set());
                }
                let entry = Merged { distance, peer: provider.peer, addresses };
                proof {
                    lemma_merged_new(before, next, *target, old_merged, place as int, entry);
                }
                merged.insert(place, entry);
            },
        }
        proof {
            done@ = done@ + 1;
        }
    }
    assert(all.take(done@) =~= all);
    let mut r: Vec<ContentProvider> = Vec::new();
    let mut i: usize = 0;
    while i < merged.len()
        invariant
            i <= merged.len(),
            r.len() == i,
            forall|j: int|
                #![trigger r@[j]]
                0 <= j < i ==> {
                    &&& r@[j].peer == merged@[j].peer
                    &&& address::address_views(r@[j].addresses@).no_duplicates()
                    &&& address::address_views(r@[j].addresses@).to_set() == merged@[j].addresses@
                },
        decreases merged.len() - i,
    {
        r.push(
            ContentProvider { peer: merged[i].peer, addresses: to_list(&merged[i].addresses) },
        );
        i += 1;
    }
    proof {
        assert(merging(all, *target, merged@));
        assert forall|peer: PeerId| #[trigger] provides(all, peer) <==> exists|i: int|
            0 <= i < r@.len() && (#[trigger] r@[i]).peer == peer by {
            if provides(all, peer) {
                let i = choose|i: int|
                    0 <= i < merged@.len() && (#[trigger] merged@[i]).peer == peer;
                assert(r@[i].peer == peer);
            }
            if exists|i: int| 0 <= i < r@.len() && (#[trigger] r@[i]).peer == peer {
                let i = choose|i: int| 0 <= i < r@.len() && (#[trigger] r@[i]).peer == peer;
                assert(merged@[i].peer == peer);
            }
        }
        assert forall|i: int, j: int| 0 <= i < j < r@.len() implies (#[trigger] r@[i]).peer != (
        #[trigger] r@[j]).peer && peer_distance(r@[i].peer, *target) <= peer_distance(
            r@[j].peer,
            *target,
        ) by {
            assert(merged@[i].peer != merged@[j].peer);
            assert(merged@[i].distance.value() <= merged@[j].distance.value());
        }
        assert forall|i: int|
            #![trigger r@[i]]
            0 <= i < r@.len() implies address::address_views(r@[i].addresses@).to_set()
            == addresses_of(all, r@[i].peer) by {
            assert(merged@[i].addresses@ == addresses_of(all, merged@[i].peer));
        }
    }
    r
}

impl View for GetProvidersContext {
    type V = GetProvidersView;

    open spec fn view(&self) -> GetProvidersView {
        GetProvidersView { peers: self.peers@, found: self.found_providers@ }
    }
}

impl GetProvidersContext {
    /// The message that the query sends.
    pub open spec fn request(self) -> super::super::schema::MessageView {
        message::get_providers_message(self.config.target.preimage@)
    }

    /// Create new [`GetProvidersContext`].
    pub fn new(config: GetProvidersConfig, in_peers: Vec<KademliaPeer>) -> (r: Self)
        ensures
            r.config == config,
            r@.peers.pending == Map::<PeerId, KademliaPeer>::empty(),
            r@.peers.queried == Set::<PeerId>::empty(),
            r@.peers.candidates == candidates::initial_candidates(config.target.bytes, in_peers@),
            r@.found == Seq::<KademliaPeer>::empty(),
    {
        let peers = Peers::new(&config.target.bytes, in_peers);
        GetProvidersContext { config, peers, found_providers: Vec::new() }
    }

    /// Get the found providers, with those known before.
    pub fn found_providers(self) -> (r: Vec<ContentProvider>)
        ensures
            is_merged(
                self.config.known_providers@ + self@.found,
                self.config.target.bytes,
                r@,
            ),
    {
        let mut providers = self.config.known_providers;
        let mut found = self.found_providers;
        providers.append(&mut found);
        merge_and_sort_providers(providers, &self.config.target.bytes)
    }

    /// Register response failure for `peer`.
    pub fn register_response_failure(&mut self, peer: PeerId)
        ensures
            final(self).config == old(self).config,
            final(self)@.found == old(self)@.found,
            final(self)@.peers == (if old(self)@.peers.pending.contains_key(peer) {
                old(self)@.peers.answered(peer)
            } else {
                old(self)@.peers
            }),
    {
        let _ = self.peers.answer(&peer);
    }

    /// Register `GET_PROVIDERS` response from `peer`.
    pub fn register_response(
        &mut self,
        peer: PeerId,
        providers: Vec<KademliaPeer>,
        closer_peers: Vec<KademliaPeer>,
    )
        ensures
            final(self).config == old(self).config,
            if old(self)@.peers.pending.contains_key(peer) {
                let answered = old(self)@.peers.answered(peer);
                &&& final(self)@.found == old(self)@.found + providers@
                &&& final(self)@.peers == (PeersView {
                    candidates: answered.heard_of(
                        old(self).config.local_peer_id,
                        old(self).config.target.bytes,
                        closer_peers@,
                    ),
                    ..answered
                })
            } else {
                final(self)@ == old(self)@
            },
    {
        match self.peers.answer(&peer) {
            Some(_) => {},
            None => {
                return;
            },
        }
        let mut providers = providers;
        self.found_providers.append(&mut providers);
        self.peers.hear_of(self.config.local_peer_id, &self.config.target.bytes, closer_peers);
    }

    /// Get next action for `peer`.
    pub fn next_peer_action(&self, peer: &PeerId) -> (r: Option<QueryAction>)
        ensures
            match r {
                Some(action) => {
                    &&& self@.peers.pending.contains_key(*peer)
                    &&& action@ == (QueryActionView::SendMessage {
                        query: self.config.query,
                        peer: *peer,
                        message: self.request(),
                    })
                },
                None => !self@.peers.pending.contains_key(*peer),
            },
    {
        if self.peers.is_pending(peer) {
            Some(
                QueryAction::SendMessage {
                    query: self.config.query,
                    peer: *peer,
                    message: KademliaMessage::get_providers_request(&self.config.target.preimage),
                },
            )
        } else {
            None
        }
    }

    /// Schedule next peer for outbound `GET_PROVIDERS` query.
    fn schedule_next_peer(&mut self) -> (r: Option<QueryAction>)
        ensures
            final(self).config == old(self).config,
            final(self)@.found == old(self)@.found,
            if old(self)@.peers.candidates == Map::<Distance, KademliaPeer>::empty() {
                r is None && final(self)@.peers == old(self)@.peers
            } else {
                &&& final(self)@.peers == old(self)@.peers.scheduled()
                &&& r matches Some(action) && action@ == (QueryActionView::SendMessage {
                    query: old(self).config.query,
                    peer: old(self)@.peers.next_peer().peer,
                    message: old(self).request(),
                })
            },
    {
        match self.peers.schedule() {
            Some(peer) => Some(
                QueryAction::SendMessage {
                    query: self.config.query,
                    peer,
                    message: KademliaMessage::get_providers_request(&self.config.target.preimage),
                },
            ),
            None => None,
        }
    }

    /// Check if the query cannot make any progress.
    ///
    /// Returns true when there are no pending responses and no candidates to query.
    pub fn is_done(&self) -> (r: bool)
        ensures
            r == (self@.peers.pending == Map::<PeerId, KademliaPeer>::empty()
                && self@.peers.candidates == Map::<Distance, KademliaPeer>::empty()),
    {
        self.peers.nobody_pending() && self.peers.no_candidates()
    }

    /// Get next action for a `GET_PROVIDERS` query.
    pub fn next_action(&mut self) -> (r: Option<QueryAction>)
        ensures
            final(self).config == old(self).config,
            final(self)@.found == old(self)@.found,
            match old(self)@.next_step(old(self).config.parallelism_factor) {
                NextStep::Failed => {
                    &&& r matches Some(action) && action@ == (QueryActionView::QueryFailed {
                        query: old(self).config.query,
                    })
                    &&& final(self)@.peers == old(self)@.peers
                },
                NextStep::Succeeded => {
                    &&& r matches Some(action) && action@ == (QueryActionView::QuerySucceeded {
                        query: old(self).config.query,
                    })
                    &&& final(self)@.peers == old(self)@.peers
                },
                NextStep::Wait => {
                    &&& r is None
                    &&& final(self)@.peers == old(self)@.peers
                },
                NextStep::Schedule => {
                    &&& r matches Some(action) && action@ == (QueryActionView::SendMessage {
                        query: old(self).config.query,
                        peer: old(self)@.peers.next_peer().peer,
                        message: old(self).request(),
                    })
                    &&& final(self)@.peers == old(self)@.peers.scheduled()
                },
            },
    {
        if self.is_done() {
            // If we cannot make progress, return the final result.
            // A query failed when we are not able to find any providers.
            if self.found_providers.len() == 0 {
                Some(QueryAction::QueryFailed { query: self.config.query })
            } else {
                Some(QueryAction::QuerySucceeded { query: self.config.query })
            }
        } else if self.peers.pending_len() == self.config.parallelism_factor {
            // At this point, we either have pending responses or candidates to query; and we need
            // more records. Ensure we do not exceed the parallelism factor.
            None
        } else {
            self.schedule_next_peer()
        }
    }
}

} // verus!
