//! What holds of every query.

use super::super::distance_map;
use super::super::handle::Quorum;
use super::super::message::KademliaMessageView;
use super::super::record::{ContentProvider, PeerRecord, Record};
use super::super::types;
use super::super::types::{Distance, KademliaPeer, Preimage};
use super::super::u256::U256;
use super::candidates::PeersView;
use super::engine;
use super::engine::QueryView;
use super::find_node::{FindNodeConfig, FindNodeView, NextStep};
use super::get_providers;
use super::get_providers::GetProvidersView;
use super::get_record::{GetRecordConfig, GetRecordView};
use super::{QueryActionView, QueryId};
use crate::address;
use crate::peer_id::PeerId;
use crate::time::Instant;
use vstd::prelude::*;

verus! {

/// Asking one more peer keeps within the parallelism factor.
pub proof fn law_find_node_parallelism<T: Preimage>(
    view: FindNodeView,
    config: FindNodeConfig<T>,
)
    requires
        view.peers.pending.dom().finite(),
        view.peers.pending.len() <= config.parallelism_factor,
        view.next_step(config) is Schedule,
    ensures
        view.peers.scheduled().pending.len() <= config.parallelism_factor,
{
}

/// Asking one more peer keeps within the parallelism factor.
pub proof fn law_get_record_parallelism(view: GetRecordView, config: GetRecordConfig)
    requires
        view.peers.pending.dom().finite(),
        view.peers.pending.len() <= config.parallelism_factor,
        view.next_step(config) is Schedule,
    ensures
        view.peers.scheduled().pending.len() <= config.parallelism_factor,
{
}

/// Asking one more peer keeps within the parallelism factor.
pub proof fn law_get_providers_parallelism(view: GetProvidersView, parallelism_factor: usize)
    requires
        view.peers.pending.dom().finite(),
        view.peers.pending.len() <= parallelism_factor,
        view.next_step(parallelism_factor) is Schedule,
    ensures
        view.peers.scheduled().pending.len() <= parallelism_factor,
{
}

/// A query for peers never holds more responses than the replication factor.
pub proof fn law_responses_bounded(
    view: FindNodeView,
    replication_factor: usize,
    distance: Distance,
    peer: KademliaPeer,
)
    requires
        view.responses.dom().finite(),
        view.responses.len() <= replication_factor,
    ensures
        view.responses_with(replication_factor, distance, peer).len() <= replication_factor,
{
    if view.responses.contains_key(distance) {
        assert(view.responses.insert(distance, peer).dom() =~= view.responses.dom());
    } else if view.responses != Map::<Distance, KademliaPeer>::empty() {
        distance_map::lemma_greatest(view.responses);
    }
}

/// Whether `responses` are the closest ones of all `responders`, as many as the replication factor
/// allows: all others are farther than each of them.
pub open spec fn closest_of(
    responses: Map<Distance, KademliaPeer>,
    responders: Map<Distance, KademliaPeer>,
    replication_factor: usize,
) -> bool {
    &&& responses.submap_of(responders)
    &&& responses.len() == if responders.len() <= replication_factor {
        responders.len()
    } else {
        replication_factor as nat
    }
    &&& forall|d: Distance, e: Distance|
        #![trigger responses.contains_key(d), responders.contains_key(e)]
        responses.contains_key(d) && responders.contains_key(e) && !responses.contains_key(e)
            ==> d.value() < e.value()
}

/// If the responses of a query are the closest of the peers that have answered, they still are after
/// one more peer has.
pub proof fn law_closest_responders_kept(
    view: FindNodeView,
    responders: Map<Distance, KademliaPeer>,
    replication_factor: usize,
    distance: Distance,
    peer: KademliaPeer,
)
    requires
        responders.dom().finite(),
        closest_of(view.responses, responders, replication_factor),
    ensures
        closest_of(
            view.responses_with(replication_factor, distance, peer),
            responders.insert(distance, peer),
            replication_factor,
        ),
{
    let before = view.responses;
    let after = view.responses_with(replication_factor, distance, peer);
    let all = responders.insert(distance, peer);
    assert(before.dom().subset_of(responders.dom())) by {
        assert forall|d: Distance| before.contains_key(d) implies responders.contains_key(d) by {}
    }
    vstd::set_lib::lemma_len_subset(before.dom(), responders.dom());
    if before.contains_key(distance) {
        assert(responders.contains_key(distance));
        assert(all.dom() =~= responders.dom());
        assert(after.dom() =~= before.dom());
        assert forall|d: Distance, e: Distance|
            #![trigger after.contains_key(d), all.contains_key(e)]
            after.contains_key(d) && all.contains_key(e) && !after.contains_key(e) implies d.value()
            < e.value() by {
            assert(before.contains_key(d) && responders.contains_key(e));
        }
    } else if before.len() < replication_factor {
        vstd::set_lib::lemma_subset_equality(before.dom(), responders.dom());
        assert(after.dom() =~= all.dom());
    } else if before != Map::<Distance, KademliaPeer>::empty() {
        distance_map::lemma_greatest(before);
        let last = distance_map::greatest(before);
        if responders.contains_key(distance) {
            assert(all.dom() =~= responders.dom());
            assert(before.contains_key(last));
        }
        if last.value() == distance.value() {
            Distance::lemma_extensional(last, distance);
        }
        assert forall|d: Distance, e: Distance|
            #![trigger after.contains_key(d), all.contains_key(e)]
            after.contains_key(d) && all.contains_key(e) && !after.contains_key(e) implies d.value()
            < e.value() by {
            assert(before.contains_key(last));
            if d != distance {
                assert(before.contains_key(d));
                if d.value() == last.value() {
                    Distance::lemma_extensional(d, last);
                }
            }
            if e != distance {
                assert(responders.contains_key(e));
                if e != last {
                    assert(!before.contains_key(e));
                    assert(last.value() < e.value());
                }
            }
        }
    } else {
        assert(before.dom() =~= Set::<Distance>::empty());
    }
}

/// The peers that have answered, each under its distance to the target.
pub open spec fn by_distance(target: U256, responders: Seq<KademliaPeer>) -> Map<
    Distance,
    KademliaPeer,
>
    decreases responders.len(),
{
    if responders.len() == 0 {
        Map::empty()
    } else {
        let last = responders.last();
        by_distance(target, responders.drop_last()).insert(
            types::xor_distance(target, last.key.bytes),
            last,
        )
    }
}

/// The responses of a query that began with none, after `responders` have answered one by one.
pub open spec fn responses_after(
    peers: PeersView,
    target: U256,
    replication_factor: usize,
    responders: Seq<KademliaPeer>,
) -> Map<Distance, KademliaPeer>
    decreases responders.len(),
{
    if responders.len() == 0 {
        Map::empty()
    } else {
        let last = responders.last();
        let responses = responses_after(
            peers,
            target,
            replication_factor,
            responders.drop_last(),
        );
        FindNodeView { peers, responses }.responses_with(
            replication_factor,
            types::xor_distance(target, last.key.bytes),
            last,
        )
    }
}

/// Whatever the order in which peers answer, the responses of a query for peers are the closest of
/// them, as many as the replication factor allows, each under its own distance to the target.
pub proof fn law_responses_are_closest(
    peers: PeersView,
    target: U256,
    replication_factor: usize,
    responders: Seq<KademliaPeer>,
)
    ensures
        closest_of(
            responses_after(peers, target, replication_factor, responders),
            by_distance(target, responders),
            replication_factor,
        ),
        forall|d: Distance|
            #![trigger responses_after(
                peers,
                target,
                replication_factor,
                responders,
            ).contains_key(d)]
            responses_after(peers, target, replication_factor, responders).contains_key(d) ==> d
                == types::xor_distance(
                target,
                responses_after(peers, target, replication_factor, responders)[d].key.bytes,
            ),
    decreases responders.len(),
{
    lemma_by_distance(target, responders);
    let after = responses_after(peers, target, replication_factor, responders);
    let all = by_distance(target, responders);
    if responders.len() > 0 {
        let before = responders.drop_last();
        law_responses_are_closest(peers, target, replication_factor, before);
        lemma_by_distance(target, before);
        let last = responders.last();
        law_closest_responders_kept(
            FindNodeView {
                peers,
                responses: responses_after(peers, target, replication_factor, before),
            },
            by_distance(target, before),
            replication_factor,
            types::xor_distance(target, last.key.bytes),
            last,
        );
    }
    assert forall|d: Distance| #[trigger] after.contains_key(d) implies d == types::xor_distance(
        target,
        after[d].key.bytes,
    ) by {
        assert(all.contains_key(d) && all[d] == after[d]);
    }
}

proof fn lemma_by_distance(target: U256, responders: Seq<KademliaPeer>)
    ensures
        by_distance(target, responders).dom().finite(),
        forall|d: Distance| #[trigger]
            by_distance(target, responders).contains_key(d) ==> d == types::xor_distance(
                target,
                by_distance(target, responders)[d].key.bytes,
            ),
    decreases responders.len(),
{
    if responders.len() > 0 {
        lemma_by_distance(target, responders.drop_last());
    }
}

/// Every candidate is entered under its distance to the target, its key is that of its peer, and
/// it has neither been asked nor is it being asked.
pub open spec fn candidates_fresh(view: PeersView, target: U256) -> bool {
    forall|d: Distance| #[trigger]
        view.candidates.contains_key(d) ==> {
            let candidate = view.candidates[d];
            &&& d == types::xor_distance(target, candidate.key.bytes)
            &&& candidate.key.is_of_peer(candidate.peer)
            &&& !view.pending.contains_key(candidate.peer)
            &&& !view.queried.contains(candidate.peer)
        }
}

/// Every peer that is being asked is filed under its own identity.
pub open spec fn pending_filed(view: PeersView) -> bool {
    forall|p: PeerId| #[trigger] view.pending.contains_key(p) ==> view.pending[p].peer == p
}

/// The keys of `peers` are those that their identities are hashed to.
pub open spec fn keys_sound(peers: Seq<KademliaPeer>) -> bool {
    forall|i: int| 0 <= i < peers.len() ==> (#[trigger] peers[i]).key.is_of_peer(peers[i].peer)
}

/// The peer that is asked next has not been asked before, and after that no candidate has: no
/// peer is asked twice.
pub proof fn law_no_peer_asked_twice(view: PeersView, target: U256)
    requires
        candidates_fresh(view, target),
        pending_filed(view),
        distance_map::is_least(view.candidates, distance_map::least(view.candidates)),
    ensures
        !view.pending.contains_key(view.next_peer().peer),
        !view.queried.contains(view.next_peer().peer),
        candidates_fresh(view.scheduled(), target),
        pending_filed(view.scheduled()),
{
    let first = distance_map::least(view.candidates);
    let next = view.next_peer();
    let after = view.scheduled();
    assert(view.candidates.contains_key(first));
    assert forall|d: Distance| #[trigger] after.candidates.contains_key(d) implies {
        let candidate = after.candidates[d];
        &&& d == types::xor_distance(target, candidate.key.bytes)
        &&& candidate.key.is_of_peer(candidate.peer)
        &&& !after.pending.contains_key(candidate.peer)
        &&& !after.queried.contains(candidate.peer)
    } by {
        assert(view.candidates.contains_key(d));
        let candidate = view.candidates[d];
        if candidate.peer == next.peer {
            assert(d == first);
        }
    }
}

/// An answer, with the peers that it names, leaves no candidate that has been asked.
pub proof fn law_answer_keeps_candidates_fresh(
    view: PeersView,
    target: U256,
    local: PeerId,
    peer: PeerId,
    peers: Seq<KademliaPeer>,
)
    requires
        candidates_fresh(view, target),
        pending_filed(view),
        keys_sound(peers),
        view.pending.contains_key(peer),
    ensures
        ({
            let answered = view.answered(peer);
            let after = PeersView {
                candidates: answered.heard_of(local, target, peers),
                ..answered
            };
            &&& candidates_fresh(after, target)
            &&& pending_filed(after)
            &&& after.queried.contains(peer)
            &&& !after.pending.contains_key(peer)
        }),
{
    let answered = view.answered(peer);
    assert(candidates_fresh(answered, target)) by {
        assert forall|d: Distance| #[trigger] answered.candidates.contains_key(d) implies {
            let candidate = answered.candidates[d];
            &&& d == types::xor_distance(target, candidate.key.bytes)
            &&& candidate.key.is_of_peer(candidate.peer)
            &&& !answered.pending.contains_key(candidate.peer)
            &&& !answered.queried.contains(candidate.peer)
        } by {
            assert(view.candidates.contains_key(d));
            assert(view.pending.contains_key(peer));
        }
    }
    lemma_heard_of_fresh(answered, target, local, peers);
}

proof fn lemma_heard_of_fresh(
    view: PeersView,
    target: U256,
    local: PeerId,
    peers: Seq<KademliaPeer>,
)
    requires
        candidates_fresh(view, target),
        keys_sound(peers),
    ensures
        candidates_fresh(
            PeersView { candidates: view.heard_of(local, target, peers), ..view },
            target,
        ),
    decreases peers.len(),
{
    if peers.len() > 0 {
        let before = peers.drop_last();
        assert(keys_sound(before)) by {
            assert forall|i: int| 0 <= i < before.len() implies (
            #[trigger] before[i]).key.is_of_peer(before[i].peer) by {
                assert(before[i] == peers[i]);
            }
        }
        lemma_heard_of_fresh(view, target, local, before);
        let last = peers.last();
        assert(last == peers[peers.len() - 1]);
        let held = PeersView { candidates: view.heard_of(local, target, before), ..view };
        let after = PeersView { candidates: view.heard_of(local, target, peers), ..view };
        assert forall|d: Distance| #[trigger] after.candidates.contains_key(d) implies {
            let candidate = after.candidates[d];
            &&& d == types::xor_distance(target, candidate.key.bytes)
            &&& candidate.key.is_of_peer(candidate.peer)
            &&& !after.pending.contains_key(candidate.peer)
            &&& !after.queried.contains(candidate.peer)
        } by {
            if !(view.admits(local, last.peer) && d == types::xor_distance(
                target,
                last.key.bytes,
            )) {
                assert(held.candidates.contains_key(d));
            }
        }
    }
}

/// The local node never becomes a candidate by being heard of.
pub proof fn law_local_node_not_asked(
    view: PeersView,
    target: U256,
    local: PeerId,
    peers: Seq<KademliaPeer>,
    d: Distance,
)
    requires
        view.heard_of(local, target, peers).contains_key(d),
        view.heard_of(local, target, peers)[d].peer == local,
    ensures
        view.candidates.contains_key(d),
        view.candidates[d].peer == local,
    decreases peers.len(),
{
    if peers.len() > 0 {
        let last = peers.last();
        if !(view.admits(local, last.peer) && d == types::xor_distance(target, last.key.bytes)) {
            law_local_node_not_asked(view, target, local, peers.drop_last(), d);
        }
    }
}

/// A query that has nobody left to ask or to wait for ends: it fails if it has found nothing, and
/// succeeds otherwise.
pub proof fn law_exhausted_query_ends(query: QueryView)
    requires
        query.peers() matches Some(peers) && peers.pending == Map::<PeerId, KademliaPeer>::empty()
            && peers.candidates == Map::<Distance, KademliaPeer>::empty(),
    ensures
        match query {
            QueryView::FindNode { state, .. } => query.next_step() == if state.responses
                == Map::<Distance, KademliaPeer>::empty() {
                NextStep::Failed
            } else {
                NextStep::Succeeded
            },
            QueryView::PutRecord { state, .. } => query.next_step() == if state.responses
                == Map::<Distance, KademliaPeer>::empty() {
                NextStep::Failed
            } else {
                NextStep::Succeeded
            },
            QueryView::PutRecordToPeers { .. } => true,
            QueryView::GetRecord { config, state } => query.next_step() == if config.known_records
                == 0 && state.found.len() == 0 {
                NextStep::Failed
            } else {
                NextStep::Succeeded
            },
        },
{
}

/// One query acts at a time: the others stay as they are.
pub proof fn law_other_queries_untouched(
    before: Map<QueryId, QueryView>,
    query: QueryId,
    after: Map<QueryId, QueryView>,
    action: QueryActionView,
    other: QueryId,
)
    requires
        engine::acted(before, query, after, action),
        other != query,
    ensures
        after.contains_key(other) == before.contains_key(other),
        before.contains_key(other) ==> after[other] == before[other],
{
}

/// A search for a record that can still ask somebody is over exactly when it has found as many
/// records as its quorum asks for, together with those that were known before.
pub proof fn law_quorum_ends_search(
    before: Map<QueryId, QueryView>,
    query: QueryId,
    after: Map<QueryId, QueryView>,
    action: QueryActionView,
)
    requires
        engine::acted(before, query, after, action),
        before[query] matches QueryView::GetRecord { state, .. } && state.peers.candidates
            != Map::<Distance, KademliaPeer>::empty(),
    ensures
        ({
            let config = before[query]->GetRecord_config;
            let records = config.known_records + before[query]->GetRecord_state.found.len();
            let needed: int = match config.quorum {
                Quorum::One => 1,
                Quorum::N(n) => n.spec_get() as int,
                Quorum::All => config.replication_factor as int,
            };
            &&& records >= needed ==> !after.contains_key(query) && action is GetRecordQueryDone
            &&& records < needed ==> after.contains_key(query) && action is SendMessage
        }),
{
}

/// A search for peers that can still ask somebody, and has not been answered by enough of them,
/// goes on.
pub proof fn law_search_goes_on(
    before: Map<QueryId, QueryView>,
    query: QueryId,
    after: Map<QueryId, QueryView>,
    action: QueryActionView,
)
    requires
        engine::acted(before, query, after, action),
        match before[query] {
            QueryView::FindNode { config, state } => state.peers.candidates != Map::<
                Distance,
                KademliaPeer,
            >::empty() && state.responses.len() < config.replication_factor,
            QueryView::PutRecord { config, state, .. } => state.peers.candidates != Map::<
                Distance,
                KademliaPeer,
            >::empty() && state.responses.len() < config.replication_factor,
            _ => false,
        },
    ensures
        after.contains_key(query),
        action is SendMessage,
{
}

proof fn lemma_least<V>(m: Map<Distance, V>)
    requires
        m.dom().finite(),
        m != Map::<Distance, V>::empty(),
    ensures
        distance_map::is_least(m, distance_map::least(m)),
    decreases m.dom().len(),
{
    if m.dom() =~= Set::empty() {
        assert(m =~= Map::empty());
    }
    let d = m.dom().choose();
    let rest = m.remove(d);
    if rest == Map::<Distance, V>::empty() {
        assert forall|k: Distance| #[trigger] m.contains_key(k) implies d.value() <= k.value() by {
            if k != d {
                assert(rest.contains_key(k));
            }
        }
        assert(distance_map::is_least(m, d));
    } else {
        lemma_least(rest);
        let e = distance_map::least(rest);
        let first = if d.value() < e.value() {
            d
        } else {
            e
        };
        assert forall|k: Distance| #[trigger] m.contains_key(k) implies first.value()
            <= k.value() by {
            if k != d {
                assert(rest.contains_key(k));
            }
        }
        assert(distance_map::is_least(m, first));
    }
}

/// Whether `peer` is a candidate at distance `d`, and no candidate is closer.
pub open spec fn is_closest_candidate(view: PeersView, peer: PeerId, d: Distance) -> bool {
    &&& view.candidates.contains_key(d)
    &&& view.candidates[d].peer == peer
    &&& forall|other: Distance| #[trigger]
        view.candidates.contains_key(other) ==> d.value() <= other.value()
}

/// It is always the candidate closest to the target that is asked, and from then on it is waited
/// for and is no candidate any more.
pub proof fn law_closest_candidate_asked(
    before: Map<QueryId, QueryView>,
    query: QueryId,
    after: Map<QueryId, QueryView>,
    action: QueryActionView,
)
    requires
        engine::acted(before, query, after, action),
        action is SendMessage,
        before[query].peers() matches Some(peers) && peers.candidates.dom().finite(),
    ensures
        ({
            let peer = action->SendMessage_peer;
            let asked = before[query].peers()->Some_0;
            &&& after.contains_key(query)
            &&& after[query].peers() matches Some(now)
            &&& exists|d: Distance| #[trigger]
                is_closest_candidate(asked, peer, d) && now.candidates == asked.candidates.remove(d)
                    && now.pending == asked.pending.insert(peer, asked.candidates[d])
            &&& now.queried == asked.queried
        }),
{
    let asked = before[query].peers()->Some_0;
    lemma_least(asked.candidates);
    let d = distance_map::least(asked.candidates);
    assert(is_closest_candidate(asked, action->SendMessage_peer, d));
}

/// A record that a peer has answered with counts among those that were found, as sent by that
/// peer, unless it has expired; an answer that nobody waits for changes nothing.
pub proof fn law_record_found_unless_expired(
    view: GetRecordView,
    config: GetRecordConfig,
    peer: PeerId,
    record: Record,
    peers: Seq<KademliaPeer>,
    now: Instant,
)
    requires
        view.peers.pending.contains_key(peer) ==> view.peers.pending[peer].peer == peer,
    ensures
        ({
            let after = view.answered(config, peer, Some(record), peers, now);
            let expired = record.expires matches Some(at) && at.nanos <= now.nanos;
            &&& view.peers.pending.contains_key(peer) && !expired ==> after.found
                == view.found.push(PeerRecord { peer, record })
            &&& view.peers.pending.contains_key(peer) && expired ==> after.found == view.found
            &&& !view.peers.pending.contains_key(peer) ==> after == view
        }),
{
}

/// A search for providers that has nobody left to ask or to wait for fails if it has found none and
/// succeeds otherwise; while it can ask somebody it does not end.
pub proof fn law_providers_search_ends(view: GetProvidersView, parallelism_factor: usize)
    ensures
        view.peers.candidates != Map::<Distance, KademliaPeer>::empty() && view.peers.pending.len()
            != parallelism_factor ==> view.next_step(parallelism_factor) is Schedule,
        view.peers.candidates == Map::<Distance, KademliaPeer>::empty() && view.peers.pending
            == Map::<PeerId, KademliaPeer>::empty() ==> view.next_step(parallelism_factor) == (
        if view.found.len() == 0 {
            NextStep::Failed
        } else {
            NextStep::Succeeded
        }),
        view.peers.pending != Map::<PeerId, KademliaPeer>::empty() ==> !(view.next_step(
            parallelism_factor,
        ) is Failed) && !(view.next_step(parallelism_factor) is Succeeded),
{
}

/// Whether every candidate is filed under its distance to `target`.
pub open spec fn candidates_filed(view: PeersView, target: U256) -> bool {
    forall|d: Distance| #[trigger]
        view.candidates.contains_key(d) ==> d == types::xor_distance(
            target,
            view.candidates[d].key.bytes,
        )
}

/// A search for peers that enough have answered goes on as long as there is a candidate that is
/// closer than one of them, and is over once there is none.
pub proof fn law_search_looks_closer(
    before: Map<QueryId, QueryView>,
    query: QueryId,
    after: Map<QueryId, QueryView>,
    action: QueryActionView,
    c: Distance,
    r: Distance,
)
    requires
        engine::acted(before, query, after, action),
        before[query] matches QueryView::FindNode { config, state } && candidates_filed(
            state.peers,
            config.target.bytes,
        ) && state.peers.candidates.dom().finite() && state.responses.dom().finite()
            && state.responses.len() >= config.replication_factor
            && state.peers.candidates.contains_key(c) && state.responses.contains_key(r),
    ensures
        ({
            let config = before[query]->FindNode_config;
            let state = before[query]->FindNode_state;
            &&& c.value() < r.value() && state.peers.pending.len() < config.parallelism_factor
                ==> action is SendMessage && after.contains_key(query)
            &&& (forall|x: Distance, y: Distance|
                #![trigger state.peers.candidates.contains_key(x), state.responses.contains_key(y)]
                state.peers.candidates.contains_key(x) && state.responses.contains_key(y)
                    ==> x.value() >= y.value()) ==> action is FindNodeQuerySucceeded
                && !after.contains_key(query)
        }),
{
    let state = before[query]->FindNode_state;
    let first = distance_map::least(state.peers.candidates);
    let last = distance_map::greatest(state.responses);
    assert(state.peers.candidates != Map::<Distance, KademliaPeer>::empty());
    assert(state.responses != Map::<Distance, KademliaPeer>::empty());
    lemma_least(state.peers.candidates);
    distance_map::lemma_greatest(state.responses);
    assert(state.peers.candidates.contains_key(first));
    assert(state.responses.contains_key(last));
    assert(first.value() <= c.value());
    assert(r.value() <= last.value());
}

/// A search for peers is answered with peers, and a search for a record with a record.
pub proof fn law_answers_expected(query: QueryView, message: KademliaMessageView)
    ensures
        query is FindNode || query is PutRecord ==> (query.expects(message) <==> message
            is FindNode),
        query is GetRecord ==> (query.expects(message) <==> message is GetRecord),
        query is PutRecordToPeers ==> !query.expects(message),
{
}

/// Providers come from the closest to the key to the farthest, each once.
pub proof fn law_providers_by_distance(
    providers: Seq<KademliaPeer>,
    target: U256,
    merged: Seq<ContentProvider>,
    i: int,
    j: int,
)
    requires
        get_providers::is_merged(providers, target, merged),
        0 <= i < j < merged.len(),
    ensures
        merged[i].peer != merged[j].peer,
        types::xor_distance(target, types::place_of(merged[i].peer.spec_bytes())).value()
            <= types::xor_distance(target, types::place_of(merged[j].peer.spec_bytes())).value(),
{
    types::law_distance_symmetric(target, types::place_of(merged[i].peer.spec_bytes()));
    types::law_distance_symmetric(target, types::place_of(merged[j].peer.spec_bytes()));
}

/// No provider and no address of a provider is lost or made up.
pub proof fn law_providers_complete(
    providers: Seq<KademliaPeer>,
    target: U256,
    merged: Seq<ContentProvider>,
    k: int,
    address: Seq<u8>,
)
    requires
        get_providers::is_merged(providers, target, merged),
        0 <= k < providers.len(),
        address::address_views(providers[k].addresses@).contains(address),
    ensures
        exists|i: int|
            0 <= i < merged.len() && (#[trigger] merged[i]).peer == providers[k].peer
                && address::address_views(merged[i].addresses@).contains(address),
{
    assert(get_providers::provides(providers, providers[k].peer));
    let i = choose|i: int|
        0 <= i < merged.len() && (#[trigger] merged[i]).peer == providers[k].peer;
    lemma_address_kept(providers, k, address);
    assert(address::address_views(merged[i].addresses@).to_set().contains(address));
}

proof fn lemma_address_kept(providers: Seq<KademliaPeer>, k: int, address: Seq<u8>)
    requires
        0 <= k < providers.len(),
        address::address_views(providers[k].addresses@).contains(address),
    ensures
        get_providers::addresses_of(providers, providers[k].peer).contains(address),
    decreases providers.len(),
{
    if k < providers.len() - 1 {
        assert(providers.drop_last()[k] == providers[k]);
        lemma_address_kept(providers.drop_last(), k, address);
    } else {
        assert(address::address_views(providers[k].addresses@).to_set().contains(address));
    }
}

} // verus!
