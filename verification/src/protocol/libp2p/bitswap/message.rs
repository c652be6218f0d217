//! Requests and responses, and the messages that carry them.

use super::content_id;
use super::content_id::{Cid, CidView};
use super::handle;
use super::handle::{
    BitswapEvent, BlockPresenceType, EventView, ResponseType, ResponseView, WantType,
};
use super::prefix;
use super::prefix::Prefix;
use super::schema::{
    Block, BlockPresence, BlockPresenceView, BlockView, Entry, EntryView, Message, MessageView,
    Wantlist, WantlistView,
};
use crate::peer_id;
use crate::peer_id::{Multihash, PeerId, IDENTITY};
use crate::types::copy_bytes;
use vstd::prelude::*;

verus! {

/// What a number in a wantlist asks for.
pub open spec fn want_type_of(number: i32) -> Option<WantType> {
    if number == 0 {
        Some(WantType::Block)
    } else if number == 1 {
        Some(WantType::Have)
    } else {
        None
    }
}

/// The number of what is wanted.
pub open spec fn want_number(want_type: WantType) -> i32 {
    match want_type {
        WantType::Block => 0,
        WantType::Have => 1,
    }
}

/// What a number says of the presence of a block.
pub open spec fn presence_of(number: i32) -> Option<BlockPresenceType> {
    if number == 0 {
        Some(BlockPresenceType::Have)
    } else if number == 1 {
        Some(BlockPresenceType::DontHave)
    } else {
        None
    }
}

/// The number of a presence.
pub open spec fn presence_number(presence: BlockPresenceType) -> i32 {
    match presence {
        BlockPresenceType::Have => 0,
        BlockPresenceType::DontHave => 1,
    }
}

/// What an entry of a wantlist asks for, if it can be understood.
pub open spec fn wanted(entry: EntryView) -> Option<(CidView, WantType)> {
    match (content_id::cid_read(entry.block), want_type_of(entry.want_type)) {
        (Some(cid), Some(want_type)) => Some((cid, want_type)),
        _ => None,
    }
}

/// What a wantlist asks for: its entries that can be understood, in order.
pub open spec fn all_wanted(entries: Seq<EntryView>) -> Seq<(CidView, WantType)>
    decreases entries.len(),
{
    if entries.len() == 0 {
        Seq::empty()
    } else {
        match wanted(entries.last()) {
            Some(want) => all_wanted(entries.drop_last()).push(want),
            None => all_wanted(entries.drop_last()),
        }
    }
}

/// The digest of `data` under a hash function, if it is known.
pub open spec fn digest_of(code: u64, data: Seq<u8>) -> Option<Seq<u8>> {
    if code == IDENTITY {
        Some(data)
    } else {
        peer_id::hashed(code, data)
    }
}

/// A block together with its CID, which is made of the prefix and the hash of the data.
pub open spec fn block_response(block: BlockView) -> Option<ResponseView> {
    match prefix::prefix_parsed(block.prefix) {
        Some(prefix) => match digest_of(prefix.multihash_type, block.data) {
            Some(digest) => {
                let cid = CidView {
                    version: prefix.version,
                    codec: prefix.codec,
                    code: prefix.multihash_type,
                    digest,
                };
                if cid.wf() {
                    Some(ResponseView::Block { cid, block: block.data })
                } else {
                    None
                }
            },
            None => None,
        },
        None => None,
    }
}

/// What is said of the presence of a block, if it can be understood.
pub open spec fn presence_response(presence: BlockPresenceView) -> Option<ResponseView> {
    match (content_id::cid_read(presence.cid), presence_of(presence.presence_type)) {
        (Some(cid), Some(presence)) => Some(ResponseView::Presence { cid, presence }),
        _ => None,
    }
}

/// The blocks that can be understood, in order.
pub open spec fn all_blocks(payload: Seq<BlockView>) -> Seq<ResponseView>
    decreases payload.len(),
{
    if payload.len() == 0 {
        Seq::empty()
    } else {
        match block_response(payload.last()) {
            Some(response) => all_blocks(payload.drop_last()).push(response),
            None => all_blocks(payload.drop_last()),
        }
    }
}

/// The presences that can be understood, in order.
pub open spec fn all_presences(presences: Seq<BlockPresenceView>) -> Seq<ResponseView>
    decreases presences.len(),
{
    if presences.len() == 0 {
        Seq::empty()
    } else {
        match presence_response(presences.last()) {
            Some(response) => all_presences(presences.drop_last()).push(response),
            None => all_presences(presences.drop_last()),
        }
    }
}

/// What a message asks for.
pub open spec fn requested(message: MessageView) -> Seq<(CidView, WantType)> {
    match message.wantlist {
        Some(wantlist) => all_wanted(wantlist.entries),
        None => Seq::empty(),
    }
}

/// What a message answers: blocks first, and then presences.
pub open spec fn responded(message: MessageView) -> Seq<ResponseView> {
    all_blocks(message.payload) + all_presences(message.block_presences)
}

/// What the user learns of a message: what it asks for, and what it answers.
pub open spec fn received(peer: PeerId, message: MessageView) -> Seq<EventView> {
    let cids = requested(message);
    let responses = responded(message);
    let request = if cids.len() > 0 {
        seq![EventView::Request { peer, cids }]
    } else {
        Seq::empty()
    };
    if responses.len() > 0 {
        request.push(EventView::Response { peer, responses })
    } else {
        request
    }
}

/// Events, by their views.
pub open spec fn event_views(events: Seq<BitswapEvent>) -> Seq<EventView> {
    Seq::new(events.len(), |i: int| events[i]@)
}

/// The CIDs that a wantlist asks for.
fn read_wantlist(entries: &Vec<Entry>) -> (r: Vec<(Cid, WantType)>)
    ensures
        handle::want_views(r@) == all_wanted(Seq::new(entries@.len(), |i: int| entries@[i]@)),
{
    let ghost views = Seq::new(entries@.len(), |i: int| entries@[i]@);
    let mut cids: Vec<(Cid, WantType)> = Vec::new();
    assert(handle::want_views(cids@) =~= all_wanted(views.take(0)));
    let mut i: usize = 0;
    while i < entries.len()
        invariant
            i <= entries@.len(),
            views == Seq::new(entries@.len(), |i: int| entries@[i]@),
            handle::want_views(cids@) == all_wanted(views.take(i as int)),
        decreases entries@.len() - i,
    {
        let entry = &entries[i];
        let ghost before = cids@;
        let want_type = if entry.want_type == 0 {
            Some(WantType::Block)
        } else if entry.want_type == 1 {
            Some(WantType::Have)
        } else {
            None
        };
        proof {
            assert(views.take(i + 1).drop_last() =~= views.take(i as int));
            assert(views.take(i + 1).last() == entry@);
        }
        if let Some(cid) = Cid::read_bytes(entry.block.as_slice()) {
            if let Some(want_type) = want_type {
                cids.push((cid, want_type));
                assert(handle::want_views(cids@) =~= handle::want_views(before).push(
                    (cid@, want_type),
                ));
            }
        }
        i += 1;
    }
    assert(views.take(i as int) =~= views);
    cids
}

/// The CID of a block, as its prefix and its data make it.
fn block_cid(block: &Block) -> (r: Option<Cid>)
    ensures
        match r {
            Some(cid) => block_response(block@) == Some(
                ResponseView::Block { cid: cid@, block: block.data@ },
            ),
            None => block_response(block@) is None,
        },
{
    let prefix = match Prefix::from_bytes(block.prefix.as_slice()) {
        Some(prefix) => prefix,
        None => {
            return None;
        },
    };
    let digest = if prefix.multihash_type == IDENTITY {
        copy_bytes(&block.data)
    } else {
        match peer_id::digest(prefix.multihash_type, block.data.as_slice()) {
            Some(digest) => digest,
            None => {
                return None;
            },
        }
    };
    match Multihash::wrap(prefix.multihash_type, digest.as_slice()) {
        Some(multihash) => Cid::new(prefix.version, prefix.codec, multihash),
        None => None,
    }
}

/// The blocks of a message.
fn read_payload(payload: &Vec<Block>) -> (r: Vec<ResponseType>)
    ensures
        handle::response_views(r@) == all_blocks(Seq::new(payload@.len(), |i: int| payload@[i]@)),
{
    let ghost views = Seq::new(payload@.len(), |i: int| payload@[i]@);
    let mut responses: Vec<ResponseType> = Vec::new();
    assert(handle::response_views(responses@) =~= all_blocks(views.take(0)));
    let mut i: usize = 0;
    while i < payload.len()
        invariant
            i <= payload@.len(),
            views == Seq::new(payload@.len(), |i: int| payload@[i]@),
            handle::response_views(responses@) == all_blocks(views.take(i as int)),
        decreases payload@.len() - i,
    {
        let block = &payload[i];
        let ghost before = responses@;
        proof {
            assert(views.take(i + 1).drop_last() =~= views.take(i as int));
            assert(views.take(i + 1).last() == block@);
        }
        if let Some(cid) = block_cid(block) {
            let response = ResponseType::Block { cid, block: copy_bytes(&block.data) };
            responses.push(response);
            assert(handle::response_views(responses@) =~= handle::response_views(before).push(
                response@,
            ));
        }
        i += 1;
    }
    assert(views.take(i as int) =~= views);
    responses
}

/// Adds the block presences of a message to `responses`.
fn read_presences(presences: &Vec<BlockPresence>, responses: &mut Vec<ResponseType>)
    ensures
        handle::response_views(final(responses)@) == handle::response_views(old(responses)@)
            + all_presences(Seq::new(presences@.len(), |i: int| presences@[i]@)),
{
    let ghost views = Seq::new(presences@.len(), |i: int| presences@[i]@);
    let ghost start = handle::response_views(responses@);
    assert(start + all_presences(views.take(0)) =~= start);
    let mut i: usize = 0;
    while i < presences.len()
        invariant
            i <= presences@.len(),
            views == Seq::new(presences@.len(), |i: int| presences@[i]@),
            handle::response_views(responses@) == start + all_presences(views.take(i as int)),
        decreases presences@.len() - i,
    {
        let presence = &presences[i];
        let ghost before = responses@;
        let presence_type = if presence.presence_type == 0 {
            Some(BlockPresenceType::Have)
        } else if presence.presence_type == 1 {
            Some(BlockPresenceType::DontHave)
        } else {
            None
        };
        proof {
            assert(views.take(i + 1).drop_last() =~= views.take(i as int));
            assert(views.take(i + 1).last() == presence@);
        }
        if let Some(cid) = Cid::read_bytes(presence.cid.as_slice()) {
            if let Some(presence) = presence_type {
                let response = ResponseType::Presence { cid, presence };
                responses.push(response);
                assert(handle::response_views(responses@) =~= handle::response_views(before).push(
                    response@,
                ));
                assert(start + all_presences(views.take(i as int)).push(response@) =~= (start
                    + all_presences(views.take(i as int))).push(response@));
            }
        }
        i += 1;
    }
    assert(views.take(i as int) =~= views);
}

/// Message received from remote peer: what the user learns of it.
pub fn on_message_received(peer: PeerId, message: &Message) -> (r: Vec<BitswapEvent>)
    ensures
        event_views(r@) == received(peer, message@),
{
    let mut events: Vec<BitswapEvent> = Vec::new();
    // Check if this is a request (has wantlist with entries).
    if let Some(wantlist) = &message.wantlist {
        let cids = read_wantlist(&wantlist.entries);
        assert(cids@.len() == handle::want_views(cids@).len());
        if cids.len() > 0 {
            events.push(BitswapEvent::Request { peer, cids });
        }
    }
    // Check if this is a response (has payload or block presences).
    let mut responses = read_payload(&message.payload);
    read_presences(&message.block_presences, &mut responses);
    assert(responses@.len() == handle::response_views(responses@).len());
    if responses.len() > 0 {
        events.push(BitswapEvent::Response { peer, responses });
    }
    assert(event_views(events@) =~= received(peer, message@));
    events
}

/// The entry of a wantlist for a CID.
pub open spec fn entry_of(want: (CidView, WantType)) -> EntryView {
    EntryView {
        block: content_id::cid_bytes(want.0),
        priority: 1,
        cancel: false,
        want_type: want_number(want.1),
        send_dont_have: false,
    }
}

/// The message that asks for CIDs.
pub open spec fn request_view(cids: Seq<(CidView, WantType)>) -> MessageView {
    MessageView {
        wantlist: Some(
            WantlistView {
                entries: Seq::new(cids.len(), |i: int| entry_of(cids[i])),
                full: false,
            },
        ),
        payload: Seq::empty(),
        block_presences: Seq::empty(),
    }
}

/// The prefix of the CID of a block.
pub open spec fn prefix_of(cid: CidView) -> Prefix {
    Prefix {
        version: cid.version,
        codec: cid.codec,
        multihash_type: cid.code,
        multihash_len: cid.digest.len() as u8,
    }
}

/// The blocks among responses, as they are encoded, in order.
pub open spec fn payload_of(responses: Seq<ResponseView>) -> Seq<BlockView>
    decreases responses.len(),
{
    if responses.len() == 0 {
        Seq::empty()
    } else {
        match responses.last() {
            ResponseView::Block { cid, block } => payload_of(responses.drop_last()).push(
                BlockView { prefix: prefix::prefix_bytes(prefix_of(cid)), data: block },
            ),
            ResponseView::Presence { .. } => payload_of(responses.drop_last()),
        }
    }
}

/// The presences among responses, as they are encoded, in order.
pub open spec fn presences_of(responses: Seq<ResponseView>) -> Seq<BlockPresenceView>
    decreases responses.len(),
{
    if responses.len() == 0 {
        Seq::empty()
    } else {
        match responses.last() {
            ResponseView::Block { .. } => presences_of(responses.drop_last()),
            ResponseView::Presence { cid, presence } => presences_of(responses.drop_last()).push(
                BlockPresenceView {
                    cid: content_id::cid_bytes(cid),
                    presence_type: presence_number(presence),
                },
            ),
        }
    }
}

/// The message that carries responses. Its wantlist is there and is empty.
pub open spec fn response_view(responses: Seq<ResponseView>) -> MessageView {
    MessageView {
        wantlist: Some(WantlistView { entries: Seq::empty(), full: false }),
        payload: payload_of(responses),
        block_presences: presences_of(responses),
    }
}

/// The message that asks for `cids`.
pub fn request_message(cids: &Vec<(Cid, WantType)>) -> (r: Message)
    ensures
        r@ == request_view(handle::want_views(cids@)),
{
    let mut entries: Vec<Entry> = Vec::new();
    let mut i: usize = 0;
    while i < cids.len()
        invariant
            i <= cids@.len(),
            entries@.len() == i,
            forall|j: int|
                0 <= j < i ==> #[trigger] entries@[j]@ == entry_of((cids@[j].0@, cids@[j].1)),
        decreases cids@.len() - i,
    {
        let (cid, want_type) = &cids[i];
        let number: i32 = match *want_type {
            WantType::Block => 0,
            WantType::Have => 1,
        };
        entries.push(
            Entry {
                block: cid.to_bytes(),
                priority: 1,
                cancel: false,
                want_type: number,
                send_dont_have: false,
            },
        );
        i += 1;
    }
    let message = Message {
        wantlist: Some(Wantlist { entries, full: false }),
        payload: Vec::new(),
        block_presences: Vec::new(),
    };
    proof {
        let expected = request_view(handle::want_views(cids@));
        assert(message@.wantlist->Some_0.entries =~= expected.wantlist->Some_0.entries);
        assert(message@.payload =~= expected.payload);
        assert(message@.block_presences =~= expected.block_presences);
    }
    message
}

/// The message that carries `responses`.
pub fn response_message(responses: &Vec<ResponseType>) -> (r: Message)
    ensures
        r@ == response_view(handle::response_views(responses@)),
{
    let ghost views = handle::response_views(responses@);
    let mut payload: Vec<Block> = Vec::new();
    let mut block_presences: Vec<BlockPresence> = Vec::new();
    proof {
        assert(Seq::new(payload@.len(), |j: int| payload@[j]@) =~= payload_of(views.take(0)));
        assert(Seq::new(block_presences@.len(), |j: int| block_presences@[j]@) =~= presences_of(
            views.take(0),
        ));
    }
    let mut i: usize = 0;
    while i < responses.len()
        invariant
            i <= responses@.len(),
            views == handle::response_views(responses@),
            Seq::new(payload@.len(), |j: int| payload@[j]@) == payload_of(views.take(i as int)),
            Seq::new(block_presences@.len(), |j: int| block_presences@[j]@) == presences_of(
                views.take(i as int),
            ),
        decreases responses@.len() - i,
    {
        let ghost blocks = Seq::new(payload@.len(), |j: int| payload@[j]@);
        let ghost presences = Seq::new(block_presences@.len(), |j: int| block_presences@[j]@);
        proof {
            assert(views.take(i + 1).drop_last() =~= views.take(i as int));
            assert(views.take(i + 1).last() == responses@[i as int]@);
        }
        match &responses[i] {
            ResponseType::Block { cid, block } => {
                let hash = cid.hash();
                let prefix = Prefix {
                    version: cid.version(),
                    codec: cid.codec(),
                    multihash_type: hash.code(),
                    multihash_len: hash.digest().len() as u8,
                };
                let encoded = Block { prefix: prefix.to_bytes(), data: copy_bytes(block) };
                payload.push(encoded);
                assert(Seq::new(payload@.len(), |j: int| payload@[j]@) =~= blocks.push(encoded@));
            },
            ResponseType::Presence { cid, presence } => {
                let number: i32 = match *presence {
                    BlockPresenceType::Have => 0,
                    BlockPresenceType::DontHave => 1,
                };
                let encoded = BlockPresence { cid: cid.to_bytes(), presence_type: number };
                block_presences.push(encoded);
                assert(Seq::new(block_presences@.len(), |j: int| block_presences@[j]@)
                    =~= presences.push(encoded@));
            },
        }
        i += 1;
    }
    assert(views.take(i as int) =~= views);
    let message = Message {
        wantlist: Some(Wantlist { entries: Vec::new(), full: false }),
        payload,
        block_presences,
    };
    proof {
        let expected = response_view(views);
        assert(message@.wantlist->Some_0.entries =~= expected.wantlist->Some_0.entries);
        assert(message@.payload =~= expected.payload);
        assert(message@.block_presences =~= expected.block_presences);
    }
    message
}

/// A peer understands what it is asked for: reading the message that asks for CIDs gives the CIDs
/// back.
pub proof fn law_request_understood(cids: Seq<(CidView, WantType)>)
    requires
        forall|i: int| 0 <= i < cids.len() ==> (#[trigger] cids[i]).0.wf(),
    ensures
        requested(request_view(cids)) == cids,
        responded(request_view(cids)).len() == 0,
    decreases cids.len(),
{
    let entries = Seq::new(cids.len(), |i: int| entry_of(cids[i]));
    if cids.len() > 0 {
        let shorter = cids.drop_last();
        assert forall|i: int| 0 <= i < shorter.len() implies (#[trigger] shorter[i]).0.wf() by {
            assert(shorter[i] == cids[i]);
        }
        law_request_understood(shorter);
        assert(entries.drop_last() =~= Seq::new(shorter.len(), |i: int| entry_of(shorter[i])));
        let cid = cids.last().0;
        content_id::law_cid_round_trip(cid, Seq::empty());
        assert(content_id::cid_bytes(cid) + Seq::<u8>::empty() =~= content_id::cid_bytes(cid));
        assert(all_wanted(entries) == shorter.push(cids.last()));
        assert(shorter.push(cids.last()) =~= cids);
    } else {
        assert(all_wanted(entries) =~= cids);
    }
}

/// Whether a response can be sent: its CID is one, and it is the CID of the block.
pub open spec fn is_authentic(response: ResponseView) -> bool {
    match response {
        ResponseView::Block { cid, block } => cid.wf() && digest_of(cid.code, block) == Some(
            cid.digest,
        ),
        ResponseView::Presence { cid, .. } => cid.wf(),
    }
}

proof fn lemma_response_read(responses: Seq<ResponseView>)
    requires
        forall|i: int| 0 <= i < responses.len() ==> is_authentic(#[trigger] responses[i]),
    ensures
        all_blocks(payload_of(responses)) == responses.filter(|r: ResponseView| r is Block),
        all_presences(presences_of(responses)) == responses.filter(
            |r: ResponseView| r is Presence,
        ),
    decreases responses.len(),
{
    reveal(Seq::filter);
    if responses.len() > 0 {
        let shorter = responses.drop_last();
        assert forall|i: int| 0 <= i < shorter.len() implies is_authentic(
            #[trigger] shorter[i],
        ) by {
            assert(shorter[i] == responses[i]);
        }
        lemma_response_read(shorter);
        assert(is_authentic(responses[responses.len() - 1]));
        match responses.last() {
            ResponseView::Block { cid, block } => {
                let encoded = BlockView {
                    prefix: prefix::prefix_bytes(prefix_of(cid)),
                    data: block,
                };
                prefix::law_prefix_round_trip(prefix_of(cid));
                assert(payload_of(responses).drop_last() =~= payload_of(shorter));
                assert(payload_of(responses).last() == encoded);
                assert(block_response(encoded) == Some(responses.last()));
            },
            ResponseView::Presence { cid, presence } => {
                content_id::law_cid_round_trip(cid, Seq::empty());
                assert(content_id::cid_bytes(cid) + Seq::<u8>::empty() =~= content_id::cid_bytes(
                    cid,
                ));
                assert(presences_of(responses).drop_last() =~= presences_of(shorter));
                assert(presence_response(presences_of(responses).last()) == Some(
                    responses.last(),
                ));
            },
        }
    }
}

/// A peer understands what it is answered: reading the message that carries responses gives the
/// blocks back, and then the presences, each in order.
pub proof fn law_response_understood(responses: Seq<ResponseView>)
    requires
        forall|i: int| 0 <= i < responses.len() ==> is_authentic(#[trigger] responses[i]),
    ensures
        responded(response_view(responses)) == responses.filter(|r: ResponseView| r is Block)
            + responses.filter(|r: ResponseView| r is Presence),
        requested(response_view(responses)).len() == 0,
{
    lemma_response_read(responses);
}

/// Every block that the user gets is the block of its CID, whatever message it came in.
pub proof fn law_blocks_authentic(message: MessageView, i: int)
    requires
        0 <= i < responded(message).len(),
    ensures
        is_authentic(responded(message)[i]),
{
    lemma_blocks_authentic(message.payload);
    lemma_presences_authentic(message.block_presences);
}

proof fn lemma_blocks_authentic(payload: Seq<BlockView>)
    ensures
        forall|i: int|
            0 <= i < all_blocks(payload).len() ==> is_authentic(#[trigger] all_blocks(payload)[i]),
    decreases payload.len(),
{
    if payload.len() > 0 {
        let shorter = all_blocks(payload.drop_last());
        lemma_blocks_authentic(payload.drop_last());
        assert forall|i: int| 0 <= i < all_blocks(payload).len() implies is_authentic(
            #[trigger] all_blocks(payload)[i],
        ) by {
            if i < shorter.len() {
                assert(all_blocks(payload)[i] == shorter[i]);
            }
        }
    }
}

proof fn lemma_presences_authentic(presences: Seq<BlockPresenceView>)
    ensures
        forall|i: int|
            0 <= i < all_presences(presences).len() ==> is_authentic(
                #[trigger] all_presences(presences)[i],
            ),
    decreases presences.len(),
{
    if presences.len() > 0 {
        let shorter = all_presences(presences.drop_last());
        lemma_presences_authentic(presences.drop_last());
        content_id::lemma_read_wf(presences.last().cid);
        assert forall|i: int| 0 <= i < all_presences(presences).len() implies is_authentic(
            #[trigger] all_presences(presences)[i],
        ) by {
            if i < shorter.len() {
                assert(all_presences(presences)[i] == shorter[i]);
            }
        }
    }
}

} // verus!
