//! What holds of everything that is sent and received.

use super::content_id;
use super::content_id::{Cid, CidView};
use super::handle;
use super::handle::{
    BitswapCommand, BitswapEvent, BlockPresenceType, EventView, ResponseType, ResponseView, WantType,
};
use super::message;
use super::schema::{BlockPresenceView, BlockView, EntryView, Message, MessageView};
use super::{
    Action, ActionView, BitswapInput, BitswapView, DialOutcome, SubstreamAction,
    SubstreamActionView,
};
use crate::address::Multiaddr;
use crate::peer_id;
use crate::peer_id::PeerId;
use crate::protocol::{Direction, TransportEvent};
use crate::types::{ProtocolName, SubstreamId};
use vstd::prelude::*;

verus! {

/// Whether these are the CIDs and what is wanted of each, in order.
pub open spec fn same_wants(wants: Seq<(CidView, WantType)>, cids: Seq<(Cid, WantType)>) -> bool {
    wants.len() == cids.len() && forall|i: int|
        0 <= i < cids.len() ==> (#[trigger] wants[i]).0 == cids[i].0@ && wants[i].1 == cids[i].1
}

/// Whether this is what is said of a CID: its block, or whether the peer has it.
pub open spec fn same_response(view: ResponseView, response: ResponseType) -> bool {
    match response {
        ResponseType::Block { cid, block } => view == (ResponseView::Block {
            cid: cid@,
            block: block@,
        }),
        ResponseType::Presence { cid, presence } => view == (ResponseView::Presence {
            cid: cid@,
            presence,
        }),
    }
}

/// Whether these are the responses, in order.
pub open spec fn same_responses(views: Seq<ResponseView>, responses: Seq<ResponseType>) -> bool {
    views.len() == responses.len() && forall|i: int|
        0 <= i < responses.len() ==> same_response(#[trigger] views[i], responses[i])
}

/// Whether something that is to be sent is what a command of the user gives, and to whom.
pub open spec fn carries(action: SubstreamActionView, command: BitswapCommand, peer: PeerId) -> bool {
    match command {
        BitswapCommand::SendRequest { peer: p, cids } => p == peer && (action
            matches SubstreamActionView::SendRequest(wants) && same_wants(wants, cids@)),
        BitswapCommand::SendResponse { peer: p, responses } => p == peer && (action
            matches SubstreamActionView::SendResponse(views) && same_responses(views, responses@)),
    }
}

/// The view of what is to be sent tells what it is.
pub proof fn law_substream_actions_as_viewed(action: SubstreamAction)
    ensures
        match action@ {
            SubstreamActionView::SendRequest(wants) => action matches SubstreamAction::SendRequest(
                cids,
            ) && same_wants(wants, cids@),
            SubstreamActionView::SendResponse(views) => action
                matches SubstreamAction::SendResponse(responses) && same_responses(
                views,
                responses@,
            ),
        },
{
}

/// The view of an action tells what is done, for whom, and with what.
pub proof fn law_actions_as_viewed<S>(action: Action<S>)
    ensures
        match action@ {
            ActionView::Report(view) => action matches Action::Report(event) && match (event, view) {
                (
                    BitswapEvent::Request { peer: p, cids },
                    EventView::Request { peer, cids: wants },
                ) => p == peer && same_wants(wants, cids@),
                (
                    BitswapEvent::Response { peer: p, responses },
                    EventView::Response { peer, responses: views },
                ) => p == peer && same_responses(views, responses@),
                _ => false,
            },
            ActionView::ReadFrom { peer, substream } => action == (Action::ReadFrom {
                peer,
                substream,
            }),
            ActionView::DropInbound { peer } => action == (Action::<S>::DropInbound { peer }),
            ActionView::Send { peer, action: view } => action matches Action::Send {
                peer: p,
                action: sent,
            } && p == peer && sent@ == view,
            ActionView::SendAll { peer, substream, actions: views } => action
                matches Action::SendAll { peer: p, substream: s, actions } && p == peer && s
                == substream && actions@.len() == views.len() && forall|i: int|
                0 <= i < views.len() ==> (#[trigger] actions@[i])@ == views[i],
            ActionView::OpenSubstreamOrDial { peer } => action
                == (Action::<S>::OpenSubstreamOrDial { peer }),
            ActionView::OpenSubstream { peer } => action == (Action::<S>::OpenSubstream { peer }),
            ActionView::Reopen { peer } => action == (Action::<S>::Reopen { peer }),
        },
{
}

/// The peer of a command.
pub open spec fn addressee(command: BitswapCommand) -> PeerId {
    match command {
        BitswapCommand::SendRequest { peer, .. } => peer,
        BitswapCommand::SendResponse { peer, .. } => peer,
    }
}

/// An outbound substream to a peer has opened.
pub open spec fn substream_opened<S>(
    peer: PeerId,
    protocol: ProtocolName,
    fallback: Option<ProtocolName>,
    direction: Direction,
    substream: S,
) -> BitswapInput<S> {
    BitswapInput::Transport(
        TransportEvent::SubstreamOpened { peer, protocol, fallback, direction, substream },
    )
}

/// With an open outbound substream to the peer, a request or a response of the user goes out over it
/// at once.
pub proof fn law_command_sent_at_once<S>(state: BitswapView, command: BitswapCommand)
    requires
        state.outbound.contains(addressee(command)),
    ensures
        ({
            let (next, actions) = state.on_input(BitswapInput::<S>::Command(command));
            &&& next == state
            &&& actions.len() == 1
            &&& actions[0] matches ActionView::Send { peer, action } && peer == addressee(command)
                && carries(action, command, peer)
        }),
{
}

/// Without an open outbound substream to the peer, a request or a response of the user waits behind
/// what is waiting already; a substream is asked for if nothing was. Once an outbound substream to
/// the peer opens, all that is waiting goes out over it, in order.
pub proof fn law_command_waits_for_substream<S>(
    state: BitswapView,
    command: BitswapCommand,
    protocol: ProtocolName,
    fallback: Option<ProtocolName>,
    id: SubstreamId,
    substream: S,
)
    requires
        !state.outbound.contains(addressee(command)),
    ensures
        ({
            let peer = addressee(command);
            let before = if state.pending_outbound.contains_key(peer) {
                state.pending_outbound[peer]
            } else {
                Seq::empty()
            };
            let (waiting, asked) = state.on_input(BitswapInput::<S>::Command(command));
            let (sent, actions) = waiting.on_input(
                substream_opened(peer, protocol, fallback, Direction::Outbound(id), substream),
            );
            &&& asked == if before.len() == 0 {
                seq![ActionView::<S>::OpenSubstreamOrDial { peer }]
            } else {
                Seq::empty()
            }
            &&& waiting.pending_outbound[peer].len() == before.len() + 1
            &&& waiting.pending_outbound[peer].drop_last() == before
            &&& carries(waiting.pending_outbound[peer].last(), command, peer)
            &&& actions == seq![
                ActionView::SendAll { peer, substream, actions: waiting.pending_outbound[peer] },
            ]
            &&& !sent.pending_outbound.contains_key(peer)
            &&& forall|other: PeerId|
                other != peer ==> (#[trigger] waiting.pending_outbound.contains_key(other)
                    == state.pending_outbound.contains_key(other)) && (
                state.pending_outbound.contains_key(other) ==> waiting.pending_outbound[other]
                    == state.pending_outbound[other])
        }),
{
    let peer = addressee(command);
    let (waiting, _) = state.on_input(BitswapInput::<S>::Command(command));
    let before = if state.pending_outbound.contains_key(peer) {
        state.pending_outbound[peer]
    } else {
        Seq::empty()
    };
    assert(waiting.pending_outbound[peer].drop_last() =~= before);
}

/// Once all that was waiting has been sent, the substream is the open one of the peer: what comes
/// next goes out over it. If not all could be sent there is none.
pub proof fn law_substream_kept<S>(state: BitswapView, peer: PeerId, sent: bool)
    ensures
        ({
            let (next, actions) = state.on_input(BitswapInput::<S>::AllSent { peer, sent });
            &&& actions.len() == 0
            &&& sent ==> next.outbound.contains(peer)
            &&& !sent ==> next == state
            &&& next.pending_outbound == state.pending_outbound
        }),
{
}

/// What could not be sent over the open substream is not lost: the substream is given up, and it
/// waits behind what is waiting already for another one.
pub proof fn law_unsent_waits<S>(state: BitswapView, peer: PeerId, action: SubstreamAction)
    ensures
        ({
            let before = if state.pending_outbound.contains_key(peer) {
                state.pending_outbound[peer]
            } else {
                Seq::empty()
            };
            let (next, asked) = state.on_input(
                BitswapInput::<S>::Sent { peer, action, sent: false },
            );
            &&& !next.outbound.contains(peer)
            &&& next.pending_outbound[peer] == before.push(action@)
            &&& asked == if before.len() == 0 {
                seq![ActionView::<S>::OpenSubstreamOrDial { peer }]
            } else {
                Seq::empty()
            }
        }),
        state.on_input(BitswapInput::<S>::Sent { peer, action, sent: true }) == (
            state,
            Seq::<ActionView<S>>::empty(),
        ),
{
}

/// A peer that no substream can be opened to is dialed: once there is a connection, a substream is
/// asked for again. One that was connected by the time of the dial is tried once more. What waits for
/// a peer that refuses a substream in the end is given up.
pub proof fn law_dialed_peer_gets_substream<S>(
    state: BitswapView,
    peer: PeerId,
    address: Multiaddr,
)
    ensures
        ({
            let (dialing, none) = state.on_input(
                BitswapInput::<S>::Opened { peer, opened: false, dialed: DialOutcome::Started },
            );
            let (connected, asked) = dialing.on_input(
                BitswapInput::<S>::Transport(
                    TransportEvent::ConnectionEstablished { peer, address },
                ),
            );
            &&& none.len() == 0
            &&& dialing.pending_outbound == state.pending_outbound
            &&& asked == seq![ActionView::<S>::OpenSubstream { peer }]
            &&& !connected.pending_dials.contains(peer)
            &&& connected.pending_outbound == state.pending_outbound
        }),
        state.on_input(
            BitswapInput::<S>::Opened {
                peer,
                opened: false,
                dialed: DialOutcome::AlreadyConnected,
            },
        ) == (state, seq![ActionView::<S>::Reopen { peer }]),
        forall|dialed: DialOutcome| #[trigger]
            state.on_input(BitswapInput::<S>::Opened { peer, opened: true, dialed }) == (
                state,
                Seq::<ActionView<S>>::empty(),
            ),
        ({
            let (refused, none) = state.on_input(BitswapInput::<S>::OpenRefused { peer });
            &&& none.len() == 0
            &&& !refused.pending_outbound.contains_key(peer)
            &&& refused.outbound == state.outbound
        }),
{
}

/// Messages of a peer are read from the last substream that it has opened. One that is closed, or that
/// holds what is no message, is dropped.
pub proof fn law_inbound_substream_read<S>(
    state: BitswapView,
    peer: PeerId,
    protocol: ProtocolName,
    fallback: Option<ProtocolName>,
    substream: S,
)
    ensures
        state.on_input(
            substream_opened(peer, protocol, fallback, Direction::Inbound, substream),
        ) == (state, seq![ActionView::ReadFrom { peer, substream }]),
        state.on_input(BitswapInput::<S>::Inbound { peer, message: None }) == (
            state,
            seq![ActionView::<S>::DropInbound { peer }],
        ),
{
}

/// A request that one node sends is what the user of the other node is given, with the CIDs in the same
/// order and what is wanted of each.
pub proof fn law_request_reaches_user<S>(
    sender: BitswapView,
    receiver: BitswapView,
    from: PeerId,
    to: PeerId,
    cids: Vec<(Cid, WantType)>,
    message: Message,
)
    requires
        sender.outbound.contains(to),
        cids@.len() > 0,
        forall|i: int| 0 <= i < cids@.len() ==> (#[trigger] cids@[i]).0@.wf(),
        sender.on_input(
            BitswapInput::<S>::Command(BitswapCommand::SendRequest { peer: to, cids }),
        ).1[0] matches ActionView::Send { action, .. } && message@ == action.message(),
    ensures
        ({
            let (next, actions) = receiver.on_input(
                BitswapInput::<S>::Inbound { peer: from, message: Some(message) },
            );
            &&& next == receiver
            &&& actions.len() == 1
            &&& actions[0] matches ActionView::Report(EventView::Request { peer, cids: wants }) && peer
                == from && same_wants(wants, cids@)
        }),
{
    let wants = handle::want_views(cids@);
    assert forall|i: int| 0 <= i < wants.len() implies (#[trigger] wants[i]).0.wf() by {
        assert(cids@[i].0@.wf());
    }
    message::law_request_understood(wants);
}

/// The responses that one node sends are what the user of the other node is given: first the blocks
/// and then the presences, each kind in the order in which they were sent.
pub proof fn law_responses_reach_user<S>(
    sender: BitswapView,
    receiver: BitswapView,
    from: PeerId,
    to: PeerId,
    responses: Vec<ResponseType>,
    message: Message,
)
    requires
        sender.outbound.contains(to),
        responses@.len() > 0,
        forall|i: int|
            0 <= i < responses@.len() ==> message::is_authentic((#[trigger] responses@[i])@),
        sender.on_input(
            BitswapInput::<S>::Command(BitswapCommand::SendResponse { peer: to, responses }),
        ).1[0] matches ActionView::Send { action, .. } && message@ == action.message(),
    ensures
        ({
            let views = Seq::new(responses@.len(), |i: int| responses@[i]@);
            let (next, actions) = receiver.on_input(
                BitswapInput::<S>::Inbound { peer: from, message: Some(message) },
            );
            &&& next == receiver
            &&& actions == seq![
                ActionView::<S>::Report(
                    EventView::Response {
                        peer: from,
                        responses: views.filter(|r: ResponseView| r is Block) + views.filter(
                            |r: ResponseView| r is Presence,
                        ),
                    },
                ),
            ]
        }),
{
    let views = handle::response_views(responses@);
    assert(views =~= Seq::new(responses@.len(), |i: int| responses@[i]@));
    assert forall|i: int| 0 <= i < views.len() implies message::is_authentic(
        #[trigger] views[i],
    ) by {
        assert(message::is_authentic(responses@[i]@));
    }
    message::law_response_understood(views);
    lemma_split_len(views);
    let (_, actions) = receiver.on_input(
        BitswapInput::<S>::Inbound { peer: from, message: Some(message) },
    );
    assert(actions =~= seq![
        ActionView::<S>::Report(
            EventView::Response {
                peer: from,
                responses: views.filter(|r: ResponseView| r is Block) + views.filter(
                    |r: ResponseView| r is Presence,
                ),
            },
        ),
    ]);
}

proof fn lemma_split_len(views: Seq<ResponseView>)
    ensures
        views.filter(|r: ResponseView| r is Block).len() + views.filter(
            |r: ResponseView| r is Presence,
        ).len() == views.len(),
    decreases views.len(),
{
    reveal(Seq::filter);
    if views.len() > 0 {
        lemma_split_len(views.drop_last());
    }
}

/// On the wire, what is wanted of a CID and what is said of its presence are numbers: a block is asked
/// for with 0 and its presence with 1; that a peer has a block is 0 and that it has not is 1. Other
/// numbers are not understood.
pub proof fn law_wire_numbers(number: i32, want: WantType, presence: BlockPresenceType)
    ensures
        message::want_type_of(number) == Some(WantType::Block) <==> number == 0,
        message::want_type_of(number) == Some(WantType::Have) <==> number == 1,
        message::presence_of(number) == Some(BlockPresenceType::Have) <==> number == 0,
        message::presence_of(number) == Some(BlockPresenceType::DontHave) <==> number == 1,
        message::want_type_of(message::want_number(want)) == Some(want),
        message::presence_of(message::presence_number(presence)) == Some(presence),
{
}

/// A block that the user is given is the one that its CID stands for: the digest of the CID is the
/// hash of the block, or the block itself where the CID holds it.
pub proof fn law_block_is_that_of_its_cid(message: MessageView, i: int)
    requires
        0 <= i < message::responded(message).len(),
    ensures
        message::responded(message)[i] matches ResponseView::Block { cid, block } ==> if cid.code
            == 0 {
            cid.digest == block
        } else {
            peer_id::hashed(cid.code, block) == Some(cid.digest)
        },
{
    message::law_blocks_authentic(message, i);
}

/// What a message asks for and what it answers are two events, each of which comes if there is
/// something to say in it, whether or not the other one comes.
pub proof fn law_message_told_in_full<S>(state: BitswapView, peer: PeerId, message: Message)
    ensures
        ({
            let (next, actions) = state.on_input(
                BitswapInput::<S>::Inbound { peer, message: Some(message) },
            );
            let cids = message::requested(message@);
            let responses = message::responded(message@);
            let request = ActionView::<S>::Report(EventView::Request { peer, cids });
            let response = ActionView::<S>::Report(EventView::Response { peer, responses });
            &&& next == state
            &&& cids.len() > 0 && responses.len() > 0 ==> actions =~= seq![request, response]
            &&& cids.len() > 0 && responses.len() == 0 ==> actions =~= seq![request]
            &&& cids.len() == 0 && responses.len() > 0 ==> actions =~= seq![response]
            &&& cids.len() == 0 && responses.len() == 0 ==> actions.len() == 0
        }),
{
}

/// An entry that cannot be understood does not spoil the others: what a wantlist asks for is what
/// its parts ask for, one after the other.
pub proof fn law_entries_read_one_by_one(first: Seq<EntryView>, second: Seq<EntryView>)
    ensures
        message::all_wanted(first + second) == message::all_wanted(first) + message::all_wanted(
            second,
        ),
    decreases second.len(),
{
    if second.len() == 0 {
        assert(first + second =~= first);
        assert(message::all_wanted(first + second) =~= message::all_wanted(first)
            + message::all_wanted(second));
    } else {
        let rest = second.drop_last();
        law_entries_read_one_by_one(first, rest);
        assert((first + second).drop_last() =~= first + rest);
        assert((first + second).last() == second.last());
        assert(message::all_wanted(first + second) =~= message::all_wanted(first)
            + message::all_wanted(second));
    }
}

/// Blocks and presences are read one by one in the same way.
pub proof fn law_responses_read_one_by_one(
    blocks: Seq<BlockView>,
    block: BlockView,
    presences: Seq<BlockPresenceView>,
    presence: BlockPresenceView,
)
    ensures
        message::all_blocks(blocks.push(block)) == match message::block_response(block) {
            Some(response) => message::all_blocks(blocks).push(response),
            None => message::all_blocks(blocks),
        },
        message::all_presences(presences.push(presence)) == match message::presence_response(
            presence,
        ) {
            Some(response) => message::all_presences(presences).push(response),
            None => message::all_presences(presences),
        },
        message::block_response(block) matches Some(ResponseView::Block { block: data, .. })
            ==> data == block.data,
        message::block_response(block) matches Some(response) ==> response is Block,
        message::presence_response(presence) matches Some(response) ==> response is Presence,
{
    assert(blocks.push(block).drop_last() =~= blocks);
    assert(presences.push(presence).drop_last() =~= presences);
}

/// A request on the wire has an entry for every CID that is wanted, in order, with priority 1 and
/// without further ado, and carries nothing else.
pub proof fn law_request_on_wire(cids: Seq<(CidView, WantType)>, message: Message)
    requires
        message@ == message::request_view(cids),
    ensures
        message.payload@.len() == 0,
        message.block_presences@.len() == 0,
        message.wantlist matches Some(wantlist) && !wantlist.full && wantlist.entries@.len()
            == cids.len() && forall|i: int|
            0 <= i < cids.len() ==> {
                let entry = #[trigger] wantlist.entries@[i];
                &&& entry.block@ == content_id::cid_bytes(cids[i].0)
                &&& entry.priority == 1
                &&& !entry.cancel
                &&& entry.want_type == if cids[i].1 is Block {
                    0i32
                } else {
                    1i32
                }
                &&& !entry.send_dont_have
            },
{
    assert(message@.payload.len() == message.payload@.len());
    assert(message@.block_presences.len() == message.block_presences@.len());
    let wantlist = message.wantlist->Some_0;
    assert(wantlist@.entries.len() == wantlist.entries@.len());
    assert forall|i: int| 0 <= i < cids.len() implies ({
        let entry = #[trigger] wantlist.entries@[i];
        &&& entry.block@ == content_id::cid_bytes(cids[i].0)
        &&& entry.priority == 1
        &&& !entry.cancel
        &&& entry.want_type == if cids[i].1 is Block {
            0i32
        } else {
            1i32
        }
        &&& !entry.send_dont_have
    }) by {
        assert(wantlist@.entries[i] == wantlist.entries@[i]@);
    }
}

} // verus!
