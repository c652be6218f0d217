//! Messages as they are encoded.

use vstd::prelude::*;

verus! {

/// A content identifier that a peer wants something of.
#[derive(Debug, PartialEq, Eq)]
pub struct Entry {
    /// Content identifier.
    pub block: Vec<u8>,
    /// Priority.
    pub priority: i32,
    /// Whether the entry is revoked.
    pub cancel: bool,
    /// What is wanted.
    pub want_type: i32,
    /// Whether the absence of the block is to be told.
    pub send_dont_have: bool,
}

/// What a peer wants.
#[derive(Debug, PartialEq, Eq)]
pub struct Wantlist {
    /// Entries.
    pub entries: Vec<Entry>,
    /// Whether the list is complete.
    pub full: bool,
}

/// A block.
#[derive(Debug, PartialEq, Eq)]
pub struct Block {
    /// Prefix of the content identifier.
    pub prefix: Vec<u8>,
    /// Data.
    pub data: Vec<u8>,
}

/// Whether a peer has a block.
#[derive(Debug, PartialEq, Eq)]
pub struct BlockPresence {
    /// Content identifier.
    pub cid: Vec<u8>,
    /// Whether the peer has it.
    pub presence_type: i32,
}

/// Bitswap message.
#[derive(Debug, PartialEq, Eq)]
pub struct Message {
    /// What the sender wants.
    pub wantlist: Option<Wantlist>,
    /// Blocks.
    pub payload: Vec<Block>,
    /// Which blocks the sender has.
    pub block_presences: Vec<BlockPresence>,
}

/// An entry of a wantlist, by its view.
pub struct EntryView {
    /// Content identifier.
    pub block: Seq<u8>,
    /// Priority.
    pub priority: i32,
    /// Whether the entry is revoked.
    pub cancel: bool,
    /// What is wanted.
    pub want_type: i32,
    /// Whether the absence of the block is to be told.
    pub send_dont_have: bool,
}

/// What a peer wants, by its view.
#[verifier::ext_equal]
pub struct WantlistView {
    /// Entries.
    pub entries: Seq<EntryView>,
    /// Whether the list is complete.
    pub full: bool,
}

/// A block, by its view.
pub struct BlockView {
    /// Prefix of the content identifier.
    pub prefix: Seq<u8>,
    /// Data.
    pub data: Seq<u8>,
}

/// Whether a peer has a block, by its view.
pub struct BlockPresenceView {
    /// Content identifier.
    pub cid: Seq<u8>,
    /// Whether the peer has it.
    pub presence_type: i32,
}

/// Bitswap message, by its view.
#[verifier::ext_equal]
pub struct MessageView {
    /// What the sender wants.
    pub wantlist: Option<WantlistView>,
    /// Blocks.
    pub payload: Seq<BlockView>,
    /// Which blocks the sender has.
    pub block_presences: Seq<BlockPresenceView>,
}

impl View for Entry {
    type V = EntryView;

    open spec fn view(&self) -> EntryView {
        EntryView {
            block: self.block@,
            priority: self.priority,
            cancel: self.cancel,
            want_type: self.want_type,
            send_dont_have: self.send_dont_have,
        }
    }
}

impl View for Wantlist {
    type V = WantlistView;

    open spec fn view(&self) -> WantlistView {
        WantlistView {
            entries: Seq::new(self.entries@.len(), |i: int| self.entries@[i]@),
            full: self.full,
        }
    }
}

impl View for Block {
    type V = BlockView;

    open spec fn view(&self) -> BlockView {
        BlockView { prefix: self.prefix@, data: self.data@ }
    }
}

impl View for BlockPresence {
    type V = BlockPresenceView;

    open spec fn view(&self) -> BlockPresenceView {
        BlockPresenceView { cid: self.cid@, presence_type: self.presence_type }
    }
}

impl View for Message {
    type V = MessageView;

    open spec fn view(&self) -> MessageView {
        MessageView {
            wantlist: match self.wantlist {
                Some(wantlist) => Some(wantlist@),
                None => None,
            },
            payload: Seq::new(self.payload@.len(), |i: int| self.payload@[i]@),
            block_presences: Seq::new(
                self.block_presences@.len(),
                |i: int| self.block_presences@[i]@,
            ),
        }
    }
}

} // verus!
