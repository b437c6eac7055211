//! The node's chain and its reaction to peer traffic and local minting.
//!
//! The node's event loop owns one `Node`; it performs the I/O and hands each
//! peer's read outcome to `handle_peer_event`, then carries out the action
//! that comes back.

use vstd::prelude::*;
use crate::block::{check_chain, child_view, lemma_extend_valid, links, valid_chain, Block};
use crate::consensus::{is_better, is_chain_better};
use crate::message::ClientMessage;

verus! {

/// The outcome of one non-blocking read from a peer.
#[derive(Debug)]
pub enum PeerEvent {
    /// A whole message arrived.
    Message(ClientMessage),
    /// Nothing arrived before the read timeout: try again next turn.
    NoData,
    /// The peer closed the stream.
    Closed,
    /// The transport failed or the frame could not be decoded.
    Failed,
}

/// What the loop does with the peer after an event.
#[derive(Debug)]
pub enum PeerAction {
    /// Nothing to send.
    Nothing,
    /// Send this message back to the peer.
    Reply(ClientMessage),
    /// Stop reading from the peer and drop it from the peer set.
    Drop,
}

/// A node's local chain. It is never empty and always valid.
pub struct Node {
    chain: Vec<Block>,
}

impl View for Node {
    type V = Seq<Block>;

    closed spec fn view(&self) -> Seq<Block> {
        self.chain@
    }
}

impl Node {
    /// The node's invariant: the chain has a tip and is valid.
    pub closed spec fn wf(&self) -> bool {
        &&& self.chain@.len() > 0
        &&& valid_chain(self.chain@)
    }

    /// The invariant in terms a caller sees: the chain has a tip and is valid.
    pub proof fn lemma_chain_valid(&self)
        requires
            self.wf(),
        ensures
            self@.len() > 0,
            valid_chain(self@),
    {
    }

    /// A node whose chain is the genesis block alone.
    pub fn new() -> (r: Node)
        ensures
            r.wf(),
            r@.len() == 1,
            r@[0]@ == crate::block::genesis_view(),
    {
        let mut chain: Vec<Block> = Vec::new();
        chain.push(Block::genesis());
        Node { chain }
    }

    /// A node that starts from a chain loaded at startup, or `None` when the
    /// chain is empty or invalid.
    pub fn from_chain(chain: Vec<Block>) -> (r: Option<Node>)
        ensures
            (chain@.len() == 0 || !valid_chain(chain@)) <==> r.is_none(),
            r matches Some(n) ==> n.wf() && n@ == chain@,
    {
        if chain.len() == 0 || !check_chain(chain.as_slice()) {
            None
        } else {
            Some(Node { chain })
        }
    }

    /// The local chain.
    pub fn chain(&self) -> (r: &Vec<Block>)
        ensures
            r@ == self@,
    {
        &self.chain
    }

    /// The last block of the chain.
    pub fn tip(&self) -> (r: &Block)
        requires
            self.wf(),
        ensures
            *r == self@.last(),
    {
        &self.chain[self.chain.len() - 1]
    }

    /// Mints a block carrying `data` on top of the tip and appends it; the
    /// caller broadcasts it. `None`, with nothing changed, when the tip's
    /// number is the largest there is.
    pub fn mint_block(&mut self, data: [u8; 1024]) -> (r: Option<Block>)
        requires
            old(self).wf(),
        ensures
            final(self).wf(),
            old(self)@.last().block_num == u64::MAX <==> r.is_none(),
            r.is_none() ==> final(self)@ == old(self)@,
            r matches Some(b) ==> {
                &&& b@ == child_view(old(self)@.last()@, data@, b.timestamp)
                &&& final(self)@ == old(self)@.push(b)
            },
    {
        let tip = &self.chain[self.chain.len() - 1];
        if tip.block_num == u64::MAX {
            return None;
        }
        let b = Block::new(tip, data);
        proof {
            lemma_extend_valid(self.chain@, b);
        }
        self.chain.push(b.clone());
        Some(b)
    }

    /// Reacts to one read outcome from a peer: answers `QueryChain` with the
    /// chain, adopts a better chain, appends a block that links to the tip
    /// (its previous hash is the tip's hash and its number the tip's plus
    /// one) and asks for the whole chain when a block does not, and drops a
    /// peer whose stream closed or failed.
    pub fn handle_peer_event(&mut self, event: PeerEvent) -> (r: PeerAction)
        requires
            old(self).wf(),
        ensures
            final(self).wf(),
            match event {
                PeerEvent::Message(ClientMessage::QueryChain) => {
                    &&& final(self)@ == old(self)@
                    &&& r matches PeerAction::Reply(ClientMessage::Chain(c)) && c@ == old(self)@
                },
                PeerEvent::Message(ClientMessage::Chain(c)) => {
                    &&& r == PeerAction::Nothing
                    &&& final(self)@ == if is_better(c@, old(self)@) {
                        c@
                    } else {
                        old(self)@
                    }
                },
                PeerEvent::Message(ClientMessage::NewBlock(b)) => {
                    if links(old(self)@.last()@, b@) {
                        &&& r == PeerAction::Nothing
                        &&& final(self)@ == old(self)@.push(b)
                    } else {
                        &&& r == PeerAction::Reply(ClientMessage::QueryChain)
                        &&& final(self)@ == old(self)@
                    }
                },
                PeerEvent::NoData => r == PeerAction::Nothing && final(self)@ == old(self)@,
                PeerEvent::Closed | PeerEvent::Failed => r == PeerAction::Drop && final(self)@ == old(self)@,
            },
    {
        match event {
            PeerEvent::Message(ClientMessage::QueryChain) => {
                let c = self.chain.clone();
                assert(c@ =~= self.chain@);
                PeerAction::Reply(ClientMessage::Chain(c))
            },
            PeerEvent::Message(ClientMessage::Chain(their_chain)) => {
                if is_chain_better(&their_chain, &self.chain) {
                    self.chain = their_chain;
                }
                PeerAction::Nothing
            },
            PeerEvent::Message(ClientMessage::NewBlock(block)) => {
                let tip = &self.chain[self.chain.len() - 1];
                if block.previous_hash == tip.hash && tip.block_num < u64::MAX
                    && block.block_num == tip.block_num + 1 {
                    proof {
                        lemma_extend_valid(self.chain@, block);
                    }
                    self.chain.push(block);
                    PeerAction::Nothing
                } else {
                    PeerAction::Reply(ClientMessage::QueryChain)
                }
            },
            PeerEvent::NoData => PeerAction::Nothing,
            PeerEvent::Closed | PeerEvent::Failed => PeerAction::Drop,
        }
    }
}

} // verus!
