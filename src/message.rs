//! The two wire message sets: peer to peer, and client to registry and back.

use vstd::prelude::*;
use crate::block::Block;
use crate::registry::Address;

verus! {

/// What peers send each other.
#[derive(Debug)]
pub enum ClientMessage {
    /// A block just minted on top of the sender's tip.
    NewBlock(Block),
    /// A request for the receiver's whole chain.
    QueryChain,
    /// The sender's whole chain.
    Chain(Vec<Block>),
}

/// What a client sends the registry.
#[derive(Debug, Clone, Copy, PartialEq, Eq, Structural)]
pub enum ClientToNameserverMessage {
    /// The client listens for peers on this port.
    Inform(u16),
    /// A request for the other clients' listen addresses.
    Query,
    /// An answer to `Ping`.
    Pong,
}

/// What the registry sends a client.
#[derive(Debug)]
pub enum NameserverToClientMessage {
    /// The listen addresses of the other registered clients.
    Peers(Vec<Address>),
    /// A liveness probe.
    Ping,
}

} // verus!
