//! A minimal peer-to-peer ledger: hash-linked blocks, chain validation, the
//! longest-valid-chain rule, length-prefixed framing, the rendezvous
//! registry's bookkeeping and the node's reaction to peer traffic.

pub mod block;
pub mod consensus;
pub mod frame;
pub mod registry;
pub mod message;
pub mod node;
pub mod repl;
