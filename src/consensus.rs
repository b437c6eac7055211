//! The chain-reconciliation rule: a valid longer chain wins, and between
//! chains of equal length the one whose tip is newer wins.
//!
//! There is no work metric, so any peer can win with a longer well-formed
//! chain: the rule offers no resistance to adversarial peers.

use vstd::prelude::*;
use crate::block::{check_chain, valid_chain, Block};

verus! {

/// `candidate` should replace `current`: it is valid, and it is longer, or
/// as long and non-empty with a later tip timestamp.
pub open spec fn is_better(candidate: Seq<Block>, current: Seq<Block>) -> bool {
    &&& valid_chain(candidate)
    &&& {
        ||| candidate.len() > current.len()
        ||| (candidate.len() == current.len() && candidate.len() > 0
            && candidate.last().timestamp > current.last().timestamp)
    }
}

/// Tells whether the chain a peer sent should replace the local one.
pub fn is_chain_better(their_chain: &Vec<Block>, my_chain: &Vec<Block>) -> (r: bool)
    ensures
        r == is_better(their_chain@, my_chain@),
{
    if !check_chain(their_chain.as_slice()) {
        return false;
    }
    if their_chain.len() > my_chain.len() {
        return true;
    }
    their_chain.len() == my_chain.len() && their_chain.len() > 0
        && their_chain[their_chain.len() - 1].timestamp > my_chain[my_chain.len() - 1].timestamp
}

/// No chain is better than itself.
pub proof fn lemma_not_better_than_itself(chain: Seq<Block>)
    ensures
        !is_better(chain, chain),
{
}

/// An invalid chain is never better, whatever its length.
pub proof fn lemma_invalid_never_better(candidate: Seq<Block>, current: Seq<Block>)
    requires
        !valid_chain(candidate),
    ensures
        !is_better(candidate, current),
{
}


/// Two valid chains of the same non-zero length whose tips differ in time
/// settle on the same winner from either side: exactly one is better than
/// the other, the one with the later tip.
pub proof fn lemma_equal_length_settles(a: Seq<Block>, b: Seq<Block>)
    requires
        valid_chain(a),
        valid_chain(b),
        a.len() == b.len(),
        a.len() > 0,
        a.last().timestamp != b.last().timestamp,
    ensures
        is_better(a, b) != is_better(b, a),
        is_better(a, b) <==> a.last().timestamp > b.last().timestamp,
{
}

} // verus!
