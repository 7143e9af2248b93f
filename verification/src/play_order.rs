//! The order in which a queue is played, together with the number of random
//! shuffles applied to it since it was made. Only a shuffle raises that
//! number, so a playback can state that a cycle's order went through a fresh
//! shuffle.

use vstd::prelude::*;
use rand::rngs::ThreadRng;
use rand::seq::SliceRandom;

verus! {

/// An order of a queue's positions and the shuffles it went through.
pub struct PlayOrder {
    items: Vec<usize>,
    shuffles: Ghost<nat>,
}

impl PlayOrder {
    /// The positions, in playing order.
    pub closed spec fn items(&self) -> Seq<usize> {
        self.items@
    }

    /// How many random shuffles were applied to the positions since the order
    /// was made.
    pub closed spec fn shuffles(&self) -> nat {
        self.shuffles@
    }

    /// An order of the given positions, not shuffled yet.
    pub fn new(items: Vec<usize>) -> (o: Self)
        ensures
            o.items() == items@,
            o.shuffles() == 0,
    {
        PlayOrder { items, shuffles: Ghost(0) }
    }

    /// The positions, in playing order.
    pub fn positions(&self) -> (v: &Vec<usize>)
        ensures
            v@ == self.items(),
    {
        &self.items
    }
}

/// Calls `SliceRandom::shuffle` on the order's positions, in place. The
/// permutation is random; what is stated is that it is one (the same
/// positions, each as often as before) and that one more shuffle went into
/// the order.
#[verifier::external_body]
pub(crate) fn shuffle_order(order: &mut PlayOrder, rng: &mut ThreadRng)
    ensures
        final(order).items().to_multiset() == old(order).items().to_multiset(),
        final(order).shuffles() == old(order).shuffles() + 1,
{
    order.items.shuffle(rng);
}

} // verus!
