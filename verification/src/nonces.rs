//! Supplies of candidate nonces for the proof-of-work search.
//!
//! A source records every nonce that it hands out, so that a search can say
//! exactly which nonces it tried. [`RandomNonces`] draws them at random;
//! [`SequentialNonces`] counts up from a chosen start, which makes a search
//! repeatable.

use vstd::prelude::*;
use crate::sources::draw_nonce;

verus! {

/// A supply of candidate nonces.
pub trait NonceSource {
    /// The nonces handed out so far, oldest first.
    spec fn handed_out(&self) -> Seq<i128>;

    /// Hands out the next candidate and records it.
    fn next_nonce(&mut self) -> (nonce: i128)
        ensures
            final(self).handed_out() == old(self).handed_out().push(nonce),
    ;
}

/// Nonces drawn uniformly at random from the thread-local generator.
pub struct RandomNonces {
    drawn: Ghost<Seq<i128>>,
}

impl RandomNonces {
    /// A source that has handed out nothing yet.
    pub fn new() -> (source: RandomNonces)
        ensures
            source.handed_out() == Seq::<i128>::empty(),
    {
        RandomNonces { drawn: Ghost(Seq::empty()) }
    }
}

impl NonceSource for RandomNonces {
    closed spec fn handed_out(&self) -> Seq<i128> {
        self.drawn@
    }

    fn next_nonce(&mut self) -> (nonce: i128) {
        let nonce = draw_nonce();
        proof {
            self.drawn@ = self.drawn@.push(nonce);
        }
        nonce
    }
}

/// The nonce after `nonce` when counting up, wrapping from the largest value
/// to the smallest.
pub open spec fn successor(nonce: i128) -> i128 {
    if nonce == i128::MAX {
        i128::MIN
    } else {
        (nonce + 1) as i128
    }
}

/// Nonces that count up from a chosen start.
pub struct SequentialNonces {
    next: i128,
    counted: Ghost<Seq<i128>>,
}

impl SequentialNonces {
    /// The nonce that will be handed out next.
    pub closed spec fn spec_upcoming(&self) -> i128 {
        self.next
    }

    /// A source that has handed out nothing yet and starts at `first`.
    pub fn starting_at(first: i128) -> (source: SequentialNonces)
        ensures
            source.upcoming() == first,
            source.handed_out() == Seq::<i128>::empty(),
    {
        SequentialNonces { next: first, counted: Ghost(Seq::empty()) }
    }

    /// The nonce that will be handed out next.
    #[verifier::when_used_as_spec(spec_upcoming)]
    pub fn upcoming(&self) -> (nonce: i128)
        ensures
            nonce == self.upcoming(),
    {
        self.next
    }
}

impl NonceSource for SequentialNonces {
    closed spec fn handed_out(&self) -> Seq<i128> {
        self.counted@
    }

    fn next_nonce(&mut self) -> (nonce: i128)
        ensures
            nonce == old(self).upcoming(),
            final(self).upcoming() == successor(nonce),
    {
        let nonce = self.next;
        self.next = if nonce == i128::MAX {
            i128::MIN
        } else {
            nonce + 1
        };
        proof {
            self.counted@ = self.counted@.push(nonce);
        }
        nonce
    }
}

} // verus!
