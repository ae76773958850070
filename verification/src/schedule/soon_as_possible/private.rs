//! One channel of the soon-as-possible schedule.
use vstd::prelude::*;

use crate::schedule::{block_channel, count_true, lemma_count_block};

verus! {

/// Whether position `index` of a channel of `max` positions is on when `n`
/// iterations are placed as soon as possible: the first `n` positions are.
pub open spec fn soon_as_possible_on(n: nat, max: nat, index: int) -> bool {
    0 <= index < n
}

/// The channel of `max` positions with `n` iterations placed
/// at the first positions.
pub open spec fn soon_as_possible_channel(n: nat, max: nat) -> Seq<bool> {
    Seq::new(max, |i: int| soon_as_possible_on(n, max, i))
}

/// A soon-as-possible channel is on at exactly `n` positions.
pub proof fn lemma_soon_as_possible_count(n: nat, max: nat)
    requires
        n <= max,
    ensures
        soon_as_possible_channel(n, max).len() == max,
        count_true(soon_as_possible_channel(n, max)) == n,
{
    assert(soon_as_possible_channel(n, max) =~= block_channel(0, n as int, max));
    lemma_count_block(0, n as int, max);
}

/// Walks one channel of the soon-as-possible schedule.
pub struct SoonAsPossibleIter {
    n: u8,
    max: u8,
    index: u8,
}

impl SoonAsPossibleIter {
    #[verifier::type_invariant]
    spec fn well_formed(self) -> bool {
        self.n <= self.max && self.index <= self.max
    }

    /// Number of iterations that the channel places.
    pub closed spec fn count(self) -> nat {
        self.n as nat
    }

    /// Number of positions of the channel.
    pub closed spec fn positions(self) -> nat {
        self.max as nat
    }

    /// Number of positions that have been handed out.
    pub closed spec fn position(self) -> nat {
        self.index as nat
    }

    /// The positions that have not been handed out yet.
    pub open spec fn remaining(self) -> Seq<bool> {
        soon_as_possible_channel(self.count(), self.positions()).skip(self.position() as int)
    }

    /// A channel of `max` positions with `n` iterations placed
    /// at the first positions.
    pub fn new(n: u8, max: u8) -> (iter: Self)
        requires
            n <= max,
        ensures
            iter.count() == n,
            iter.positions() == max,
            iter.position() == 0,
            iter.remaining() == soon_as_possible_channel(n as nat, max as nat),
    {
        let ghost channel = soon_as_possible_channel(n as nat, max as nat);
        assert(channel.skip(0) =~= channel);
        Self { n, max, index: 0 }
    }

    /// Hands out the next position, or `None` behind the last one.
    pub fn next(&mut self) -> (item: Option<bool>)
        ensures
            final(self).count() == old(self).count(),
            final(self).positions() == old(self).positions(),
            old(self).position() <= old(self).positions(),
            old(self).position() == old(self).positions() ==> item.is_none()
                && final(self).position() == old(self).position(),
            old(self).position() < old(self).positions() ==> item == Some(
                old(self).remaining()[0],
            ) && final(self).position() == old(self).position() + 1,
            old(self).remaining().len() == 0 ==> item.is_none() && final(self).remaining()
                == old(self).remaining(),
            old(self).remaining().len() > 0 ==> item == Some(old(self).remaining()[0])
                && final(self).remaining() == old(self).remaining().drop_first(),
    {
        proof {
            use_type_invariant(&*self);
            let channel = soon_as_possible_channel(self.count(), self.positions());
            let at = self.position() as int;
            if at < channel.len() {
                assert(channel.skip(at)[0] == channel[at]);
                assert(channel.skip(at).drop_first() =~= channel.skip(at + 1));
            }
        }
        if self.index >= self.max {
            return None;
        }
        let result = self.index < self.n;
        self.index += 1;
        Some(result)
    }

    /// Number of positions of the channel.
    pub fn len(&self) -> (len: usize)
        ensures
            len == self.positions(),
    {
        self.max as usize
    }
}

} // verus!
