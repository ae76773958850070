//! One channel of the half-beginning-half-end schedule.
use vstd::prelude::*;

use crate::schedule::{
    block_channel, count_true, lemma_count_block, lemma_count_disjoint, union_channel,
};

verus! {

/// Number of iterations placed at the start: the larger half of `n`.
pub open spec fn first_half(n: nat) -> nat {
    (n - n / 2) as nat
}

/// Number of iterations placed at the end: the smaller half of `n`.
pub open spec fn second_half(n: nat) -> nat {
    n / 2
}

/// Whether position `index` of a channel of `max` positions is on when `n`
/// iterations are split between the start and the end of the channel.
pub open spec fn half_beginning_half_end_on(n: nat, max: nat, index: int) -> bool {
    0 <= index < first_half(n) || max - second_half(n) <= index < max
}

/// The channel of `max` positions with `n` iterations placed
/// half at the start and half at the end.
pub open spec fn half_beginning_half_end_channel(n: nat, max: nat) -> Seq<bool> {
    Seq::new(max, |i: int| half_beginning_half_end_on(n, max, i))
}

/// A half-beginning-half-end channel is on at exactly `n` positions.
pub proof fn lemma_half_beginning_half_end_count(n: nat, max: nat)
    requires
        n <= max,
    ensures
        half_beginning_half_end_channel(n, max).len() == max,
        count_true(half_beginning_half_end_channel(n, max)) == n,
{
    let first = block_channel(0, first_half(n) as int, max);
    let second = block_channel(max - second_half(n), second_half(n) as int, max);
    assert(half_beginning_half_end_channel(n, max) =~= union_channel(first, second));
    lemma_count_block(0, first_half(n) as int, max);
    lemma_count_block(max - second_half(n), second_half(n) as int, max);
    lemma_count_disjoint(first, second);
}

/// Walks one channel of the half-beginning-half-end schedule.
pub struct HalfBeginningHalfEndIter {
    n: u8,
    max: u8,
    index: u8,
}

impl HalfBeginningHalfEndIter {
    #[verifier::type_invariant]
    spec fn well_formed(self) -> bool {
        self.n <= self.max && self.index <= self.max
    }

    /// Number of iterations that the channel places.
    pub closed spec fn count(self) -> nat {
        self.n as nat
    }

    /// Number of positions of the channel.
    pub closed spec fn positions(self) -> nat {
        self.max as nat
    }

    /// Number of positions that have been handed out.
    pub closed spec fn position(self) -> nat {
        self.index as nat
    }

    /// The positions that have not been handed out yet.
    pub open spec fn remaining(self) -> Seq<bool> {
        half_beginning_half_end_channel(self.count(), self.positions()).skip(self.position() as int)
    }

    /// A channel of `max` positions with `n` iterations placed
    /// half at the start and half at the end.
    pub fn new(n: u8, max: u8) -> (iter: Self)
        requires
            n <= max,
        ensures
            iter.count() == n,
            iter.positions() == max,
            iter.position() == 0,
            iter.remaining() == half_beginning_half_end_channel(n as nat, max as nat),
    {
        let ghost channel = half_beginning_half_end_channel(n as nat, max as nat);
        assert(channel.skip(0) =~= channel);
        Self { n, max, index: 0 }
    }

    /// Hands out the next position, or `None` behind the last one.
    pub fn next(&mut self) -> (item: Option<bool>)
        ensures
            final(self).count() == old(self).count(),
            final(self).positions() == old(self).positions(),
            old(self).position() <= old(self).positions(),
            old(self).position() == old(self).positions() ==> item.is_none()
                && final(self).position() == old(self).position(),
            old(self).position() < old(self).positions() ==> item == Some(
                old(self).remaining()[0],
            ) && final(self).position() == old(self).position() + 1,
            old(self).remaining().len() == 0 ==> item.is_none() && final(self).remaining()
                == old(self).remaining(),
            old(self).remaining().len() > 0 ==> item == Some(old(self).remaining()[0])
                && final(self).remaining() == old(self).remaining().drop_first(),
    {
        proof {
            use_type_invariant(&*self);
            let channel = half_beginning_half_end_channel(self.count(), self.positions());
            let at = self.position() as int;
            if at < channel.len() {
                assert(channel.skip(at)[0] == channel[at]);
                assert(channel.skip(at).drop_first() =~= channel.skip(at + 1));
            }
        }
        if self.index >= self.max {
            return None;
        }
        let second: u8 = self.n / 2;
        let first: u8 = self.n - second;
        let result = self.index < first || self.index >= self.max - second;
        self.index += 1;
        Some(result)
    }

    /// Number of positions of the channel.
    pub fn len(&self) -> (len: usize)
        ensures
            len == self.positions(),
    {
        self.max as usize
    }
}

} // verus!
