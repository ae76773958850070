//! One channel of the centered schedule.
use vstd::prelude::*;

use crate::schedule::{block_channel, count_true, lemma_count_block};

verus! {

/// First position of the block of `n` iterations in a channel of `max`
/// positions: half the block lies before the middle position `max / 2`.
pub open spec fn centered_start(n: nat, max: nat) -> int {
    if max / 2 >= n / 2 {
        max as int / 2 - n as int / 2
    } else {
        0
    }
}

/// Last position of the block, clipped to the channel. It is `-1` for the
/// empty block that starts at position 0.
pub open spec fn centered_end(n: nat, max: nat) -> int {
    if centered_start(n, max) + n <= max {
        centered_start(n, max) + n - 1
    } else {
        max - 1
    }
}

/// Whether position `index` of a channel of `max` positions is on when `n`
/// iterations are centered in it.
pub open spec fn centered_on(n: nat, max: nat, index: int) -> bool {
    centered_start(n, max) <= index <= centered_end(n, max)
}

/// The channel of `max` positions with `n` iterations centered in it.
pub open spec fn centered_channel(n: nat, max: nat) -> Seq<bool> {
    Seq::new(max, |i: int| centered_on(n, max, i))
}

/// With no more iterations than positions the block is never clipped: it is
/// the `n` positions from `max / 2 - n / 2` on.
pub proof fn lemma_centered_block(n: nat, max: nat)
    requires
        n <= max,
    ensures
        0 <= centered_start(n, max),
        centered_start(n, max) + n <= max,
        centered_end(n, max) == centered_start(n, max) + n - 1,
        centered_channel(n, max) == block_channel(centered_start(n, max), n as int, max),
{
    assert(centered_channel(n, max) =~= block_channel(centered_start(n, max), n as int, max));
}

/// A centered channel is on at exactly `n` positions.
pub proof fn lemma_centered_count(n: nat, max: nat)
    requires
        n <= max,
    ensures
        centered_channel(n, max).len() == max,
        count_true(centered_channel(n, max)) == n,
{
    lemma_centered_block(n, max);
    lemma_count_block(centered_start(n, max), n as int, max);
}

/// Walks one channel of the centered schedule.
pub struct CenteredIter {
    n: u8,
    max: u8,
    index: u8,
}

impl CenteredIter {
    #[verifier::type_invariant]
    spec fn well_formed(self) -> bool {
        self.n <= self.max && self.index <= self.max
    }

    /// Number of iterations that the channel places.
    pub closed spec fn count(self) -> nat {
        self.n as nat
    }

    /// Number of positions of the channel.
    pub closed spec fn positions(self) -> nat {
        self.max as nat
    }

    /// Number of positions that have been handed out.
    pub closed spec fn position(self) -> nat {
        self.index as nat
    }

    /// The positions that have not been handed out yet.
    pub open spec fn remaining(self) -> Seq<bool> {
        centered_channel(self.count(), self.positions()).skip(self.position() as int)
    }

    /// A channel of `max` positions with `n` iterations centered in it.
    pub fn new(n: u8, max: u8) -> (iter: Self)
        requires
            n <= max,
        ensures
            iter.count() == n,
            iter.positions() == max,
            iter.position() == 0,
            iter.remaining() == centered_channel(n as nat, max as nat),
    {
        assert(centered_channel(n as nat, max as nat).skip(0) =~= centered_channel(
            n as nat,
            max as nat,
        ));
        Self { n, max, index: 0 }
    }

    /// Hands out the next position, or `None` behind the last one.
    pub fn next(&mut self) -> (item: Option<bool>)
        ensures
            final(self).count() == old(self).count(),
            final(self).positions() == old(self).positions(),
            old(self).position() <= old(self).positions(),
            old(self).position() == old(self).positions() ==> item.is_none()
                && final(self).position() == old(self).position(),
            old(self).position() < old(self).positions() ==> item == Some(
                centered_on(old(self).count(), old(self).positions(), old(self).position() as int),
            ) && final(self).position() == old(self).position() + 1,
            old(self).remaining().len() == 0 ==> item.is_none() && final(self).remaining()
                == old(self).remaining(),
            old(self).remaining().len() > 0 ==> item == Some(old(self).remaining()[0])
                && final(self).remaining() == old(self).remaining().drop_first(),
    {
        proof {
            use_type_invariant(&*self);
            let channel = centered_channel(self.count(), self.positions());
            let at = self.position() as int;
            if at < channel.len() {
                assert(channel.skip(at)[0] == channel[at]);
                assert(channel.skip(at).drop_first() =~= channel.skip(at + 1));
            }
        }
        if self.index >= self.max {
            return None;
        }
        if self.n == 0 && self.max == 1 {
            self.index += 1;
            return Some(false);
        }
        let mid_point: u8 = self.max / 2;
        let half_n: u8 = self.n / 2;

        let start: u8 = mid_point.saturating_sub(half_n);
        let end: u8 = if start + self.n <= self.max {
            start + self.n - 1
        } else {
            self.max - 1
        };

        let result = self.index >= start && self.index <= end;
        self.index += 1;
        Some(result)
    }

    /// Number of positions of the channel.
    pub fn len(&self) -> (len: usize)
        ensures
            len == self.positions(),
    {
        self.max as usize
    }
}

} // verus!
