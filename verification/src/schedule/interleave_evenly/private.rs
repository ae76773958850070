//! One channel of the interleave-evenly schedule.
use vstd::prelude::*;

use crate::schedule::count_true;

verus! {

/// Number of iterations that lie in the first `index` positions of a channel
/// of `max` positions over which `n` iterations are spread evenly.
pub open spec fn placed_before(n: nat, max: nat, index: int) -> int {
    if max == 0 {
        0
    } else {
        (index * (n as int)) / (max as int)
    }
}

/// Whether position `index` of a channel of `max` positions is on when `n`
/// iterations are spread evenly: it is where the running share of `n` reaches
/// the next whole number.
pub open spec fn interleave_evenly_on(n: nat, max: nat, index: int) -> bool {
    placed_before(n, max, index + 1) > placed_before(n, max, index)
}

/// The channel of `max` positions with `n` iterations placed
/// evenly over the positions.
pub open spec fn interleave_evenly_channel(n: nat, max: nat) -> Seq<bool> {
    Seq::new(max, |i: int| interleave_evenly_on(n, max, i))
}

/// From one position to the next the running share grows by nothing or by
/// one.
pub proof fn lemma_placed_step(n: nat, max: nat, index: int)
    requires
        n <= max,
        0 <= index,
    ensures
        placed_before(n, max, index) <= placed_before(n, max, index + 1) <= placed_before(
            n,
            max,
            index,
        ) + 1,
{
    if max > 0 {
        let m = max as int;
        let a = index * (n as int);
        let b = (index + 1) * (n as int);
        assert(b == a + n) by (nonlinear_arith)
            requires
                a == index * (n as int),
                b == (index + 1) * (n as int),
        ;
        assert(a / m <= b / m <= a / m + 1) by (nonlinear_arith)
            requires
                0 <= a,
                a <= b <= a + m,
                m > 0,
        ;
    }
}

/// The first `length` positions of an interleave-evenly channel hold as many
/// iterations as the running share says.
pub proof fn lemma_interleave_evenly_prefix(n: nat, max: nat, length: nat)
    requires
        n <= max,
        length <= max,
    ensures
        count_true(interleave_evenly_channel(n, max).take(length as int)) == placed_before(
            n,
            max,
            length as int,
        ),
    decreases length,
{
    let channel = interleave_evenly_channel(n, max);
    if length == 0 {
        assert(placed_before(n, max, 0) == 0) by (nonlinear_arith)
            requires
                placed_before(n, max, 0) == if max == 0 {
                    0
                } else {
                    (0 * (n as int)) / (max as int)
                },
        ;
    } else {
        lemma_interleave_evenly_prefix(n, max, (length - 1) as nat);
        lemma_placed_step(n, max, length - 1);
        assert(channel.take(length as int).drop_last() =~= channel.take(length - 1));
    }
}

/// An interleave-evenly channel is on at exactly `n` positions.
pub proof fn lemma_interleave_evenly_count(n: nat, max: nat)
    requires
        n <= max,
    ensures
        interleave_evenly_channel(n, max).len() == max,
        count_true(interleave_evenly_channel(n, max)) == n,
{
    let channel = interleave_evenly_channel(n, max);
    lemma_interleave_evenly_prefix(n, max, max);
    assert(channel.take(max as int) =~= channel);
    if max > 0 {
        assert(((max as int) * (n as int)) / (max as int) == n) by (nonlinear_arith)
            requires
                max > 0,
        ;
    }
}

/// Walks one channel of the interleave-evenly schedule.
pub struct InterleaveEvenlyIter {
    n: u8,
    max: u8,
    index: u8,
}

impl InterleaveEvenlyIter {
    #[verifier::type_invariant]
    spec fn well_formed(self) -> bool {
        self.n <= self.max && self.index <= self.max
    }

    /// Number of iterations that the channel places.
    pub closed spec fn count(self) -> nat {
        self.n as nat
    }

    /// Number of positions of the channel.
    pub closed spec fn positions(self) -> nat {
        self.max as nat
    }

    /// Number of positions that have been handed out.
    pub closed spec fn position(self) -> nat {
        self.index as nat
    }

    /// The positions that have not been handed out yet.
    pub open spec fn remaining(self) -> Seq<bool> {
        interleave_evenly_channel(self.count(), self.positions()).skip(self.position() as int)
    }

    /// A channel of `max` positions with `n` iterations placed
    /// evenly over the positions.
    pub fn new(n: u8, max: u8) -> (iter: Self)
        requires
            n <= max,
        ensures
            iter.count() == n,
            iter.positions() == max,
            iter.position() == 0,
            iter.remaining() == interleave_evenly_channel(n as nat, max as nat),
    {
        let ghost channel = interleave_evenly_channel(n as nat, max as nat);
        assert(channel.skip(0) =~= channel);
        Self { n, max, index: 0 }
    }

    /// Hands out the next position, or `None` behind the last one.
    pub fn next(&mut self) -> (item: Option<bool>)
        ensures
            final(self).count() == old(self).count(),
            final(self).positions() == old(self).positions(),
            old(self).position() <= old(self).positions(),
            old(self).position() == old(self).positions() ==> item.is_none()
                && final(self).position() == old(self).position(),
            old(self).position() < old(self).positions() ==> item == Some(
                old(self).remaining()[0],
            ) && final(self).position() == old(self).position() + 1,
            old(self).remaining().len() == 0 ==> item.is_none() && final(self).remaining()
                == old(self).remaining(),
            old(self).remaining().len() > 0 ==> item == Some(old(self).remaining()[0])
                && final(self).remaining() == old(self).remaining().drop_first(),
    {
        proof {
            use_type_invariant(&*self);
            let channel = interleave_evenly_channel(self.count(), self.positions());
            let at = self.position() as int;
            if at < channel.len() {
                assert(channel.skip(at)[0] == channel[at]);
                assert(channel.skip(at).drop_first() =~= channel.skip(at + 1));
            }
        }
        if self.index >= self.max {
            return None;
        }
        let n: u16 = self.n as u16;
        let max: u16 = self.max as u16;
        let index: u16 = self.index as u16;
        assert(index * n <= 255 * 255 && (index + 1) * n <= 255 * 255) by (nonlinear_arith)
            requires
                0 <= index < 255,
                0 <= n <= 255,
        ;
        let result = ((index + 1) * n) / max > (index * n) / max;
        self.index += 1;
        Some(result)
    }

    /// Number of positions of the channel.
    pub fn len(&self) -> (len: usize)
        ensures
            len == self.positions(),
    {
        self.max as usize
    }
}

} // verus!
