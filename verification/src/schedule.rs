//! Interleaving of internal and external iterations within one tick.
//!
//! A schedule for the counts `(internal, external)` is a finite sequence of
//! `max(internal, external)` entries. Each entry says whether an internal and
//! whether an external iteration runs at that position. A policy decides at
//! which positions the iterations of each channel are placed.
use vstd::prelude::*;

pub mod centered;
pub mod half_beginning_half_end;
pub mod interleave_evenly;
pub mod late_as_possible;
pub mod soon_as_possible;

pub use centered::{Centered, CenteredIter};
pub use half_beginning_half_end::{HalfBeginningHalfEnd, HalfBeginningHalfEndIter};
pub use interleave_evenly::{InterleaveEvenly, InterleaveEvenlyIter};
pub use late_as_possible::{LateAsPossible, LateAsPossibleIter};
pub use soon_as_possible::{SoonAsPossible, SoonAsPossibleIter};

verus! {

/// What to run at one iteration of a tick.
#[derive(Clone, Copy, Debug, PartialEq, Eq, Structural)]
pub struct GbpScheduleAtIteration {
    pub internal: bool,
    pub external: bool,
}

impl Default for GbpScheduleAtIteration {
    fn default() -> (entry: Self)
        ensures
            !entry.internal,
            !entry.external,
    {
        GbpScheduleAtIteration { internal: false, external: false }
    }
}

/// How many internal and external iterations to run in one tick.
#[derive(Clone, Copy, Debug)]
pub struct GbpScheduleParams {
    pub internal: u8,
    pub external: u8,
}

impl GbpScheduleParams {
    /// Number of entries of a schedule: the larger of the two counts.
    pub open spec fn spec_max(self) -> nat {
        if self.internal >= self.external {
            self.internal as nat
        } else {
            self.external as nat
        }
    }

    /// The larger of the two counts.
    pub fn max(self) -> (m: u8)
        ensures
            m as nat == self.spec_max(),
    {
        if self.internal >= self.external {
            self.internal
        } else {
            self.external
        }
    }
}

/// Number of `true` positions in `channel`.
pub open spec fn count_true(channel: Seq<bool>) -> nat
    decreases channel.len(),
{
    if channel.len() == 0 {
        0
    } else {
        count_true(channel.drop_last()) + if channel.last() {
            1nat
        } else {
            0nat
        }
    }
}

/// The internal channel of a schedule.
pub open spec fn internal_channel(entries: Seq<GbpScheduleAtIteration>) -> Seq<bool> {
    Seq::new(entries.len(), |i: int| entries[i].internal)
}

/// The external channel of a schedule.
pub open spec fn external_channel(entries: Seq<GbpScheduleAtIteration>) -> Seq<bool> {
    Seq::new(entries.len(), |i: int| entries[i].external)
}

/// The schedule whose two channels are `internal` and `external`, entry by
/// entry. It ends where the shorter channel ends.
pub open spec fn zip_channels(internal: Seq<bool>, external: Seq<bool>) -> Seq<
    GbpScheduleAtIteration,
> {
    Seq::new(
        if internal.len() <= external.len() {
            internal.len()
        } else {
            external.len()
        },
        |i: int| (GbpScheduleAtIteration { internal: internal[i], external: external[i] }),
    )
}

/// The channel of length `max` that is on exactly at the positions of the
/// block `[start, start + n)`.
pub open spec fn block_channel(start: int, n: int, max: nat) -> Seq<bool> {
    Seq::new(max, |i: int| start <= i < start + n)
}

/// A block that lies inside the channel contributes each of its positions.
pub proof fn lemma_count_block(start: int, n: int, max: nat)
    requires
        0 <= start,
        0 <= n,
    ensures
        start + n <= max ==> count_true(block_channel(start, n, max)) == n,
        start <= max <= start + n ==> count_true(block_channel(start, n, max)) == max - start,
        max <= start ==> count_true(block_channel(start, n, max)) == 0,
    decreases max,
{
    if max > 0 {
        let shorter = (max - 1) as nat;
        lemma_count_block(start, n, shorter);
        assert(block_channel(start, n, max).drop_last() =~= block_channel(start, n, shorter));
    }
}

/// The channel that is on wherever `first` or `second` is. Both channels have
/// the same length.
pub open spec fn union_channel(first: Seq<bool>, second: Seq<bool>) -> Seq<bool> {
    Seq::new(first.len(), |i: int| first[i] || second[i])
}

/// Whether no position is on in both channels.
pub open spec fn disjoint_channels(first: Seq<bool>, second: Seq<bool>) -> bool {
    forall|i: int| 0 <= i < first.len() ==> !(#[trigger] first[i] && second[i])
}

/// Two channels that are never on together contribute their counts
/// separately.
pub proof fn lemma_count_disjoint(first: Seq<bool>, second: Seq<bool>)
    requires
        first.len() == second.len(),
        disjoint_channels(first, second),
    ensures
        count_true(union_channel(first, second)) == count_true(first) + count_true(second),
    decreases first.len(),
{
    if first.len() > 0 {
        lemma_count_disjoint(first.drop_last(), second.drop_last());
        assert(union_channel(first, second).drop_last() =~= union_channel(
            first.drop_last(),
            second.drop_last(),
        ));
        assert(!(first[first.len() - 1] && second[first.len() - 1]));
    }
}

/// Zipping two channels of one length and projecting gives them back.
pub proof fn lemma_zip_channels(internal: Seq<bool>, external: Seq<bool>)
    requires
        internal.len() == external.len(),
    ensures
        zip_channels(internal, external).len() == internal.len(),
        internal_channel(zip_channels(internal, external)) == internal,
        external_channel(zip_channels(internal, external)) == external,
{
    assert(internal_channel(zip_channels(internal, external)) =~= internal);
    assert(external_channel(zip_channels(internal, external)) =~= external);
}

/// A finite sequence of schedule entries that is consumed from the front.
pub trait GbpScheduleIterator {
    /// The entries that have not been handed out yet.
    spec fn remaining(&self) -> Seq<GbpScheduleAtIteration>;

    /// Hands out the next entry, or `None` once the schedule is used up.
    fn next(&mut self) -> (item: Option<GbpScheduleAtIteration>)
        ensures
            old(self).remaining().len() == 0 ==> item.is_none() && final(self).remaining()
                == old(self).remaining(),
            old(self).remaining().len() > 0 ==> item == Some(old(self).remaining()[0])
                && final(self).remaining() == old(self).remaining().drop_first(),
    ;
}

/// A policy that places the iterations of a tick.
pub trait GbpSchedule {
    /// The iterator that walks a schedule of this policy.
    type Iter: GbpScheduleIterator;

    /// The whole schedule of this policy for `params`.
    spec fn entries(params: GbpScheduleParams) -> Seq<GbpScheduleAtIteration>;

    /// Starts a schedule for `params`.
    fn schedule(params: GbpScheduleParams) -> (iter: Self::Iter)
        ensures
            iter.remaining() == Self::entries(params),
    ;

    /// A schedule has as many entries as the larger of the two counts.
    proof fn lemma_length(params: GbpScheduleParams)
        ensures
            Self::entries(params).len() == params.spec_max(),
    ;

    /// Each channel of a schedule is on at exactly as many positions as its
    /// count asks for.
    proof fn lemma_cardinality(params: GbpScheduleParams)
        ensures
            count_true(internal_channel(Self::entries(params))) == params.internal,
            count_true(external_channel(Self::entries(params))) == params.external,
    ;
}

/// Whatever the policy, a schedule has exactly as many entries as the larger
/// of the two counts asks for. With both counts at zero it is empty.
pub proof fn lemma_schedule_length<S: GbpSchedule>(params: GbpScheduleParams)
    ensures
        S::entries(params).len() == params.spec_max(),
        params.internal == 0 && params.external == 0 ==> S::entries(params) == Seq::<
            GbpScheduleAtIteration,
        >::empty(),
{
    S::lemma_length(params);
    if params.internal == 0 && params.external == 0 {
        assert(S::entries(params) =~= Seq::<GbpScheduleAtIteration>::empty());
    }
}

/// Whatever the policy, the number of positions at which a channel of a
/// schedule is on equals the count that was asked for that channel.
pub proof fn lemma_schedule_cardinality<S: GbpSchedule>(params: GbpScheduleParams)
    ensures
        count_true(internal_channel(S::entries(params))) == params.internal,
        count_true(external_channel(S::entries(params))) == params.external,
{
    S::lemma_cardinality(params);
}

/// A channel that is on as often as it is long is on everywhere.
pub proof fn lemma_full_channel(channel: Seq<bool>)
    ensures
        count_true(channel) <= channel.len(),
        count_true(channel) == channel.len() ==> forall|i: int|
            0 <= i < channel.len() ==> #[trigger] channel[i],
    decreases channel.len(),
{
    if channel.len() > 0 {
        lemma_full_channel(channel.drop_last());
        if count_true(channel) == channel.len() {
            assert forall|i: int| 0 <= i < channel.len() implies #[trigger] channel[i] by {
                if i < channel.len() - 1 {
                    assert(channel.drop_last()[i] == channel[i]);
                }
            }
        }
    }
}

/// Whatever the policy, the channel with the larger count is on at every
/// position of the schedule.
pub proof fn lemma_schedule_full<S: GbpSchedule>(params: GbpScheduleParams)
    ensures
        params.internal >= params.external ==> forall|i: int|
            0 <= i < S::entries(params).len() ==> (#[trigger] S::entries(params)[i]).internal,
        params.external >= params.internal ==> forall|i: int|
            0 <= i < S::entries(params).len() ==> (#[trigger] S::entries(params)[i]).external,
{
    S::lemma_length(params);
    S::lemma_cardinality(params);
    let entries = S::entries(params);
    lemma_full_channel(internal_channel(entries));
    lemma_full_channel(external_channel(entries));
    if params.internal >= params.external {
        assert forall|i: int| 0 <= i < entries.len() implies (#[trigger] entries[i]).internal by {
            assert(internal_channel(entries)[i]);
        }
    }
    if params.external >= params.internal {
        assert forall|i: int| 0 <= i < entries.len() implies (#[trigger] entries[i]).external by {
            assert(external_channel(entries)[i]);
        }
    }
}

/// Collects what is left of a schedule, in order.
pub fn collect<I: GbpScheduleIterator>(iter: &mut I) -> (entries: Vec<GbpScheduleAtIteration>)
    ensures
        entries@ == old(iter).remaining(),
        final(iter).remaining().len() == 0,
{
    let mut entries: Vec<GbpScheduleAtIteration> = Vec::new();
    let ghost all = iter.remaining();
    loop
        invariant
            all == old(iter).remaining(),
            entries@.len() <= all.len(),
            entries@ == all.subrange(0, entries@.len() as int),
            iter.remaining() == all.subrange(entries@.len() as int, all.len() as int),
        decreases iter.remaining().len(),
    {
        let ghost before = iter.remaining();
        match iter.next() {
            Some(entry) => {
                let ghost taken = entries@;
                entries.push(entry);
                proof {
                    assert(entry == all[taken.len() as int]);
                    assert(entries@ =~= all.subrange(0, entries@.len() as int));
                    assert(iter.remaining() =~= all.subrange(
                        entries@.len() as int,
                        all.len() as int,
                    ));
                }
            },
            None => {
                proof {
                    assert(entries@ =~= all);
                }
                return entries;
            },
        }
    }
}

/// One iteration of belief propagation.
#[derive(Clone, Copy, Debug, PartialEq, Eq, Structural)]
pub enum Iteration {
    /// Messages are passed inside the robot's own graph.
    Internal,
    /// Messages are passed between the graphs of robots.
    External,
}

/// The iterations that a robot runs for the entries of a schedule, in order:
/// at each entry the internal iteration if it is on, then the external one
/// if it is on.
pub open spec fn iterations_of(entries: Seq<GbpScheduleAtIteration>) -> Seq<Iteration>
    decreases entries.len(),
{
    if entries.len() == 0 {
        Seq::empty()
    } else {
        iterations_of(entries.drop_last()) + if entries.last().internal {
            seq![Iteration::Internal]
        } else {
            Seq::empty()
        } + if entries.last().external {
            seq![Iteration::External]
        } else {
            Seq::empty()
        }
    }
}

/// How often `kind` occurs among `iterations`.
pub open spec fn count_iterations(iterations: Seq<Iteration>, kind: Iteration) -> nat
    decreases iterations.len(),
{
    if iterations.len() == 0 {
        0
    } else {
        count_iterations(iterations.drop_last(), kind) + if iterations.last() == kind {
            1nat
        } else {
            0nat
        }
    }
}

/// Counting over two runs of iterations adds up.
pub proof fn lemma_count_iterations_concat(
    first: Seq<Iteration>,
    second: Seq<Iteration>,
    kind: Iteration,
)
    ensures
        count_iterations(first + second, kind) == count_iterations(first, kind)
            + count_iterations(second, kind),
    decreases second.len(),
{
    if second.len() == 0 {
        assert(first + second =~= first);
    } else {
        lemma_count_iterations_concat(first, second.drop_last(), kind);
        assert((first + second).drop_last() =~= first + second.drop_last());
    }
}

/// A robot runs as many internal iterations as the internal channel is on,
/// and as many external ones as the external channel is on.
pub proof fn lemma_iterations_count(entries: Seq<GbpScheduleAtIteration>)
    ensures
        count_iterations(iterations_of(entries), Iteration::Internal) == count_true(
            internal_channel(entries),
        ),
        count_iterations(iterations_of(entries), Iteration::External) == count_true(
            external_channel(entries),
        ),
    decreases entries.len(),
{
    if entries.len() > 0 {
        let before = entries.drop_last();
        lemma_iterations_count(before);
        assert(internal_channel(entries).drop_last() =~= internal_channel(before));
        assert(external_channel(entries).drop_last() =~= external_channel(before));
        let internal = if entries.last().internal {
            seq![Iteration::Internal]
        } else {
            Seq::empty()
        };
        let external = if entries.last().external {
            seq![Iteration::External]
        } else {
            Seq::empty()
        };
        reveal_with_fuel(count_iterations, 2);
        if entries.last().internal {
            assert(internal.drop_last() =~= Seq::<Iteration>::empty());
        }
        if entries.last().external {
            assert(external.drop_last() =~= Seq::<Iteration>::empty());
        }
        lemma_count_iterations_concat(iterations_of(before), internal, Iteration::Internal);
        lemma_count_iterations_concat(iterations_of(before), internal, Iteration::External);
        lemma_count_iterations_concat(
            iterations_of(before) + internal,
            external,
            Iteration::Internal,
        );
        lemma_count_iterations_concat(
            iterations_of(before) + internal,
            external,
            Iteration::External,
        );
    }
}

/// The iterations that a robot runs in one tick under the policy `S`: at
/// each entry of the schedule the internal iteration if it is on, then the
/// external one if it is on. There are `params.internal` internal and
/// `params.external` external iterations among them.
pub fn tick_iterations<S: GbpSchedule>(params: GbpScheduleParams) -> (iterations: Vec<Iteration>)
    ensures
        iterations@ == iterations_of(S::entries(params)),
        count_iterations(iterations@, Iteration::Internal) == params.internal,
        count_iterations(iterations@, Iteration::External) == params.external,
{
    let mut schedule = S::schedule(params);
    let mut iterations: Vec<Iteration> = Vec::new();
    let ghost all = S::entries(params);
    let ghost mut done: int = 0;
    proof {
        S::lemma_cardinality(params);
        lemma_iterations_count(all);
        assert(all.take(0) =~= Seq::<GbpScheduleAtIteration>::empty());
        assert(all.skip(0) =~= all);
    }
    loop
        invariant
            0 <= done <= all.len(),
            schedule.remaining() == all.skip(done),
            iterations@ == iterations_of(all.take(done)),
            all == S::entries(params),
            count_iterations(iterations_of(all), Iteration::Internal) == params.internal,
            count_iterations(iterations_of(all), Iteration::External) == params.external,
        decreases all.len() - done,
    {
        match schedule.next() {
            Some(entry) => {
                proof {
                    assert(entry == all[done]);
                    assert(all.take(done + 1).drop_last() =~= all.take(done));
                    assert(all.skip(done).drop_first() =~= all.skip(done + 1));
                }
                let ghost before = iterations@;
                if entry.internal {
                    iterations.push(Iteration::Internal);
                }
                let ghost between = iterations@;
                if entry.external {
                    iterations.push(Iteration::External);
                }
                proof {
                    assert(between =~= before + if entry.internal {
                        seq![Iteration::Internal]
                    } else {
                        Seq::empty()
                    });
                    assert(iterations@ =~= between + if entry.external {
                        seq![Iteration::External]
                    } else {
                        Seq::empty()
                    });
                    done = done + 1;
                }
            },
            None => {
                proof {
                    assert(all.take(done) =~= all);
                }
                return iterations;
            },
        }
    }
}

} // verus!
