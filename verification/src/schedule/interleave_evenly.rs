//! The interleave-evenly schedule: the iterations of each channel are
//! spread over the tick as uniformly as whole positions allow.
use vstd::prelude::*;

use crate::schedule::{
    lemma_zip_channels, zip_channels, GbpSchedule, GbpScheduleAtIteration, GbpScheduleIterator,
    GbpScheduleParams,
};

pub mod private;

verus! {

/// The policy that places each channel's iterations
/// evenly over the positions.
pub struct InterleaveEvenly;

/// The interleave-evenly schedule for `params`.
pub open spec fn interleave_evenly_entries(
    params: GbpScheduleParams,
) -> Seq<GbpScheduleAtIteration> {
    zip_channels(
        private::interleave_evenly_channel(params.internal as nat, params.spec_max()),
        private::interleave_evenly_channel(params.external as nat, params.spec_max()),
    )
}

/// Walks an interleave-evenly schedule.
pub struct InterleaveEvenlyIter {
    internal: private::InterleaveEvenlyIter,
    external: private::InterleaveEvenlyIter,
}

impl InterleaveEvenlyIter {
    /// Starts the interleave-evenly schedule for `config`.
    pub fn new(config: GbpScheduleParams) -> (iter: Self)
        ensures
            iter.remaining() == interleave_evenly_entries(config),
    {
        let max = config.max();
        let internal = private::InterleaveEvenlyIter::new(config.internal, max);
        let external = private::InterleaveEvenlyIter::new(config.external, max);
        Self { internal, external }
    }
}

impl GbpScheduleIterator for InterleaveEvenlyIter {
    closed spec fn remaining(&self) -> Seq<GbpScheduleAtIteration> {
        zip_channels(self.internal.remaining(), self.external.remaining())
    }

    fn next(&mut self) -> (item: Option<GbpScheduleAtIteration>) {
        let ghost internal_before = self.internal.remaining();
        let ghost external_before = self.external.remaining();
        match self.internal.next() {
            Some(internal) => match self.external.next() {
                Some(external) => {
                    assert(zip_channels(internal_before, external_before).drop_first()
                        =~= zip_channels(
                        internal_before.drop_first(),
                        external_before.drop_first(),
                    ));
                    Some(GbpScheduleAtIteration { internal, external })
                },
                None => {
                    assert(zip_channels(internal_before.drop_first(), external_before)
                        =~= zip_channels(internal_before, external_before));
                    None
                },
            },
            None => None,
        }
    }
}

impl GbpSchedule for InterleaveEvenly {
    type Iter = InterleaveEvenlyIter;

    open spec fn entries(params: GbpScheduleParams) -> Seq<GbpScheduleAtIteration> {
        interleave_evenly_entries(params)
    }

    fn schedule(config: GbpScheduleParams) -> (iter: InterleaveEvenlyIter) {
        InterleaveEvenlyIter::new(config)
    }

    proof fn lemma_length(params: GbpScheduleParams) {
    }

    proof fn lemma_cardinality(params: GbpScheduleParams) {
        let max = params.spec_max();
        private::lemma_interleave_evenly_count(params.internal as nat, max);
        private::lemma_interleave_evenly_count(params.external as nat, max);
        lemma_zip_channels(
            private::interleave_evenly_channel(params.internal as nat, max),
            private::interleave_evenly_channel(params.external as nat, max),
        );
    }
}

} // verus!
