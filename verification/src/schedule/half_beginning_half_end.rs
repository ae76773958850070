//! The half-beginning-half-end schedule: the iterations of each
//! channel are split in two halves, one at the start and one at the end of the
//! tick.
use vstd::prelude::*;

use crate::schedule::{
    lemma_zip_channels, zip_channels, GbpSchedule, GbpScheduleAtIteration, GbpScheduleIterator,
    GbpScheduleParams,
};

pub mod private;

verus! {

/// The policy that places each channel's iterations
/// half at the start and half at the end.
pub struct HalfBeginningHalfEnd;

/// The half-beginning-half-end schedule for `params`.
pub open spec fn half_beginning_half_end_entries(
    params: GbpScheduleParams,
) -> Seq<GbpScheduleAtIteration> {
    zip_channels(
        private::half_beginning_half_end_channel(params.internal as nat, params.spec_max()),
        private::half_beginning_half_end_channel(params.external as nat, params.spec_max()),
    )
}

/// Walks a half-beginning-half-end schedule.
pub struct HalfBeginningHalfEndIter {
    internal: private::HalfBeginningHalfEndIter,
    external: private::HalfBeginningHalfEndIter,
}

impl HalfBeginningHalfEndIter {
    /// Starts the half-beginning-half-end schedule for `config`.
    pub fn new(config: GbpScheduleParams) -> (iter: Self)
        ensures
            iter.remaining() == half_beginning_half_end_entries(config),
    {
        let max = config.max();
        let internal = private::HalfBeginningHalfEndIter::new(config.internal, max);
        let external = private::HalfBeginningHalfEndIter::new(config.external, max);
        Self { internal, external }
    }
}

impl GbpScheduleIterator for HalfBeginningHalfEndIter {
    closed spec fn remaining(&self) -> Seq<GbpScheduleAtIteration> {
        zip_channels(self.internal.remaining(), self.external.remaining())
    }

    fn next(&mut self) -> (item: Option<GbpScheduleAtIteration>) {
        let ghost internal_before = self.internal.remaining();
        let ghost external_before = self.external.remaining();
        match self.internal.next() {
            Some(internal) => match self.external.next() {
                Some(external) => {
                    assert(zip_channels(internal_before, external_before).drop_first()
                        =~= zip_channels(
                        internal_before.drop_first(),
                        external_before.drop_first(),
                    ));
                    Some(GbpScheduleAtIteration { internal, external })
                },
                None => {
                    assert(zip_channels(internal_before.drop_first(), external_before)
                        =~= zip_channels(internal_before, external_before));
                    None
                },
            },
            None => None,
        }
    }
}

impl GbpSchedule for HalfBeginningHalfEnd {
    type Iter = HalfBeginningHalfEndIter;

    open spec fn entries(params: GbpScheduleParams) -> Seq<GbpScheduleAtIteration> {
        half_beginning_half_end_entries(params)
    }

    fn schedule(config: GbpScheduleParams) -> (iter: HalfBeginningHalfEndIter) {
        HalfBeginningHalfEndIter::new(config)
    }

    proof fn lemma_length(params: GbpScheduleParams) {
    }

    proof fn lemma_cardinality(params: GbpScheduleParams) {
        let max = params.spec_max();
        private::lemma_half_beginning_half_end_count(params.internal as nat, max);
        private::lemma_half_beginning_half_end_count(params.external as nat, max);
        lemma_zip_channels(
            private::half_beginning_half_end_channel(params.internal as nat, max),
            private::half_beginning_half_end_channel(params.external as nat, max),
        );
    }
}

} // verus!
