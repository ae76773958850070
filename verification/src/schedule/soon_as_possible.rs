//! The soon-as-possible schedule: the iterations of each channel
//! fill the first positions of the tick.
use vstd::prelude::*;

use crate::schedule::{
    lemma_zip_channels, zip_channels, GbpSchedule, GbpScheduleAtIteration, GbpScheduleIterator,
    GbpScheduleParams,
};

pub mod private;

verus! {

/// The policy that places each channel's iterations
/// at the first positions.
pub struct SoonAsPossible;

/// The soon-as-possible schedule for `params`.
pub open spec fn soon_as_possible_entries(
    params: GbpScheduleParams,
) -> Seq<GbpScheduleAtIteration> {
    zip_channels(
        private::soon_as_possible_channel(params.internal as nat, params.spec_max()),
        private::soon_as_possible_channel(params.external as nat, params.spec_max()),
    )
}

/// Walks a soon-as-possible schedule.
pub struct SoonAsPossibleIter {
    internal: private::SoonAsPossibleIter,
    external: private::SoonAsPossibleIter,
}

impl SoonAsPossibleIter {
    /// Starts the soon-as-possible schedule for `config`.
    pub fn new(config: GbpScheduleParams) -> (iter: Self)
        ensures
            iter.remaining() == soon_as_possible_entries(config),
    {
        let max = config.max();
        let internal = private::SoonAsPossibleIter::new(config.internal, max);
        let external = private::SoonAsPossibleIter::new(config.external, max);
        Self { internal, external }
    }
}

impl GbpScheduleIterator for SoonAsPossibleIter {
    closed spec fn remaining(&self) -> Seq<GbpScheduleAtIteration> {
        zip_channels(self.internal.remaining(), self.external.remaining())
    }

    fn next(&mut self) -> (item: Option<GbpScheduleAtIteration>) {
        let ghost internal_before = self.internal.remaining();
        let ghost external_before = self.external.remaining();
        match self.internal.next() {
            Some(internal) => match self.external.next() {
                Some(external) => {
                    assert(zip_channels(internal_before, external_before).drop_first()
                        =~= zip_channels(
                        internal_before.drop_first(),
                        external_before.drop_first(),
                    ));
                    Some(GbpScheduleAtIteration { internal, external })
                },
                None => {
                    assert(zip_channels(internal_before.drop_first(), external_before)
                        =~= zip_channels(internal_before, external_before));
                    None
                },
            },
            None => None,
        }
    }
}

impl GbpSchedule for SoonAsPossible {
    type Iter = SoonAsPossibleIter;

    open spec fn entries(params: GbpScheduleParams) -> Seq<GbpScheduleAtIteration> {
        soon_as_possible_entries(params)
    }

    fn schedule(config: GbpScheduleParams) -> (iter: SoonAsPossibleIter) {
        SoonAsPossibleIter::new(config)
    }

    proof fn lemma_length(params: GbpScheduleParams) {
    }

    proof fn lemma_cardinality(params: GbpScheduleParams) {
        let max = params.spec_max();
        private::lemma_soon_as_possible_count(params.internal as nat, max);
        private::lemma_soon_as_possible_count(params.external as nat, max);
        lemma_zip_channels(
            private::soon_as_possible_channel(params.internal as nat, max),
            private::soon_as_possible_channel(params.external as nat, max),
        );
    }
}

} // verus!
