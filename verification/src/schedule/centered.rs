//! The centered schedule: the iterations of each channel form one block
//! around the middle of the tick.
use vstd::prelude::*;

use crate::schedule::{
    lemma_zip_channels, zip_channels, GbpSchedule, GbpScheduleAtIteration, GbpScheduleIterator,
    GbpScheduleParams,
};

pub mod private;

verus! {

/// The policy that centers each channel's iterations in the tick.
pub struct Centered;

/// The centered schedule for `params`.
pub open spec fn centered_entries(params: GbpScheduleParams) -> Seq<GbpScheduleAtIteration> {
    zip_channels(
        private::centered_channel(params.internal as nat, params.spec_max()),
        private::centered_channel(params.external as nat, params.spec_max()),
    )
}

/// Walks a centered schedule.
pub struct CenteredIter {
    internal: private::CenteredIter,
    external: private::CenteredIter,
}

impl CenteredIter {
    /// Starts the centered schedule for `config`.
    pub fn new(config: GbpScheduleParams) -> (iter: Self)
        ensures
            iter.remaining() == centered_entries(config),
    {
        let max = config.max();
        let internal = private::CenteredIter::new(config.internal, max);
        let external = private::CenteredIter::new(config.external, max);
        Self { internal, external }
    }
}

impl GbpScheduleIterator for CenteredIter {
    closed spec fn remaining(&self) -> Seq<GbpScheduleAtIteration> {
        zip_channels(self.internal.remaining(), self.external.remaining())
    }

    fn next(&mut self) -> (item: Option<GbpScheduleAtIteration>) {
        let ghost internal_before = self.internal.remaining();
        let ghost external_before = self.external.remaining();
        match self.internal.next() {
            Some(internal) => match self.external.next() {
                Some(external) => {
                    assert(zip_channels(internal_before, external_before).drop_first()
                        =~= zip_channels(
                        internal_before.drop_first(),
                        external_before.drop_first(),
                    ));
                    Some(GbpScheduleAtIteration { internal, external })
                },
                None => {
                    assert(zip_channels(internal_before.drop_first(), external_before)
                        =~= zip_channels(internal_before, external_before));
                    None
                },
            },
            None => None,
        }
    }
}

impl GbpSchedule for Centered {
    type Iter = CenteredIter;

    open spec fn entries(params: GbpScheduleParams) -> Seq<GbpScheduleAtIteration> {
        centered_entries(params)
    }

    fn schedule(config: GbpScheduleParams) -> (iter: CenteredIter) {
        CenteredIter::new(config)
    }

    proof fn lemma_length(params: GbpScheduleParams) {
    }

    proof fn lemma_cardinality(params: GbpScheduleParams) {
        let max = params.spec_max();
        private::lemma_centered_count(params.internal as nat, max);
        private::lemma_centered_count(params.external as nat, max);
        lemma_zip_channels(
            private::centered_channel(params.internal as nat, max),
            private::centered_channel(params.external as nat, max),
        );
    }
}

} // verus!
