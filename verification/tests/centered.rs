use magics::schedule::{
    Centered, GbpSchedule, GbpScheduleAtIteration, GbpScheduleIterator, GbpScheduleParams,
};

fn ts(internal: bool, external: bool) -> GbpScheduleAtIteration {
    GbpScheduleAtIteration { internal, external }
}

#[test]
fn internal_greater_than_external() {
    let config = GbpScheduleParams {
        internal: 10,
        external: 5,
    };
    let mut schedule = Centered::schedule(config);
    assert_eq!(schedule.next(), Some(ts(true, false)));
    assert_eq!(schedule.next(), Some(ts(true, false)));
    assert_eq!(schedule.next(), Some(ts(true, false)));
    assert_eq!(schedule.next(), Some(ts(true, true)));
    assert_eq!(schedule.next(), Some(ts(true, true)));
    assert_eq!(schedule.next(), Some(ts(true, true)));
    assert_eq!(schedule.next(), Some(ts(true, true)));
    assert_eq!(schedule.next(), Some(ts(true, true)));
    assert_eq!(schedule.next(), Some(ts(true, false)));
    assert_eq!(schedule.next(), Some(ts(true, false)));

    assert_eq!(schedule.next(), None);
}

#[test]
fn internal_less_than_external() {
    let config = GbpScheduleParams {
        internal: 4,
        external: 6,
    };
    let mut schedule = Centered::schedule(config);
    assert_eq!(schedule.next(), Some(ts(false, true)));
    assert_eq!(schedule.next(), Some(ts(true, true)));
    assert_eq!(schedule.next(), Some(ts(true, true)));

    assert_eq!(schedule.next(), Some(ts(true, true)));
    assert_eq!(schedule.next(), Some(ts(true, true)));
    assert_eq!(schedule.next(), Some(ts(false, true)));

    assert_eq!(schedule.next(), None);
}

#[test]
fn internal_external_even() {
    let config = GbpScheduleParams {
        internal: 3,
        external: 3,
    };
    let mut schedule = Centered::schedule(config);
    assert_eq!(schedule.next(), Some(ts(true, true)));
    assert_eq!(schedule.next(), Some(ts(true, true)));
    assert_eq!(schedule.next(), Some(ts(true, true)));
    assert_eq!(schedule.next(), None);
}

#[test]
fn both_zero() {
    let config = GbpScheduleParams {
        internal: 0,
        external: 0,
    };
    let mut schedule = Centered::schedule(config);
    assert_eq!(schedule.next(), None);
}

#[test]
fn internal_zero_external_not() {
    let config = GbpScheduleParams {
        internal: 0,
        external: 1,
    };
    let mut schedule = Centered::schedule(config);
    assert_eq!(schedule.next(), Some(ts(false, true)));
    assert_eq!(schedule.next(), None);

    let config = GbpScheduleParams {
        internal: 0,
        external: 2,
    };
    let mut schedule = Centered::schedule(config);
    assert_eq!(schedule.next(), Some(ts(false, true)));
    assert_eq!(schedule.next(), Some(ts(false, true)));
    assert_eq!(schedule.next(), None);

    let config = GbpScheduleParams {
        internal: 0,
        external: 3,
    };
    let mut schedule = Centered::schedule(config);
    assert_eq!(schedule.next(), Some(ts(false, true)));
    assert_eq!(schedule.next(), Some(ts(false, true)));
    assert_eq!(schedule.next(), Some(ts(false, true)));
    assert_eq!(schedule.next(), None);
}

#[test]
fn external_zero_internal_not() {
    let config = GbpScheduleParams {
        internal: 1,
        external: 0,
    };
    let mut schedule = Centered::schedule(config);
    assert_eq!(schedule.next(), Some(ts(true, false)));
    assert_eq!(schedule.next(), None);

    let config = GbpScheduleParams {
        internal: 2,
        external: 0,
    };
    let mut schedule = Centered::schedule(config);
    assert_eq!(schedule.next(), Some(ts(true, false)));
    assert_eq!(schedule.next(), Some(ts(true, false)));
    assert_eq!(schedule.next(), None);

    let config = GbpScheduleParams {
        internal: 3,
        external: 0,
    };
    let mut schedule = Centered::schedule(config);
    assert_eq!(schedule.next(), Some(ts(true, false)));
    assert_eq!(schedule.next(), Some(ts(true, false)));
    assert_eq!(schedule.next(), Some(ts(true, false)));
    assert_eq!(schedule.next(), None);
}

#[test]
fn both_one() {
    let config = GbpScheduleParams {
        internal: 1,
        external: 1,
    };
    let mut schedule = Centered::schedule(config);
    assert_eq!(schedule.next(), Some(ts(true, true)));
    assert_eq!(schedule.next(), None);
}

#[test]
fn edge_cases() {
    let config = GbpScheduleParams {
        internal: 1,
        external: 2,
    };
    let mut schedule = Centered::schedule(config);
    assert_eq!(schedule.next(), Some(ts(false, true)));
    assert_eq!(schedule.next(), Some(ts(true, true)));
    assert_eq!(schedule.next(), None);

    let config = GbpScheduleParams {
        internal: 3,
        external: 2,
    };
    let mut schedule = Centered::schedule(config);
    assert_eq!(schedule.next(), Some(ts(true, true)));
    assert_eq!(schedule.next(), Some(ts(true, true)));
    assert_eq!(schedule.next(), Some(ts(true, false)));
    assert_eq!(schedule.next(), None);

    let config = GbpScheduleParams {
        internal: 2,
        external: 5,
    };
    let mut schedule = Centered::schedule(config);
    assert_eq!(schedule.next(), Some(ts(false, true)));
    assert_eq!(schedule.next(), Some(ts(true, true)));
    assert_eq!(schedule.next(), Some(ts(true, true)));
    assert_eq!(schedule.next(), Some(ts(false, true)));
    assert_eq!(schedule.next(), Some(ts(false, true)));
    assert_eq!(schedule.next(), None);
}
