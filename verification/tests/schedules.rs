use magics::schedule::{
    collect, Centered, GbpSchedule, GbpScheduleAtIteration, GbpScheduleIterator, GbpScheduleParams,
    HalfBeginningHalfEnd, InterleaveEvenly, LateAsPossible, SoonAsPossible,
};

fn ts(internal: bool, external: bool) -> GbpScheduleAtIteration {
    GbpScheduleAtIteration { internal, external }
}

fn entries<S: GbpSchedule>(internal: u8, external: u8) -> Vec<GbpScheduleAtIteration> {
    let mut schedule = S::schedule(GbpScheduleParams { internal, external });
    let all = collect(&mut schedule);
    assert_eq!(schedule.next(), None);
    all
}

fn pattern(entries: &[GbpScheduleAtIteration]) -> (String, String) {
    let internal = entries
        .iter()
        .map(|e| if e.internal { 'x' } else { '.' })
        .collect();
    let external = entries
        .iter()
        .map(|e| if e.external { 'x' } else { '.' })
        .collect();
    (internal, external)
}

fn check_counts<S: GbpSchedule>() {
    for internal in 0..=255u8 {
        for external in [0u8, 1, 2, 3, 7, 10, 100, 128, 254, 255] {
            let all = entries::<S>(internal, external);
            assert_eq!(all.len(), internal.max(external) as usize);
            assert_eq!(
                all.iter().filter(|e| e.internal).count(),
                internal as usize
            );
            assert_eq!(
                all.iter().filter(|e| e.external).count(),
                external as usize
            );
        }
    }
}

#[test]
fn params_max_is_the_larger_count() {
    assert_eq!(GbpScheduleParams { internal: 3, external: 7 }.max(), 7);
    assert_eq!(GbpScheduleParams { internal: 9, external: 2 }.max(), 9);
    assert_eq!(GbpScheduleParams { internal: 4, external: 4 }.max(), 4);
    assert_eq!(GbpScheduleParams { internal: 0, external: 0 }.max(), 0);
}

#[test]
fn default_entry_runs_nothing() {
    assert_eq!(GbpScheduleAtIteration::default(), ts(false, false));
}

#[test]
fn centered_ten_five() {
    let all = entries::<Centered>(10, 5);
    assert_eq!(
        all,
        vec![
            ts(true, false),
            ts(true, false),
            ts(true, false),
            ts(true, true),
            ts(true, true),
            ts(true, true),
            ts(true, true),
            ts(true, true),
            ts(true, false),
            ts(true, false),
        ]
    );
}

#[test]
fn centered_four_six() {
    let all = entries::<Centered>(4, 6);
    assert_eq!(
        all,
        vec![
            ts(false, true),
            ts(true, true),
            ts(true, true),
            ts(true, true),
            ts(true, true),
            ts(false, true),
        ]
    );
}

#[test]
fn every_policy_is_empty_for_zero_counts() {
    assert!(entries::<Centered>(0, 0).is_empty());
    assert!(entries::<SoonAsPossible>(0, 0).is_empty());
    assert!(entries::<LateAsPossible>(0, 0).is_empty());
    assert!(entries::<HalfBeginningHalfEnd>(0, 0).is_empty());
    assert!(entries::<InterleaveEvenly>(0, 0).is_empty());
}

#[test]
fn every_policy_is_all_on_where_the_counts_agree() {
    assert_eq!(pattern(&entries::<Centered>(4, 4)).0, "xxxx");
    assert_eq!(pattern(&entries::<SoonAsPossible>(4, 4)).0, "xxxx");
    assert_eq!(pattern(&entries::<LateAsPossible>(4, 4)).0, "xxxx");
    assert_eq!(pattern(&entries::<HalfBeginningHalfEnd>(4, 4)).0, "xxxx");
    assert_eq!(pattern(&entries::<InterleaveEvenly>(4, 4)).0, "xxxx");
}

#[test]
fn centered_counts_and_length() {
    check_counts::<Centered>();
}

#[test]
fn soon_as_possible_counts_and_length() {
    check_counts::<SoonAsPossible>();
}

#[test]
fn late_as_possible_counts_and_length() {
    check_counts::<LateAsPossible>();
}

#[test]
fn half_beginning_half_end_counts_and_length() {
    check_counts::<HalfBeginningHalfEnd>();
}

#[test]
fn interleave_evenly_counts_and_length() {
    check_counts::<InterleaveEvenly>();
}

#[test]
fn soon_as_possible_fills_the_first_positions() {
    let (internal, external) = pattern(&entries::<SoonAsPossible>(10, 4));
    assert_eq!(internal, "xxxxxxxxxx");
    assert_eq!(external, "xxxx......");
    let (internal, external) = pattern(&entries::<SoonAsPossible>(1, 3));
    assert_eq!(internal, "x..");
    assert_eq!(external, "xxx");
}

#[test]
fn late_as_possible_fills_the_last_positions() {
    let (internal, external) = pattern(&entries::<LateAsPossible>(10, 4));
    assert_eq!(internal, "xxxxxxxxxx");
    assert_eq!(external, "......xxxx");
    let (internal, external) = pattern(&entries::<LateAsPossible>(0, 3));
    assert_eq!(internal, "...");
    assert_eq!(external, "xxx");
}

#[test]
fn half_beginning_half_end_splits_in_two() {
    let (internal, external) = pattern(&entries::<HalfBeginningHalfEnd>(10, 4));
    assert_eq!(internal, "xxxxxxxxxx");
    assert_eq!(external, "xx......xx");
    let (_, external) = pattern(&entries::<HalfBeginningHalfEnd>(10, 5));
    assert_eq!(external, "xxx.....xx");
    let (_, external) = pattern(&entries::<HalfBeginningHalfEnd>(10, 1));
    assert_eq!(external, "x.........");
}

#[test]
fn interleave_evenly_spreads_over_the_positions() {
    let (internal, external) = pattern(&entries::<InterleaveEvenly>(10, 5));
    assert_eq!(internal, "xxxxxxxxxx");
    assert_eq!(external, ".x.x.x.x.x");
    let (_, external) = pattern(&entries::<InterleaveEvenly>(10, 3));
    assert_eq!(external, "...x..x..x");
    let (_, external) = pattern(&entries::<InterleaveEvenly>(4, 2));
    assert_eq!(external, ".x.x");
    let (_, external) = pattern(&entries::<InterleaveEvenly>(255, 254));
    assert_eq!(external.matches('x').count(), 254);
    assert!(external.starts_with('.'));
}

#[test]
fn collect_takes_what_is_left() {
    let mut schedule = Centered::schedule(GbpScheduleParams {
        internal: 3,
        external: 1,
    });
    assert_eq!(schedule.next(), Some(ts(true, false)));
    assert_eq!(collect(&mut schedule), vec![ts(true, true), ts(true, false)]);
    assert_eq!(collect(&mut schedule), vec![]);
}
