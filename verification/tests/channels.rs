use magics::schedule::centered::private::CenteredIter;

#[test]
fn channel_walks_its_positions() {
    let mut channel = CenteredIter::new(2, 5);
    assert_eq!(channel.len(), 5);
    let mut seen = Vec::new();
    while let Some(on) = channel.next() {
        seen.push(on);
    }
    assert_eq!(seen, vec![false, true, true, false, false]);
    assert_eq!(channel.next(), None);
    assert_eq!(channel.len(), 5);
}

#[test]
fn channel_with_nothing_to_place_in_one_position() {
    let mut channel = CenteredIter::new(0, 1);
    assert_eq!(channel.next(), Some(false));
    assert_eq!(channel.next(), None);
}

#[test]
fn channel_without_positions() {
    let mut channel = CenteredIter::new(0, 0);
    assert_eq!(channel.len(), 0);
    assert_eq!(channel.next(), None);
}

#[test]
fn full_channel_of_the_largest_size() {
    let mut channel = CenteredIter::new(255, 255);
    let mut count = 0;
    while let Some(on) = channel.next() {
        assert!(on);
        count += 1;
    }
    assert_eq!(count, 255);
}
