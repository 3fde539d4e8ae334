use strobetune::detector::{first_dip, keep_recent, Observation, StringDetector};

#[test]
fn commits_after_holding_and_ignores_silence() {
    let mut d = StringDetector::new();
    assert_eq!(d.current(), None);
    for _ in 0..4 {
        d.process(Observation::Match(2));
        assert_eq!(d.current(), None);
    }
    d.process(Observation::Match(2));
    assert_eq!(d.current(), Some(2));
    d.process(Observation::Silent);
    d.process(Observation::NoMatch);
    d.process(Observation::Warming);
    assert_eq!(d.current(), Some(2));
}

#[test]
fn interrupted_candidate_starts_over() {
    let mut d = StringDetector::new();
    for _ in 0..4 {
        d.process(Observation::Match(1));
    }
    d.process(Observation::Silent);
    for _ in 0..4 {
        d.process(Observation::Match(1));
    }
    assert_eq!(d.current(), None);
    d.process(Observation::Match(1));
    assert_eq!(d.current(), Some(1));
}

#[test]
fn switching_strings_takes_longer_than_the_first_lock() {
    let mut d = StringDetector::new();
    for _ in 0..5 {
        d.process(Observation::Match(1));
    }
    assert_eq!(d.current(), Some(1));
    for _ in 0..16 {
        d.process(Observation::Match(5));
        assert_eq!(d.current(), Some(1));
    }
    d.process(Observation::Match(5));
    assert_eq!(d.current(), Some(5));
    // A brief reading of another string does not yank the selection away.
    for _ in 0..10 {
        d.process(Observation::Match(0));
    }
    d.process(Observation::NoMatch);
    for _ in 0..10 {
        d.process(Observation::Match(0));
    }
    assert_eq!(d.current(), Some(5));
}

#[test]
fn warming_keeps_pending_candidate() {
    let mut d = StringDetector::new();
    for _ in 0..3 {
        d.process(Observation::Match(4));
    }
    d.process(Observation::Warming);
    d.process(Observation::Match(4));
    d.process(Observation::Match(4));
    assert_eq!(d.current(), Some(4));
}

#[test]
fn window_keeps_the_most_recent() {
    let mut buf: Vec<i32> = vec![1, 2, 3];
    keep_recent(&mut buf, &[4, 5], 4);
    assert_eq!(buf, vec![2, 3, 4, 5]);
    keep_recent(&mut buf, &[6, 7, 8, 9, 10], 4);
    assert_eq!(buf, vec![7, 8, 9, 10]);
    keep_recent(&mut buf, &[], 2);
    assert_eq!(buf, vec![9, 10]);
    let mut small: Vec<f32> = Vec::new();
    keep_recent(&mut small, &[0.5, 0.25], 8);
    assert_eq!(small, vec![0.5, 0.25]);
}

#[test]
fn window_in_batches_equals_at_once() {
    let data: Vec<u16> = (0..100).collect();
    let mut a = Vec::new();
    for chunk in data.chunks(7) {
        keep_recent(&mut a, chunk, 30);
    }
    let mut b = Vec::new();
    keep_recent(&mut b, &data, 30);
    assert_eq!(a, b);
    assert_eq!(a, (70..100).collect::<Vec<u16>>());
}

#[test]
fn dip_is_first_below_then_descended() {
    //           0      1      2      3      4      5      6      7
    let below = [false, false, false, true, true, true, false, true];
    let falling = [false, false, true, true, true, false, false];
    assert_eq!(first_dip(&below, &falling, 2, 7), Some(5));
    assert_eq!(first_dip(&below, &falling, 6, 7), Some(7));
    assert_eq!(first_dip(&below, &falling, 0, 2), None);
    // The descent stops at the upper end of the range.
    assert_eq!(first_dip(&below, &falling, 2, 4), Some(4));
}
