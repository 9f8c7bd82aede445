use subtrim::time::{TimeOffset, TimePoint, TimeSpan};

#[test]
fn zero_is_the_origin() {
    assert_eq!(TimePoint::zero().msecs(), 0);
    assert!(!TimePoint::zero().is_negative());
}

#[test]
fn components_add_up_to_milliseconds() {
    assert_eq!(TimePoint::from_components(5, 500), Some(TimePoint::from_msecs(5500)));
    assert_eq!(TimePoint::from_components(0, 0), Some(TimePoint::from_msecs(0)));
    assert_eq!(TimePoint::from_components(11, 999), Some(TimePoint::from_msecs(11_999)));
    assert_eq!(TimeOffset::from_components(2, 250), Some(TimeOffset::from_msecs(2250)));
}

#[test]
fn components_may_be_negative_or_exceed_a_second() {
    assert_eq!(TimePoint::from_components(3, -2000), Some(TimePoint::from_msecs(1000)));
    assert_eq!(TimePoint::from_components(-1, -500), Some(TimePoint::from_msecs(-1500)));
    assert_eq!(TimeOffset::from_components(0, 61_000), Some(TimeOffset::from_msecs(61_000)));
}

#[test]
fn components_beyond_the_range_give_none() {
    assert_eq!(TimePoint::from_components(i64::MAX, 0), None);
    assert_eq!(TimePoint::from_components(i64::MIN, 0), None);
    assert_eq!(TimeOffset::from_components(i64::MAX / 1000 + 1, 0), None);
    let top = i64::MAX / 1000;
    assert_eq!(
        TimePoint::from_components(top, i64::MAX % 1000),
        Some(TimePoint::from_msecs(i64::MAX))
    );
    assert_eq!(TimePoint::from_components(top, i64::MAX % 1000 + 1), None);
}

#[test]
fn negative_means_before_zero() {
    assert!(TimePoint::from_msecs(-1).is_negative());
    assert!(!TimePoint::from_msecs(0).is_negative());
    assert!(!TimePoint::from_msecs(1).is_negative());
    assert!(TimeOffset::from_msecs(-1).is_negative());
    assert!(!TimeOffset::from_msecs(0).is_negative());
}

#[test]
fn instants_compare_by_their_milliseconds() {
    let a = TimePoint::from_msecs(10);
    let b = TimePoint::from_msecs(11);
    assert!(a.is_before(&b));
    assert!(!b.is_before(&a));
    assert!(!a.is_before(&a));
    assert_eq!(a, TimePoint::from_msecs(10));
    assert_ne!(a, b);
}

#[test]
fn rebasing_counts_from_the_new_origin() {
    let t = TimePoint::from_msecs(6000);
    assert_eq!(t.rebased(&TimeOffset::from_msecs(5000)), 1000);
    assert_eq!(t.rebased(&TimeOffset::from_msecs(7000)), -1000);
    assert_eq!(t.rebased(&TimeOffset::from_msecs(-500)), 6500);
}

#[test]
fn rebasing_never_wraps() {
    let low = TimePoint::from_msecs(i64::MIN);
    let high = TimePoint::from_msecs(i64::MAX);
    assert_eq!(
        low.rebased(&TimeOffset::from_msecs(i64::MAX)),
        i64::MIN as i128 - i64::MAX as i128
    );
    assert_eq!(
        high.rebased(&TimeOffset::from_msecs(i64::MIN)),
        i64::MAX as i128 - i64::MIN as i128
    );
}

#[test]
fn checked_sub_moves_an_instant_back() {
    let t = TimePoint::from_msecs(6000);
    assert_eq!(t.checked_sub(&TimeOffset::from_msecs(5000)), Some(TimePoint::from_msecs(1000)));
    assert_eq!(t.checked_sub(&TimeOffset::from_msecs(7000)), Some(TimePoint::from_msecs(-1000)));
    assert_eq!(t.checked_sub(&TimeOffset::from_msecs(-1)), Some(TimePoint::from_msecs(6001)));
}

#[test]
fn checked_sub_gives_none_beyond_the_range() {
    let low = TimePoint::from_msecs(i64::MIN);
    assert_eq!(low.checked_sub(&TimeOffset::from_msecs(1)), None);
    assert_eq!(low.checked_sub(&TimeOffset::from_msecs(0)), Some(low));
    let high = TimePoint::from_msecs(i64::MAX);
    assert_eq!(high.checked_sub(&TimeOffset::from_msecs(-1)), None);
}

#[test]
fn a_span_keeps_its_ends() {
    let s = TimeSpan::new(TimePoint::from_msecs(2000), TimePoint::from_msecs(4000));
    assert_eq!(s.start.msecs(), 2000);
    assert_eq!(s.end.msecs(), 4000);
    assert!(s.is_well_formed());
}

#[test]
fn a_span_may_be_empty_or_inverted() {
    let empty = TimeSpan::new(TimePoint::from_msecs(7), TimePoint::from_msecs(7));
    assert!(empty.is_well_formed());
    let inverted = TimeSpan::new(TimePoint::from_msecs(8), TimePoint::from_msecs(7));
    assert!(!inverted.is_well_formed());
    assert_eq!(inverted.start.msecs(), 8);
    assert_eq!(inverted.end.msecs(), 7);
}
