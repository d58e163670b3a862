use sliding_features::echo::Echo;
use sliding_features::sliding_window::View;

#[test]
fn echo_shows_zero_before_first_sample() {
    let e = Echo::new();
    assert_eq!(e.last(), 0);
}

#[test]
fn echo_repeats_latest_sample() {
    let mut e = Echo::new();
    e.update(5);
    assert_eq!(e.last(), 5);
    assert_eq!(e.last(), 5);
    e.update(-7);
    assert_eq!(e.last(), -7);
    e.update(i64::MAX);
    assert_eq!(e.last(), i64::MAX);
    e.update(i64::MIN);
    assert_eq!(e.last(), i64::MIN);
}

#[test]
fn echo_duplicate_is_independent() {
    let mut a = Echo::new();
    a.update(3);
    let mut b = a.duplicate();
    assert_eq!(b.last(), 3);
    a.update(9);
    assert_eq!(a.last(), 9);
    assert_eq!(b.last(), 3);
    b.update(-2);
    assert_eq!(a.last(), 9);
    assert_eq!(b.last(), -2);
}

#[test]
fn echo_clone_is_independent() {
    let mut a = Echo::new();
    a.update(11);
    let b = a.clone();
    a.update(12);
    assert_eq!(a.last(), 12);
    assert_eq!(b.last(), 11);
}
