use std::collections::VecDeque;

use sliding_features::echo::Echo;
use sliding_features::error::ConfigError;
use sliding_features::normalizer::{extent_queue, Normalizer, UNIT};
use sliding_features::sliding_window::View;

/// A seeded random walk that starts at `start` and moves by roughly normal
/// steps.
fn gen(n: usize, start: f64) -> Vec<f64> {
    let mut state: u64 = 0x2545_F491_4F6C_DD1D;
    let mut uniform = move || {
        state = state.wrapping_mul(6364136223846793005).wrapping_add(1442695040888963407);
        ((state >> 11) as f64 + 1.0) / ((1u64 << 53) as f64 + 2.0)
    };
    let mut out = Vec::with_capacity(n);
    let mut level = start;
    for _ in 0..n {
        let r = (-2.0 * uniform().ln()).sqrt();
        let step = r * (2.0 * std::f64::consts::PI * uniform()).cos();
        level += step;
        out.push(level);
    }
    out
}

fn to_fixed(x: f64) -> i64 {
    (x * UNIT as f64).round() as i64
}

/// Small seeded integers, with many ties.
fn small_ints(n: usize, seed: u64, spread: u64) -> Vec<i64> {
    let mut state = seed;
    let mut out = Vec::with_capacity(n);
    for _ in 0..n {
        state = state.wrapping_mul(6364136223846793005).wrapping_add(1442695040888963407);
        out.push(((state >> 33) % spread) as i64 - (spread / 2) as i64);
    }
    out
}

fn expected_output(window: &[i64]) -> i64 {
    let lo = *window.iter().min().unwrap() as i128;
    let hi = *window.iter().max().unwrap() as i128;
    let last = *window.last().unwrap() as i128;
    if lo == hi {
        0
    } else {
        (2 * UNIT as i128 * (last - lo)).div_euclid(hi - lo) as i64 - UNIT
    }
}

fn make(window_len: usize) -> Normalizer<Echo> {
    match Normalizer::new(Echo::new(), window_len) {
        Ok(n) => n,
        Err(e) => panic!("window of {} refused: {:?}", window_len, e),
    }
}

#[test]
fn normalizer() {
    let vals = gen(1024, 100.0);
    let mut n = make(16);
    for i in 0..vals.len() {
        n.update(to_fixed(vals[i]));
        let last = n.last();
        assert!(last <= UNIT);
        assert!(last >= -UNIT);
    }
}

#[test]
fn zero_window_is_refused() {
    assert_eq!(Normalizer::new(Echo::new(), 0).err(), Some(ConfigError::ZeroWindow));
    assert!(Normalizer::new(Echo::new(), 1).is_ok());
}

#[test]
fn fresh_normalizer_shows_zero() {
    let n = make(4);
    assert_eq!(n.last(), 0);
    assert!(!n.initialized());
    assert_eq!(n.running_min(), 0);
    assert_eq!(n.running_max(), 0);
    assert_eq!(n.last_raw(), 0);
    assert_eq!(n.window_len(), 4);
    assert_eq!(n.window(), Vec::<i64>::new());
}

#[test]
fn first_sample_seeds_the_extent() {
    let mut n = make(4);
    n.update(-42);
    assert!(n.initialized());
    assert_eq!(n.running_min(), -42);
    assert_eq!(n.running_max(), -42);
    assert_eq!(n.last_raw(), -42);
    assert_eq!(n.window(), vec![-42]);
    assert_eq!(n.last(), 0);
}

#[test]
fn window_of_three_over_identity() {
    let mut n = make(3);
    n.update(1);
    assert_eq!(n.window(), vec![1]);
    assert_eq!(n.last(), 0);
    n.update(5);
    assert_eq!(n.window(), vec![1, 5]);
    assert_eq!(n.last(), UNIT);
    n.update(2);
    assert_eq!(n.window(), vec![1, 5, 2]);
    assert_eq!(n.last(), -500_000_000);
    n.update(8);
    assert_eq!(n.window(), vec![5, 2, 8]);
    assert_eq!(n.running_min(), 2);
    assert_eq!(n.running_max(), 8);
    assert_eq!(n.last(), 1_000_000_000);
    n.update(3);
    assert_eq!(n.window(), vec![2, 8, 3]);
    assert_eq!(n.running_min(), 2);
    assert_eq!(n.running_max(), 8);
    assert_eq!(n.last(), -666_666_667);
}

#[test]
fn evicted_extremum_is_forgotten() {
    let mut n = make(2);
    n.update(10);
    n.update(0);
    assert_eq!((n.running_min(), n.running_max()), (0, 10));
    n.update(4);
    // 10 has left the window
    assert_eq!(n.window(), vec![0, 4]);
    assert_eq!((n.running_min(), n.running_max()), (0, 4));
    assert_eq!(n.last(), UNIT);
    n.update(1);
    // 0 has left the window
    assert_eq!(n.window(), vec![4, 1]);
    assert_eq!((n.running_min(), n.running_max()), (1, 4));
    assert_eq!(n.last(), -UNIT);
}

#[test]
fn rescaling_rounds_down() {
    let mut n = make(3);
    n.update(-1);
    n.update(2);
    n.update(0);
    // -1 + 2 * 1 / 3
    assert_eq!(n.last(), -333_333_334);
    let mut m = make(3);
    m.update(0);
    m.update(3);
    m.update(2);
    // -1 + 2 * 2 / 3
    assert_eq!(m.last(), 333_333_333);
    let mut h = make(3);
    h.update(0);
    h.update(2);
    h.update(1);
    assert_eq!(h.last(), 0);
}

#[test]
fn extent_ends_map_to_unit_ends() {
    let mut n = make(3);
    n.update(7);
    n.update(-7);
    assert_eq!(n.last(), -UNIT);
    n.update(7);
    assert_eq!(n.last(), UNIT);
}

#[test]
fn widest_samples_do_not_overflow() {
    let mut n = make(3);
    n.update(i64::MIN);
    assert_eq!(n.last(), 0);
    n.update(i64::MAX);
    assert_eq!(n.last(), UNIT);
    n.update(0);
    assert_eq!(n.last(), 0);
    let mut m = make(3);
    m.update(i64::MIN);
    m.update(i64::MAX);
    m.update(-1);
    assert_eq!(m.last(), -1);
    m.update(i64::MIN);
    assert_eq!(m.window(), vec![i64::MAX, -1, i64::MIN]);
    assert_eq!(m.last(), -UNIT);
}

#[test]
fn constant_input_rescales_to_zero() {
    for window_len in [1usize, 2, 5, 16] {
        let mut n = make(window_len);
        for _ in 0..3 * window_len {
            n.update(1234);
            assert_eq!(n.last(), 0);
        }
    }
}

#[test]
fn constant_input_after_noise_rescales_to_zero_once_window_is_full() {
    let mut n = make(4);
    for v in [9, -3, 14, 2, 2, 2] {
        n.update(v);
    }
    assert_ne!(n.last(), 0);
    n.update(2);
    assert_eq!(n.window(), vec![2, 2, 2, 2]);
    assert_eq!(n.last(), 0);
    n.update(2);
    assert_eq!(n.last(), 0);
}

#[test]
fn window_of_one_is_always_flat() {
    let mut n = make(1);
    for v in small_ints(40, 7, 1000) {
        n.update(v);
        assert_eq!(n.window(), vec![v]);
        assert_eq!(n.running_min(), v);
        assert_eq!(n.running_max(), v);
        assert_eq!(n.last(), 0);
    }
}

#[test]
fn extent_matches_brute_force() {
    for (window_len, spread) in [(1usize, 5u64), (2, 3), (3, 7), (5, 4), (16, 50), (16, 1 << 40)] {
        let samples = small_ints(12 * window_len + 7, 99 + window_len as u64, spread);
        let mut n = make(window_len);
        let mut shadow: Vec<i64> = Vec::new();
        for (step, v) in samples.iter().enumerate() {
            n.update(*v);
            shadow.push(*v);
            if shadow.len() > window_len {
                shadow.remove(0);
            }
            assert_eq!(shadow.len(), (step + 1).min(window_len));
            assert_eq!(n.window(), shadow);
            assert_eq!(n.running_min(), *shadow.iter().min().unwrap());
            assert_eq!(n.running_max(), *shadow.iter().max().unwrap());
            assert_eq!(n.last_raw(), *v);
            assert_eq!(n.last(), expected_output(&shadow));
            assert!(-UNIT <= n.last() && n.last() <= UNIT);
        }
    }
}

#[test]
fn monotone_drift_is_tracked() {
    let mut up = make(4);
    let mut down = make(4);
    for i in 0..50i64 {
        up.update(i * 3);
        down.update(-i * 3);
        if i > 0 {
            assert_eq!(up.last(), UNIT);
            assert_eq!(down.last(), -UNIT);
        }
        if i >= 3 {
            assert_eq!((up.running_min(), up.running_max()), ((i - 3) * 3, i * 3));
            assert_eq!((down.running_min(), down.running_max()), (-i * 3, -(i - 3) * 3));
        }
    }
}

#[test]
fn duplicates_stay_in_step() {
    let samples = small_ints(200, 5, 1000);
    let mut a = make(8);
    for v in &samples[..50] {
        a.update(*v);
    }
    let mut b = a.duplicate();
    let mut c = a.clone();
    assert_eq!(b.window(), a.window());
    for v in &samples[50..] {
        a.update(*v);
        b.update(*v);
        c.update(*v);
        assert_eq!(a.last(), b.last());
        assert_eq!(a.last(), c.last());
        assert_eq!(a.running_min(), b.running_min());
        assert_eq!(a.running_max(), b.running_max());
    }
}

#[test]
fn duplicate_shares_no_state() {
    let mut a = make(3);
    a.update(1);
    a.update(5);
    let mut b = a.duplicate();
    b.update(100);
    assert_eq!(a.window(), vec![1, 5]);
    assert_eq!(a.last(), UNIT);
    assert_eq!(b.window(), vec![1, 5, 100]);
    a.update(3);
    assert_eq!(a.last(), 0);
    assert_eq!(b.window(), vec![1, 5, 100]);
}

#[test]
fn normalizer_wraps_normalizer() {
    let inner = make(3);
    let mut outer = match Normalizer::new(inner, 2) {
        Ok(n) => n,
        Err(_) => panic!("window of 2 refused"),
    };
    // inner outputs: 0, UNIT, -UNIT / 2, UNIT, -666_666_667
    let expected = [0, UNIT, -UNIT, UNIT, -UNIT];
    let raw = [0, UNIT, -500_000_000, UNIT, -666_666_667];
    for (i, v) in [1i64, 5, 2, 8, 3].iter().enumerate() {
        outer.update(*v);
        assert_eq!(outer.last_raw(), raw[i]);
        assert_eq!(outer.last(), expected[i]);
    }
}

#[test]
fn inner_that_was_fed_before_wrapping() {
    let mut e = Echo::new();
    e.update(77);
    let mut n = match Normalizer::new(e, 3) {
        Ok(n) => n,
        Err(_) => panic!("window of 3 refused"),
    };
    assert_eq!(n.last(), 0);
    assert_eq!(n.window(), Vec::<i64>::new());
    n.update(1);
    n.update(3);
    assert_eq!(n.window(), vec![1, 3]);
    assert_eq!(n.last(), UNIT);
}

#[derive(Clone)]
struct Halver {
    out: i64,
}

impl View for Halver {
    fn update(&mut self, val: i64) {
        self.out = val / 2;
    }

    fn last(&self) -> i64 {
        self.out
    }

    fn duplicate(&self) -> Self {
        self.clone()
    }
}

#[test]
fn normalizer_around_an_outside_transform() {
    let mut n = match Normalizer::new(Halver { out: 0 }, 3) {
        Ok(n) => n,
        Err(_) => panic!("window of 3 refused"),
    };
    n.update(20);
    n.update(40);
    n.update(30);
    assert_eq!(n.window(), vec![10, 20, 15]);
    assert_eq!(n.last(), 0);
    n.update(36);
    assert_eq!(n.window(), vec![20, 15, 18]);
    assert_eq!(n.last(), -UNIT + 2 * UNIT * 3 / 5);
}

#[test]
fn extent_of_a_queue() {
    let q: VecDeque<i64> = VecDeque::from(vec![3, -1, 7, 7, 0]);
    assert_eq!(extent_queue(&q), (-1, 7));
    let one: VecDeque<i64> = VecDeque::from(vec![5]);
    assert_eq!(extent_queue(&one), (5, 5));
    let mut wrapped: VecDeque<i64> = VecDeque::with_capacity(4);
    for v in [1, 2, 3, 4] {
        wrapped.push_back(v);
    }
    wrapped.pop_front();
    wrapped.pop_front();
    wrapped.push_back(-9);
    wrapped.push_back(i64::MAX);
    assert_eq!(extent_queue(&wrapped), (-9, i64::MAX));
}
