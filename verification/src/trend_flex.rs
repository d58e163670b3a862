use std::collections::VecDeque;
use vstd::prelude::*;
use crate::error::ConfigError;

verus! {

/// What one step of the smoothing recurrence reads of the past.
#[derive(Clone, Copy, Debug)]
pub struct Taps {
    /// The sample before this one; this one itself at the first step.
    pub prev_input: i64,
    /// The newest smoothed value, where there is one.
    pub filt1: Option<i64>,
    /// The smoothed value before the newest, where there is one.
    pub filt2: Option<i64>,
}

/// The smoothed values that stay when one more is added to `history`: all of
/// them, but for the oldest where there are more than `w`.
pub open spec fn retained_of(history: Seq<i64>, w: nat) -> Seq<i64> {
    if history.len() > w {
        history.drop_first()
    } else {
        history
    }
}

/// What one step reads of the past, given the smoothed values that stay.
pub open spec fn taps_of(kept: Seq<i64>, prev_input: i64) -> Taps {
    Taps {
        prev_input,
        filt1: if kept.len() >= 1 {
            Some(kept[kept.len() - 1])
        } else {
            None
        },
        filt2: if kept.len() >= 2 {
            Some(kept[kept.len() - 2])
        } else {
            None
        },
    }
}

/// The output for a history of `len` smoothed values and a window of `w`:
/// 0 until the history is full, which is at `w + 1` values, and 0 where the
/// mean square is not positive; else the standardized trend.
pub open spec fn gated(len: nat, w: nat, mean_square: i64, standardized: i64) -> i64 {
    if len < w + 1 {
        0
    } else if mean_square > 0 {
        standardized
    } else {
        0
    }
}

/// The memory and the warm-up rule of the trend-standardizing oscillator.
///
/// The oscillator smooths its input by a second-order recurrence, sums the
/// differences between the newest smoothed value and those it remembers, and
/// divides that trend by the root of its running mean square. This type keeps
/// what those steps remember and decides what they read and when the output
/// counts. The arithmetic is the caller's: each value is carried in an `i64`
/// cell whose sign is the sign of the number it stands for.
#[derive(Debug, Clone)]
pub struct TrendFlex {
    window_len: usize,
    last_val: i64,
    last_m: i64,
    q_filts: VecDeque<i64>,
    out: i64,
}

impl TrendFlex {
    /// The smoothed values remembered, oldest first.
    pub closed spec fn history(&self) -> Seq<i64> {
        self.q_filts@
    }

    /// What `window_len` returns.
    pub closed spec fn spec_window_len(&self) -> usize {
        self.window_len
    }

    /// What `last_input` returns.
    pub closed spec fn spec_last_input(&self) -> i64 {
        self.last_val
    }

    /// What `mean_square` returns.
    pub closed spec fn spec_mean_square(&self) -> i64 {
        self.last_m
    }

    /// What `last` returns.
    pub closed spec fn spec_last(&self) -> i64 {
        self.out
    }

    /// The history is bounded by the window, and the output is 0 until the
    /// history is full.
    pub open spec fn wf(&self) -> bool {
        &&& self.window_len() >= 1
        &&& self.history().len() <= self.window_len() + 1
        &&& self.history().len() < self.window_len() + 1 ==> self.last() == 0
    }

    /// The smoothed values that the next step keeps.
    pub open spec fn kept(&self) -> Seq<i64> {
        retained_of(self.history(), self.window_len() as nat)
    }

    /// An oscillator over a window of `window_len` samples, with nothing
    /// remembered.
    pub fn new(window_len: usize) -> (made: Result<TrendFlex, ConfigError>)
        ensures
            window_len == 0 <==> made is Err,
            made matches Ok(t) ==> {
                &&& t.wf()
                &&& t.window_len() == window_len
                &&& t.history() == Seq::<i64>::empty()
                &&& t.last_input() == 0
                &&& t.mean_square() == 0
                &&& t.last() == 0
            },
    {
        if window_len == 0 {
            return Err(ConfigError::ZeroWindow);
        }
        return Ok(
            TrendFlex { window_len, last_val: 0, last_m: 0, q_filts: VecDeque::new(), out: 0 },
        )
    }

    /// The length of the window.
    #[verifier::when_used_as_spec(spec_window_len)]
    pub fn window_len(&self) -> (w: usize)
        ensures
            w == self.spec_window_len(),
    {
        self.window_len
    }

    /// The sample recorded last; 0 before the first.
    #[verifier::when_used_as_spec(spec_last_input)]
    pub fn last_input(&self) -> (v: i64)
        ensures
            v == self.spec_last_input(),
    {
        self.last_val
    }

    /// The mean square recorded last; 0 before the first.
    #[verifier::when_used_as_spec(spec_mean_square)]
    pub fn mean_square(&self) -> (m: i64)
        ensures
            m == self.spec_mean_square(),
    {
        self.last_m
    }

    /// The current output.
    #[verifier::when_used_as_spec(spec_last)]
    pub fn last(&self) -> (out: i64)
        ensures
            out == self.spec_last(),
    {
        return self.out;
    }

    /// What the step for the sample `val` reads of the past: the sample
    /// before it, and the two newest smoothed values as far as the step keeps
    /// them.
    pub fn taps(&self, val: i64) -> (t: Taps)
        requires
            self.wf(),
        ensures
            t == taps_of(
                self.kept(),
                if self.history().len() == 0 {
                    val
                } else {
                    self.last_input()
                },
            ),
    {
        let len = self.q_filts.len();
        let prev_input = if len == 0 {
            val
        } else {
            self.last_val
        };
        let l = if len > self.window_len {
            len - 1
        } else {
            len
        };
        if l == 0 {
            Taps { prev_input, filt1: None, filt2: None }
        } else if l == 1 {
            Taps { prev_input, filt1: Some(self.q_filts[len - 1]), filt2: None }
        } else {
            Taps {
                prev_input,
                filt1: Some(self.q_filts[len - 1]),
                filt2: Some(self.q_filts[len - 2]),
            }
        }
    }

    /// The smoothed values that the next step keeps, oldest first: those over
    /// which, with the new one, the step sums the differences.
    pub fn retained(&self) -> (kept: Vec<i64>)
        requires
            self.wf(),
        ensures
            kept@ == self.kept(),
    {
        let len = self.q_filts.len();
        let mut kept: Vec<i64> = Vec::new();
        let start: usize = if len > self.window_len {
            1
        } else {
            0
        };
        let mut i: usize = start;
        while i < len
            invariant
                start <= i <= len,
                len == self.q_filts@.len(),
                kept@ == self.q_filts@.subrange(start as int, i as int),
            decreases len - i,
        {
            kept.push(self.q_filts[i]);
            assert(self.q_filts@.subrange(start as int, i + 1) =~= self.q_filts@.subrange(
                start as int,
                i as int,
            ).push(self.q_filts@[i as int]));
            i += 1;
        }
        kept
    }

    /// Records the step for the sample `val`: `filt` is the new smoothed
    /// value, `mean_square` the new running mean square of the trend, and
    /// `standardized` the trend divided by its root.
    pub fn update(&mut self, val: i64, filt: i64, mean_square: i64, standardized: i64)
        requires
            old(self).wf(),
        ensures
            final(self).wf(),
            final(self).window_len() == old(self).window_len(),
            final(self).history() == old(self).kept().push(filt),
            final(self).history().len() == if old(self).history().len() > old(self).window_len() {
                old(self).history().len()
            } else {
                old(self).history().len() + 1
            },
            final(self).history().len() < final(self).window_len() + 1 ==> final(self).last() == 0,
            final(self).last_input() == val,
            final(self).mean_square() == mean_square,
            final(self).last() == gated(
                final(self).history().len(),
                final(self).window_len() as nat,
                mean_square,
                standardized,
            ),
    {
        if self.q_filts.len() > self.window_len {
            self.q_filts.pop_front();
        }
        self.last_val = val;
        self.q_filts.push_back(filt);
        self.last_m = mean_square;
        if self.q_filts.len() <= self.window_len {
            self.out = 0;
        } else {
            if mean_square > 0 {
                self.out = standardized;
            } else {
                self.out = 0;
            }
        }
    }
}

} // verus!
