use std::collections::VecDeque;
use vstd::prelude::*;
use crate::error::ConfigError;
use crate::sliding_window::View as _;

verus! {

/// The fixed-point value that stands for 1: outputs lie between `-UNIT` and
/// `UNIT`.
pub const UNIT: i64 = 1_000_000_000;

/// The affine map that places `min` at `-UNIT` and `max` at `UNIT`, applied to
/// `last` and rounded down; 0 where `min` and `max` coincide.
pub open spec fn rescaled(last: int, min: int, max: int) -> int {
    if max == min {
        0
    } else {
        -UNIT + 2 * UNIT * (last - min) / (max - min)
    }
}

/// The output that a window of values prescribes: its newest value, rescaled
/// by the window's extent; 0 for an empty window.
pub open spec fn window_output(w: Seq<int>) -> int {
    if w.len() == 0 {
        0
    } else {
        rescaled(w.last(), w.min(), w.max())
    }
}

/// The model of a rescaler of window length `w` around a transform that had
/// the model `inner` when it was wrapped, after the samples `seen`: the
/// window of the inner transform's latest outputs, rescaled by its extent.
pub open spec fn normalizer_model(
    w: nat,
    inner: Option<crate::sliding_window::Model>,
    seen: Seq<int>,
) -> Option<crate::sliding_window::Model> {
    match inner {
        Some(m) => Some(
            crate::sliding_window::Model {
                trace: seen,
                response: |t: Seq<int>| window_output(crate::extent::tail(m.outputs(t), w)),
            },
        ),
        None => None,
    }
}

/// The least and the greatest value of a queue that is not empty.
pub fn extent_queue(q: &VecDeque<i64>) -> (extent: (i64, i64))
    requires
        q.len() > 0,
    ensures
        extent.0 == crate::extent::ints(q@).min(),
        extent.1 == crate::extent::ints(q@).max(),
{
    let mut min: i64 = q[0];
    let mut max: i64 = q[0];
    let ghost all = crate::extent::ints(q@);
    proof {
        crate::extent::lemma_extent_single(q@[0] as int);
    }
    let mut i: usize = 1;
    while i < q.len()
        invariant
            1 <= i <= q.len(),
            all == crate::extent::ints(q@),
            min == all.take(i as int).min(),
            max == all.take(i as int).max(),
        decreases q.len() - i,
    {
        let val = q[i];
        proof {
            crate::extent::lemma_extent_push(all.take(i as int), val as int);
            assert(all.take(i + 1) =~= all.take(i as int).push(val as int));
        }
        if val > max {
            max = val;
        }
        if val < min {
            min = val;
        }
        i += 1;
    }
    proof {
        assert(all.take(q.len() as int) =~= all);
    }
    (min, max)
}

/// Rescales the output of an inner transform into `[-UNIT, UNIT]` by the
/// extent of its latest `window_len` outputs.
#[derive(Clone)]
pub struct Normalizer<V: crate::sliding_window::View> {
    view: V,
    window_len: usize,
    q_vals: VecDeque<i64>,
    min: i64,
    max: i64,
    last: i64,
    init: bool,
    seen: Ghost<Seq<int>>,
    observed: Ghost<Seq<int>>,
    base: Ghost<Option<crate::sliding_window::Model>>,
}

impl<V: crate::sliding_window::View> Normalizer<V> {
    /// The inner transform.
    pub closed spec fn inner(&self) -> V {
        self.view
    }

    /// The model that the inner transform had when it was wrapped.
    pub closed spec fn base(&self) -> Option<crate::sliding_window::Model> {
        self.base@
    }

    /// The samples consumed since the inner transform was wrapped.
    pub closed spec fn seen(&self) -> Seq<int> {
        self.seen@
    }

    /// Every output that the inner transform has shown since it was wrapped,
    /// oldest first.
    pub closed spec fn observed(&self) -> Seq<int> {
        self.observed@
    }

    /// The window: the inner outputs that are kept, oldest first.
    pub closed spec fn history(&self) -> Seq<int> {
        crate::extent::ints(self.q_vals@)
    }

    /// What `window_len` returns.
    pub closed spec fn spec_window_len(&self) -> usize {
        self.window_len
    }

    /// What `running_min` returns.
    pub closed spec fn spec_running_min(&self) -> i64 {
        self.min
    }

    /// What `running_max` returns.
    pub closed spec fn spec_running_max(&self) -> i64 {
        self.max
    }

    /// What `last_raw` returns.
    pub closed spec fn spec_last_raw(&self) -> i64 {
        self.last
    }

    /// What `initialized` returns.
    pub closed spec fn spec_initialized(&self) -> bool {
        !self.init
    }

    /// The window and its cached extent agree with the outputs observed.
    pub open spec fn window_exact(&self) -> bool {
        &&& self.window_len() >= 1
        &&& self.history() == crate::extent::tail(self.observed(), self.window_len() as nat)
        &&& self.initialized() <==> self.observed().len() > 0
        &&& !self.initialized() ==> self.running_min() == 0 && self.running_max() == 0
            && self.last_raw() == 0
        &&& self.initialized() ==> self.running_min() == self.history().min()
            && self.running_max() == self.history().max() && self.last_raw()
            == self.observed().last()
    }

    /// The inner transform is where the samples seen have brought it, and
    /// the outputs observed are those that its model prescribes.
    pub open spec fn linked(&self) -> bool {
        match self.base() {
            Some(m) => {
                &&& self.inner().model() == Some(
                    crate::sliding_window::Model {
                        trace: m.trace + self.seen(),
                        response: m.response,
                    },
                )
                &&& self.observed() == m.outputs(self.seen())
            },
            None => self.inner().model() is None,
        }
    }

    /// A rescaler around `view` that looks back over `window_len` outputs.
    pub fn new(view: V, window_len: usize) -> (made: Result<Normalizer<V>, ConfigError>)
        requires
            view.wf(),
        ensures
            window_len == 0 <==> made is Err,
            made matches Ok(n) ==> {
                &&& n.wf()
                &&& n.inner() == view
                &&& n.base() == view.model()
                &&& n.window_len() == window_len
                &&& n.seen() == Seq::<int>::empty()
                &&& n.observed() == Seq::<int>::empty()
            },
    {
        if window_len == 0 {
            return Err(ConfigError::ZeroWindow);
        }
        let ghost base = view.model();
        let n = Normalizer {
            view,
            window_len,
            q_vals: VecDeque::new(),
            min: 0,
            max: 0,
            last: 0,
            init: true,
            seen: Ghost(Seq::empty()),
            observed: Ghost(Seq::empty()),
            base: Ghost(base),
        };
        proof {
            assert(n.history() =~= Seq::<int>::empty());
            match base {
                Some(m) => {
                    assert(m.outputs(n.seen()) =~= Seq::<int>::empty());
                },
                None => {},
            }
        }
        Ok(n)
    }

    /// The number of inner outputs that the window holds at most.
    #[verifier::when_used_as_spec(spec_window_len)]
    pub fn window_len(&self) -> (w: usize)
        ensures
            w == self.spec_window_len(),
    {
        self.window_len
    }

    /// The least value in the window; 0 before the first update.
    #[verifier::when_used_as_spec(spec_running_min)]
    pub fn running_min(&self) -> (m: i64)
        ensures
            m == self.spec_running_min(),
    {
        self.min
    }

    /// The greatest value in the window; 0 before the first update.
    #[verifier::when_used_as_spec(spec_running_max)]
    pub fn running_max(&self) -> (m: i64)
        ensures
            m == self.spec_running_max(),
    {
        self.max
    }

    /// The latest output of the inner transform; 0 before the first update.
    #[verifier::when_used_as_spec(spec_last_raw)]
    pub fn last_raw(&self) -> (v: i64)
        ensures
            v == self.spec_last_raw(),
    {
        self.last
    }

    /// Whether an update has been made.
    #[verifier::when_used_as_spec(spec_initialized)]
    pub fn initialized(&self) -> (b: bool)
        ensures
            b == self.spec_initialized(),
    {
        !self.init
    }

    /// The window, oldest value first.
    pub fn window(&self) -> (w: Vec<i64>)
        ensures
            crate::extent::ints(w@) == self.history(),
    {
        let mut w: Vec<i64> = Vec::new();
        let mut i: usize = 0;
        while i < self.q_vals.len()
            invariant
                i <= self.q_vals@.len(),
                w@ == self.q_vals@.take(i as int),
            decreases self.q_vals@.len() - i,
        {
            w.push(self.q_vals[i]);
            assert(self.q_vals@.take(i + 1) =~= self.q_vals@.take(i as int).push(
                self.q_vals@[i as int],
            ));
            i += 1;
        }
        w
    }

    /// Where the window holds one value throughout, as it does once the
    /// inner transform has shown that value at each of the latest
    /// `window_len` updates, the output is 0.
    pub proof fn lemma_constant_window(&self, c: int)
        requires
            self.wf(),
            forall|i: int|
                0 <= i < self.observed().len() && i >= self.observed().len() - self.window_len()
                    ==> self.observed()[i] == c,
        ensures
            forall|i: int| 0 <= i < self.history().len() ==> self.history()[i] == c,
            window_output(self.history()) == 0,
    {
        lemma_flat_window(self.history(), c);
    }

    /// Takes the inner output `v` into the window and brings the cached
    /// extent up to date.
    fn observe(&mut self, v: i64)
        requires
            old(self).window_exact(),
        ensures
            final(self).window_exact(),
            final(self).initialized(),
            final(self).observed() == old(self).observed().push(v as int),
            final(self).window_len() == old(self).window_len(),
            final(self).inner() == old(self).inner(),
            final(self).base() == old(self).base(),
            final(self).seen() == old(self).seen(),
    {
        let ghost w = self.window_len as nat;
        let ghost before = self.history();
        proof {
            crate::extent::lemma_tail_push(self.observed@, v as int, w);
        }
        if self.init {
            self.init = false;
            self.min = v;
            self.max = v;
            self.last = v;
        }
        if self.q_vals.len() >= self.window_len {
            let oldest = self.q_vals.pop_front().unwrap();
            assert(self.history() =~= before.drop_first());
            if oldest <= self.min || oldest >= self.max {
                if self.q_vals.len() > 0 {
                    let (min, max) = extent_queue(&self.q_vals);
                    self.min = min;
                    self.max = max;
                } else {
                    self.min = v;
                    self.max = v;
                }
            } else {
                proof {
                    crate::extent::lemma_extent_drop_inner(before);
                }
            }
        }
        let ghost kept = self.history();
        self.q_vals.push_back(v);
        assert(self.history() =~= kept.push(v as int));
        proof {
            if kept.len() > 0 {
                crate::extent::lemma_extent_push(kept, v as int);
            } else {
                crate::extent::lemma_extent_single(v as int);
            }
        }
        if v > self.max {
            self.max = v;
        }
        if v < self.min {
            self.min = v;
        }
        self.last = v;
        self.observed = Ghost(self.observed@.push(v as int));
    }
}

impl<V: crate::sliding_window::View> crate::sliding_window::View for Normalizer<V> {
    open spec fn wf(&self) -> bool {
        &&& self.inner().wf()
        &&& self.window_exact()
        &&& self.linked()
    }

    open spec fn model(&self) -> Option<crate::sliding_window::Model> {
        normalizer_model(self.window_len() as nat, self.base(), self.seen())
    }

    /// Feeds `val` to the inner transform and takes the output that it then
    /// shows into the window.
    fn update(&mut self, val: i64)
        ensures
            final(self).window_len() == old(self).window_len(),
            final(self).base() == old(self).base(),
            final(self).seen() == old(self).seen().push(val as int),
            final(self).inner().model() == crate::sliding_window::fed(
                old(self).inner().model(),
                val as int,
            ),
            call_ensures(V::last, (&final(self).inner(),), final(self).last_raw()),
            final(self).observed() == old(self).observed().push(final(self).last_raw() as int),
            final(self).initialized(),
            final(self).history() == crate::extent::tail(
                final(self).observed(),
                final(self).window_len() as nat,
            ),
            final(self).running_min() == final(self).history().min(),
            final(self).running_max() == final(self).history().max(),
    {
        self.view.update(val);
        let view_last = self.view.last();
        self.seen = Ghost(self.seen@.push(val as int));
        self.observe(view_last);
        proof {
            match self.base@ {
                Some(m) => {
                    let before = old(self).seen@;
                    let now = self.seen@;
                    assert(now.take(now.len() as int) =~= now);
                    assert forall|k: int| 0 <= k < before.len() implies #[trigger] now.take(k + 1)
                        == before.take(k + 1) by {
                        assert(now.take(k + 1) =~= before.take(k + 1));
                    }
                    assert(self.observed@ =~= m.outputs(now));
                },
                None => {},
            }
        }
    }

    /// The latest inner output, rescaled by the extent of the window; 0
    /// where the window holds a single value throughout, and before the
    /// first update.
    fn last(&self) -> (out: i64)
        ensures
            out == window_output(self.history()),
            -UNIT <= out <= UNIT,
    {
        proof {
            if self.initialized() {
                let h = self.history();
                crate::extent::lemma_extent_bounds(h);
                assert(h[h.len() - 1] == self.observed().last());
                lemma_rescaled_bounded(self.last as int, self.min as int, self.max as int);
            }
        }
        if self.last == self.min && self.last == self.max {
            return 0;
        }
        rescale(self.last, self.min, self.max)
    }

    /// A second rescaler in the same state, with a duplicate of the inner
    /// transform.
    fn duplicate(&self) -> (copy: Self)
        ensures
            copy.window_len() == self.window_len(),
            copy.base() == self.base(),
            copy.seen() == self.seen(),
            copy.observed() == self.observed(),
            copy.history() == self.history(),
            copy.running_min() == self.running_min(),
            copy.running_max() == self.running_max(),
            copy.last_raw() == self.last_raw(),
            copy.initialized() == self.initialized(),
    {
        let q_vals = self.q_vals.clone();
        Normalizer {
            view: self.view.duplicate(),
            window_len: self.window_len,
            q_vals,
            min: self.min,
            max: self.max,
            last: self.last,
            init: self.init,
            seen: self.seen,
            observed: self.observed,
            base: self.base,
        }
    }
}

/// Computes `rescaled` without overflow.
fn rescale(last: i64, min: i64, max: i64) -> (out: i64)
    requires
        min <= last <= max,
    ensures
        out == rescaled(last as int, min as int, max as int),
        -UNIT <= out <= UNIT,
{
    proof {
        lemma_rescaled_bounded(last as int, min as int, max as int);
    }
    if max == min {
        return 0;
    }
    let span: i128 = max as i128 - min as i128;
    let off: i128 = last as i128 - min as i128;
    assert(0 <= 2 * UNIT * off <= 2 * UNIT * span) by (nonlinear_arith)
        requires
            0 <= off <= span,
    ;
    let scaled: i128 = 2 * (UNIT as i128) * off;
    let quotient: i128 = scaled / span;
    (quotient - UNIT as i128) as i64
}

/// The rescaled value never leaves `[-UNIT, UNIT]`, and reaches the ends of
/// that range exactly at the ends of the extent.
pub proof fn lemma_rescaled_bounded(last: int, min: int, max: int)
    requires
        min <= last <= max,
    ensures
        -UNIT <= rescaled(last, min, max) <= UNIT,
        min < max ==> rescaled(min, min, max) == -UNIT,
        min < max ==> rescaled(max, min, max) == UNIT,
{
    if min < max {
        let span = max - min;
        let off = last - min;
        assert(0 <= 2 * UNIT * off <= 2 * UNIT * span) by (nonlinear_arith)
            requires
                0 <= off <= span,
        ;
        assert(0 <= (2 * UNIT * off) / span <= 2 * UNIT) by (nonlinear_arith)
            requires
                span > 0,
                0 <= 2 * UNIT * off <= 2 * UNIT * span,
        ;
        assert((2 * UNIT * 0) / span == 0) by (nonlinear_arith)
            requires
                span > 0,
        ;
        assert((2 * UNIT * span) / span == 2 * UNIT) by (nonlinear_arith)
            requires
                span > 0,
        ;
    }
}

/// The output that a window prescribes never leaves `[-UNIT, UNIT]`.
pub proof fn lemma_window_output_bounded(w: Seq<int>)
    ensures
        -UNIT <= window_output(w) <= UNIT,
{
    if w.len() > 0 {
        crate::extent::lemma_extent_bounds(w);
        lemma_rescaled_bounded(w.last(), w.min(), w.max());
    }
}

/// A window whose values are all alike prescribes the output 0.
pub proof fn lemma_flat_window(w: Seq<int>, c: int)
    requires
        forall|i: int| 0 <= i < w.len() ==> w[i] == c,
    ensures
        window_output(w) == 0,
{
    if w.len() > 0 {
        assert(w[0] == c);
        crate::extent::lemma_bounds_are_extent(w, c, c);
    }
}

/// A rescaler around a pass-through shows its latest sample, rescaled by the
/// extent of its latest `w` samples.
pub proof fn lemma_rescaler_over_echo(w: nat, before: Seq<int>, inputs: Seq<int>)
    ensures
        normalizer_model(w, Some(crate::echo::echo_model(before)), inputs) matches Some(m)
            && m.output() == window_output(crate::extent::tail(inputs, w)),
{
    crate::echo::lemma_echo_outputs(before, inputs);
}

/// A rescaler around a pass-through shows 0 whenever the samples that its
/// window covers are all alike: from the first sample on where the input is
/// constant, and else once the window holds nothing but the constant.
pub proof fn lemma_constant_input_over_echo(w: nat, before: Seq<int>, inputs: Seq<int>, c: int)
    requires
        forall|i: int| 0 <= i < inputs.len() && i >= inputs.len() - w ==> inputs[i] == c,
    ensures
        normalizer_model(w, Some(crate::echo::echo_model(before)), inputs) matches Some(m)
            && m.output() == 0,
{
    lemma_rescaler_over_echo(w, before, inputs);
    lemma_flat_window(crate::extent::tail(inputs, w), c);
}

/// The cached extent of a rescaler is the true extent of its window: the
/// window holds the latest outputs of the inner transform, as many as there
/// are up to the window length, none of them lies outside the cached extent,
/// and each end of the extent is one of them.
pub proof fn lemma_extent_is_exact<V: crate::sliding_window::View>(n: &Normalizer<V>)
    requires
        n.wf(),
        n.initialized(),
    ensures
        n.history() == crate::extent::tail(n.observed(), n.window_len() as nat),
        n.history().len() == if n.observed().len() <= n.window_len() {
            n.observed().len()
        } else {
            n.window_len() as nat
        },
        forall|i: int|
            0 <= i < n.history().len() ==> n.running_min() <= #[trigger] n.history()[i]
                <= n.running_max(),
        n.history().contains(n.running_min() as int),
        n.history().contains(n.running_max() as int),
{
    crate::extent::lemma_extent_bounds(n.history());
}

} // verus!
