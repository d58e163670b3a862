use vstd::prelude::*;
use vstd::view::View as _;

verus! {

/// What a transform computes, as a function of the samples it has consumed.
pub struct Model {
    /// The samples consumed so far, oldest first.
    pub trace: Seq<int>,
    /// The output shown after consuming a given sequence of samples.
    pub response: spec_fn(Seq<int>) -> int,
}

impl Model {
    /// The output shown now.
    pub open spec fn output(self) -> int {
        (self.response)(self.trace)
    }

    /// The model after one more sample.
    pub open spec fn fed(self, val: int) -> Model {
        Model { trace: self.trace.push(val), response: self.response }
    }

    /// The outputs shown after each of the further samples `inputs`, in turn.
    pub open spec fn outputs(self, inputs: Seq<int>) -> Seq<int> {
        Seq::new(inputs.len(), |k: int| (self.response)(self.trace + inputs.take(k + 1)))
    }
}

/// `fed`, lifted to transforms that may carry no model.
pub open spec fn fed(m: Option<Model>, val: int) -> Option<Model> {
    match m {
        Some(m) => Some(m.fed(val)),
        None => None,
    }
}

/// Whether `out` is the output that the model, if there is one, prescribes.
pub open spec fn shows(m: Option<Model>, out: int) -> bool {
    match m {
        Some(m) => out == m.output(),
        None => true,
    }
}

/// A streaming transform: consumes one sample per `update` and shows its
/// current output through `last`.
///
/// A transform that is verified states its `model`, and is then held to it: each
/// `update` extends the trace by the sample and leaves the response alone, and
/// `last` returns what the response gives for the trace. A transform that
/// states none promises nothing of its output, and nothing is assumed of it.
pub trait View: Send {
    /// The internal invariant of the transform.
    open spec fn wf(&self) -> bool {
        true
    }

    /// The model of the transform, where it has one.
    open spec fn model(&self) -> Option<Model> {
        None
    }

    /// Consumes the sample `val`.
    fn update(&mut self, val: i64)
        requires
            old(self).wf(),
        ensures
            final(self).wf(),
            final(self).model() == fed(old(self).model(), val as int),
    ;

    /// The current output; it changes with the next `update` only.
    fn last(&self) -> (out: i64)
        requires
            self.wf(),
        ensures
            shows(self.model(), out as int),
    ;

    /// A second transform in the same state, which shares nothing with this
    /// one.
    fn duplicate(&self) -> (copy: Self) where Self: Sized
        requires
            self.wf(),
        ensures
            copy.wf(),
            copy.model() == self.model(),
    ;
}

/// Two transforms that carry one model and consume the same sample carry
/// one model afterwards, and show the same output.
pub proof fn lemma_replicas_agree<V: View>(
    a: &V,
    b: &V,
    val: int,
    a_next: &V,
    b_next: &V,
    a_out: int,
    b_out: int,
)
    requires
        a.model() is Some,
        a.model() == b.model(),
        a_next.model() == fed(a.model(), val),
        b_next.model() == fed(b.model(), val),
        shows(a_next.model(), a_out),
        shows(b_next.model(), b_out),
    ensures
        a_next.model() is Some,
        a_next.model() == b_next.model(),
        a_out == b_out,
{
}

/// Feeds one stream of samples to any number of transforms and collects their
/// outputs, in the order in which the transforms were registered.
#[derive(Clone)]
pub struct SlidingWindow<V: View> {
    pub views: Vec<V>,
}

impl<V: View> SlidingWindow<V> {
    /// Every registered transform is well formed.
    pub open spec fn wf(&self) -> bool {
        forall|i: int| 0 <= i < self.views@.len() ==> #[trigger] self.views@[i].wf()
    }

    /// `after` holds the transforms of `self`, in the same order, each one
    /// sample `val` further.
    pub open spec fn fanned_out(&self, val: int, after: &Self) -> bool {
        &&& after.views@.len() == self.views@.len()
        &&& forall|i: int|
            0 <= i < self.views@.len() ==> (#[trigger] after.views@[i]).model() == fed(
                self.views@[i].model(),
                val,
            )
    }

    /// `outs` holds, for each transform in order, what its `last` returns.
    pub open spec fn reported(&self, outs: Seq<i64>) -> bool {
        &&& outs.len() == self.views@.len()
        &&& forall|i: int|
            0 <= i < self.views@.len() ==> call_ensures(
                V::last,
                (&self.views@[i],),
                #[trigger] outs[i],
            )
        &&& forall|i: int|
            0 <= i < self.views@.len() ==> shows(self.views@[i].model(), #[trigger] outs[i] as int)
    }

    /// After one update, `last` reports one output for each transform, in
    /// registration order, and each transform that carries a model has
    /// consumed exactly the one sample more and shows what its model
    /// prescribes for it.
    pub proof fn lemma_fan_out(&self, val: int, after: &Self, outs: Seq<i64>)
        requires
            self.fanned_out(val, after),
            after.reported(outs),
        ensures
            outs.len() == self.views@.len(),
            forall|i: int|
                0 <= i < self.views@.len() ==> (#[trigger] self.views@[i].model() matches Some(m)
                    ==> after.views@[i].model() == Some(m.fed(val)) && outs[i] == (m.response)(
                    m.trace.push(val),
                )),
    {
    }

    /// An aggregator without transforms.
    pub fn new() -> (made: SlidingWindow<V>)
        ensures
            made.views@.len() == 0,
            made.wf(),
    {
        return SlidingWindow { views: Vec::new() }
    }

    /// Feeds `val` to every registered transform, in registration order.
    pub fn update(&mut self, val: i64)
        requires
            old(self).wf(),
        ensures
            final(self).wf(),
            old(self).fanned_out(val as int, final(self)),
    {
        let n = self.views.len();
        let mut i: usize = 0;
        while i < n
            invariant
                i <= n,
                self.views@.len() == n,
                old(self).views@.len() == n,
                forall|j: int| 0 <= j < n ==> (#[trigger] self.views@[j]).wf(),
                forall|j: int|
                    0 <= j < i ==> (#[trigger] self.views@[j]).model() == fed(
                        old(self).views@[j].model(),
                        val as int,
                    ),
                forall|j: int| i <= j < n ==> #[trigger] self.views@[j] == old(self).views@[j],
            decreases n - i,
        {
            self.views[i].update(val);
            i += 1;
        }
    }

    /// The current output of every registered transform, in registration
    /// order.
    pub fn last(&self) -> (out: Vec<i64>)
        requires
            self.wf(),
        ensures
            self.reported(out@),
    {
        let mut out: Vec<i64> = Vec::new();
        let n = self.views.len();
        let mut i: usize = 0;
        while i < n
            invariant
                i <= n,
                n == self.views@.len(),
                self.wf(),
                out@.len() == i,
                forall|j: int|
                    0 <= j < i ==> call_ensures(V::last, (&self.views@[j],), #[trigger] out@[j]),
                forall|j: int| 0 <= j < i ==> shows(self.views@[j].model(), #[trigger] out@[j] as int),
            decreases n - i,
        {
            let last = self.views[i].last();
            out.push(last);
            i += 1;
        }
        return out
    }

    /// Appends `view` to the registered transforms.
    pub fn register_view(&mut self, view: V)
        ensures
            final(self).views@ == old(self).views@.push(view),
            old(self).wf() && view.wf() ==> final(self).wf(),
    {
        self.views.push(view);
    }
}

} // verus!
