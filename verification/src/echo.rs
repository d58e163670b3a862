use vstd::prelude::*;
use crate::sliding_window::View as _;

verus! {

/// The output of the pass-through: the latest sample, and 0 before the first.
pub open spec fn echo_response(t: Seq<int>) -> int {
    if t.len() == 0 {
        0
    } else {
        t.last()
    }
}

/// The model of a pass-through that has consumed `trace`.
pub open spec fn echo_model(trace: Seq<int>) -> crate::sliding_window::Model {
    crate::sliding_window::Model { trace, response: |t: Seq<int>| echo_response(t) }
}

/// The outputs that a pass-through shows for further samples are those
/// samples.
pub proof fn lemma_echo_outputs(trace: Seq<int>, inputs: Seq<int>)
    ensures
        echo_model(trace).outputs(inputs) == inputs,
{
    assert(echo_model(trace).outputs(inputs) =~= inputs);
}

/// The identity transform: shows the sample it consumed last.
#[derive(Clone)]
pub struct Echo {
    out: i64,
    seen: Ghost<Seq<int>>,
}

impl Echo {
    /// The samples consumed so far, oldest first.
    pub closed spec fn seen(&self) -> Seq<int> {
        self.seen@
    }

    /// A pass-through that has consumed nothing and shows 0.
    pub fn new() -> (made: Echo)
        ensures
            made.wf(),
            made.seen() == Seq::<int>::empty(),
    {
        Echo { out: 0, seen: Ghost(Seq::empty()) }
    }
}

impl crate::sliding_window::View for Echo {
    closed spec fn wf(&self) -> bool {
        self.out == echo_response(self.seen@)
    }

    open spec fn model(&self) -> Option<crate::sliding_window::Model> {
        Some(echo_model(self.seen()))
    }

    fn update(&mut self, val: i64)
        ensures
            final(self).seen() == old(self).seen().push(val as int),
    {
        self.out = val;
        self.seen = Ghost(self.seen@.push(val as int));
    }

    fn last(&self) -> (out: i64)
        ensures
            out == echo_response(self.seen()),
    {
        self.out
    }

    fn duplicate(&self) -> (copy: Self)
        ensures
            copy.seen() == self.seen(),
    {
        Echo { out: self.out, seen: self.seen }
    }
}

} // verus!
