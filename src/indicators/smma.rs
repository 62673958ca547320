use super::{is_run, Indicator, MovingAverage};
use super::ema::next_count;
use crate::money::{approach, approach_spec, Monetary};
use vstd::prelude::*;

verus! {

/// Smoothed moving average: each observation moves the average by `1 / period`
/// of the way toward it; warm after `period` observations.
pub struct SMMA {
    pub period: usize,
    pub smma: Monetary,
    pub count: usize,
}

impl SMMA {
    /// The average, once `period` observations have been seen.
    pub open spec fn output(&self) -> Option<Monetary> {
        if self.count >= self.period {
            Some(self.smma)
        } else {
            None
        }
    }

    pub fn initialize(period: usize, value: Monetary) -> (r: SMMA)
        requires
            period >= 1,
        ensures
            r.wf(),
            r.period == period,
            r.smma == value,
            r.count == 0,
    {
        SMMA { period, smma: value, count: 0 }
    }
}

impl Indicator for SMMA {
    type Output = Option<Monetary>;

    open spec fn wf(&self) -> bool {
        self.period >= 1 && self.count <= self.period
    }

    open spec fn next(&self, value: Monetary, after: &Self, out: Option<Monetary>) -> bool {
        &&& after.period == self.period
        &&& after.count == next_count(self.count, self.period)
        &&& after.smma == approach_spec(self.smma as int, value as int, 1, self.period as int)
        &&& out == after.output()
    }

    fn evaluate(&mut self, value: Monetary) -> (out: Option<Monetary>) {
        if self.count < self.period {
            self.count = self.count + 1;
        }
        self.smma = approach(self.smma, value, 1, self.period as i128);
        if self.count >= self.period {
            Some(self.smma)
        } else {
            None
        }
    }
}

/// From a fresh start, an SMMA yields nothing for its first `period - 1`
/// observations and a value from the `period`-th on.
pub proof fn lemma_smma_warm_up(states: Seq<SMMA>, values: Seq<Monetary>, outs: Seq<Option<Monetary>>)
    requires
        is_run(states, values, outs),
        states[0].wf(),
        states[0].count == 0,
    ensures
        forall|i: int| 0 <= i < outs.len() ==> (#[trigger] outs[i] is Some <==> i + 1 >= states[0].period),
{
    lemma_smma_constant(states, values, outs, 0, false);
}

/// An SMMA seeded with `c` and fed only `c` yields `c` from the `period`-th
/// observation on, and nothing before.
pub proof fn lemma_smma_constant_stream(states: Seq<SMMA>, values: Seq<Monetary>, outs: Seq<Option<Monetary>>, c: Monetary)
    requires
        is_run(states, values, outs),
        states[0].wf(),
        states[0].count == 0,
        states[0].smma == c,
        forall|i: int| 0 <= i < values.len() ==> values[i] == c,
    ensures
        forall|i: int| 0 <= i < outs.len() ==> #[trigger] outs[i] == if i + 1 >= states[0].period {
            Some(c)
        } else {
            None
        },
{
    lemma_smma_constant(states, values, outs, c, true);
}

proof fn lemma_smma_constant(states: Seq<SMMA>, values: Seq<Monetary>, outs: Seq<Option<Monetary>>, c: Monetary, constant: bool)
    requires
        is_run(states, values, outs),
        states[0].wf(),
        states[0].count == 0,
        constant ==> states[0].smma == c,
        constant ==> forall|i: int| 0 <= i < values.len() ==> values[i] == c,
    ensures
        forall|i: int| 0 <= i < outs.len() ==> (#[trigger] outs[i] is Some <==> i + 1 >= states[0].period),
        constant ==> forall|i: int| 0 <= i < outs.len() ==> #[trigger] outs[i] == if i + 1 >= states[0].period {
            Some(c)
        } else {
            None
        },
{
    lemma_smma_prefix(states, values, outs, c, constant, values.len() as int);
}

/// The state after the first `k` observations of a run from a fresh start.
proof fn lemma_smma_prefix(states: Seq<SMMA>, values: Seq<Monetary>, outs: Seq<Option<Monetary>>, c: Monetary, constant: bool, k: int)
    requires
        is_run(states, values, outs),
        states[0].wf(),
        states[0].count == 0,
        constant ==> states[0].smma == c,
        constant ==> forall|i: int| 0 <= i < values.len() ==> values[i] == c,
        0 <= k <= values.len(),
    ensures
        states[k].period == states[0].period,
        states[k].count == if k < states[0].period { k } else { states[0].period as int },
        constant ==> states[k].smma == c,
        forall|i: int| 0 <= i < k ==> (#[trigger] outs[i] is Some <==> i + 1 >= states[0].period),
        constant ==> forall|i: int| 0 <= i < k ==> #[trigger] outs[i] == if i + 1 >= states[0].period {
            Some(c)
        } else {
            None
        },
    decreases k,
{
    if k > 0 {
        lemma_smma_prefix(states, values, outs, c, constant, k - 1);
        let i = k - 1;
        assert(states[i].next(values[i], &states[i + 1], outs[i]));
    }
}

impl MovingAverage for SMMA {
    open spec fn current(&self) -> Option<Monetary> {
        self.output()
    }

    proof fn lemma_next_yields_current(&self, value: Monetary, after: &Self, out: Option<Monetary>) {
    }
}

} // verus!
