use super::{is_run, Indicator, MovingAverage};
use crate::money::{approach, approach_spec, Monetary};
use vstd::prelude::*;

verus! {

/// Exponential moving average: each observation moves the average by `2 / (1 + period)`
/// of the way toward it; warm after `period` observations.
pub struct EMA {
    pub period: usize,
    pub ema: Monetary,
    pub count: usize,
}

/// The count of observations, saturated at `period`.
pub open spec fn next_count(count: usize, period: usize) -> usize {
    if count < period {
        (count + 1) as usize
    } else {
        count
    }
}

impl EMA {
    /// The average, once `period` observations have been seen.
    pub open spec fn output(&self) -> Option<Monetary> {
        if self.count >= self.period {
            Some(self.ema)
        } else {
            None
        }
    }

    /// A fresh average over `period` observations, seeded with `value`.
    pub open spec fn initialize_spec(period: usize, value: Monetary) -> EMA {
        EMA { period, ema: value, count: 0 }
    }

    pub fn initialize(period: usize, value: Monetary) -> (r: EMA)
        requires
            period >= 1,
        ensures
            r.wf(),
            r == EMA::initialize_spec(period, value),
    {
        EMA { period, ema: value, count: 0 }
    }
}

impl Indicator for EMA {
    type Output = Option<Monetary>;

    open spec fn wf(&self) -> bool {
        self.period >= 1 && self.count <= self.period
    }

    open spec fn next(&self, value: Monetary, after: &Self, out: Option<Monetary>) -> bool {
        &&& after.period == self.period
        &&& after.count == next_count(self.count, self.period)
        &&& after.ema == approach_spec(self.ema as int, value as int, 2, self.period + 1)
        &&& out == after.output()
    }

    fn evaluate(&mut self, value: Monetary) -> (out: Option<Monetary>) {
        if self.count < self.period {
            self.count = self.count + 1;
        }
        self.ema = approach(self.ema, value, 2, self.period as i128 + 1);
        if self.count >= self.period {
            Some(self.ema)
        } else {
            None
        }
    }
}

/// From a fresh start, an EMA yields nothing for its first `period - 1`
/// observations and a value from the `period`-th on.
pub proof fn lemma_ema_warm_up(states: Seq<EMA>, values: Seq<Monetary>, outs: Seq<Option<Monetary>>)
    requires
        is_run(states, values, outs),
        states[0].wf(),
        states[0].count == 0,
    ensures
        forall|i: int| 0 <= i < outs.len() ==> (#[trigger] outs[i] is Some <==> i + 1 >= states[0].period),
{
    lemma_ema_constant(states, values, outs, 0, false);
}

/// An EMA seeded with `c` and fed only `c` yields `c` from the `period`-th
/// observation on, and nothing before.
pub proof fn lemma_ema_constant_stream(states: Seq<EMA>, values: Seq<Monetary>, outs: Seq<Option<Monetary>>, c: Monetary)
    requires
        is_run(states, values, outs),
        states[0].wf(),
        states[0].count == 0,
        states[0].ema == c,
        forall|i: int| 0 <= i < values.len() ==> values[i] == c,
    ensures
        forall|i: int| 0 <= i < outs.len() ==> #[trigger] outs[i] == if i + 1 >= states[0].period {
            Some(c)
        } else {
            None
        },
{
    lemma_ema_constant(states, values, outs, c, true);
}

proof fn lemma_ema_constant(states: Seq<EMA>, values: Seq<Monetary>, outs: Seq<Option<Monetary>>, c: Monetary, constant: bool)
    requires
        is_run(states, values, outs),
        states[0].wf(),
        states[0].count == 0,
        constant ==> states[0].ema == c,
        constant ==> forall|i: int| 0 <= i < values.len() ==> values[i] == c,
    ensures
        forall|i: int| 0 <= i < outs.len() ==> (#[trigger] outs[i] is Some <==> i + 1 >= states[0].period),
        constant ==> forall|i: int| 0 <= i < outs.len() ==> #[trigger] outs[i] == if i + 1 >= states[0].period {
            Some(c)
        } else {
            None
        },
{
    lemma_ema_prefix(states, values, outs, c, constant, values.len() as int);
}

/// The state after the first `k` observations of a run from a fresh start.
proof fn lemma_ema_prefix(states: Seq<EMA>, values: Seq<Monetary>, outs: Seq<Option<Monetary>>, c: Monetary, constant: bool, k: int)
    requires
        is_run(states, values, outs),
        states[0].wf(),
        states[0].count == 0,
        constant ==> states[0].ema == c,
        constant ==> forall|i: int| 0 <= i < values.len() ==> values[i] == c,
        0 <= k <= values.len(),
    ensures
        states[k].period == states[0].period,
        states[k].count == if k < states[0].period { k } else { states[0].period as int },
        constant ==> states[k].ema == c,
        forall|i: int| 0 <= i < k ==> (#[trigger] outs[i] is Some <==> i + 1 >= states[0].period),
        constant ==> forall|i: int| 0 <= i < k ==> #[trigger] outs[i] == if i + 1 >= states[0].period {
            Some(c)
        } else {
            None
        },
    decreases k,
{
    if k > 0 {
        lemma_ema_prefix(states, values, outs, c, constant, k - 1);
        let i = k - 1;
        assert(states[i].next(values[i], &states[i + 1], outs[i]));
    }
}

impl MovingAverage for EMA {
    open spec fn current(&self) -> Option<Monetary> {
        self.output()
    }

    proof fn lemma_next_yields_current(&self, value: Monetary, after: &Self, out: Option<Monetary>) {
    }
}

} // verus!
