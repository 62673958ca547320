use super::{is_run, Indicator, MovingAverage};
use super::ema::next_count;
use crate::money::{tdiv, Monetary};
use vstd::prelude::*;
use vstd::arithmetic::div_mod::{lemma_div_is_ordered, lemma_div_multiples_vanish};

verus! {

/// Simple moving average: the mean of the last `period` observations, kept in a
/// window of fixed size; warm after `period` observations.
pub struct SMA {
    pub period: usize,
    pub sma: Monetary,
    pub count: usize,
    pub values: Vec<Monetary>,
}

/// The sum of a sequence of amounts.
pub open spec fn sum(s: Seq<Monetary>) -> int
    decreases s.len(),
{
    if s.len() == 0 {
        0
    } else {
        sum(s.drop_last()) + s.last()
    }
}

/// The sum of `n` copies of `c`.
pub proof fn lemma_sum_constant(s: Seq<Monetary>, c: Monetary)
    requires
        forall|i: int| 0 <= i < s.len() ==> s[i] == c,
    ensures
        sum(s) == s.len() * c,
    decreases s.len(),
{
    if s.len() > 0 {
        lemma_sum_constant(s.drop_last(), c);
        assert(s.len() * c == (s.len() - 1) * c + c) by (nonlinear_arith);
    }
}

/// The mean of a window of `n` amounts, truncated, is an amount again.
proof fn lemma_mean_fits(total: int, n: int)
    requires
        n >= 1,
        i64::MIN * n <= total <= i64::MAX * n,
    ensures
        i64::MIN <= tdiv(total, n) <= i64::MAX,
{
    if total >= 0 {
        lemma_div_is_ordered(total, i64::MAX * n, n);
        lemma_div_multiples_vanish(i64::MAX as int, n);
        assert(i64::MAX * n == n * i64::MAX) by (nonlinear_arith);
        crate::money::lemma_tdiv_shrinks(total, n);
    } else {
        assert(-total <= -(i64::MIN as int) * n) by (nonlinear_arith)
            requires
                i64::MIN * n <= total,
        ;
        lemma_div_is_ordered(-total, -(i64::MIN as int) * n, n);
        lemma_div_multiples_vanish(-(i64::MIN as int), n);
        assert(-(i64::MIN as int) * n == n * -(i64::MIN as int)) by (nonlinear_arith);
        crate::money::lemma_tdiv_shrinks(total, n);
    }
}

impl SMA {
    /// The average, once `period` observations have been seen.
    pub open spec fn output(&self) -> Option<Monetary> {
        if self.count >= self.period {
            Some(self.sma)
        } else {
            None
        }
    }

    /// An average over `period` observations whose window starts full of `value`.
    pub fn initialize(period: usize, value: Monetary) -> (r: SMA)
        requires
            period >= 1,
        ensures
            r.wf(),
            r.period == period,
            r.sma == value,
            r.count == 0,
            forall|i: int| 0 <= i < period ==> r.values@[i] == value,
    {
        let mut values: Vec<Monetary> = Vec::new();
        let mut i: usize = 0;
        while i < period
            invariant
                i <= period,
                values@.len() == i,
                forall|j: int| 0 <= j < i ==> values@[j] == value,
            decreases period - i,
        {
            values.push(value);
            i = i + 1;
        }
        SMA { period, sma: value, count: 0, values }
    }
}

impl Indicator for SMA {
    type Output = Option<Monetary>;

    open spec fn wf(&self) -> bool {
        &&& self.period >= 1
        &&& self.count <= self.period
        &&& self.values@.len() == self.period
    }

    open spec fn next(&self, value: Monetary, after: &Self, out: Option<Monetary>) -> bool {
        &&& after.period == self.period
        &&& after.count == next_count(self.count, self.period)
        &&& after.values@ == self.values@.remove(0).push(value)
        &&& after.sma == tdiv(sum(after.values@), self.period as int)
        &&& out == after.output()
    }

    fn evaluate(&mut self, value: Monetary) -> (out: Option<Monetary>) {
        if self.count < self.period {
            self.count = self.count + 1;
        }
        self.values.remove(0);
        self.values.push(value);
        let mut total: i128 = 0;
        let mut i: usize = 0;
        while i < self.values.len()
            invariant
                i <= self.values@.len(),
                self.values@.len() == self.period,
                total == sum(self.values@.subrange(0, i as int)),
                i64::MIN * i <= total <= i64::MAX * i,
            decreases self.values@.len() - i,
        {
            proof {
                assert(self.values@.subrange(0, i + 1).drop_last() =~= self.values@.subrange(0, i as int));
                assert(i64::MIN * (i + 1) >= i128::MIN && i64::MAX * (i + 1) <= i128::MAX) by (nonlinear_arith)
                    requires
                        i < 0x1_0000_0000_0000_0000,
                ;
                assert(i64::MIN * (i + 1) == i64::MIN * i + i64::MIN) by (nonlinear_arith);
                assert(i64::MAX * (i + 1) == i64::MAX * i + i64::MAX) by (nonlinear_arith);
            }
            total = total + self.values[i] as i128;
            i = i + 1;
        }
        proof {
            assert(self.values@.subrange(0, self.values@.len() as int) =~= self.values@);
            lemma_mean_fits(total as int, self.period as int);
        }
        self.sma = (total / self.period as i128) as i64;
        if self.count >= self.period {
            Some(self.sma)
        } else {
            None
        }
    }
}

/// From a fresh start, an SMA yields nothing for its first `period - 1`
/// observations and a value from the `period`-th on.
pub proof fn lemma_sma_warm_up(states: Seq<SMA>, values: Seq<Monetary>, outs: Seq<Option<Monetary>>)
    requires
        is_run(states, values, outs),
        states[0].wf(),
        states[0].count == 0,
    ensures
        forall|i: int| 0 <= i < outs.len() ==> (#[trigger] outs[i] is Some <==> i + 1 >= states[0].period),
{
    lemma_sma_constant(states, values, outs, 0, false);
}

/// An SMA fed only `c` yields `c` from the `period`-th observation on, and
/// nothing before, whatever it was seeded with.
pub proof fn lemma_sma_constant_stream(states: Seq<SMA>, values: Seq<Monetary>, outs: Seq<Option<Monetary>>, c: Monetary)
    requires
        is_run(states, values, outs),
        states[0].wf(),
        states[0].count == 0,
        forall|i: int| 0 <= i < values.len() ==> values[i] == c,
    ensures
        forall|i: int| 0 <= i < outs.len() ==> #[trigger] outs[i] == if i + 1 >= states[0].period {
            Some(c)
        } else {
            None
        },
{
    lemma_sma_constant(states, values, outs, c, true);
}

proof fn lemma_sma_constant(states: Seq<SMA>, values: Seq<Monetary>, outs: Seq<Option<Monetary>>, c: Monetary, constant: bool)
    requires
        is_run(states, values, outs),
        states[0].wf(),
        states[0].count == 0,
        constant ==> forall|i: int| 0 <= i < values.len() ==> values[i] == c,
    ensures
        forall|i: int| 0 <= i < outs.len() ==> (#[trigger] outs[i] is Some <==> i + 1 >= states[0].period),
        constant ==> forall|i: int| 0 <= i < outs.len() ==> #[trigger] outs[i] == if i + 1 >= states[0].period {
            Some(c)
        } else {
            None
        },
{
    lemma_sma_prefix(states, values, outs, c, constant, values.len() as int);
}

/// The state after the first `k` observations of a run from a fresh start.
proof fn lemma_sma_prefix(states: Seq<SMA>, values: Seq<Monetary>, outs: Seq<Option<Monetary>>, c: Monetary, constant: bool, k: int)
    requires
        is_run(states, values, outs),
        states[0].wf(),
        states[0].count == 0,
        constant ==> forall|i: int| 0 <= i < values.len() ==> values[i] == c,
        0 <= k <= values.len(),
    ensures
        states[k].period == states[0].period,
        states[k].values@.len() == states[0].period,
        states[k].count == if k < states[0].period { k } else { states[0].period as int },
        constant ==> forall|j: int| states[0].period - states[k].count <= j < states[0].period ==> #[trigger] states[k].values@[j] == c,
        forall|i: int| 0 <= i < k ==> (#[trigger] outs[i] is Some <==> i + 1 >= states[0].period),
        constant ==> forall|i: int| 0 <= i < k ==> #[trigger] outs[i] == if i + 1 >= states[0].period {
            Some(c)
        } else {
            None
        },
    decreases k,
{
    if k > 0 {
        lemma_sma_prefix(states, values, outs, c, constant, k - 1);
        let i = k - 1;
        assert(states[i].next(values[i], &states[i + 1], outs[i]));
        if constant {
            let w = states[k].values@;
            assert forall|j: int| states[0].period - states[k].count <= j < states[0].period implies #[trigger] w[j] == c by {
                if j < states[0].period - 1 {
                    assert(w[j] == states[k - 1].values@[j + 1]);
                }
            }
            if k >= states[0].period {
                assert forall|j: int| 0 <= j < w.len() implies w[j] == c by {
                }
                lemma_sum_constant(w, c);
                crate::money::lemma_tdiv_multiple(c as int, states[0].period as int);
                assert(w.len() * c == states[0].period * c);
            }
        }
    }
}

impl MovingAverage for SMA {
    open spec fn current(&self) -> Option<Monetary> {
        self.output()
    }

    proof fn lemma_next_yields_current(&self, value: Monetary, after: &Self, out: Option<Monetary>) {
    }
}

} // verus!
