pub mod ema;
pub mod macd;
pub mod macd_histogram;
pub mod rsi;
pub mod sma;
pub mod smma;
pub mod stretched_rsi;
pub mod value;

pub use ema::EMA;
pub use macd::MACD;
pub use macd_histogram::MACDHistogram;
pub use rsi::RSI;
pub use sma::SMA;
pub use smma::SMMA;
pub use stretched_rsi::StretchedRSI;
pub use value::Value;

use crate::money::{clamp, sat_sub, Monetary, ONE};
use vstd::arithmetic::div_mod::{lemma_div_is_ordered, lemma_div_multiples_vanish, lemma_div_pos_is_pos};
use vstd::prelude::*;

verus! {

/// A streaming transform: it takes one observation at a time and yields an output.
pub trait Indicator: Sized {
    type Output;

    /// The state is consistent.
    spec fn wf(&self) -> bool;

    /// One observation `value` takes the state `self` to `after` and yields `out`.
    spec fn next(&self, value: Monetary, after: &Self, out: Self::Output) -> bool;

    fn evaluate(&mut self, value: Monetary) -> (out: Self::Output)
        requires
            old(self).wf(),
        ensures
            final(self).wf(),
            old(self).next(value, &*final(self), out),
    ;
}

/// A moving average: an indicator whose output is defined once it is warm.
pub trait MovingAverage: Indicator<Output = Option<Monetary>> {
    /// The average as it stands, once warm.
    spec fn current(&self) -> Option<Monetary>;

    /// What one observation yields is the average of the state it leads to.
    proof fn lemma_next_yields_current(&self, value: Monetary, after: &Self, out: Option<Monetary>)
        requires
            self.next(value, after, out),
        ensures
            out == after.current(),
    ;
}

/// The relative strength index of an average gain `up` and an average loss `down`:
/// `100 - 100 / (1 + up / down)`, that is `100 * up / (up + down)`, in fixed point.
/// It is undefined while either average is, and where `up + down` is not positive.
pub open spec fn rsi_of(up: Option<Monetary>, down: Option<Monetary>) -> Option<Monetary> {
    match (up, down) {
        (Some(u), Some(d)) => if u >= 0 && d >= 0 && u + d > 0 {
            Some(((100 * ONE * u) / (u + d)) as i64)
        } else {
            None
        },
        _ => None,
    }
}

/// The upward part of a change.
pub open spec fn gain(change: int) -> Monetary {
    if change > 0 {
        change as i64
    } else {
        0
    }
}

/// The downward part of a change, as a non-negative amount.
pub open spec fn loss(change: int) -> Monetary {
    if change < 0 {
        clamp(-change) as i64
    } else {
        0
    }
}

pub fn rsi(up: Option<Monetary>, down: Option<Monetary>) -> (r: Option<Monetary>)
    ensures
        r == rsi_of(up, down),
{
    match (up, down) {
        (Some(u), Some(d)) => {
            if u >= 0 && d >= 0 && u as i128 + d as i128 > 0 {
                let k: i128 = 100 * ONE as i128;
                let den: i128 = u as i128 + d as i128;
                assert(0 <= k * u <= k * den) by (nonlinear_arith)
                    requires
                        k == 100 * ONE,
                        0 <= u,
                        u <= den,
                ;
                assert(k * u <= 0x10_0000_0000_0000_0000_0000_0000) by (nonlinear_arith)
                    requires
                        k == 100 * ONE,
                        0 <= u <= i64::MAX,
                ;
                proof {
                    lemma_div_is_ordered(k * u, k * den, den as int);
                    lemma_div_multiples_vanish(k as int, den as int);
                    lemma_div_pos_is_pos(k * u, den as int);
                    assert(k * den == den * k) by (nonlinear_arith);
                }
                Some(((k * u as i128) / den) as i64)
            } else {
                None
            }
        },
        _ => None,
    }
}

/// The upward and downward parts of a change, as fed to the two averages of an RSI.
pub fn split_change(change: Monetary) -> (r: (Monetary, Monetary))
    ensures
        r.0 == gain(change as int),
        r.1 == loss(change as int),
{
    if change > 0 {
        (change, 0)
    } else if change < 0 {
        (0, sat_sub(0, change))
    } else {
        (0, 0)
    }
}

/// `states`, `values` and `outs` are a run of an indicator: state `i` takes
/// observation `i` to state `i + 1`, yielding output `i`.
pub open spec fn is_run<I: Indicator>(states: Seq<I>, values: Seq<Monetary>, outs: Seq<I::Output>) -> bool {
    &&& states.len() == values.len() + 1
    &&& outs.len() == values.len()
    &&& forall|i: int| 0 <= i < values.len() ==> #[trigger] states[i].next(values[i], &states[i + 1], outs[i])
}

impl<A: Indicator, B: Indicator> Indicator for (A, B) {
    type Output = (A::Output, B::Output);

    open spec fn wf(&self) -> bool {
        self.0.wf() && self.1.wf()
    }

    open spec fn next(&self, value: Monetary, after: &Self, out: Self::Output) -> bool {
        self.0.next(value, &after.0, out.0) && self.1.next(value, &after.1, out.1)
    }

    fn evaluate(&mut self, value: Monetary) -> (out: Self::Output) {
        let x = self.0.evaluate(value);
        let y = self.1.evaluate(value);
        (x, y)
    }
}

impl<A: Indicator, B: Indicator, C: Indicator> Indicator for (A, B, C) {
    type Output = (A::Output, B::Output, C::Output);

    open spec fn wf(&self) -> bool {
        self.0.wf() && self.1.wf() && self.2.wf()
    }

    open spec fn next(&self, value: Monetary, after: &Self, out: Self::Output) -> bool {
        &&& self.0.next(value, &after.0, out.0)
        &&& self.1.next(value, &after.1, out.1)
        &&& self.2.next(value, &after.2, out.2)
    }

    fn evaluate(&mut self, value: Monetary) -> (out: Self::Output) {
        let x = self.0.evaluate(value);
        let y = self.1.evaluate(value);
        let z = self.2.evaluate(value);
        (x, y, z)
    }
}

} // verus!
