pub mod and;
pub mod backoff;
pub mod full_stop;
pub mod gobble_bad_longterm;
pub mod macd_trader;
pub mod rsi_trader;
pub mod safe_and;
pub mod stop_loss;

pub use and::And;
pub use backoff::Backoff;
pub use full_stop::FullStop;
pub use gobble_bad_longterm::GobbleBadLongterm;
pub use macd_trader::MACDTrader;
pub use rsi_trader::RSITrader;
pub use safe_and::SafeAnd;
pub use stop_loss::StopLoss;

use crate::indicators::Indicator;
use crate::money::Monetary;
use vstd::prelude::*;

verus! {

#[derive(Debug, Clone, Copy, PartialEq, Eq, Structural)]
pub enum Action {
    Buy,
    Sell,
}

/// A trade decision. A trader's quantity is a fraction of the portfolio, in fixed
/// point (`ONE` asks for everything available); the economy turns it into an
/// amount of the base asset.
#[derive(Debug, Clone, Copy, PartialEq, Eq, Structural)]
pub enum Order {
    Market(Action, Monetary),
    Limit(Action, Monetary, Monetary),
}

/// Which leg of a market, if any, is the safe asset.
#[derive(Debug, Clone, Copy, PartialEq, Eq, Structural)]
pub enum Safe {
    Base,
    Quote,
    Neither,
}

pub open spec fn safe_side_spec(base: Seq<char>, quote: Seq<char>, safe: Seq<char>) -> Safe {
    if base == safe {
        Safe::Base
    } else if quote == safe {
        Safe::Quote
    } else {
        Safe::Neither
    }
}

pub fn safe_side(base: &String, quote: &String, safe: &String) -> (r: Safe)
    ensures
        r == safe_side_spec(base@, quote@, safe@),
{
    if base.eq(safe) {
        Safe::Base
    } else if quote.eq(safe) {
        Safe::Quote
    } else {
        Safe::Neither
    }
}

/// The mean of two amounts, truncated toward zero.
pub open spec fn mean(a: Monetary, b: Monetary) -> Monetary {
    crate::money::tdiv(a + b, 2) as i64
}

pub fn average(a: Monetary, b: Monetary) -> (r: Monetary)
    ensures
        r == mean(a, b),
{
    let s: i128 = a as i128 + b as i128;
    proof {
        crate::money::lemma_tdiv_shrinks(s as int, 2);
        if s >= 0 {
            assert(s / 2 <= i64::MAX);
        } else {
            assert((-s) / 2 <= -(i64::MIN as int));
        }
    }
    (s / 2) as i64
}

/// Both orders are limit orders on the same side: the agreed order, with the mean
/// quantity and the mean price.
pub open spec fn agreement(a: Option<Order>, b: Option<Order>) -> Option<Order> {
    match (a, b) {
        (Some(Order::Limit(Action::Buy, q1, v1)), Some(Order::Limit(Action::Buy, q2, v2))) =>
            Some(Order::Limit(Action::Buy, mean(q1, q2), mean(v1, v2))),
        (Some(Order::Limit(Action::Sell, q1, v1)), Some(Order::Limit(Action::Sell, q2, v2))) =>
            Some(Order::Limit(Action::Sell, mean(q1, q2), mean(v1, v2))),
        _ => None,
    }
}

pub fn agree(a: Option<Order>, b: Option<Order>) -> (r: Option<Order>)
    ensures
        r == agreement(a, b),
{
    match (a, b) {
        (Some(Order::Limit(Action::Buy, q1, v1)), Some(Order::Limit(Action::Buy, q2, v2))) =>
            Some(Order::Limit(Action::Buy, average(q1, q2), average(v1, v2))),
        (Some(Order::Limit(Action::Sell, q1, v1)), Some(Order::Limit(Action::Sell, q2, v2))) =>
            Some(Order::Limit(Action::Sell, average(q1, q2), average(v1, v2))),
        _ => None,
    }
}

/// `states`, `outputs` and `decisions` are a run of a trader: state `i` decides
/// `decisions[i]` on `outputs[i]` and becomes state `i + 1`.
pub open spec fn is_trader_run<T: Trader>(
    states: Seq<T>,
    outputs: Seq<<T::Indicators as Indicator>::Output>,
    decisions: Seq<Option<Order>>,
) -> bool {
    &&& states.len() == outputs.len() + 1
    &&& decisions.len() == outputs.len()
    &&& forall|i: int| 0 <= i < outputs.len() ==> #[trigger] states[i].decide(outputs[i]) == (states[i + 1], decisions[i])
}

/// A strategy: a decision function over the output of its indicators.
pub trait Trader: Sized {
    type Indicators: Indicator;

    /// The state is consistent.
    spec fn wf(&self) -> bool;

    /// The decision on `output`, and the state after it.
    spec fn decide(&self, output: <Self::Indicators as Indicator>::Output) -> (Self, Option<Order>);

    /// The indicators this strategy reads, fresh, for a market first seen at `seed`.
    spec fn initial_indicators(&self, seed: Monetary) -> Self::Indicators;

    fn indicators(&self, seed: Monetary) -> (r: Self::Indicators)
        requires
            self.wf(),
        ensures
            r.wf(),
            r == self.initial_indicators(seed),
    ;

    fn evaluate(&mut self, output: <Self::Indicators as Indicator>::Output) -> (r: Option<Order>)
        requires
            old(self).wf(),
        ensures
            final(self).wf(),
            (*final(self), r) == old(self).decide(output),
    ;
}

} // verus!
