use super::{safe_side, safe_side_spec, Action, Order, Safe, Trader};
use crate::indicators::{Indicator, MACDHistogram};
use crate::money::Monetary;
use vstd::prelude::*;

verus! {

/// The periods of the long-term MACD histogram.
pub const LONGTERM_SHORT: usize = 21600;
pub const LONGTERM_LONG: usize = 46800;
pub const LONGTERM_SIGNAL: usize = 16200;

/// Refuses to fight a strong long-term trend: a buy into the risk asset passes only
/// while the long-term MACD histogram is positive, a sell out of it only while the
/// histogram is negative. Holds until the long-term histogram is warm.
pub struct GobbleBadLongterm<T: Trader> {
    pub trader: T,
    pub safe: Safe,
}

/// The inner decision `order`, gated by the long-term histogram.
pub open spec fn gated(safe: Safe, order: Option<Order>, longterm: Option<(Monetary, Monetary)>) -> Option<Order> {
    match (order, longterm) {
        (Some(o), Some((_, histogram))) => match (safe, o) {
            (Safe::Quote, Order::Limit(Action::Buy, _, _)) => if histogram > 0 {
                Some(o)
            } else {
                None
            },
            (Safe::Base, Order::Limit(Action::Sell, _, _)) => if histogram < 0 {
                Some(o)
            } else {
                None
            },
            _ => Some(o),
        },
        _ => None,
    }
}

impl<T: Trader> GobbleBadLongterm<T> {
    pub fn initialize(trader: T, base: &String, quote: &String, safe: &String) -> (r: GobbleBadLongterm<T>)
        requires
            trader.wf(),
        ensures
            r.wf(),
            r.trader == trader,
            r.safe == safe_side_spec(base@, quote@, safe@),
    {
        GobbleBadLongterm { trader, safe: safe_side(base, quote, safe) }
    }
}

impl<T: Trader> Trader for GobbleBadLongterm<T> {
    type Indicators = (MACDHistogram, T::Indicators);

    open spec fn wf(&self) -> bool {
        self.trader.wf()
    }

    open spec fn decide(&self, output: (Option<(Monetary, Monetary)>, <T::Indicators as Indicator>::Output)) -> (Self, Option<Order>) {
        let (longterm, inner_output) = output;
        let (inner, order) = self.trader.decide(inner_output);
        (GobbleBadLongterm { trader: inner, safe: self.safe }, gated(self.safe, order, longterm))
    }

    open spec fn initial_indicators(&self, seed: Monetary) -> (MACDHistogram, T::Indicators) {
        (
            MACDHistogram::initialize_spec(LONGTERM_SHORT, LONGTERM_LONG, LONGTERM_SIGNAL, seed),
            self.trader.initial_indicators(seed),
        )
    }

    fn indicators(&self, seed: Monetary) -> (r: (MACDHistogram, T::Indicators)) {
        (
            MACDHistogram::initialize(LONGTERM_SHORT, LONGTERM_LONG, LONGTERM_SIGNAL, seed),
            self.trader.indicators(seed),
        )
    }

    fn evaluate(&mut self, output: (Option<(Monetary, Monetary)>, <T::Indicators as Indicator>::Output)) -> (r: Option<Order>) {
        let (longterm, inner_output) = output;
        let order = self.trader.evaluate(inner_output);
        match (order, longterm) {
            (Some(o), Some((_, histogram))) => match (self.safe, o) {
                (Safe::Quote, Order::Limit(Action::Buy, _, _)) => if histogram > 0 {
                    Some(o)
                } else {
                    None
                },
                (Safe::Base, Order::Limit(Action::Sell, _, _)) => if histogram < 0 {
                    Some(o)
                } else {
                    None
                },
                _ => Some(o),
            },
            _ => None,
        }
    }
}

} // verus!
