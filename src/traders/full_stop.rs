use super::{safe_side, safe_side_spec, Action, Order, Safe, Trader};
use crate::indicators::Indicator;
use crate::money::{Monetary, ONE};
use vstd::prelude::*;

verus! {

/// When the inner trader moves into the safe asset, moves everything: the
/// quantity becomes `ONE`, all that is available.
pub struct FullStop<T: Trader> {
    pub trader: T,
    pub safe: Safe,
}

/// `order` with its quantity widened to everything when it moves into the safe asset.
pub open spec fn widened(safe: Safe, order: Option<Order>) -> Option<Order> {
    match (safe, order) {
        (Safe::Base, Some(Order::Limit(Action::Buy, _, v))) => Some(Order::Limit(Action::Buy, ONE, v)),
        (Safe::Quote, Some(Order::Limit(Action::Sell, _, v))) => Some(Order::Limit(Action::Sell, ONE, v)),
        _ => order,
    }
}

impl<T: Trader> FullStop<T> {
    pub fn initialize(trader: T, base: &String, quote: &String, safe: &String) -> (r: FullStop<T>)
        requires
            trader.wf(),
        ensures
            r.wf(),
            r.trader == trader,
            r.safe == safe_side_spec(base@, quote@, safe@),
    {
        FullStop { trader, safe: safe_side(base, quote, safe) }
    }
}

impl<T: Trader> Trader for FullStop<T> {
    type Indicators = T::Indicators;

    open spec fn wf(&self) -> bool {
        self.trader.wf()
    }

    open spec fn decide(&self, output: <T::Indicators as Indicator>::Output) -> (Self, Option<Order>) {
        let (inner, order) = self.trader.decide(output);
        (FullStop { trader: inner, safe: self.safe }, widened(self.safe, order))
    }

    open spec fn initial_indicators(&self, seed: Monetary) -> T::Indicators {
        self.trader.initial_indicators(seed)
    }

    fn indicators(&self, seed: Monetary) -> (r: T::Indicators) {
        self.trader.indicators(seed)
    }

    fn evaluate(&mut self, output: <T::Indicators as Indicator>::Output) -> (r: Option<Order>) {
        let order = self.trader.evaluate(output);
        match (self.safe, order) {
            (Safe::Base, Some(Order::Limit(Action::Buy, _, v))) => Some(Order::Limit(Action::Buy, ONE, v)),
            (Safe::Quote, Some(Order::Limit(Action::Sell, _, v))) => Some(Order::Limit(Action::Sell, ONE, v)),
            _ => order,
        }
    }
}

} // verus!
