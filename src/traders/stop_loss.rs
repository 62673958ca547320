use super::{safe_side, safe_side_spec, Action, Order, Safe, Trader};
use crate::indicators::{Indicator, Value};
use crate::money::{scale, scaled, Monetary, ONE};
use vstd::prelude::*;

verus! {

/// Guards an inner trader with a stop price. Each buy into the risk asset (the
/// quote being safe) arms or lowers the stop to `price * ratio`; each sell into a
/// safe base arms or raises it to `price / ratio`. When the price crosses the stop,
/// the whole position is unwound, the stop is cleared, and the trader holds for
/// `period` evaluations.
pub struct StopLoss<T: Trader> {
    pub trader: T,
    pub safe: Safe,
    pub ratio: Monetary,
    pub stop: Option<Monetary>,
    pub backoff: usize,
    pub period: usize,
}

/// The stop after the inner decision `order` at stop `stop`: a buy under a safe
/// quote keeps the lower stop, a sell under a safe base keeps the higher one.
pub open spec fn tightened(safe: Safe, ratio: Monetary, stop: Option<Monetary>, order: Option<Order>) -> Option<Monetary> {
    match (safe, order) {
        (Safe::Quote, Some(Order::Limit(Action::Buy, _, v))) => {
            let candidate = scaled(v, ratio, ONE);
            Some(
                match stop {
                    Some(s) => if s <= candidate {
                        s
                    } else {
                        candidate
                    },
                    None => candidate,
                },
            )
        },
        (Safe::Base, Some(Order::Limit(Action::Sell, _, v))) => {
            let candidate = scaled(v, ONE, ratio);
            Some(
                match stop {
                    Some(s) => if s >= candidate {
                        s
                    } else {
                        candidate
                    },
                    None => candidate,
                },
            )
        },
        _ => stop,
    }
}

/// The unwinding order when `value` crosses the stop.
pub open spec fn triggered(safe: Safe, stop: Option<Monetary>, value: Monetary) -> Option<Order> {
    match (safe, stop) {
        (Safe::Base, Some(s)) => if value >= s {
            Some(Order::Limit(Action::Buy, ONE, value))
        } else {
            None
        },
        (Safe::Quote, Some(s)) => if value <= s {
            Some(Order::Limit(Action::Sell, ONE, value))
        } else {
            None
        },
        _ => None,
    }
}

impl<T: Trader> StopLoss<T> {
    pub fn initialize(trader: T, base: &String, quote: &String, safe: &String, ratio: Monetary, period: usize) -> (r: StopLoss<T>)
        requires
            trader.wf(),
            0 < ratio,
        ensures
            r.wf(),
            r.trader == trader,
            r.safe == safe_side_spec(base@, quote@, safe@),
            r.ratio == ratio,
            r.stop is None,
            r.backoff == 0,
            r.period == period,
    {
        StopLoss { trader, safe: safe_side(base, quote, safe), ratio, stop: None, backoff: 0, period }
    }
}

impl<T: Trader> Trader for StopLoss<T> {
    type Indicators = (Value, T::Indicators);

    /// A stop is only ever armed while the trader is not holding back.
    open spec fn wf(&self) -> bool {
        &&& self.trader.wf()
        &&& 0 < self.ratio
        &&& self.backoff <= self.period
        &&& self.stop is Some ==> self.backoff == 0
    }

    open spec fn decide(&self, output: (Monetary, <T::Indicators as Indicator>::Output)) -> (Self, Option<Order>) {
        let (value, inner_output) = output;
        if self.backoff == 0 {
            match triggered(self.safe, self.stop, value) {
                Some(order) => (StopLoss { stop: None, backoff: self.period, ..*self }, Some(order)),
                None => {
                    let (inner, order) = self.trader.decide(inner_output);
                    (
                        StopLoss {
                            trader: inner,
                            stop: tightened(self.safe, self.ratio, self.stop, order),
                            ..*self
                        },
                        order,
                    )
                },
            }
        } else {
            (StopLoss { backoff: (self.backoff - 1) as usize, ..*self }, None)
        }
    }

    open spec fn initial_indicators(&self, seed: Monetary) -> (Value, T::Indicators) {
        (Value, self.trader.initial_indicators(seed))
    }

    fn indicators(&self, seed: Monetary) -> (r: (Value, T::Indicators)) {
        (Value::initialize(seed), self.trader.indicators(seed))
    }

    fn evaluate(&mut self, output: (Monetary, <T::Indicators as Indicator>::Output)) -> (r: Option<Order>) {
        let (value, inner_output) = output;
        if self.backoff == 0 {
            if let Some(stop) = self.stop {
                match self.safe {
                    Safe::Base => {
                        if value >= stop {
                            self.stop = None;
                            self.backoff = self.period;
                            return Some(Order::Limit(Action::Buy, ONE, value));
                        }
                    },
                    Safe::Quote => {
                        if value <= stop {
                            self.stop = None;
                            self.backoff = self.period;
                            return Some(Order::Limit(Action::Sell, ONE, value));
                        }
                    },
                    Safe::Neither => {},
                }
            }
            let order = self.trader.evaluate(inner_output);
            match (self.safe, order) {
                (Safe::Quote, Some(Order::Limit(Action::Buy, _, v))) => {
                    let candidate = scale(v, self.ratio, ONE);
                    self.stop = Some(
                        match self.stop {
                            Some(s) => if s <= candidate {
                                s
                            } else {
                                candidate
                            },
                            None => candidate,
                        },
                    );
                },
                (Safe::Base, Some(Order::Limit(Action::Sell, _, v))) => {
                    let candidate = scale(v, ONE, self.ratio);
                    self.stop = Some(
                        match self.stop {
                            Some(s) => if s >= candidate {
                                s
                            } else {
                                candidate
                            },
                            None => candidate,
                        },
                    );
                },
                _ => {},
            }
            order
        } else {
            self.backoff = self.backoff - 1;
            None
        }
    }
}

/// With a stop armed at `p` over a long position (the quote being safe), a price
/// at or below `p` unwinds the whole position with a sell at that price, clears
/// the stop and starts holding back, whatever the inner trader would say.
pub proof fn lemma_long_stop_fires<T: Trader>(
    s: StopLoss<T>,
    value: Monetary,
    inner: <T::Indicators as Indicator>::Output,
)
    requires
        s.wf(),
        s.safe == Safe::Quote,
        s.stop matches Some(p) && value <= p,
    ensures
        s.decide((value, inner)) == (
            StopLoss { stop: None, backoff: s.period, ..s },
            Some(Order::Limit(Action::Sell, ONE, value)),
        ),
{
}

/// Over a long position, an armed stop only ever moves down or stays.
pub proof fn lemma_long_stop_only_lowers<T: Trader>(
    s: StopLoss<T>,
    output: (Monetary, <T::Indicators as Indicator>::Output),
)
    requires
        s.wf(),
        s.safe == Safe::Quote,
        s.stop is Some,
    ensures
        s.decide(output).0.stop matches Some(q) ==> q <= s.stop->0,
{
}

/// With a stop armed at `p` over a short position (the base being safe), a price
/// at or above `p` buys back the whole position at that price, clears the stop
/// and starts holding back.
pub proof fn lemma_short_stop_fires<T: Trader>(
    s: StopLoss<T>,
    value: Monetary,
    inner: <T::Indicators as Indicator>::Output,
)
    requires
        s.wf(),
        s.safe == Safe::Base,
        s.stop matches Some(p) && value >= p,
    ensures
        s.decide((value, inner)) == (
            StopLoss { stop: None, backoff: s.period, ..s },
            Some(Order::Limit(Action::Buy, ONE, value)),
        ),
{
}

/// Over a short position, an armed stop only ever moves up or stays.
pub proof fn lemma_short_stop_only_raises<T: Trader>(
    s: StopLoss<T>,
    output: (Monetary, <T::Indicators as Indicator>::Output),
)
    requires
        s.wf(),
        s.safe == Safe::Base,
        s.stop is Some,
    ensures
        s.decide(output).0.stop matches Some(q) ==> q >= s.stop->0,
{
}

} // verus!
