use super::{Action, Order, Trader};
use crate::indicators::{Indicator, StretchedRSI, Value, EMA};
use crate::money::{Monetary, ONE};
use vstd::prelude::*;

verus! {

/// Trades on a stretched RSI crossing its thresholds: a buy when it rises through
/// `buy`, a sell when it falls through `sell`, each for `fraction` of the portfolio.
pub struct RSITrader {
    pub period: usize,
    pub scale: usize,
    pub buy: Monetary,
    pub sell: Monetary,
    pub fraction: Monetary,
    pub previous_rsi: Monetary,
}

impl RSITrader {
    /// A trader whose averages span `period` observations and whose changes are
    /// smoothed over `scale`; the previous index starts at the neutral 50.
    pub fn initialize(period: usize, scale: usize, buy: Monetary, sell: Monetary, fraction: Monetary) -> (r: RSITrader)
        requires
            period >= 1,
            scale >= 1,
        ensures
            r.wf(),
            r == (RSITrader { period, scale, buy, sell, fraction, previous_rsi: (50 * ONE) as i64 }),
    {
        RSITrader { period, scale, buy, sell, fraction, previous_rsi: 50 * ONE }
    }
}

/// The order on a move of the index from `previous` to `rsi`.
pub open spec fn crossing(t: RSITrader, rsi: Monetary, value: Monetary) -> Option<Order> {
    if t.previous_rsi < t.buy && rsi >= t.buy {
        Some(Order::Limit(Action::Buy, t.fraction, value))
    } else if t.previous_rsi > t.sell && rsi <= t.sell {
        Some(Order::Limit(Action::Sell, t.fraction, value))
    } else {
        None
    }
}

impl Trader for RSITrader {
    type Indicators = (Value, StretchedRSI<EMA, EMA>);

    open spec fn wf(&self) -> bool {
        self.period >= 1 && self.scale >= 1
    }

    open spec fn decide(&self, output: (Monetary, Option<Monetary>)) -> (Self, Option<Order>) {
        let (value, rsi) = output;
        match rsi {
            Some(r) => (RSITrader { previous_rsi: r, ..*self }, crossing(*self, r, value)),
            None => (*self, None),
        }
    }

    /// Both legs average over `period` from the seed; the changes are smoothed over
    /// `scale` from zero.
    open spec fn initial_indicators(&self, seed: Monetary) -> (Value, StretchedRSI<EMA, EMA>) {
        (
            Value,
            StretchedRSI {
                up: EMA::initialize_spec(self.period, seed),
                down: EMA::initialize_spec(self.period, seed),
                previous_value: seed,
                change: EMA::initialize_spec(self.scale, 0),
            },
        )
    }

    fn indicators(&self, seed: Monetary) -> (r: (Value, StretchedRSI<EMA, EMA>)) {
        (
            Value::initialize(seed),
            StretchedRSI::initialize(
                EMA::initialize(self.period, seed),
                EMA::initialize(self.period, seed),
                EMA::initialize(self.scale, 0),
                seed,
            ),
        )
    }

    fn evaluate(&mut self, output: (Monetary, Option<Monetary>)) -> (r: Option<Order>) {
        let (value, rsi) = output;
        if let Some(rsi) = rsi {
            let action = if self.previous_rsi < self.buy && rsi >= self.buy {
                Some(Order::Limit(Action::Buy, self.fraction, value))
            } else if self.previous_rsi > self.sell && rsi <= self.sell {
                Some(Order::Limit(Action::Sell, self.fraction, value))
            } else {
                None
            };
            self.previous_rsi = rsi;
            action
        } else {
            None
        }
    }
}

} // verus!
