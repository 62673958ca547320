use super::{Action, Order, Trader};
use crate::indicators::{Indicator, MACDHistogram, Value};
use crate::money::Monetary;
use vstd::prelude::*;

verus! {

/// The periods of the short-term and the long-term MACD histograms.
pub const SHORT_FAST: usize = 720;
pub const SHORT_SLOW: usize = 1560;
pub const SHORT_SIGNAL: usize = 540;
pub const LONG_FAST: usize = 5760;
pub const LONG_SLOW: usize = 12480;
pub const LONG_SIGNAL: usize = 4320;

/// Trades when the short-term histogram changes sign below (buy) or above (sell)
/// the zero line, and the long-term MACD agrees, each for `fraction` of the portfolio.
pub struct MACDTrader {
    pub fraction: Monetary,
    pub previous_macdh: Monetary,
}

/// The order for the short-term `(macd, histogram)` and long-term `(lmacd, lhistogram)`.
pub open spec fn signal(
    t: MACDTrader,
    value: Monetary,
    macd: Monetary,
    macdh: Monetary,
    lmacd: Monetary,
    lmacdh: Monetary,
) -> Option<Order> {
    if t.previous_macdh < 0 && macdh >= 0 && macd < 0 && lmacdh >= 0 && lmacd < 0 {
        Some(Order::Limit(Action::Buy, t.fraction, value))
    } else if t.previous_macdh > 0 && macdh <= 0 && macd > 0 && lmacdh <= 0 && lmacd > 0 {
        Some(Order::Limit(Action::Sell, t.fraction, value))
    } else {
        None
    }
}

impl MACDTrader {
    pub fn initialize(fraction: Monetary) -> (r: MACDTrader)
        ensures
            r == (MACDTrader { fraction, previous_macdh: 0 }),
    {
        MACDTrader { fraction, previous_macdh: 0 }
    }
}

impl Trader for MACDTrader {
    type Indicators = (Value, MACDHistogram, MACDHistogram);

    open spec fn wf(&self) -> bool {
        true
    }

    open spec fn decide(
        &self,
        output: (Monetary, Option<(Monetary, Monetary)>, Option<(Monetary, Monetary)>),
    ) -> (Self, Option<Order>) {
        let (value, short, long) = output;
        match (short, long) {
            (Some((macd, macdh)), Some((lmacd, lmacdh))) => (
                MACDTrader { previous_macdh: macdh, ..*self },
                signal(*self, value, macd, macdh, lmacd, lmacdh),
            ),
            _ => (*self, None),
        }
    }

    open spec fn initial_indicators(&self, seed: Monetary) -> (Value, MACDHistogram, MACDHistogram) {
        (
            Value,
            MACDHistogram::initialize_spec(SHORT_FAST, SHORT_SLOW, SHORT_SIGNAL, seed),
            MACDHistogram::initialize_spec(LONG_FAST, LONG_SLOW, LONG_SIGNAL, seed),
        )
    }

    fn indicators(&self, seed: Monetary) -> (r: (Value, MACDHistogram, MACDHistogram)) {
        (
            Value::initialize(seed),
            MACDHistogram::initialize(SHORT_FAST, SHORT_SLOW, SHORT_SIGNAL, seed),
            MACDHistogram::initialize(LONG_FAST, LONG_SLOW, LONG_SIGNAL, seed),
        )
    }

    fn evaluate(
        &mut self,
        output: (Monetary, Option<(Monetary, Monetary)>, Option<(Monetary, Monetary)>),
    ) -> (r: Option<Order>) {
        let (value, short, long) = output;
        if let (Some((macd, macdh)), Some((lmacd, lmacdh))) = (short, long) {
            let action = if self.previous_macdh < 0 && macdh >= 0 && macd < 0 && lmacdh >= 0 && lmacd < 0 {
                Some(Order::Limit(Action::Buy, self.fraction, value))
            } else if self.previous_macdh > 0 && macdh <= 0 && macd > 0 && lmacdh <= 0 && lmacd > 0 {
                Some(Order::Limit(Action::Sell, self.fraction, value))
            } else {
                None
            };
            self.previous_macdh = macdh;
            action
        } else {
            None
        }
    }
}

} // verus!
