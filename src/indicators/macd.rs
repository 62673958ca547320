use super::{Indicator, EMA};
use crate::money::{clamp, sat_sub, Monetary};
use vstd::prelude::*;

verus! {

/// Moving average convergence/divergence: a short EMA minus a long EMA of the
/// same series; warm when both are.
pub struct MACD {
    pub ema_short: EMA,
    pub ema_long: EMA,
}

/// The difference of two averages, defined when both are.
pub open spec fn difference(short: Option<Monetary>, long: Option<Monetary>) -> Option<Monetary> {
    match (short, long) {
        (Some(s), Some(l)) => Some(clamp(s - l) as i64),
        _ => None,
    }
}

impl MACD {
    pub open spec fn output(&self) -> Option<Monetary> {
        difference(self.ema_short.output(), self.ema_long.output())
    }

    /// Fresh short and long averages, both seeded with `value`.
    pub open spec fn initialize_spec(short: usize, long: usize, value: Monetary) -> MACD {
        MACD { ema_short: EMA::initialize_spec(short, value), ema_long: EMA::initialize_spec(long, value) }
    }

    pub fn initialize(short: usize, long: usize, value: Monetary) -> (r: MACD)
        requires
            short >= 1,
            long >= 1,
        ensures
            r.wf(),
            r == MACD::initialize_spec(short, long, value),
    {
        MACD { ema_short: EMA::initialize(short, value), ema_long: EMA::initialize(long, value) }
    }
}

impl Indicator for MACD {
    type Output = Option<Monetary>;

    open spec fn wf(&self) -> bool {
        self.ema_short.wf() && self.ema_long.wf()
    }

    open spec fn next(&self, value: Monetary, after: &Self, out: Option<Monetary>) -> bool {
        &&& self.ema_short.next(value, &after.ema_short, after.ema_short.output())
        &&& self.ema_long.next(value, &after.ema_long, after.ema_long.output())
        &&& out == after.output()
    }

    fn evaluate(&mut self, value: Monetary) -> (out: Option<Monetary>) {
        let short = self.ema_short.evaluate(value);
        let long = self.ema_long.evaluate(value);
        match (short, long) {
            (Some(s), Some(l)) => Some(sat_sub(s, l)),
            _ => None,
        }
    }
}

} // verus!
