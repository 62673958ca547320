use super::{Indicator, EMA, MACD};
use crate::money::{clamp, sat_sub, Monetary};
use vstd::prelude::*;

verus! {

/// MACD together with its histogram: the MACD minus an EMA (the signal line) of
/// the MACD series. Yields the pair `(macd, histogram)` once all three averages are warm.
pub struct MACDHistogram {
    pub histogram: Monetary,
    pub macd: MACD,
    pub signal: EMA,
}

impl MACDHistogram {
    /// A fresh MACD seeded with `value`, and a fresh signal line seeded with zero.
    pub open spec fn initialize_spec(short: usize, long: usize, period: usize, value: Monetary) -> MACDHistogram {
        MACDHistogram {
            histogram: 0,
            macd: MACD::initialize_spec(short, long, value),
            signal: EMA::initialize_spec(period, 0),
        }
    }

    pub fn initialize(short: usize, long: usize, period: usize, value: Monetary) -> (r: MACDHistogram)
        requires
            short >= 1,
            long >= 1,
            period >= 1,
        ensures
            r.wf(),
            r == MACDHistogram::initialize_spec(short, long, period, value),
    {
        MACDHistogram {
            histogram: 0,
            macd: MACD::initialize(short, long, value),
            signal: EMA::initialize(period, 0),
        }
    }
}

impl Indicator for MACDHistogram {
    type Output = Option<(Monetary, Monetary)>;

    open spec fn wf(&self) -> bool {
        self.macd.wf() && self.signal.wf()
    }

    /// The signal line only sees the MACD series once the MACD is warm.
    open spec fn next(&self, value: Monetary, after: &Self, out: Option<(Monetary, Monetary)>) -> bool {
        &&& self.macd.next(value, &after.macd, after.macd.output())
        &&& match after.macd.output() {
            Some(m) => {
                &&& self.signal.next(m, &after.signal, after.signal.output())
                &&& match after.signal.output() {
                    Some(s) => after.histogram == clamp(m - s) && out == Some((m, after.histogram)),
                    None => after.histogram == self.histogram && out is None,
                }
            },
            None => after.signal == self.signal && after.histogram == self.histogram && out is None,
        }
    }

    fn evaluate(&mut self, value: Monetary) -> (out: Option<(Monetary, Monetary)>) {
        if let Some(macd) = self.macd.evaluate(value) {
            if let Some(signal) = self.signal.evaluate(macd) {
                self.histogram = sat_sub(macd, signal);
                return Some((macd, self.histogram));
            }
        }
        None
    }
}

} // verus!
