use super::{gain, loss, rsi, rsi_of, split_change, Indicator, MovingAverage};
use crate::money::{clamp, sat_sub, Monetary};
use vstd::prelude::*;

verus! {

/// An RSI whose changes since the previous observation are first smoothed through
/// a second moving average (`STRETCH`) before they feed the upward and downward
/// averages.
pub struct StretchedRSI<MA: MovingAverage, STRETCH: MovingAverage> {
    pub up: MA,
    pub down: MA,
    pub previous_value: Monetary,
    pub change: STRETCH,
}

impl<MA: MovingAverage, STRETCH: MovingAverage> StretchedRSI<MA, STRETCH> {
    /// An index over `up` and `down` whose changes pass through `change` (seeded
    /// with zero by the caller), starting from the observation `value`.
    pub fn initialize(up: MA, down: MA, change: STRETCH, value: Monetary) -> (r: StretchedRSI<MA, STRETCH>)
        requires
            up.wf(),
            down.wf(),
            change.wf(),
        ensures
            r.wf(),
            r.up == up,
            r.down == down,
            r.change == change,
            r.previous_value == value,
    {
        StretchedRSI { up, down, previous_value: value, change }
    }
}

impl<MA: MovingAverage, STRETCH: MovingAverage> Indicator for StretchedRSI<MA, STRETCH> {
    type Output = Option<Monetary>;

    open spec fn wf(&self) -> bool {
        self.up.wf() && self.down.wf() && self.change.wf()
    }

    open spec fn next(&self, value: Monetary, after: &Self, out: Option<Monetary>) -> bool {
        let raw = clamp(value - self.previous_value) as i64;
        &&& after.previous_value == value
        &&& self.change.next(raw, &after.change, after.change.current())
        &&& match after.change.current() {
            Some(c) => {
                &&& self.up.next(gain(c as int), &after.up, after.up.current())
                &&& self.down.next(loss(c as int), &after.down, after.down.current())
                &&& out == rsi_of(after.up.current(), after.down.current())
            },
            None => {
                &&& after.up == self.up
                &&& after.down == self.down
                &&& out is None
            },
        }
    }

    fn evaluate(&mut self, value: Monetary) -> (out: Option<Monetary>) {
        let raw = sat_sub(value, self.previous_value);
        let ghost change0 = self.change;
        let smoothed = self.change.evaluate(raw);
        proof {
            change0.lemma_next_yields_current(raw, &self.change, smoothed);
        }
        self.previous_value = value;
        if let Some(change) = smoothed {
            let (g, l) = split_change(change);
            let ghost up0 = self.up;
            let ghost down0 = self.down;
            let up = self.up.evaluate(g);
            let down = self.down.evaluate(l);
            proof {
                up0.lemma_next_yields_current(g, &self.up, up);
                down0.lemma_next_yields_current(l, &self.down, down);
            }
            rsi(up, down)
        } else {
            None
        }
    }
}

} // verus!
