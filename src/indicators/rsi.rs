use super::{gain, loss, rsi, rsi_of, split_change, Indicator, MovingAverage};
use crate::money::{clamp, sat_sub, Monetary};
use vstd::prelude::*;

verus! {

/// Relative strength index: tracks the average upward and downward movement since
/// the previous observation, each with its own moving average of kind `MA`.
pub struct RSI<MA: MovingAverage> {
    pub up: MA,
    pub down: MA,
    pub previous_value: Monetary,
}

impl<MA: MovingAverage> RSI<MA> {
    /// An index over the averages `up` and `down`, starting from the observation `value`.
    pub fn initialize(up: MA, down: MA, value: Monetary) -> (r: RSI<MA>)
        requires
            up.wf(),
            down.wf(),
        ensures
            r.wf(),
            r.up == up,
            r.down == down,
            r.previous_value == value,
    {
        RSI { up, down, previous_value: value }
    }
}

impl<MA: MovingAverage> Indicator for RSI<MA> {
    type Output = Option<Monetary>;

    open spec fn wf(&self) -> bool {
        self.up.wf() && self.down.wf()
    }

    open spec fn next(&self, value: Monetary, after: &Self, out: Option<Monetary>) -> bool {
        let change = clamp(value - self.previous_value);
        &&& after.previous_value == value
        &&& self.up.next(gain(change), &after.up, after.up.current())
        &&& self.down.next(loss(change), &after.down, after.down.current())
        &&& out == rsi_of(after.up.current(), after.down.current())
    }

    fn evaluate(&mut self, value: Monetary) -> (out: Option<Monetary>) {
        let change = sat_sub(value, self.previous_value);
        self.previous_value = value;
        let (g, l) = split_change(change);
        let ghost up0 = self.up;
        let ghost down0 = self.down;
        let up = self.up.evaluate(g);
        let down = self.down.evaluate(l);
        proof {
            up0.lemma_next_yields_current(g, &self.up, up);
            down0.lemma_next_yields_current(l, &self.down, down);
        }
        rsi(up, down)
    }
}

} // verus!
