use super::{agree, agreement, Order, Trader};
use crate::indicators::Indicator;
use crate::money::Monetary;
use vstd::prelude::*;

verus! {

/// Runs two traders on their own indicators and trades only where both agree on
/// the side, at the mean quantity and price.
pub struct And<T1: Trader, T2: Trader> {
    pub trader1: T1,
    pub trader2: T2,
}

impl<T1: Trader, T2: Trader> And<T1, T2> {
    pub fn initialize(trader1: T1, trader2: T2) -> (r: And<T1, T2>)
        requires
            trader1.wf(),
            trader2.wf(),
        ensures
            r.wf(),
            r.trader1 == trader1,
            r.trader2 == trader2,
    {
        And { trader1, trader2 }
    }
}

impl<T1: Trader, T2: Trader> Trader for And<T1, T2> {
    type Indicators = (T1::Indicators, T2::Indicators);

    open spec fn wf(&self) -> bool {
        self.trader1.wf() && self.trader2.wf()
    }

    open spec fn decide(
        &self,
        output: (<T1::Indicators as Indicator>::Output, <T2::Indicators as Indicator>::Output),
    ) -> (Self, Option<Order>) {
        let (t1, a) = self.trader1.decide(output.0);
        let (t2, b) = self.trader2.decide(output.1);
        (And { trader1: t1, trader2: t2 }, agreement(a, b))
    }

    open spec fn initial_indicators(&self, seed: Monetary) -> (T1::Indicators, T2::Indicators) {
        (self.trader1.initial_indicators(seed), self.trader2.initial_indicators(seed))
    }

    fn indicators(&self, seed: Monetary) -> (r: (T1::Indicators, T2::Indicators)) {
        (self.trader1.indicators(seed), self.trader2.indicators(seed))
    }

    fn evaluate(
        &mut self,
        output: (<T1::Indicators as Indicator>::Output, <T2::Indicators as Indicator>::Output),
    ) -> (r: Option<Order>) {
        let (output1, output2) = output;
        let a = self.trader1.evaluate(output1);
        let b = self.trader2.evaluate(output2);
        agree(a, b)
    }
}

} // verus!
