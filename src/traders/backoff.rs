use super::{is_trader_run, Order, Trader};
use crate::indicators::Indicator;
use crate::money::Monetary;
use vstd::prelude::*;

verus! {

/// After any decision to trade, holds for the next `period` evaluations without
/// asking the inner trader, then delegates again.
pub struct Backoff<T: Trader> {
    pub trader: T,
    pub backoff: usize,
    pub period: usize,
}

impl<T: Trader> Backoff<T> {
    pub fn initialize(trader: T, period: usize) -> (r: Backoff<T>)
        requires
            trader.wf(),
        ensures
            r.wf(),
            r.trader == trader,
            r.backoff == 0,
            r.period == period,
    {
        Backoff { trader, backoff: 0, period }
    }
}

impl<T: Trader> Trader for Backoff<T> {
    type Indicators = T::Indicators;

    open spec fn wf(&self) -> bool {
        self.trader.wf() && self.backoff <= self.period
    }

    open spec fn decide(&self, output: <T::Indicators as Indicator>::Output) -> (Self, Option<Order>) {
        if self.backoff == 0 {
            let (inner, order) = self.trader.decide(output);
            let backoff = if order is Some {
                self.period
            } else {
                0
            };
            (Backoff { trader: inner, backoff, period: self.period }, order)
        } else {
            (Backoff { trader: self.trader, backoff: (self.backoff - 1) as usize, period: self.period }, None)
        }
    }

    open spec fn initial_indicators(&self, seed: Monetary) -> T::Indicators {
        self.trader.initial_indicators(seed)
    }

    fn indicators(&self, seed: Monetary) -> (r: T::Indicators) {
        self.trader.indicators(seed)
    }

    fn evaluate(&mut self, output: <T::Indicators as Indicator>::Output) -> (r: Option<Order>) {
        if self.backoff == 0 {
            let order = self.trader.evaluate(output);
            if order.is_some() {
                self.backoff = self.period;
            }
            order
        } else {
            self.backoff = self.backoff - 1;
            None
        }
    }
}

/// After a decision to trade at step `i`, the next `period` decisions hold,
/// whatever the inner trader would have said, and the inner trader is not
/// consulted; the decision after those is the inner trader's again.
pub proof fn lemma_backoff_holds<T: Trader>(
    states: Seq<Backoff<T>>,
    outputs: Seq<<T::Indicators as Indicator>::Output>,
    decisions: Seq<Option<Order>>,
    i: int,
)
    requires
        is_trader_run(states, outputs, decisions),
        0 <= i < outputs.len(),
        decisions[i] is Some,
    ensures
        forall|j: int|
            i < j <= i + states[i].period && j < outputs.len() ==> {
                &&& #[trigger] decisions[j] is None
                &&& states[j + 1].trader == states[i + 1].trader
            },
        ({
            let j = i + states[i].period + 1;
            j < outputs.len() ==> (states[j + 1].trader, decisions[j]) == states[j].trader.decide(outputs[j])
        }),
{
    assert(states[i].decide(outputs[i]) == (states[i + 1], decisions[i]));
    let last = if i + states[i].period + 1 < outputs.len() {
        i + states[i].period + 1
    } else {
        outputs.len() as int
    };
    lemma_backoff_counts(states, outputs, decisions, i, last);
    if i + states[i].period + 1 < outputs.len() {
        let j = i + states[i].period + 1;
        assert(states[j].decide(outputs[j]) == (states[j + 1], decisions[j]));
    }
}

/// While holding back, the counter runs down one step at a time and the inner
/// trader stays as it was.
proof fn lemma_backoff_counts<T: Trader>(
    states: Seq<Backoff<T>>,
    outputs: Seq<<T::Indicators as Indicator>::Output>,
    decisions: Seq<Option<Order>>,
    i: int,
    k: int,
)
    requires
        is_trader_run(states, outputs, decisions),
        0 <= i < outputs.len(),
        decisions[i] is Some,
        i < k <= outputs.len(),
        k <= i + states[i].period + 1,
    ensures
        states[k].period == states[i].period,
        states[k].backoff == states[i].period - (k - i - 1),
        states[k].trader == states[i + 1].trader,
        forall|j: int|
            i < j < k ==> {
                &&& #[trigger] decisions[j] is None
                &&& states[j + 1].trader == states[i + 1].trader
            },
    decreases k - i,
{
    assert(states[i].decide(outputs[i]) == (states[i + 1], decisions[i]));
    if k > i + 1 {
        lemma_backoff_counts(states, outputs, decisions, i, k - 1);
        let j = k - 1;
        assert(states[j].decide(outputs[j]) == (states[j + 1], decisions[j]));
    }
}

} // verus!
