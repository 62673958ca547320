use super::{agree, agreement, safe_side, safe_side_spec, Action, Order, Safe, Trader};
use crate::indicators::Indicator;
use crate::money::Monetary;
use vstd::prelude::*;

verus! {

/// Like `And`, but a single trader's move into the safe asset passes without the
/// other's agreement.
pub struct SafeAnd<T1: Trader, T2: Trader> {
    pub trader1: T1,
    pub trader2: T2,
    pub safe: Safe,
}

/// `order` is a limit order on `side`.
pub open spec fn is_limit(order: Option<Order>, side: Action) -> bool {
    match order {
        Some(Order::Limit(s, _, _)) => s == side,
        _ => false,
    }
}

/// The side that moves into the safe asset.
pub open spec fn safe_move(safe: Safe) -> Option<Action> {
    match safe {
        Safe::Base => Some(Action::Buy),
        Safe::Quote => Some(Action::Sell),
        Safe::Neither => None,
    }
}

/// Agreement first; failing that, either trader's move into the safe asset, the
/// first trader's before the second's.
pub open spec fn safe_agreement(safe: Safe, a: Option<Order>, b: Option<Order>) -> Option<Order> {
    if agreement(a, b) is Some {
        agreement(a, b)
    } else {
        match safe_move(safe) {
            Some(side) => if is_limit(a, side) {
                a
            } else if is_limit(b, side) {
                b
            } else {
                None
            },
            None => None,
        }
    }
}

fn limit_on(order: Option<Order>, side: Action) -> (r: bool)
    ensures
        r == is_limit(order, side),
{
    match order {
        Some(Order::Limit(s, _, _)) => s == side,
        _ => false,
    }
}

impl<T1: Trader, T2: Trader> SafeAnd<T1, T2> {
    pub fn initialize(trader1: T1, trader2: T2, base: &String, quote: &String, safe: &String) -> (r: SafeAnd<T1, T2>)
        requires
            trader1.wf(),
            trader2.wf(),
        ensures
            r.wf(),
            r.trader1 == trader1,
            r.trader2 == trader2,
            r.safe == safe_side_spec(base@, quote@, safe@),
    {
        SafeAnd { trader1, trader2, safe: safe_side(base, quote, safe) }
    }
}

impl<T1: Trader, T2: Trader> Trader for SafeAnd<T1, T2> {
    type Indicators = (T1::Indicators, T2::Indicators);

    open spec fn wf(&self) -> bool {
        self.trader1.wf() && self.trader2.wf()
    }

    open spec fn decide(
        &self,
        output: (<T1::Indicators as Indicator>::Output, <T2::Indicators as Indicator>::Output),
    ) -> (Self, Option<Order>) {
        let (t1, a) = self.trader1.decide(output.0);
        let (t2, b) = self.trader2.decide(output.1);
        (SafeAnd { trader1: t1, trader2: t2, safe: self.safe }, safe_agreement(self.safe, a, b))
    }

    open spec fn initial_indicators(&self, seed: Monetary) -> (T1::Indicators, T2::Indicators) {
        (self.trader1.initial_indicators(seed), self.trader2.initial_indicators(seed))
    }

    fn indicators(&self, seed: Monetary) -> (r: (T1::Indicators, T2::Indicators)) {
        (self.trader1.indicators(seed), self.trader2.indicators(seed))
    }

    fn evaluate(
        &mut self,
        output: (<T1::Indicators as Indicator>::Output, <T2::Indicators as Indicator>::Output),
    ) -> (r: Option<Order>) {
        let (output1, output2) = output;
        let a = self.trader1.evaluate(output1);
        let b = self.trader2.evaluate(output2);
        let agreed = agree(a, b);
        if agreed.is_some() {
            return agreed;
        }
        let side = match self.safe {
            Safe::Base => Action::Buy,
            Safe::Quote => Action::Sell,
            Safe::Neither => {
                return None;
            },
        };
        if limit_on(a, side) {
            a
        } else if limit_on(b, side) {
            b
        } else {
            None
        }
    }
}

} // verus!
