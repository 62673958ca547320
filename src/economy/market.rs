use super::symbols::MarketSymbol;
use crate::money::{Monetary, Rate, ONE};
use crate::traders::Order;
use vstd::prelude::*;

verus! {

/// The fee the exchange takes on each fill: 0.1 %.
pub const FEE: Monetary = 100_000;

/// The exchange's price rule for a market: a limit price must lie in
/// `[min_price, max_price]`, and is rounded to the nearest step of `tick_size`
/// above `min_price`.
#[derive(Debug, Clone, Copy, PartialEq, Eq, Structural)]
pub struct PriceFilter {
    pub min_price: Monetary,
    pub max_price: Monetary,
    pub tick_size: Monetary,
}

/// `price` rounded, halves away from zero, to `min + n * tick` for a whole `n`.
pub open spec fn rounded_price(f: PriceFilter, price: Monetary) -> int {
    let offset = price - f.min_price;
    f.min_price + ((2 * offset + f.tick_size) / (2 * f.tick_size)) * f.tick_size
}

/// What the filter makes of `order`; `None` where it rejects it.
pub open spec fn filtered(f: PriceFilter, order: Order) -> Option<Order> {
    match order {
        Order::Limit(side, quantity, price) => if price < f.min_price || price > f.max_price {
            None
        } else if rounded_price(f, price) > i64::MAX {
            None
        } else {
            Some(Order::Limit(side, quantity, rounded_price(f, price) as i64))
        },
        Order::Market(_, _) => Some(order),
    }
}

impl PriceFilter {
    pub open spec fn wf(&self) -> bool {
        self.tick_size > 0 && self.min_price <= self.max_price
    }

    pub fn apply(&self, order: Order) -> (r: Result<Order, ()>)
        requires
            self.wf(),
        ensures
            r matches Ok(o) ==> filtered(*self, order) == Some(o),
            r is Err ==> filtered(*self, order) is None,
    {
        match order {
            Order::Limit(side, quantity, price) => {
                if price < self.min_price || price > self.max_price {
                    return Err(());
                }
                let offset: i128 = price as i128 - self.min_price as i128;
                let tick: i128 = self.tick_size as i128;
                let steps: i128 = (2 * offset + tick) / (2 * tick);
                proof {
                    crate::money::lemma_scaled_div(2 * offset + tick, 1, 2 * tick);
                    vstd::arithmetic::div_mod::lemma_fundamental_div_mod(2 * offset + tick, 2 * tick);
                    vstd::arithmetic::div_mod::lemma_mod_bound(2 * offset + tick, 2 * tick);
                    assert(0 <= steps * tick <= offset + tick) by (nonlinear_arith)
                        requires
                            0 <= steps,
                            tick > 0,
                            offset >= 0,
                            2 * offset + tick == (2 * tick) * steps + (2 * offset + tick) % (2 * tick),
                            (2 * offset + tick) % (2 * tick) >= 0,
                    ;
                }
                let rounded: i128 = self.min_price as i128 + steps * tick;
                if rounded > i64::MAX as i128 {
                    return Err(());
                }
                Ok(Order::Limit(side, quantity, rounded as i64))
            },
            Order::Market(_, _) => Ok(order),
        }
    }
}

/// The filters applied in turn; `None` once one rejects.
pub open spec fn filtered_all(filters: Seq<PriceFilter>, order: Order) -> Option<Order>
    decreases filters.len(),
{
    if filters.len() == 0 {
        Some(order)
    } else {
        match filtered_all(filters.drop_last(), order) {
            Some(o) => filtered(filters.last(), o),
            None => None,
        }
    }
}

/// A market between a base and a quote asset, given by their handles in the ledger.
#[derive(Debug)]
pub struct Market {
    pub symbol: MarketSymbol,
    pub value: Option<Monetary>,
    pub base: usize,
    pub quote: usize,
    pub fee: Monetary,
    pub filters: Vec<PriceFilter>,
}

impl Market {
    /// Prices are never negative; the fee is a fraction below one; filters are consistent.
    pub open spec fn wf(&self) -> bool {
        &&& 0 <= self.fee < ONE
        &&& self.value matches Some(v) ==> v >= 0
        &&& forall|i: int| 0 <= i < self.filters@.len() ==> (#[trigger] self.filters@[i]).wf()
    }

    /// The rate for selling one base unit for quote, net of the fee:
    /// `value * (1 - fee)`.
    pub open spec fn base_to_quote_spec(&self) -> Option<Rate> {
        match self.value {
            Some(v) => Some(Rate { num: (v * (ONE - self.fee)) as i128, den: (ONE * ONE) as i128 }),
            None => None,
        }
    }

    /// The rate for buying base with one quote unit, net of the fee:
    /// `(1 / value) * (1 - fee)`; undefined at a zero price.
    pub open spec fn quote_to_base_spec(&self) -> Option<Rate> {
        match self.value {
            Some(v) => if v > 0 {
                Some(Rate { num: (ONE - self.fee) as i128, den: v as i128 })
            } else {
                None
            },
            None => None,
        }
    }

    pub fn new(symbol: (String, String), base: usize, quote: usize) -> (r: Market)
        ensures
            r.wf(),
            r.symbol.symbol@ == symbol.0@ + symbol.1@,
            r.symbol.base.symbol@ == symbol.0@,
            r.symbol.quote.symbol@ == symbol.1@,
            r.value is None,
            r.base == base,
            r.quote == quote,
            r.fee == FEE,
            r.filters@.len() == 0,
    {
        Market {
            symbol: MarketSymbol::from_pair(symbol.0.as_str(), symbol.1.as_str()),
            value: None,
            base,
            quote,
            fee: FEE,
            filters: Vec::new(),
        }
    }

    pub fn get_symbol(&self) -> (r: &MarketSymbol)
        ensures
            r == &self.symbol,
    {
        &self.symbol
    }

    pub fn get_value(&self) -> (r: Option<Monetary>)
        ensures
            r == self.value,
    {
        self.value
    }

    pub fn base_to_quote(&self) -> (r: Option<Rate>)
        requires
            self.wf(),
        ensures
            r == self.base_to_quote_spec(),
            r matches Some(rate) ==> rate.wf(),
    {
        match self.value {
            Some(v) => {
                assert(0 <= v * (ONE - self.fee) <= crate::money::MAX_RATE_NUM) by (nonlinear_arith)
                    requires
                        0 <= v <= i64::MAX,
                        0 < ONE - self.fee <= ONE,
                ;
                Some(Rate { num: v as i128 * (ONE - self.fee) as i128, den: ONE as i128 * ONE as i128 })
            },
            None => None,
        }
    }

    pub fn quote_to_base(&self) -> (r: Option<Rate>)
        requires
            self.wf(),
        ensures
            r == self.quote_to_base_spec(),
            r matches Some(rate) ==> rate.wf(),
    {
        match self.value {
            Some(v) => if v > 0 {
                Some(Rate { num: (ONE - self.fee) as i128, den: v as i128 })
            } else {
                None
            },
            None => None,
        }
    }

    /// Records the latest price, which is never negative.
    pub fn set_value(&mut self, value: Monetary)
        requires
            old(self).wf(),
            value >= 0,
        ensures
            final(self).wf(),
            final(self).value == Some(value),
            final(self).symbol == old(self).symbol,
            final(self).base == old(self).base,
            final(self).quote == old(self).quote,
            final(self).fee == old(self).fee,
            final(self).filters == old(self).filters,
    {
        self.value = Some(value);
    }

    pub fn get_base(&self) -> (r: usize)
        ensures
            r == self.base,
    {
        self.base
    }

    pub fn get_quote(&self) -> (r: usize)
        ensures
            r == self.quote,
    {
        self.quote
    }

    pub fn get_fee(&self) -> (r: Monetary)
        ensures
            r == self.fee,
    {
        self.fee
    }

    /// Runs `order` through the market's filters in order; the first rejection ends it.
    pub fn apply_filters(&self, order: Order) -> (r: Result<Order, ()>)
        requires
            self.wf(),
        ensures
            r matches Ok(o) ==> filtered_all(self.filters@, order) == Some(o),
            r is Err ==> filtered_all(self.filters@, order) is None,
    {
        let mut output: Order = order;
        let mut i: usize = 0;
        while i < self.filters.len()
            invariant
                self.wf(),
                i <= self.filters@.len(),
                filtered_all(self.filters@.subrange(0, i as int), order) == Some(output),
            decreases self.filters@.len() - i,
        {
            proof {
                assert(self.filters@.subrange(0, i + 1).drop_last() =~= self.filters@.subrange(0, i as int));
            }
            match self.filters[i].apply(output) {
                Ok(o) => {
                    output = o;
                },
                Err(()) => {
                    proof {
                        lemma_rejection_stays(self.filters@, i as int + 1, order);
                    }
                    return Err(());
                },
            }
            i = i + 1;
        }
        proof {
            assert(self.filters@.subrange(0, self.filters@.len() as int) =~= self.filters@);
        }
        Ok(output)
    }
}

/// Once a filter has rejected an order, the rest of the chain rejects it too.
proof fn lemma_rejection_stays(filters: Seq<PriceFilter>, k: int, order: Order)
    requires
        0 <= k <= filters.len(),
        filtered_all(filters.subrange(0, k), order) is None,
    ensures
        filtered_all(filters, order) is None,
    decreases filters.len() - k,
{
    if k < filters.len() {
        assert(filters.subrange(0, k + 1).drop_last() =~= filters.subrange(0, k));
        lemma_rejection_stays(filters, k + 1, order);
    } else {
        assert(filters.subrange(0, k) =~= filters);
    }
}

} // verus!
