pub mod asset;
pub mod market;
pub mod symbols;

pub use asset::Asset;
pub use market::{Market, PriceFilter};
pub use symbols::{str_eq, AssetSymbol, MarketSymbol};

use crate::indicators::Indicator;
use crate::environments::{Event, OrderRecord};
use crate::money::{clamp, convert, converted, fixed_mul, mul_fixed, sat_add, scale, scaled, tdiv, Monetary, Rate, ONE};
use market::filtered_all;
use crate::traders::{Action, Order, Trader};
use vstd::prelude::*;

verus! {

/// Why the ledger refused an event. The ledger is unchanged when it does.
#[derive(Debug, Clone, Copy, PartialEq, Eq, Structural)]
pub enum LedgerError {
    /// No market has the symbol an event names.
    UnknownMarket,
    /// A price below zero.
    NegativePrice,
    /// A balance would fall below zero.
    NegativeBalance,
    /// A balance would not fit in an amount.
    Overflow,
}

/// What the control loop is to do after an event: nothing, submit orders (by
/// market handle), or persist the balances (by asset name).
#[derive(Debug)]
pub enum Effect {
    Nothing,
    Submit(Vec<(usize, Order)>),
    Persist(Vec<(String, Monetary)>),
}

/// The changes a fill of `quantity` at `price` makes to the base and the quote
/// balance, net of the fee: a buy adds `quantity * (1 - fee)` base and costs
/// `quantity * price` quote; a sell gives `quantity` base for `quantity * price * (1 - fee)` quote.
pub open spec fn fill_deltas(fee: Monetary, side: Action, quantity: Monetary, price: Monetary) -> (int, int) {
    match side {
        Action::Buy => (tdiv(quantity * (ONE - fee), ONE as int), -tdiv(quantity * price, ONE as int)),
        Action::Sell => (-quantity, tdiv(tdiv(quantity * price, ONE as int) * (ONE - fee), ONE as int)),
    }
}

/// A trader's step on one market: without a price nothing happens; on the first
/// price the trader's indicators are set up, seeded with it, and the trader holds; after that the indicators
/// take the price and the trader decides on their output.
pub open spec fn stepped<T: Trader>(
    before: (T, Option<T::Indicators>),
    value: Option<Monetary>,
    after: (T, Option<T::Indicators>),
    action: Option<Order>,
) -> bool {
    match value {
        None => after == before && action is None,
        Some(v) => match before.1 {
            None => after.0 == before.0 && after.1 == Some(before.0.initial_indicators(v)) && action is None,
            Some(ind) => after.1 is Some && exists|out: <T::Indicators as Indicator>::Output|
                #[trigger] ind.next(v, &after.1->0, out) && before.0.decide(out) == (after.0, action),
        },
    }
}

/// The ledger: markets, assets and their balances, and one trader (with its
/// indicators, once the market has a price) per market.
pub struct Economy<T: Trader> {
    pub markets: Vec<Market>,
    pub assets: Vec<Asset>,
    pub traders: Vec<(T, Option<T::Indicators>)>,
    pub reference_asset: usize,
}

impl<T: Trader> Economy<T> {
    /// The name of asset `i`.
    pub open spec fn name(&self, i: int) -> Seq<char> {
        self.assets@[i].symbol.symbol@
    }

    /// Markets, assets and balances are consistent: handles are in range, names
    /// are unique, a market is named after its base and quote (two distinct
    /// assets), and no balance is negative.
    pub open spec fn ledger_wf(&self) -> bool {
        &&& self.reference_asset < self.assets@.len()
        &&& assets_wf(self.assets@)
        &&& markets_wf(self.markets@, self.assets@)
    }

    pub open spec fn market_wf(&self, market: Market) -> bool {
        market_fits(market, self.assets@)
    }

    /// One trader per market, each consistent, with consistent indicators.
    pub open spec fn traders_wf(&self) -> bool {
        &&& self.traders@.len() == self.markets@.len()
        &&& forall|m: int| 0 <= m < self.traders@.len() ==> trader_entry_wf(#[trigger] self.traders@[m])
    }

    pub open spec fn wf(&self) -> bool {
        self.ledger_wf() && self.traders_wf()
    }

    /// The first asset named `s`, among the first `n`.
    pub open spec fn find_asset_upto(&self, s: Seq<char>, n: int) -> Option<int>
        decreases n,
    {
        if n <= 0 {
            None
        } else {
            match self.find_asset_upto(s, n - 1) {
                Some(i) => Some(i),
                None => if self.name(n - 1) == s {
                    Some(n - 1)
                } else {
                    None
                },
            }
        }
    }

    pub open spec fn find_asset_spec(&self, s: Seq<char>) -> Option<int> {
        self.find_asset_upto(s, self.assets@.len() as int)
    }

    /// The first market whose symbol is `s`, among the first `n`.
    pub open spec fn find_market_upto(&self, s: Seq<char>, n: int) -> Option<int>
        decreases n,
    {
        if n <= 0 {
            None
        } else {
            match self.find_market_upto(s, n - 1) {
                Some(i) => Some(i),
                None => if self.markets@[n - 1].symbol.symbol@ == s {
                    Some(n - 1)
                } else {
                    None
                },
            }
        }
    }

    pub open spec fn find_market_spec(&self, s: Seq<char>) -> Option<int> {
        self.find_market_upto(s, self.markets@.len() as int)
    }

    /// A ledger holding only the reference asset, at a zero balance.
    pub fn new(reference: String) -> (r: Economy<T>)
        ensures
            r.wf(),
            r.assets@.len() == 1,
            r.name(0) == reference@,
            r.assets@[0].balance == 0,
            r.reference_asset == 0,
            r.markets@.len() == 0,
    {
        let mut assets: Vec<Asset> = Vec::new();
        assets.push(Asset::new(reference));
        Economy { markets: Vec::new(), assets, traders: Vec::new(), reference_asset: 0 }
    }

    pub fn get_asset(&self, symbol: &str) -> (r: Option<usize>)
        requires
            self.ledger_wf(),
        ensures
            r matches Some(i) ==> self.find_asset_spec(symbol@) == Some(i as int),
            r is None ==> self.find_asset_spec(symbol@) is None,
    {
        let mut i: usize = 0;
        while i < self.assets.len()
            invariant
                i <= self.assets@.len(),
                self.find_asset_upto(symbol@, i as int) is None,
            decreases self.assets@.len() - i,
        {
            if str_eq(self.assets[i].symbol.symbol.as_str(), symbol) {
                proof {
                    self.lemma_find_asset_stays(symbol@, i + 1, self.assets@.len() as int);
                }
                return Some(i);
            }
            i = i + 1;
        }
        None
    }

    pub fn get_market(&self, symbol: &str) -> (r: Option<usize>)
        requires
            self.ledger_wf(),
        ensures
            r matches Some(i) ==> self.find_market_spec(symbol@) == Some(i as int),
            r is None ==> self.find_market_spec(symbol@) is None,
    {
        let mut i: usize = 0;
        while i < self.markets.len()
            invariant
                i <= self.markets@.len(),
                self.find_market_upto(symbol@, i as int) is None,
            decreases self.markets@.len() - i,
        {
            if str_eq(self.markets[i].symbol.symbol.as_str(), symbol) {
                proof {
                    self.lemma_find_market_stays(symbol@, i + 1, self.markets@.len() as int);
                }
                return Some(i);
            }
            i = i + 1;
        }
        None
    }

    /// A search that has found its first match keeps it as the range grows.
    pub proof fn lemma_find_asset_stays(&self, s: Seq<char>, i: int, k: int)
        requires
            self.find_asset_upto(s, i) is Some,
            i <= k,
        ensures
            self.find_asset_upto(s, k) == self.find_asset_upto(s, i),
        decreases k - i,
    {
        if i < k {
            self.lemma_find_asset_stays(s, i, k - 1);
        }
    }

    pub proof fn lemma_find_market_stays(&self, s: Seq<char>, i: int, k: int)
        requires
            self.find_market_upto(s, i) is Some,
            i <= k,
        ensures
            self.find_market_upto(s, k) == self.find_market_upto(s, i),
        decreases k - i,
    {
        if i < k {
            self.lemma_find_market_stays(s, i, k - 1);
        }
    }

    /// What a search finds is in range and matches.
    pub proof fn lemma_find_asset_some(&self, s: Seq<char>, n: int)
        requires
            self.find_asset_upto(s, n) is Some,
        ensures
            0 <= self.find_asset_upto(s, n)->0 < n,
            self.name(self.find_asset_upto(s, n)->0) == s,
        decreases n,
    {
        if n > 0 && self.find_asset_upto(s, n - 1) is Some {
            self.lemma_find_asset_some(s, n - 1);
        }
    }

    pub proof fn lemma_find_market_some(&self, s: Seq<char>, n: int)
        requires
            self.find_market_upto(s, n) is Some,
        ensures
            0 <= self.find_market_upto(s, n)->0 < n,
            self.markets@[self.find_market_upto(s, n)->0].symbol.symbol@ == s,
        decreases n,
    {
        if n > 0 && self.find_market_upto(s, n - 1) is Some {
            self.lemma_find_market_some(s, n - 1);
        }
    }

    /// The market search reads the markets alone.
    pub proof fn lemma_find_market_same(&self, other: &Self, s: Seq<char>, n: int)
        requires
            self.markets@ == other.markets@,
        ensures
            self.find_market_upto(s, n) == other.find_market_upto(s, n),
        decreases n,
    {
        if n > 0 {
            self.lemma_find_market_same(other, s, n - 1);
        }
    }

    /// A search that finds nothing has passed no match.
    pub proof fn lemma_find_asset_none(&self, s: Seq<char>, n: int)
        requires
            self.find_asset_upto(s, n) is None,
        ensures
            forall|j: int| 0 <= j < n ==> self.name(j) != s,
        decreases n,
    {
        if n > 0 {
            self.lemma_find_asset_none(s, n - 1);
        }
    }

    pub proof fn lemma_find_market_none(&self, s: Seq<char>, n: int)
        requires
            self.find_market_upto(s, n) is None,
        ensures
            forall|j: int| 0 <= j < n ==> self.markets@[j].symbol.symbol@ != s,
        decreases n,
    {
        if n > 0 {
            self.lemma_find_market_none(s, n - 1);
        }
    }

    /// The handle of the asset named `symbol`, registered with a zero balance if it is new.
    pub fn add_asset(&mut self, symbol: String) -> (r: usize)
        requires
            old(self).ledger_wf(),
        ensures
            final(self).ledger_wf(),
            final(self).markets == old(self).markets,
            final(self).traders == old(self).traders,
            final(self).reference_asset == old(self).reference_asset,
            r < final(self).assets@.len(),
            final(self).name(r as int) == symbol@,
            old(self).assets@ == final(self).assets@.subrange(0, old(self).assets@.len() as int),
            forall|i: int|
                old(self).assets@.len() <= i < final(self).assets@.len() ==> (#[trigger] final(self).assets@[i]).balance
                    == 0,
            old(self).find_asset_spec(symbol@) matches Some(i) ==> r == i && final(self).assets@ == old(self).assets@,
            old(self).find_asset_spec(symbol@) is None ==> {
                &&& r == old(self).assets@.len()
                &&& final(self).assets@.len() == old(self).assets@.len() + 1
                &&& final(self).assets@[r as int].balance == 0
            },
    {
        match self.get_asset(symbol.as_str()) {
            Some(i) => {
                proof {
                    self.lemma_find_asset_some(symbol@, self.assets@.len() as int);
                }
                assert(self.assets@ =~= self.assets@.subrange(0, self.assets@.len() as int));
                i
            },
            None => {
                proof {
                    self.lemma_find_asset_none(symbol@, self.assets@.len() as int);
                }
                let ghost before = *self;
                let index = self.assets.len();
                self.assets.push(Asset::new(symbol));
                proof {
                    assert(before.assets@ =~= self.assets@.subrange(0, before.assets@.len() as int));
                    assert forall|i: int| 0 <= i < before.assets@.len() implies self.name(i) == before.name(i) by {
                        assert(self.assets@[i] == before.assets@[i]);
                    }
                    assert forall|i: int, j: int|
                        0 <= i < self.assets@.len() && 0 <= j < self.assets@.len() && i != j implies (
                        #[trigger] self.assets@[i]).symbol.symbol@ != (#[trigger] self.assets@[j]).symbol.symbol@ by {
                        if i < before.assets@.len() && j < before.assets@.len() {
                            assert(before.name(i) != before.name(j));
                        } else if i < before.assets@.len() {
                            assert(before.name(i) != symbol@);
                        } else {
                            assert(before.name(j) != symbol@);
                        }
                    }
                    assert forall|i: int| 0 <= i < self.assets@.len() implies (#[trigger] self.assets@[i]).balance >= 0 by {
                        if i < before.assets@.len() {
                            assert(before.assets@[i].balance >= 0);
                        }
                    }
                    assert forall|m: int| 0 <= m < self.markets@.len() implies self.market_wf(
                        #[trigger] self.markets@[m],
                    ) by {
                        assert(before.market_wf(before.markets@[m]));
                    }
                }
                index
            },
        }
    }

    /// Registers the market trading `base` against `quote`, with `trader` deciding
    /// for it, and returns its handle; the handle of the existing market if one
    /// already has its symbol (and `trader` is then dropped). A market trades two
    /// distinct assets: `None` when `base` and `quote` are the same.
    pub fn add_market(&mut self, base: String, quote: String, trader: T) -> (r: Option<usize>)
        requires
            old(self).wf(),
            trader.wf(),
        ensures
            final(self).wf(),
            final(self).reference_asset == old(self).reference_asset,
            r is None <==> base@ == quote@,
            r is None ==> *final(self) == *old(self),
            r matches Some(m) ==> {
                &&& m < final(self).markets@.len()
                &&& final(self).markets@[m as int].symbol.symbol@ == base@ + quote@
                &&& old(self).find_market_spec(base@ + quote@) matches Some(i) ==> m == i && final(self).markets
                    == old(self).markets && final(self).traders == old(self).traders
                &&& old(self).find_market_spec(base@ + quote@) is None ==> {
                    &&& m == old(self).markets@.len()
                    &&& final(self).markets@.len() == m + 1
                    &&& final(self).name(final(self).markets@[m as int].base as int) == base@
                    &&& final(self).name(final(self).markets@[m as int].quote as int) == quote@
                    &&& final(self).markets@[m as int].value is None
                    &&& final(self).markets@[m as int].fee == market::FEE
                    &&& final(self).traders@[m as int] == (trader, None::<T::Indicators>)
                }
            },
            final(self).markets@.len() >= old(self).markets@.len(),
            forall|m: int| 0 <= m < old(self).markets@.len() ==> final(self).markets@[m] == old(self).markets@[m],
            forall|m: int| 0 <= m < old(self).traders@.len() ==> final(self).traders@[m] == old(self).traders@[m],
            forall|i: int| 0 <= i < old(self).assets@.len() ==> final(self).assets@[i] == old(self).assets@[i],
            final(self).assets@.len() >= old(self).assets@.len(),
            forall|i: int|
                old(self).assets@.len() <= i < final(self).assets@.len() ==> (#[trigger] final(self).assets@[i]).balance
                    == 0,
    {
        if base.eq(&quote) {
            return None;
        }
        let ghost start = *self;
        let b = self.add_asset(base.clone());
        let ghost middle = *self;
        let q = self.add_asset(quote.clone());
        proof {
            assert(self.assets@[b as int] == middle.assets@[b as int]);
            assert(middle.assets@.len() >= start.assets@.len());
            assert forall|i: int| 0 <= i < start.assets@.len() implies self.assets@[i] == start.assets@[i] by {
                assert(middle.assets@[i] == start.assets@[i]);
            }
        }
        let market = Market::new((base, quote), b, q);
        assert(self.market_wf(market));
        proof {
            self.lemma_find_market_same(&start, market.symbol.symbol@, self.markets@.len() as int);
        }
        match self.get_market(market.symbol.symbol.as_str()) {
            Some(m) => {
                proof {
                    self.lemma_find_market_some(market.symbol.symbol@, self.markets@.len() as int);
                }
                Some(m)
            },
            None => {
                proof {
                    self.lemma_find_market_none(market.symbol.symbol@, self.markets@.len() as int);
                }
                let ghost before = *self;
                let index = self.markets.len();
                self.markets.push(market);
                self.traders.push((trader, None));
                proof {
                    assert forall|m: int| 0 <= m < self.markets@.len() implies self.market_wf(
                        #[trigger] self.markets@[m],
                    ) by {
                        if m < before.markets@.len() {
                            assert(before.market_wf(before.markets@[m]));
                        }
                    }
                    assert forall|m: int, n: int|
                        0 <= m < self.markets@.len() && 0 <= n < self.markets@.len() && m != n
                            implies (#[trigger] self.markets@[m]).symbol.symbol@ != (
                        #[trigger] self.markets@[n]).symbol.symbol@ by {
                        if m < before.markets@.len() && n < before.markets@.len() {
                            assert(before.markets@[m].symbol.symbol@ != before.markets@[n].symbol.symbol@);
                        }
                    }
                    assert forall|m: int| 0 <= m < self.traders@.len() implies trader_entry_wf(
                        #[trigger] self.traders@[m],
                    ) by {
                        if m < before.traders@.len() {
                            assert(trader_entry_wf(before.traders@[m]));
                        }
                    }
                }
                Some(index)
            },
        }
    }

    /// Market `m` trades `a` (base) against `b` (quote).
    pub open spec fn pair_at(&self, m: int, a: Seq<char>, b: Seq<char>) -> bool {
        self.name(self.markets@[m].base as int) == a && self.name(self.markets@[m].quote as int) == b
    }

    /// The first market trading `a` against `b`, among the first `n`.
    pub open spec fn find_pair_upto(&self, a: Seq<char>, b: Seq<char>, n: int) -> Option<int>
        decreases n,
    {
        if n <= 0 {
            None
        } else {
            match self.find_pair_upto(a, b, n - 1) {
                Some(i) => Some(i),
                None => if self.pair_at(n - 1, a, b) {
                    Some(n - 1)
                } else {
                    None
                },
            }
        }
    }

    pub open spec fn find_pair_spec(&self, a: Seq<char>, b: Seq<char>) -> Option<int> {
        self.find_pair_upto(a, b, self.markets@.len() as int)
    }

    pub proof fn lemma_find_pair_stays(&self, a: Seq<char>, b: Seq<char>, i: int, k: int)
        requires
            self.find_pair_upto(a, b, i) is Some,
            i <= k,
        ensures
            self.find_pair_upto(a, b, k) == self.find_pair_upto(a, b, i),
        decreases k - i,
    {
        if i < k {
            self.lemma_find_pair_stays(a, b, i, k - 1);
        }
    }

    pub proof fn lemma_find_pair_some(&self, a: Seq<char>, b: Seq<char>, n: int)
        requires
            self.find_pair_upto(a, b, n) is Some,
        ensures
            0 <= self.find_pair_upto(a, b, n)->0 < n,
            self.pair_at(self.find_pair_upto(a, b, n)->0, a, b),
        decreases n,
    {
        if n > 0 && self.find_pair_upto(a, b, n - 1) is Some {
            self.lemma_find_pair_some(a, b, n - 1);
        }
    }

    /// The rate of the market trading `a` against `b`, if it has a price.
    pub open spec fn direct_rate(&self, a: Seq<char>, b: Seq<char>) -> Option<Rate> {
        match self.find_pair_spec(a, b) {
            Some(m) => self.markets@[m].base_to_quote_spec(),
            None => None,
        }
    }

    /// The inverse rate of the market trading `b` against `a`, if it has a non-zero price.
    pub open spec fn inverse_rate(&self, a: Seq<char>, b: Seq<char>) -> Option<Rate> {
        match self.find_pair_spec(b, a) {
            Some(m) => self.markets@[m].quote_to_base_spec(),
            None => None,
        }
    }

    /// What one unit of `a` is worth in `b`: one if they are the same asset; else
    /// by the direct market, else by the inverse market, else nothing. Only one hop
    /// is ever tried.
    pub open spec fn rate_spec(&self, a: Seq<char>, b: Seq<char>) -> Rate {
        if a == b {
            Rate::identity()
        } else if let Some(r) = self.direct_rate(a, b) {
            r
        } else if let Some(r) = self.inverse_rate(a, b) {
            r
        } else {
            Rate::zero()
        }
    }

    /// The value of the first `k` assets in the reference asset, counting only
    /// positive balances, saturated.
    pub open spec fn total_upto(&self, k: int) -> int
        decreases k,
    {
        if k <= 0 {
            0
        } else {
            let t = self.total_upto(k - 1);
            let balance = self.assets@[k - 1].balance;
            if balance > 0 {
                clamp(t + converted(balance, self.rate_spec(self.name(k - 1), self.name(self.reference_asset as int))))
            } else {
                t
            }
        }
    }

    /// The value of the whole portfolio in the reference asset.
    pub open spec fn total_spec(&self) -> Monetary {
        self.total_upto(self.assets@.len() as int) as i64
    }

    pub fn find_pair(&self, a: &str, b: &str) -> (r: Option<usize>)
        requires
            self.ledger_wf(),
        ensures
            r matches Some(i) ==> self.find_pair_spec(a@, b@) == Some(i as int),
            r is None ==> self.find_pair_spec(a@, b@) is None,
    {
        let mut i: usize = 0;
        while i < self.markets.len()
            invariant
                self.ledger_wf(),
                i <= self.markets@.len(),
                self.find_pair_upto(a@, b@, i as int) is None,
            decreases self.markets@.len() - i,
        {
            assert(self.market_wf(self.markets@[i as int]));
            let market = &self.markets[i];
            if str_eq(self.assets[market.base].symbol.symbol.as_str(), a) && str_eq(
                self.assets[market.quote].symbol.symbol.as_str(),
                b,
            ) {
                proof {
                    self.lemma_find_pair_stays(a@, b@, i + 1, self.markets@.len() as int);
                }
                return Some(i);
            }
            i = i + 1;
        }
        None
    }

    /// What one unit of `from` is worth in `to`.
    pub fn value_from_to(&self, from: &str, to: &str) -> (r: Rate)
        requires
            self.ledger_wf(),
        ensures
            r == self.rate_spec(from@, to@),
            r.wf(),
    {
        if str_eq(from, to) {
            return Rate { num: 1, den: 1 };
        }
        if let Some(m) = self.find_pair(from, to) {
            proof {
                self.lemma_find_pair_some(from@, to@, self.markets@.len() as int);
                assert(self.market_wf(self.markets@[m as int]));
            }
            if let Some(rate) = self.markets[m].base_to_quote() {
                return rate;
            }
        }
        if let Some(m) = self.find_pair(to, from) {
            proof {
                self.lemma_find_pair_some(to@, from@, self.markets@.len() as int);
                assert(self.market_wf(self.markets@[m as int]));
            }
            if let Some(rate) = self.markets[m].quote_to_base() {
                return rate;
            }
        }
        Rate { num: 0, den: 1 }
    }

    /// The value of the whole portfolio in the reference asset: the sum over assets
    /// with a positive balance of the balance times its rate to the reference asset.
    pub fn total_balance(&self) -> (r: Monetary)
        requires
            self.ledger_wf(),
        ensures
            r == self.total_spec(),
            r >= 0,
    {
        let reference = self.assets[self.reference_asset].symbol.symbol.as_str();
        let mut total: Monetary = 0;
        let mut i: usize = 0;
        while i < self.assets.len()
            invariant
                self.ledger_wf(),
                reference@ == self.name(self.reference_asset as int),
                i <= self.assets@.len(),
                total == self.total_upto(i as int),
                total >= 0,
            decreases self.assets@.len() - i,
        {
            let balance = self.assets[i].balance;
            if balance > 0 {
                let rate = self.value_from_to(self.assets[i].symbol.symbol.as_str(), reference);
                let worth = convert(balance, rate);
                proof {
                    assert(balance * rate.num >= 0) by (nonlinear_arith)
                        requires
                            balance > 0,
                            rate.num >= 0,
                    ;
                    crate::money::lemma_tdiv_shrinks(balance * rate.num, rate.den as int);
                }
                total = sat_add(total, worth);
            }
            i = i + 1;
        }
        total
    }

    /// Valuing an asset in itself gives exactly one.
    pub proof fn lemma_value_of_self(&self, x: Seq<char>)
        ensures
            self.rate_spec(x, x) == Rate::identity(),
    {
    }

    /// Exchanging `a` for `b` and back through the one market that trades `a`
    /// against `b` (at a positive price, with no priced market the other way)
    /// multiplies by `(1 - fee)^2`: exactly one without a fee, less than one with one.
    pub proof fn lemma_round_trip(&self, a: Seq<char>, b: Seq<char>)
        requires
            self.ledger_wf(),
            self.find_pair_spec(a, b) matches Some(m) && self.markets@[m].value matches Some(p) && p > 0,
            self.direct_rate(b, a) is None,
        ensures
            ({
                let fee = self.markets@[self.find_pair_spec(a, b)->0].fee;
                let there = self.rate_spec(a, b);
                let back = self.rate_spec(b, a);
                &&& fee == 0 ==> there.num * back.num == there.den * back.den
                &&& fee > 0 ==> there.num * back.num < there.den * back.den
            }),
    {
        let m = self.find_pair_spec(a, b)->0;
        self.lemma_find_pair_some(a, b, self.markets@.len() as int);
        assert(self.market_wf(self.markets@[m]));
        let market = self.markets@[m];
        let p = market.value->0;
        let f = market.fee;
        assert(a != b) by {
            assert(market.base != market.quote);
            if a == b {
                assert(self.name(market.base as int) == self.name(market.quote as int));
            }
        }
        let there = self.rate_spec(a, b);
        let back = self.rate_spec(b, a);
        assert(there == Rate { num: (p * (ONE - f)) as i128, den: (ONE * ONE) as i128 });
        assert(back == Rate { num: (ONE - f) as i128, den: p as i128 });
        assert(0 <= p * (ONE - f) <= 0x1_0000_0000_0000_0000_0000_0000) by (nonlinear_arith)
            requires
                0 < p <= i64::MAX,
                0 < ONE - f <= ONE,
        ;
        assert(there.num * back.num == p * ((ONE - f) * (ONE - f))) by (nonlinear_arith)
            requires
                there.num == p * (ONE - f),
                back.num == ONE - f,
        ;
        assert(there.den * back.den == p * (ONE * ONE)) by (nonlinear_arith)
            requires
                there.den == ONE * ONE,
                back.den == p,
        ;
        if f > 0 {
            assert(p * ((ONE - f) * (ONE - f)) < p * (ONE * ONE)) by (nonlinear_arith)
                requires
                    0 < f < ONE,
                    p > 0,
            ;
        }
    }

    /// Records the price of the market named `symbol`; an unknown market is ignored.
    pub fn set_market_value(&mut self, symbol: &str, value: Monetary) -> (r: bool)
        requires
            old(self).wf(),
            value >= 0,
        ensures
            final(self).wf(),
            final(self).assets == old(self).assets,
            final(self).traders == old(self).traders,
            final(self).reference_asset == old(self).reference_asset,
            r == old(self).find_market_spec(symbol@) is Some,
            old(self).find_market_spec(symbol@) matches Some(m) ==> final(self).markets@ == old(self).markets@.update(
                m,
                Market { value: Some(value), ..old(self).markets@[m] },
            ),
            old(self).find_market_spec(symbol@) is None ==> final(self).markets == old(self).markets,
    {
        match self.get_market(symbol) {
            Some(m) => {
                proof {
                    self.lemma_find_market_some(symbol@, self.markets@.len() as int);
                    assert(self.market_wf(self.markets@[m as int]));
                }
                let ghost before = *self;
                let mut market = self.markets.remove(m);
                market.set_value(value);
                self.markets.insert(m, market);
                proof {
                    assert(self.markets@ =~= before.markets@.update(m as int, market));
                    assert forall|k: int| 0 <= k < self.markets@.len() implies self.market_wf(#[trigger] self.markets@[k]) by {
                        assert(before.market_wf(before.markets@[k]));
                    }
                    assert forall|k: int, n: int|
                        0 <= k < self.markets@.len() && 0 <= n < self.markets@.len() && k != n
                            implies (#[trigger] self.markets@[k]).symbol.symbol@ != (
                        #[trigger] self.markets@[n]).symbol.symbol@ by {
                        assert(before.markets@[k].symbol.symbol@ != before.markets@[n].symbol.symbol@);
                    }
                }
                true
            },
            None => false,
        }
    }

    /// Overwrites the balance of the asset named `symbol`; an unknown asset is ignored.
    pub fn set_asset_balance(&mut self, symbol: &str, balance: Monetary) -> (r: bool)
        requires
            old(self).wf(),
            balance >= 0,
        ensures
            final(self).wf(),
            final(self).markets == old(self).markets,
            final(self).traders == old(self).traders,
            final(self).reference_asset == old(self).reference_asset,
            r == old(self).find_asset_spec(symbol@) is Some,
            old(self).find_asset_spec(symbol@) matches Some(i) ==> final(self).assets@ == old(self).assets@.update(
                i,
                Asset { balance, ..old(self).assets@[i] },
            ),
            old(self).find_asset_spec(symbol@) is None ==> final(self).assets == old(self).assets,
    {
        match self.get_asset(symbol) {
            Some(i) => {
                proof {
                    self.lemma_find_asset_some(symbol@, self.assets@.len() as int);
                }
                self.replace_balance(i, balance);
                true
            },
            None => false,
        }
    }

    /// Sets the balance of asset `i`.
    fn replace_balance(&mut self, i: usize, balance: Monetary)
        requires
            old(self).wf(),
            i < old(self).assets@.len(),
            balance >= 0,
        ensures
            final(self).wf(),
            final(self).markets == old(self).markets,
            final(self).traders == old(self).traders,
            final(self).reference_asset == old(self).reference_asset,
            final(self).assets@ == old(self).assets@.update(i as int, Asset { balance, ..old(self).assets@[i as int] }),
    {
        let ghost before = *self;
        let mut asset = self.assets.remove(i);
        asset.set_balance(balance);
        self.assets.insert(i, asset);
        proof {
            assert(self.assets@ =~= before.assets@.update(i as int, asset));
            assert forall|k: int| 0 <= k < self.assets@.len() implies self.name(k) == before.name(k) by {
            }
            assert forall|a: int, b: int|
                0 <= a < self.assets@.len() && 0 <= b < self.assets@.len() && a != b implies #[trigger] self.name(a)
                    != #[trigger] self.name(b) by {
                assert(before.name(a) != before.name(b));
            }
            assert forall|k: int| 0 <= k < self.assets@.len() implies (#[trigger] self.assets@[k]).balance >= 0 by {
                assert(before.assets@[k].balance >= 0);
            }
            assert forall|k: int| 0 <= k < self.markets@.len() implies self.market_wf(#[trigger] self.markets@[k]) by {
                assert(before.market_wf(before.markets@[k]));
            }
        }
    }

    /// Sets the fee of market `m`, a fraction below one.
    pub fn set_market_fee(&mut self, m: usize, fee: Monetary)
        requires
            old(self).wf(),
            m < old(self).markets@.len(),
            0 <= fee < ONE,
        ensures
            final(self).wf(),
            final(self).assets == old(self).assets,
            final(self).traders == old(self).traders,
            final(self).reference_asset == old(self).reference_asset,
            final(self).markets@ == old(self).markets@.update(m as int, Market { fee, ..old(self).markets@[m as int] }),
    {
        let ghost before = *self;
        assert(self.market_wf(self.markets@[m as int]));
        let mut market = self.markets.remove(m);
        market.fee = fee;
        self.markets.insert(m, market);
        proof {
            assert(self.markets@ =~= before.markets@.update(m as int, market));
            assert forall|k: int| 0 <= k < self.markets@.len() implies self.market_wf(#[trigger] self.markets@[k]) by {
                assert(before.market_wf(before.markets@[k]));
            }
            assert forall|k: int, n: int|
                0 <= k < self.markets@.len() && 0 <= n < self.markets@.len() && k != n
                    implies (#[trigger] self.markets@[k]).symbol.symbol@ != (
                #[trigger] self.markets@[n]).symbol.symbol@ by {
                assert(before.markets@[k].symbol.symbol@ != before.markets@[n].symbol.symbol@);
            }
        }
    }

    /// Appends `filter` to the filter chain of market `m`.
    pub fn add_price_filter(&mut self, m: usize, filter: PriceFilter)
        requires
            old(self).wf(),
            m < old(self).markets@.len(),
            filter.wf(),
        ensures
            final(self).wf(),
            final(self).assets == old(self).assets,
            final(self).traders == old(self).traders,
            final(self).reference_asset == old(self).reference_asset,
            final(self).markets@.len() == old(self).markets@.len(),
            final(self).markets@[m as int].filters@ == old(self).markets@[m as int].filters@.push(filter),
            forall|k: int| 0 <= k < old(self).markets@.len() && k != m ==> final(self).markets@[k] == old(self).markets@[k],
    {
        let ghost before = *self;
        assert(self.market_wf(self.markets@[m as int]));
        let mut market = self.markets.remove(m);
        market.filters.push(filter);
        self.markets.insert(m, market);
        proof {
            assert(self.markets@ =~= before.markets@.update(m as int, market));
            assert forall|k: int| 0 <= k < self.markets@.len() implies self.market_wf(#[trigger] self.markets@[k]) by {
                assert(before.market_wf(before.markets@[k]));
                if k == m {
                    assert forall|i: int| 0 <= i < market.filters@.len() implies (#[trigger] market.filters@[i]).wf() by {
                        if i < before.markets@[k].filters@.len() {
                            assert(before.markets@[k].filters@[i] == market.filters@[i]);
                        }
                    }
                }
            }
            assert forall|k: int, n: int|
                0 <= k < self.markets@.len() && 0 <= n < self.markets@.len() && k != n
                    implies (#[trigger] self.markets@[k]).symbol.symbol@ != (
                #[trigger] self.markets@[n]).symbol.symbol@ by {
                assert(before.markets@[k].symbol.symbol@ != before.markets@[n].symbol.symbol@);
            }
        }
    }

    /// The amount of market `m`'s base asset that `fraction` of the portfolio is worth.
    pub open spec fn base_quantity(&self, m: int, fraction: Monetary) -> Monetary {
        converted(
            mul_fixed(fraction, self.total_spec()),
            self.rate_spec(self.name(self.reference_asset as int), self.name(self.markets@[m].base as int)),
        )
    }

    /// The order actually placed on market `m` for a trader's `order`: the fraction
    /// becomes a base quantity, which is cut to the whole balance where that is
    /// less than twice the quantity (for a buy, the quote balance at the order's
    /// price); then the market's filters apply. Nothing is placed without a
    /// balance to spend, for a buy at a price that is not positive, or for a
    /// market order.
    pub open spec fn sized(&self, m: int, order: Order) -> Option<Order> {
        let market = self.markets@[m];
        match order {
            Order::Limit(Action::Buy, fraction, price) => {
                let wanted = self.base_quantity(m, fraction);
                let funds = self.assets@[market.quote as int].balance;
                if funds > 0 && price > 0 {
                    let affordable = scaled(funds, ONE, price);
                    let quantity = if affordable < 2 * wanted {
                        affordable
                    } else {
                        wanted
                    };
                    filtered_all(market.filters@, Order::Limit(Action::Buy, quantity, price))
                } else {
                    None
                }
            },
            Order::Limit(Action::Sell, fraction, price) => {
                let wanted = self.base_quantity(m, fraction);
                let held = self.assets@[market.base as int].balance;
                if held > 0 {
                    let quantity = if held < 2 * wanted {
                        held
                    } else {
                        wanted
                    };
                    filtered_all(market.filters@, Order::Limit(Action::Sell, quantity, price))
                } else {
                    None
                }
            },
            Order::Market(_, _) => None,
        }
    }

    /// The orders placed for the first `n` markets' decisions `actions`.
    pub open spec fn submissions(&self, actions: Seq<Option<Order>>, n: int) -> Seq<(usize, Order)>
        decreases n,
    {
        if n <= 0 {
            seq![]
        } else {
            let placed = self.submissions(actions, n - 1);
            match actions[n - 1] {
                Some(order) => match self.sized(n - 1, order) {
                    Some(o) => placed.push(((n - 1) as usize, o)),
                    None => placed,
                },
                None => placed,
            }
        }
    }

    /// Where a fill lands: the market, and the base and the quote balance after it;
    /// or why it is refused.
    pub open spec fn fill_result(&self, record: OrderRecord) -> Result<(int, int, int), LedgerError> {
        match self.find_market_spec(record.symbol@) {
            None => Err(LedgerError::UnknownMarket),
            Some(m) => {
                let market = self.markets@[m];
                let (db, dq) = fill_deltas(market.fee, record.side, record.executed_qty, record.price);
                let base = self.assets@[market.base as int].balance + db;
                let quote = self.assets@[market.quote as int].balance + dq;
                if base < 0 || quote < 0 {
                    Err(LedgerError::NegativeBalance)
                } else if base > i64::MAX || quote > i64::MAX {
                    Err(LedgerError::Overflow)
                } else {
                    Ok((m, base, quote))
                }
            },
        }
    }

    /// The placed order for `order` on market `m`.
    pub fn size_order(&self, m: usize, order: Order) -> (r: Option<Order>)
        requires
            self.ledger_wf(),
            m < self.markets@.len(),
        ensures
            r == self.sized(m as int, order),
    {
        assert(self.market_wf(self.markets@[m as int]));
        let market = &self.markets[m];
        match order {
            Order::Limit(Action::Buy, fraction, price) => {
                let funds = self.assets[market.quote].balance;
                if funds > 0 && price > 0 {
                    let wanted = self.base_quantity_of(m, fraction);
                    let affordable = scale(funds, ONE, price);
                    let quantity = if (affordable as i128) < 2 * wanted as i128 {
                        affordable
                    } else {
                        wanted
                    };
                    match market.apply_filters(Order::Limit(Action::Buy, quantity, price)) {
                        Ok(o) => Some(o),
                        Err(()) => None,
                    }
                } else {
                    None
                }
            },
            Order::Limit(Action::Sell, fraction, price) => {
                let held = self.assets[market.base].balance;
                if held > 0 {
                    let wanted = self.base_quantity_of(m, fraction);
                    let quantity = if (held as i128) < 2 * wanted as i128 {
                        held
                    } else {
                        wanted
                    };
                    match market.apply_filters(Order::Limit(Action::Sell, quantity, price)) {
                        Ok(o) => Some(o),
                        Err(()) => None,
                    }
                } else {
                    None
                }
            },
            Order::Market(_, _) => None,
        }
    }

    fn base_quantity_of(&self, m: usize, fraction: Monetary) -> (r: Monetary)
        requires
            self.ledger_wf(),
            m < self.markets@.len(),
        ensures
            r == self.base_quantity(m as int, fraction),
    {
        assert(self.market_wf(self.markets@[m as int]));
        let total = self.total_balance();
        let rate = self.value_from_to(
            self.assets[self.reference_asset].symbol.symbol.as_str(),
            self.assets[self.markets[m].base].symbol.symbol.as_str(),
        );
        convert(fixed_mul(fraction, total), rate)
    }

    /// Advances every market with a price by one tick: its indicators take the
    /// price (or are set up, on the first one) and its trader decides. Returns each
    /// market's decision.
    pub fn decide_all(&mut self) -> (actions: Vec<Option<Order>>)
        requires
            old(self).wf(),
        ensures
            final(self).wf(),
            final(self).markets == old(self).markets,
            final(self).assets == old(self).assets,
            final(self).reference_asset == old(self).reference_asset,
            actions@.len() == old(self).markets@.len(),
            forall|m: int|
                0 <= m < old(self).markets@.len() ==> stepped(
                    old(self).traders@[m],
                    old(self).markets@[m].value,
                    #[trigger] final(self).traders@[m],
                    actions@[m],
                ),
    {
        let ghost start = *self;
        let mut actions: Vec<Option<Order>> = Vec::new();
        let mut i: usize = 0;
        while i < self.markets.len()
            invariant
                self.wf(),
                self.markets == start.markets,
                self.assets == start.assets,
                self.reference_asset == start.reference_asset,
                i <= self.markets@.len(),
                actions@.len() == i,
                forall|m: int| i <= m < self.traders@.len() ==> self.traders@[m] == start.traders@[m],
                forall|m: int|
                    0 <= m < i ==> stepped(
                        start.traders@[m],
                        start.markets@[m].value,
                        #[trigger] self.traders@[m],
                        actions@[m],
                    ),
            decreases self.markets@.len() - i,
        {
            let value = self.markets[i].get_value();
            let ghost before = self.traders@;
            assert(trader_entry_wf(self.traders@[i as int]));
            let (mut trader, indicators) = self.traders.remove(i);
            let ghost entry = (trader, indicators);
            let (indicators, action) = match value {
                Some(v) => match indicators {
                    Some(mut ind) => {
                        let ghost ind0 = ind;
                        let ghost trader0 = trader;
                        let out = ind.evaluate(v);
                        let action = trader.evaluate(out);
                        proof {
                            assert(entry.1 == Some(ind0));
                            assert(entry.0 == trader0);
                            assert(ind0.next(v, &ind, out));
                            assert(trader0.decide(out) == (trader, action));
                            let after = (trader, Some(ind));
                            assert(after.1->0 == ind);
                            assert(ind0.next(v, &after.1->0, out) && entry.0.decide(out) == (after.0, action));
                        }
                        assert(stepped(entry, value, (trader, Some(ind)), action));
                        (Some(ind), action)
                    },
                    None => {
                        let ind = trader.indicators(v);
                        (Some(ind), None)
                    },
                },
                None => (indicators, None),
            };
            self.traders.insert(i, (trader, indicators));
            actions.push(action);
            proof {
                assert(self.traders@ =~= before.update(i as int, (trader, indicators)));
                assert(stepped(entry, value, (trader, indicators), action));
                assert forall|m: int| 0 <= m < self.traders@.len() implies trader_entry_wf(#[trigger] self.traders@[m]) by {
                    if m != i {
                        assert(trader_entry_wf(before[m]));
                    }
                }
            }
            i = i + 1;
        }
        actions
    }

    /// The orders to place for the markets' decisions `actions`.
    pub fn orders_for(&self, actions: &Vec<Option<Order>>) -> (r: Vec<(usize, Order)>)
        requires
            self.ledger_wf(),
            actions@.len() == self.markets@.len(),
        ensures
            r@ == self.submissions(actions@, self.markets@.len() as int),
    {
        let mut placed: Vec<(usize, Order)> = Vec::new();
        let mut i: usize = 0;
        while i < actions.len()
            invariant
                self.ledger_wf(),
                actions@.len() == self.markets@.len(),
                i <= actions@.len(),
                placed@ == self.submissions(actions@, i as int),
            decreases actions@.len() - i,
        {
            if let Some(order) = actions[i] {
                if let Some(o) = self.size_order(i, order) {
                    placed.push((i, o));
                }
            }
            i = i + 1;
        }
        placed
    }

    /// One evaluation tick: every trader decides, and each decision is sized and
    /// filtered into the orders to place.
    pub fn evaluate(&mut self) -> (r: Vec<(usize, Order)>)
        requires
            old(self).wf(),
        ensures
            final(self).wf(),
            final(self).markets == old(self).markets,
            final(self).assets == old(self).assets,
            final(self).reference_asset == old(self).reference_asset,
            exists|actions: Seq<Option<Order>>|
                {
                    &&& actions.len() == old(self).markets@.len()
                    &&& forall|m: int|
                        0 <= m < old(self).markets@.len() ==> stepped(
                            old(self).traders@[m],
                            old(self).markets@[m].value,
                            #[trigger] final(self).traders@[m],
                            actions[m],
                        )
                    &&& r@ == #[trigger] final(self).submissions(actions, old(self).markets@.len() as int)
                },
    {
        let actions = self.decide_all();
        let r = self.orders_for(&actions);
        assert(r@ == self.submissions(actions@, self.markets@.len() as int));
        r
    }

    /// The balances of all assets, by name.
    pub fn balances(&self) -> (r: Vec<(String, Monetary)>)
        ensures
            r@.len() == self.assets@.len(),
            forall|i: int| 0 <= i < r@.len() ==> (#[trigger] r@[i]).0@ == self.name(i) && r@[i].1 == self.assets@[i].balance,
    {
        let mut snapshot: Vec<(String, Monetary)> = Vec::new();
        let mut i: usize = 0;
        while i < self.assets.len()
            invariant
                i <= self.assets@.len(),
                snapshot@.len() == i,
                forall|k: int| 0 <= k < i ==> (#[trigger] snapshot@[k]).0@ == self.name(k) && snapshot@[k].1 == self.assets@[k].balance,
            decreases self.assets@.len() - i,
        {
            snapshot.push((self.assets[i].symbol.symbol.clone(), self.assets[i].balance));
            i = i + 1;
        }
        snapshot
    }

    /// Applies a fill to both legs of its market, net of the fee. A fill that
    /// names no market, or would drive a balance below zero or past the largest
    /// amount, is refused and changes nothing.
    pub fn apply_fill(&mut self, record: &OrderRecord) -> (r: Result<(), LedgerError>)
        requires
            old(self).wf(),
        ensures
            final(self).wf(),
            final(self).markets == old(self).markets,
            final(self).traders == old(self).traders,
            final(self).reference_asset == old(self).reference_asset,
            match old(self).fill_result(*record) {
                Ok((m, base, quote)) => {
                    let market = old(self).markets@[m];
                    &&& r is Ok
                    &&& final(self).assets@ == old(self).assets@.update(
                        market.base as int,
                        Asset { balance: base as i64, ..old(self).assets@[market.base as int] },
                    ).update(market.quote as int, Asset { balance: quote as i64, ..old(self).assets@[market.quote as int] })
                },
                Err(e) => r == Err::<(), LedgerError>(e) && final(self).assets == old(self).assets,
            },
    {
        let m = match self.get_market(record.symbol.as_str()) {
            Some(m) => m,
            None => {
                return Err(LedgerError::UnknownMarket);
            },
        };
        proof {
            self.lemma_find_market_some(record.symbol@, self.markets@.len() as int);
        }
        assert(self.market_wf(self.markets@[m as int]));
        let base = self.markets[m].base;
        let quote = self.markets[m].quote;
        let fee = self.markets[m].fee;
        let (db, dq) = deltas(fee, record.side, record.executed_qty, record.price);
        let new_base: i128 = self.assets[base].balance as i128 + db;
        let new_quote: i128 = self.assets[quote].balance as i128 + dq;
        if new_base < 0 || new_quote < 0 {
            return Err(LedgerError::NegativeBalance);
        }
        if new_base > i64::MAX as i128 || new_quote > i64::MAX as i128 {
            return Err(LedgerError::Overflow);
        }
        self.replace_balance(base, new_base as i64);
        self.replace_balance(quote, new_quote as i64);
        Ok(())
    }

    /// Dispatches one event of the environment. Prices and balances are never
    /// negative: an event that would set one below zero is refused.
    pub fn handle_event(&mut self, event: Event) -> (r: Result<Effect, LedgerError>)
        requires
            old(self).wf(),
        ensures
            final(self).wf(),
            final(self).reference_asset == old(self).reference_asset,
            match event {
                Event::SetMarketValue(symbol, value) => if value < 0 {
                    r == Err::<Effect, LedgerError>(LedgerError::NegativePrice) && *final(self) == *old(self)
                } else {
                    &&& r matches Ok(Effect::Nothing)
                    &&& final(self).assets == old(self).assets
                    &&& final(self).traders == old(self).traders
                    &&& old(self).find_market_spec(symbol@) matches Some(m) ==> final(self).markets@
                        == old(self).markets@.update(m, Market { value: Some(value), ..old(self).markets@[m] })
                    &&& old(self).find_market_spec(symbol@) is None ==> final(self).markets == old(self).markets
                },
                Event::SetAssetBalance(symbol, balance) => if balance < 0 {
                    r == Err::<Effect, LedgerError>(LedgerError::NegativeBalance) && *final(self) == *old(self)
                } else {
                    &&& r matches Ok(Effect::Nothing)
                    &&& final(self).markets == old(self).markets
                    &&& final(self).traders == old(self).traders
                    &&& old(self).find_asset_spec(symbol@) matches Some(i) ==> final(self).assets@
                        == old(self).assets@.update(i, Asset { balance, ..old(self).assets@[i] })
                    &&& old(self).find_asset_spec(symbol@) is None ==> final(self).assets == old(self).assets
                },
                Event::Evaluate(_) => {
                    &&& final(self).markets == old(self).markets
                    &&& final(self).assets == old(self).assets
                    &&& r matches Ok(Effect::Submit(orders)) && exists|actions: Seq<Option<Order>>|
                        {
                            &&& actions.len() == old(self).markets@.len()
                            &&& forall|m: int|
                                0 <= m < old(self).markets@.len() ==> stepped(
                                    old(self).traders@[m],
                                    old(self).markets@[m].value,
                                    #[trigger] final(self).traders@[m],
                                    actions[m],
                                )
                            &&& orders@ == #[trigger] final(self).submissions(actions, old(self).markets@.len() as int)
                        }
                },
                Event::ExecutedOrder(record, _) => {
                    &&& final(self).markets == old(self).markets
                    &&& final(self).traders == old(self).traders
                    &&& match old(self).fill_result(record) {
                        Ok((m, base, quote)) => {
                            let market = old(self).markets@[m];
                            &&& final(self).assets@ == old(self).assets@.update(
                                market.base as int,
                                Asset { balance: base as i64, ..old(self).assets@[market.base as int] },
                            ).update(
                                market.quote as int,
                                Asset { balance: quote as i64, ..old(self).assets@[market.quote as int] },
                            )
                            &&& r matches Ok(Effect::Persist(snapshot)) && snapshot@.len() == final(self).assets@.len()
                                && forall|i: int|
                                0 <= i < snapshot@.len() ==> (#[trigger] snapshot@[i]).0@ == final(self).name(i)
                                    && snapshot@[i].1 == final(self).assets@[i].balance
                        },
                        Err(e) => r == Err::<Effect, LedgerError>(e) && final(self).assets == old(self).assets,
                    }
                },
            },
    {
        match event {
            Event::SetMarketValue(symbol, value) => {
                if value < 0 {
                    return Err(LedgerError::NegativePrice);
                }
                self.set_market_value(symbol.as_str(), value);
                Ok(Effect::Nothing)
            },
            Event::SetAssetBalance(symbol, balance) => {
                if balance < 0 {
                    return Err(LedgerError::NegativeBalance);
                }
                self.set_asset_balance(symbol.as_str(), balance);
                Ok(Effect::Nothing)
            },
            Event::Evaluate(_) => Ok(Effect::Submit(self.evaluate())),
            Event::ExecutedOrder(record, _) => {
                match self.apply_fill(&record) {
                    Ok(()) => Ok(Effect::Persist(self.balances())),
                    Err(e) => Err(e),
                }
            },
        }
    }

    /// No fill drives a balance below zero: where the exact result would be
    /// negative the fill is refused with `NegativeBalance`, never clamped; an
    /// accepted fill leaves both legs at their exact, non-negative results.
    pub proof fn lemma_fill_never_negative(&self, record: OrderRecord)
        requires
            self.wf(),
            self.find_market_spec(record.symbol@) is Some,
        ensures
            ({
                let market = self.markets@[self.find_market_spec(record.symbol@)->0];
                let (db, dq) = fill_deltas(market.fee, record.side, record.executed_qty, record.price);
                let base = self.assets@[market.base as int].balance + db;
                let quote = self.assets@[market.quote as int].balance + dq;
                &&& (base < 0 || quote < 0) <==> self.fill_result(record) == Err::<(int, int, int), LedgerError>(
                    LedgerError::NegativeBalance,
                )
                &&& self.fill_result(record) matches Ok((_, b, q)) ==> b == base && q == quote && b >= 0 && q >= 0
            }),
    {
    }

}

/// No balance is negative, and no two assets share a name.
pub open spec fn assets_wf(assets: Seq<Asset>) -> bool {
    &&& forall|i: int| 0 <= i < assets.len() ==> (#[trigger] assets[i]).balance >= 0
    &&& forall|i: int, j: int|
        0 <= i < assets.len() && 0 <= j < assets.len() && i != j ==> (#[trigger] assets[i]).symbol.symbol@
            != (#[trigger] assets[j]).symbol.symbol@
}

/// A market refers to two distinct assets and is named after them.
pub open spec fn market_fits(market: Market, assets: Seq<Asset>) -> bool {
    &&& market.wf()
    &&& market.base < assets.len()
    &&& market.quote < assets.len()
    &&& market.base != market.quote
    &&& market.symbol.base.symbol@ == assets[market.base as int].symbol.symbol@
    &&& market.symbol.quote.symbol@ == assets[market.quote as int].symbol.symbol@
    &&& market.symbol.symbol@ == assets[market.base as int].symbol.symbol@ + assets[market.quote as int].symbol.symbol@
}

/// Every market fits, and no two markets share a name.
pub open spec fn markets_wf(markets: Seq<Market>, assets: Seq<Asset>) -> bool {
    &&& forall|m: int| 0 <= m < markets.len() ==> market_fits(#[trigger] markets[m], assets)
    &&& forall|m: int, n: int|
        0 <= m < markets.len() && 0 <= n < markets.len() && m != n ==> (#[trigger] markets[m]).symbol.symbol@
            != (#[trigger] markets[n]).symbol.symbol@
}

/// A trader and its indicators are consistent.
pub open spec fn trader_entry_wf<T: Trader>(entry: (T, Option<T::Indicators>)) -> bool {
    &&& entry.0.wf()
    &&& entry.1 matches Some(ind) ==> ind.wf()
}

/// The fixed-point product `a * b`, truncated, as a wide integer.
fn mul_wide(a: Monetary, b: Monetary) -> (r: i128)
    ensures
        r == tdiv(a * b, ONE as int),
        -0xB_0000_0000_0000_0000_0000_0000 <= r <= 0xB_0000_0000_0000_0000_0000_0000,
{
    assert(-0x4000_0000_0000_0000_0000_0000_0000_0000 <= a * b <= 0x4000_0000_0000_0000_0000_0000_0000_0000)
        by (nonlinear_arith)
        requires
            i64::MIN <= a <= i64::MAX,
            i64::MIN <= b <= i64::MAX,
    ;
    let p: i128 = a as i128 * b as i128;
    let q: i128 = p / ONE as i128;
    proof {
        let ap: int = if p >= 0 { p as int } else { -p };
        vstd::arithmetic::div_mod::lemma_fundamental_div_mod(ap, ONE as int);
        vstd::arithmetic::div_mod::lemma_mod_bound(ap, ONE as int);
        assert(0 <= ap / (ONE as int) <= 0xB_0000_0000_0000_0000_0000_0000) by (nonlinear_arith)
            requires
                0 <= ap <= 0x4000_0000_0000_0000_0000_0000_0000_0000,
                ap == (ONE as int) * (ap / (ONE as int)) + ap % (ONE as int),
                0 <= ap % (ONE as int),
        ;
    }
    q
}

/// The changes a fill makes to the base and the quote balance.
fn deltas(fee: Monetary, side: Action, quantity: Monetary, price: Monetary) -> (r: (i128, i128))
    requires
        0 <= fee < ONE,
    ensures
        r.0 == fill_deltas(fee, side, quantity, price).0,
        r.1 == fill_deltas(fee, side, quantity, price).1,
        -0x5000_0000_0000_0000_0000_0000_0000_0000 <= r.0 <= 0x5000_0000_0000_0000_0000_0000_0000_0000,
        -0x5000_0000_0000_0000_0000_0000_0000_0000 <= r.1 <= 0x5000_0000_0000_0000_0000_0000_0000_0000,
{
    match side {
        Action::Buy => {
            let received = mul_wide(quantity, ONE - fee);
            let cost = mul_wide(quantity, price);
            (received, -cost)
        },
        Action::Sell => {
            let proceeds: i128 = mul_wide(quantity, price);
            assert(-0x5000_0000_0000_0000_0000_0000_0000_0000 <= proceeds * (ONE - fee) <= 0x5000_0000_0000_0000_0000_0000_0000_0000)
                by (nonlinear_arith)
                requires
                    -0xB_0000_0000_0000_0000_0000_0000 <= proceeds <= 0xB_0000_0000_0000_0000_0000_0000,
                    0 < ONE - fee <= ONE,
            ;
            let gross: i128 = proceeds * (ONE - fee) as i128;
            proof {
                crate::money::lemma_tdiv_shrinks(gross as int, ONE as int);
            }
            let net: i128 = if gross >= 0 {
                gross / ONE as i128
            } else {
                -((-gross) / ONE as i128)
            };
            (-(quantity as i128), net)
        },
    }
}

} // verus!
