use crate::economy::str_eq;
use vstd::prelude::*;

verus! {

/// A market the exchange lists: its symbol and its two assets.
#[derive(Debug)]
pub struct MarketData {
    pub symbol: String,
    pub base_asset: String,
    pub quote_asset: String,
}

impl MarketData {
    pub fn copy(&self) -> (r: MarketData)
        ensures
            r == *self,
    {
        MarketData {
            symbol: self.symbol.clone(),
            base_asset: self.base_asset.clone(),
            quote_asset: self.quote_asset.clone(),
        }
    }
}

/// The market `symbol` saw at least `min_trades` trades, by the exchange's
/// statistics `stats` of (symbol, number of trades).
pub open spec fn active(stats: Seq<(String, u64)>, symbol: Seq<char>, min_trades: u64) -> bool {
    exists|i: int| 0 <= i < stats.len() && (#[trigger] stats[i]).0@ == symbol && stats[i].1 >= min_trades
}

/// Among the first `n` markets, an active one trades `asset` directly against `reference`.
pub open spec fn linked_upto(
    stats: Seq<(String, u64)>,
    markets: Seq<MarketData>,
    reference: Seq<char>,
    min_trades: u64,
    n: int,
    asset: Seq<char>,
) -> bool {
    ||| asset == reference
    ||| exists|j: int|
        0 <= j < n && active(stats, (#[trigger] markets[j]).symbol@, min_trades) && {
            ||| markets[j].base_asset@ == reference && markets[j].quote_asset@ == asset
            ||| markets[j].quote_asset@ == reference && markets[j].base_asset@ == asset
        }
}

/// The markets kept among the first `n`: the active ones both of whose assets
/// trade directly against the reference asset in an active market.
pub open spec fn selected_upto(
    stats: Seq<(String, u64)>,
    markets: Seq<MarketData>,
    reference: Seq<char>,
    min_trades: u64,
    n: int,
) -> Seq<MarketData>
    decreases n,
{
    if n <= 0 {
        seq![]
    } else {
        let kept = selected_upto(stats, markets, reference, min_trades, n - 1);
        let m = markets[n - 1];
        if active(stats, m.symbol@, min_trades) && linked_upto(
            stats,
            markets,
            reference,
            min_trades,
            markets.len() as int,
            m.base_asset@,
        ) && linked_upto(stats, markets, reference, min_trades, markets.len() as int, m.quote_asset@) {
            kept.push(m)
        } else {
            kept
        }
    }
}

/// Some name in `names` is `s`.
pub open spec fn listed(names: Seq<String>, s: Seq<char>) -> bool {
    exists|k: int| 0 <= k < names.len() && (#[trigger] names[k])@ == s
}

fn is_active(stats: &Vec<(String, u64)>, symbol: &str, min_trades: u64) -> (r: bool)
    ensures
        r == active(stats@, symbol@, min_trades),
{
    let mut i: usize = 0;
    while i < stats.len()
        invariant
            i <= stats@.len(),
            forall|k: int| 0 <= k < i ==> !((#[trigger] stats@[k]).0@ == symbol@ && stats@[k].1 >= min_trades),
        decreases stats@.len() - i,
    {
        if str_eq(stats[i].0.as_str(), symbol) && stats[i].1 >= min_trades {
            assert(stats@[i as int].0@ == symbol@);
            return true;
        }
        i = i + 1;
    }
    false
}

fn contains(names: &Vec<String>, s: &str) -> (r: bool)
    ensures
        r == listed(names@, s@),
{
    let mut i: usize = 0;
    while i < names.len()
        invariant
            i <= names@.len(),
            forall|k: int| 0 <= k < i ==> (#[trigger] names@[k])@ != s@,
        decreases names@.len() - i,
    {
        if str_eq(names[i].as_str(), s) {
            return true;
        }
        i = i + 1;
    }
    false
}

/// The markets to trade: the active markets (at least `min_trades` trades by
/// `stats`) whose two assets each trade directly against `reference` in an active
/// market, or are `reference` itself; in the exchange's order.
pub fn select_markets(
    stats: &Vec<(String, u64)>,
    markets: &Vec<MarketData>,
    reference: &String,
    min_trades: u64,
) -> (r: Vec<MarketData>)
    ensures
        r@ == selected_upto(stats@, markets@, reference@, min_trades, markets@.len() as int),
{
    let mut linked: Vec<String> = Vec::new();
    linked.push(reference.clone());
    proof {
        assert forall|a: Seq<char>| #[trigger] listed(linked@, a) == linked_upto(stats@, markets@, reference@, min_trades, 0, a) by {
            if a == reference@ {
                assert(linked@[0]@ == a);
            }
        }
    }
    let mut j: usize = 0;
    while j < markets.len()
        invariant
            j <= markets@.len(),
            forall|a: Seq<char>|
                #[trigger] listed(linked@, a) == linked_upto(stats@, markets@, reference@, min_trades, j as int, a),
        decreases markets@.len() - j,
    {
        let m = &markets[j];
        let ghost before = linked@;
        let is_live = is_active(stats, m.symbol.as_str(), min_trades);
        if is_live && m.base_asset.eq(reference) && !contains(&linked, m.quote_asset.as_str()) {
            linked.push(m.quote_asset.clone());
        } else if is_live && m.quote_asset.eq(reference) && !contains(&linked, m.base_asset.as_str()) {
            linked.push(m.base_asset.clone());
        }
        proof {
            assert forall|a: Seq<char>|
                #[trigger] listed(linked@, a) == linked_upto(stats@, markets@, reference@, min_trades, j + 1, a) by {
                let now = linked_upto(stats@, markets@, reference@, min_trades, j + 1, a);
                let was = linked_upto(stats@, markets@, reference@, min_trades, j as int, a);
                if was {
                    if a != reference@ {
                        let w = choose|w: int|
                            0 <= w < j && active(stats@, (#[trigger] markets@[w]).symbol@, min_trades) && {
                                ||| markets@[w].base_asset@ == reference@ && markets@[w].quote_asset@ == a
                                ||| markets@[w].quote_asset@ == reference@ && markets@[w].base_asset@ == a
                            };
                        assert(0 <= w < j + 1);
                    }
                    assert(now);
                    assert(listed(before, a));
                    let k = choose|k: int| 0 <= k < before.len() && (#[trigger] before[k])@ == a;
                    assert(linked@[k] == before[k]);
                }
                if listed(linked@, a) && !listed(before, a) {
                    let k = choose|k: int| 0 <= k < linked@.len() && (#[trigger] linked@[k])@ == a;
                    assert(k == before.len());
                    assert(markets@[j as int] == *m);
                }
                if now && !was {
                    assert(markets@[j as int] == *m);
                    assert(is_live);
                    if m.base_asset@ == reference@ && m.quote_asset@ == a {
                        if !listed(before, a) {
                            assert(linked@[before.len() as int]@ == a);
                        } else {
                            assert(false);
                        }
                    } else {
                        assert(m.quote_asset@ == reference@ && m.base_asset@ == a);
                        if m.base_asset@ == reference@ {
                            assert(a == reference@);
                        }
                        if !listed(before, a) {
                            assert(linked@[before.len() as int]@ == a);
                        } else {
                            assert(false);
                        }
                    }
                }
            }
        }
        j = j + 1;
    }
    let mut kept: Vec<MarketData> = Vec::new();
    let mut i: usize = 0;
    while i < markets.len()
        invariant
            i <= markets@.len(),
            forall|a: Seq<char>|
                #[trigger] listed(linked@, a) == linked_upto(
                    stats@,
                    markets@,
                    reference@,
                    min_trades,
                    markets@.len() as int,
                    a,
                ),
            kept@ == selected_upto(stats@, markets@, reference@, min_trades, i as int),
        decreases markets@.len() - i,
    {
        let m = &markets[i];
        if is_active(stats, m.symbol.as_str(), min_trades) && contains(&linked, m.base_asset.as_str()) && contains(
            &linked,
            m.quote_asset.as_str(),
        ) {
            kept.push(m.copy());
        }
        i = i + 1;
    }
    kept
}

} // verus!
