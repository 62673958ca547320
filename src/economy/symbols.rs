use vstd::prelude::*;

verus! {

/// The name of an asset, such as `USDT`.
#[derive(Debug)]
pub struct AssetSymbol {
    pub symbol: String,
}

impl AssetSymbol {
    pub fn new(symbol: &str) -> (r: AssetSymbol)
        ensures
            r.symbol@ == symbol@,
    {
        AssetSymbol { symbol: symbol.to_owned() }
    }

    pub fn as_str(&self) -> (r: &str)
        ensures
            r@ == self.symbol@,
    {
        self.symbol.as_str()
    }
}

/// The name of a market, its base asset's name followed by its quote asset's.
#[derive(Debug)]
pub struct MarketSymbol {
    pub symbol: String,
    pub base: AssetSymbol,
    pub quote: AssetSymbol,
}

/// The characters of `a` followed by those of `b`.
fn concat(a: &str, b: &str) -> (r: String)
    ensures
        r@ == a@ + b@,
{
    let mut r = a.to_owned();
    r.append(b);
    r
}

impl MarketSymbol {
    pub fn from_pair(base: &str, quote: &str) -> (r: MarketSymbol)
        ensures
            r.symbol@ == base@ + quote@,
            r.base.symbol@ == base@,
            r.quote.symbol@ == quote@,
    {
        MarketSymbol { symbol: concat(base, quote), base: AssetSymbol::new(base), quote: AssetSymbol::new(quote) }
    }

    pub fn get_base(&self) -> (r: &AssetSymbol)
        ensures
            r == &self.base,
    {
        &self.base
    }

    pub fn get_quote(&self) -> (r: &AssetSymbol)
        ensures
            r == &self.quote,
    {
        &self.quote
    }

    pub fn as_str(&self) -> (r: &str)
        ensures
            r@ == self.symbol@,
    {
        self.symbol.as_str()
    }
}

/// Two strings hold the same characters.
pub fn str_eq(a: &str, b: &str) -> (r: bool)
    ensures
        r == (a@ == b@),
{
    let n = a.unicode_len();
    if n != b.unicode_len() {
        return false;
    }
    let mut i: usize = 0;
    while i < n
        invariant
            n == a@.len(),
            n == b@.len(),
            i <= n,
            forall|j: int| 0 <= j < i ==> a@[j] == b@[j],
        decreases n - i,
    {
        if a.get_char(i) != b.get_char(i) {
            return false;
        }
        i = i + 1;
    }
    assert(a@ =~= b@);
    true
}

} // verus!
