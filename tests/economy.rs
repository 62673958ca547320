use trader::economy::{Asset, Economy, Effect, LedgerError, MarketSymbol, PriceFilter};
use trader::environments::{Event, OrderRecord, OrderStatus};
use trader::money::{Rate, ONE};
use trader::traders::{Action, Order, RSITrader};

fn record(symbol: &str, side: Action, quantity: i64, price: i64) -> OrderRecord {
    OrderRecord {
        symbol: symbol.to_string(),
        order_id: 1,
        side,
        price,
        orig_qty: quantity,
        executed_qty: quantity,
        status: OrderStatus::Filled,
    }
}

fn trader() -> RSITrader {
    RSITrader::initialize(14, 3, 30 * ONE, 70 * ONE, ONE / 20)
}

fn ledger() -> Economy<RSITrader> {
    let mut e = Economy::new("B".to_string());
    assert_eq!(e.add_market("A".to_string(), "B".to_string(), trader()), Some(0));
    e
}

#[test]
fn buy_fill_credits_base_net_of_fee_and_debits_quote() {
    let mut e = ledger();
    assert!(e.set_market_value("AB", 100 * ONE));
    assert!(e.set_asset_balance("B", 200 * ONE));
    assert_eq!(e.apply_fill(&record("AB", Action::Buy, ONE, 100 * ONE)), Ok(()));
    let a = e.get_asset("A").unwrap();
    let b = e.get_asset("B").unwrap();
    assert_eq!(e.assets[a].get_balance(), 999 * ONE / 1000);
    assert_eq!(e.assets[b].get_balance(), 100 * ONE);
}

#[test]
fn sell_fill_credits_quote_net_of_fee() {
    let mut e = ledger();
    e.set_asset_balance("A", 2 * ONE);
    assert_eq!(e.apply_fill(&record("AB", Action::Sell, ONE, 100 * ONE)), Ok(()));
    assert_eq!(e.assets[e.get_asset("A").unwrap()].balance, ONE);
    assert_eq!(e.assets[e.get_asset("B").unwrap()].balance, 999 * ONE / 10);
}

#[test]
fn fill_that_would_go_negative_is_refused() {
    let mut e = ledger();
    e.set_asset_balance("B", 50 * ONE);
    assert_eq!(e.apply_fill(&record("AB", Action::Buy, ONE, 100 * ONE)), Err(LedgerError::NegativeBalance));
    assert_eq!(e.assets[e.get_asset("B").unwrap()].balance, 50 * ONE);
    assert_eq!(e.assets[e.get_asset("A").unwrap()].balance, 0);
    assert_eq!(e.apply_fill(&record("AB", Action::Sell, ONE, 100 * ONE)), Err(LedgerError::NegativeBalance));
}

#[test]
fn fill_on_unknown_market_is_refused() {
    let mut e = ledger();
    assert_eq!(e.apply_fill(&record("XY", Action::Buy, ONE, ONE)), Err(LedgerError::UnknownMarket));
}

#[test]
fn fill_past_the_largest_amount_is_refused() {
    let mut e = ledger();
    e.set_asset_balance("A", i64::MAX);
    e.set_asset_balance("B", 10 * ONE);
    assert_eq!(e.apply_fill(&record("AB", Action::Buy, ONE, ONE)), Err(LedgerError::Overflow));
}

#[test]
fn negative_price_and_balance_events_are_refused() {
    let mut e = ledger();
    assert!(matches!(e.handle_event(Event::SetMarketValue("AB".to_string(), -1)), Err(LedgerError::NegativePrice)));
    assert!(matches!(e.handle_event(Event::SetAssetBalance("A".to_string(), -1)), Err(LedgerError::NegativeBalance)));
    assert!(matches!(e.handle_event(Event::SetMarketValue("AB".to_string(), ONE)), Ok(Effect::Nothing)));
    assert_eq!(e.markets[0].get_value(), Some(ONE));
}

#[test]
fn executed_order_event_persists_balances() {
    let mut e = ledger();
    e.set_asset_balance("B", 200 * ONE);
    match e.handle_event(Event::ExecutedOrder(record("AB", Action::Buy, ONE, 100 * ONE), ONE)) {
        Ok(Effect::Persist(snapshot)) => {
            assert_eq!(snapshot, vec![("B".to_string(), 100 * ONE), ("A".to_string(), 999 * ONE / 1000)]);
        },
        other => panic!("unexpected {:?}", other),
    }
}

#[test]
fn valuation_of_an_asset_in_itself_is_one() {
    let e = ledger();
    assert_eq!(e.value_from_to("A", "A"), Rate { num: 1, den: 1 });
    assert_eq!(e.value_from_to("B", "B"), Rate { num: 1, den: 1 });
}

#[test]
fn fee_free_round_trip_is_exact() {
    let mut e = ledger();
    e.set_market_fee(0, 0);
    e.set_market_value("AB", 250 * ONE);
    let there = e.value_from_to("A", "B");
    let back = e.value_from_to("B", "A");
    assert_eq!(there.num * back.num, there.den * back.den);
}

#[test]
fn round_trip_with_fee_loses() {
    let mut e = ledger();
    e.set_market_value("AB", 250 * ONE);
    let there = e.value_from_to("A", "B");
    let back = e.value_from_to("B", "A");
    assert!(there.num * back.num < there.den * back.den);
    assert_eq!(there, Rate { num: 250 * ONE as i128 * 99_900_000, den: ONE as i128 * ONE as i128 });
    assert_eq!(back, Rate { num: 99_900_000, den: 250 * ONE as i128 });
}

#[test]
fn valuation_without_a_market_is_zero() {
    let e = ledger();
    assert_eq!(e.value_from_to("A", "B"), Rate { num: 0, den: 1 });
    assert_eq!(e.value_from_to("A", "C"), Rate { num: 0, den: 1 });
}

#[test]
fn total_balance_values_positive_balances() {
    let mut e = ledger();
    e.set_market_fee(0, 0);
    e.set_market_value("AB", 100 * ONE);
    e.set_asset_balance("A", 2 * ONE);
    e.set_asset_balance("B", 50 * ONE);
    assert_eq!(e.total_balance(), 250 * ONE);
}

#[test]
fn market_of_one_asset_is_refused() {
    let mut e = ledger();
    assert_eq!(e.add_market("A".to_string(), "A".to_string(), trader()), None);
    assert_eq!(e.add_market("A".to_string(), "B".to_string(), trader()), Some(0));
    assert_eq!(e.add_market("C".to_string(), "B".to_string(), trader()), Some(1));
    assert_eq!(e.assets.len(), 3);
}

#[test]
fn market_symbol_joins_base_and_quote() {
    let s = MarketSymbol::from_pair("BTC", "USDT");
    assert_eq!(s.as_str(), "BTCUSDT");
    assert_eq!(s.get_base().as_str(), "BTC");
    assert_eq!(s.get_quote().as_str(), "USDT");
}

#[test]
fn price_filter_rounds_and_rejects() {
    let f = PriceFilter { min_price: ONE, max_price: 1000 * ONE, tick_size: ONE / 2 };
    assert_eq!(f.apply(Order::Limit(Action::Buy, ONE, 103 * ONE / 10)), Ok(Order::Limit(Action::Buy, ONE, 105 * ONE / 10)));
    assert_eq!(f.apply(Order::Limit(Action::Buy, ONE, ONE / 2)), Err(()));
    assert_eq!(f.apply(Order::Limit(Action::Sell, ONE, 1001 * ONE)), Err(()));
    assert_eq!(f.apply(Order::Market(Action::Sell, ONE)), Ok(Order::Market(Action::Sell, ONE)));
}

#[test]
fn orders_are_sized_capped_and_filtered() {
    let mut e = ledger();
    e.set_market_fee(0, 0);
    e.set_market_value("AB", 100 * ONE);
    e.set_asset_balance("B", 1000 * ONE);
    assert_eq!(e.size_order(0, Order::Limit(Action::Buy, ONE / 10, 100 * ONE)), Some(Order::Limit(Action::Buy, ONE, 100 * ONE)));
    assert_eq!(e.size_order(0, Order::Limit(Action::Buy, ONE, 100 * ONE)), Some(Order::Limit(Action::Buy, 10 * ONE, 100 * ONE)));
    assert_eq!(e.size_order(0, Order::Limit(Action::Sell, ONE, 100 * ONE)), None);
    assert_eq!(e.size_order(0, Order::Market(Action::Buy, ONE)), None);
    e.add_price_filter(0, PriceFilter { min_price: 200 * ONE, max_price: 300 * ONE, tick_size: ONE });
    assert_eq!(e.size_order(0, Order::Limit(Action::Buy, ONE / 10, 100 * ONE)), None);
}

#[test]
fn first_evaluation_sets_up_indicators_and_holds() {
    let mut e = ledger();
    assert!(e.evaluate().is_empty());
    assert!(e.traders[0].1.is_none());
    e.set_market_value("AB", 100 * ONE);
    assert!(matches!(e.handle_event(Event::Evaluate(0)), Ok(Effect::Submit(ref orders)) if orders.is_empty()));
    assert!(e.traders[0].1.is_some());
    assert!(e.evaluate().is_empty());
}

#[test]
fn asset_balance_never_goes_negative() {
    let mut a = Asset::new("A".to_string());
    assert_eq!(a.add_balance(5 * ONE), Ok(()));
    assert_eq!(a.add_balance(-6 * ONE), Err(LedgerError::NegativeBalance));
    assert_eq!(a.get_balance(), 5 * ONE);
    assert_eq!(a.add_balance(i64::MAX), Err(LedgerError::Overflow));
    assert_eq!(a.add_balance(-5 * ONE), Ok(()));
    assert_eq!(a.get_balance(), 0);
}

#[test]
fn first_price_seeds_the_traders_indicators() {
    let mut e = ledger();
    e.set_market_value("AB", 40 * ONE);
    e.evaluate();
    let (_, rsi) = e.traders[0].1.as_ref().unwrap();
    assert_eq!(rsi.previous_value, 40 * ONE);
    assert_eq!(rsi.up.ema, 40 * ONE);
}
