use trader::environments::discovery::{select_markets, MarketData};
use trader::environments::simulated::{OrderType, Source, Step, Tick, TimeInForce, HISTORY_WINDOW};
use trader::environments::{Event, Simulated};
use trader::money::ONE;
use trader::traders::{Action, Order};

fn tick(symbol: &str, value: i64, timestamp: i64) -> Tick {
    Tick { symbol: symbol.to_string(), value, timestamp }
}

#[test]
fn replay_emits_ticks_before_evaluating_their_second() {
    let mut r = Simulated::new(10, false, Vec::new());
    assert!(r.load(vec![tick("AB", 2 * ONE, 11), tick("AB", ONE, 10)], 12));
    assert!(matches!(r.poll(0), Step::Emit(Event::SetMarketValue(ref s, v)) if s == "AB" && v == ONE));
    assert!(matches!(r.poll(0), Step::Emit(Event::Evaluate(10))));
    assert!(matches!(r.poll(0), Step::Emit(Event::SetMarketValue(ref s, v)) if s == "AB" && v == 2 * ONE));
    assert!(matches!(r.poll(0), Step::Emit(Event::Evaluate(11))));
    assert!(matches!(r.poll(0), Step::Fetch { from: 12, len: HISTORY_WINDOW }));
}

#[test]
fn replay_refuses_ticks_out_of_order() {
    let mut r = Simulated::new(10, false, Vec::new());
    assert!(!r.load(vec![tick("AB", ONE, 10), tick("AB", ONE, 11)], 12));
    assert!(r.buffer.is_empty());
    assert_eq!(r.fetched_until, 10);
}

#[test]
fn queued_events_come_first() {
    let mut r = Simulated::new(10, false, vec![Event::SetAssetBalance("USDT".to_string(), 200 * ONE)]);
    assert!(r.load(vec![tick("AB", ONE, 10)], 11));
    assert!(matches!(r.poll(0), Step::Emit(Event::SetAssetBalance(ref s, b)) if s == "USDT" && b == 200 * ONE));
    assert!(matches!(r.poll(0), Step::Emit(Event::SetMarketValue(_, _))));
}

#[test]
fn live_replay_switches_over_once_caught_up() {
    let mut r = Simulated::new(95, true, Vec::new());
    assert!(matches!(r.poll(100), Step::Subscribe));
    assert_eq!(r.source, Source::Live);
    assert!(matches!(r.poll(100), Step::Listen));
    let mut s = Simulated::new(50, true, Vec::new());
    assert!(matches!(s.poll(100), Step::Fetch { from: 50, len: 50 }));
    assert_eq!(s.source, Source::Replaying);
}

#[test]
fn submitted_order_is_reported_filled() {
    let mut r = Simulated::new(10, true, Vec::new());
    let request = r.submit("AB".to_string(), Order::Limit(Action::Buy, 3 * ONE, 7 * ONE), 1000).unwrap();
    assert_eq!(request.symbol, "AB");
    assert_eq!(request.quantity, 3 * ONE);
    assert_eq!(request.price, 7 * ONE);
    assert_eq!(request.order_type, OrderType::Limit);
    assert_eq!(request.time_in_force, TimeInForce::GoodTillCanceled);
    assert!(matches!(r.poll(1000), Step::Emit(Event::ExecutedOrder(ref rec, q)) if rec.symbol == "AB" && q == 3 * ONE));
    assert!(!r.orders[0].open);
    assert!(r.submit("AB".to_string(), Order::Market(Action::Sell, ONE), 1000).is_none());
}

#[test]
fn historical_replay_does_not_follow_orders() {
    let mut r = Simulated::new(10, false, Vec::new());
    assert!(r.submit("AB".to_string(), Order::Limit(Action::Sell, ONE, ONE), 0).is_some());
    assert!(r.orders.is_empty());
}

fn market(symbol: &str, base: &str, quote: &str) -> MarketData {
    MarketData { symbol: symbol.to_string(), base_asset: base.to_string(), quote_asset: quote.to_string() }
}

#[test]
fn discovery_keeps_active_markets_linked_to_the_reference() {
    let stats = vec![
        ("BTCUSDT".to_string(), 5000),
        ("ETHUSDT".to_string(), 5000),
        ("ETHBTC".to_string(), 5000),
        ("XRPBTC".to_string(), 5000),
        ("LTCUSDT".to_string(), 10),
    ];
    let markets = vec![
        market("BTCUSDT", "BTC", "USDT"),
        market("ETHUSDT", "ETH", "USDT"),
        market("ETHBTC", "ETH", "BTC"),
        market("XRPBTC", "XRP", "BTC"),
        market("LTCUSDT", "LTC", "USDT"),
    ];
    let kept = select_markets(&stats, &markets, &"USDT".to_string(), 1440);
    let names: Vec<&str> = kept.iter().map(|m| m.symbol.as_str()).collect();
    assert_eq!(names, vec!["BTCUSDT", "ETHUSDT", "ETHBTC"]);
}
