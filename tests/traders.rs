use trader::money::ONE;
use trader::traders::{Action, And, Backoff, FullStop, GobbleBadLongterm, MACDTrader, Order, RSITrader, SafeAnd, StopLoss, Trader};

fn rsi_trader() -> RSITrader {
    RSITrader::initialize(14, 3, 30 * ONE, 70 * ONE, ONE / 20)
}

fn buy_at(price: i64) -> Option<Order> {
    Some(Order::Limit(Action::Buy, ONE / 20, price))
}

#[test]
fn rsi_trader_crosses_thresholds() {
    let mut t = rsi_trader();
    assert_eq!(t.evaluate((100, Some(20 * ONE))), None);
    assert_eq!(t.evaluate((100, Some(35 * ONE))), buy_at(100));
    assert_eq!(t.evaluate((100, Some(80 * ONE))), None);
    assert_eq!(t.evaluate((90, Some(60 * ONE))), Some(Order::Limit(Action::Sell, ONE / 20, 90)));
    assert_eq!(t.evaluate((90, None)), None);
}

#[test]
fn backoff_holds_for_its_period_then_delegates() {
    let mut b = Backoff::initialize(rsi_trader(), 2);
    assert_eq!(b.evaluate((100, Some(20 * ONE))), None);
    assert_eq!(b.evaluate((100, Some(35 * ONE))), buy_at(100));
    assert_eq!(b.evaluate((100, Some(20 * ONE))), None);
    assert_eq!(b.evaluate((100, Some(35 * ONE))), None);
    assert_eq!(b.backoff, 0);
    assert_eq!(b.trader.previous_rsi, 35 * ONE);
    assert_eq!(b.evaluate((100, Some(20 * ONE))), None);
    assert_eq!(b.evaluate((100, Some(35 * ONE))), buy_at(100));
}

fn stop_loss() -> StopLoss<RSITrader> {
    StopLoss::initialize(rsi_trader(), &"BTC".to_string(), &"USDT".to_string(), &"USDT".to_string(), 95 * ONE / 100, 3)
}

#[test]
fn stop_loss_fires_below_the_stop() {
    let mut s = stop_loss();
    assert_eq!(s.evaluate((100 * ONE, (100 * ONE, Some(20 * ONE)))), None);
    assert_eq!(s.evaluate((100 * ONE, (100 * ONE, Some(35 * ONE)))), Some(Order::Limit(Action::Buy, ONE / 20, 100 * ONE)));
    assert_eq!(s.stop, Some(95 * ONE));
    assert_eq!(s.evaluate((94 * ONE, (94 * ONE, Some(50 * ONE)))), Some(Order::Limit(Action::Sell, ONE, 94 * ONE)));
    assert_eq!(s.stop, None);
    assert_eq!(s.backoff, 3);
    assert_eq!(s.evaluate((94 * ONE, (94 * ONE, Some(20 * ONE)))), None);
    assert_eq!(s.backoff, 2);
}

#[test]
fn stop_loss_only_lowers_a_long_stop() {
    let mut s = stop_loss();
    s.evaluate((100 * ONE, (100 * ONE, Some(20 * ONE))));
    s.evaluate((100 * ONE, (100 * ONE, Some(35 * ONE))));
    assert_eq!(s.stop, Some(95 * ONE));
    s.evaluate((110 * ONE, (110 * ONE, Some(20 * ONE))));
    s.evaluate((110 * ONE, (110 * ONE, Some(35 * ONE))));
    assert_eq!(s.stop, Some(95 * ONE));
    s.evaluate((100 * ONE, (100 * ONE, Some(20 * ONE))));
    s.evaluate((98 * ONE, (98 * ONE, Some(35 * ONE))));
    assert_eq!(s.stop, Some(9310 * ONE / 100));
}

#[test]
fn full_stop_moves_everything_into_the_safe_asset() {
    let mut f = FullStop::initialize(rsi_trader(), &"USDT".to_string(), &"BTC".to_string(), &"USDT".to_string());
    f.evaluate((100, Some(20 * ONE)));
    assert_eq!(f.evaluate((100, Some(35 * ONE))), Some(Order::Limit(Action::Buy, ONE, 100)));
    let mut g = FullStop::initialize(rsi_trader(), &"BTC".to_string(), &"USDT".to_string(), &"USDT".to_string());
    g.evaluate((100, Some(20 * ONE)));
    assert_eq!(g.evaluate((100, Some(35 * ONE))), buy_at(100));
}

#[test]
fn gobble_bad_longterm_gates_buys_on_the_trend() {
    let mut g = GobbleBadLongterm::initialize(rsi_trader(), &"BTC".to_string(), &"USDT".to_string(), &"USDT".to_string());
    g.evaluate((Some((0, ONE)), (100, Some(20 * ONE))));
    assert_eq!(g.evaluate((Some((0, -ONE)), (100, Some(35 * ONE)))), None);
    g.evaluate((Some((0, ONE)), (100, Some(20 * ONE))));
    assert_eq!(g.evaluate((Some((0, ONE)), (100, Some(35 * ONE)))), buy_at(100));
    g.evaluate((None, (100, Some(20 * ONE))));
    assert_eq!(g.evaluate((None, (100, Some(35 * ONE)))), None);
}

#[test]
fn and_trades_only_on_agreement() {
    let mut a = And::initialize(rsi_trader(), rsi_trader());
    a.evaluate(((100, Some(20 * ONE)), (300, Some(20 * ONE))));
    assert_eq!(a.evaluate(((100, Some(35 * ONE)), (300, Some(35 * ONE)))), buy_at(200));
    a.evaluate(((100, Some(20 * ONE)), (300, Some(50 * ONE))));
    assert_eq!(a.evaluate(((100, Some(35 * ONE)), (300, Some(50 * ONE)))), None);
}

#[test]
fn safe_and_passes_a_lone_move_into_safety() {
    let mut s = SafeAnd::initialize(rsi_trader(), rsi_trader(), &"BTC".to_string(), &"USDT".to_string(), &"USDT".to_string());
    s.evaluate(((100, Some(80 * ONE)), (100, Some(50 * ONE))));
    assert_eq!(s.evaluate(((100, Some(60 * ONE)), (100, Some(50 * ONE)))), Some(Order::Limit(Action::Sell, ONE / 20, 100)));
    s.evaluate(((100, Some(20 * ONE)), (100, Some(50 * ONE))));
    assert_eq!(s.evaluate(((100, Some(35 * ONE)), (100, Some(50 * ONE)))), None);
}

#[test]
fn macd_trader_buys_on_a_turn_below_zero() {
    let mut t = MACDTrader::initialize(ONE / 10);
    assert_eq!(t.evaluate((100, Some((-5, -1)), Some((-5, 1)))), None);
    assert_eq!(t.evaluate((100, Some((-5, 1)), Some((-5, 1)))), Some(Order::Limit(Action::Buy, ONE / 10, 100)));
    assert_eq!(t.evaluate((100, None, Some((-5, 1)))), None);
}

#[test]
fn rsi_trader_seeds_its_indicators_with_the_first_price() {
    let (_, rsi) = rsi_trader().indicators(7 * ONE);
    assert_eq!(rsi.previous_value, 7 * ONE);
    assert_eq!((rsi.up.period, rsi.up.ema, rsi.up.count), (14, 7 * ONE, 0));
    assert_eq!((rsi.down.period, rsi.down.ema, rsi.down.count), (14, 7 * ONE, 0));
    assert_eq!((rsi.change.period, rsi.change.ema, rsi.change.count), (3, 0, 0));
}
