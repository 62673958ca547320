use trader::indicators::{rsi, Indicator, MACDHistogram, StretchedRSI, Value, EMA, MACD, RSI, SMA, SMMA};
use trader::money::ONE;

#[test]
fn test_ema() {
    let mut ema = EMA::initialize(9, 0);
    for i in 0..8 {
        assert_eq!(ema.evaluate(i * ONE), None);
    }
    let result = ema.evaluate(8 * ONE).unwrap();
    assert!(result > 46 * ONE / 10 && result < 47 * ONE / 10);
}

#[test]
fn test_sma() {
    let mut sma = SMA::initialize(9, 0);
    for i in 0..8 {
        assert_eq!(sma.evaluate(i * ONE), None);
    }
    assert_eq!(sma.evaluate(8 * ONE), Some(4 * ONE));
}

#[test]
fn smma_warms_up_after_period() {
    let mut smma = SMMA::initialize(9, 0);
    for i in 0..8 {
        assert_eq!(smma.evaluate(i * ONE), None);
    }
    assert!(smma.evaluate(8 * ONE).is_some());
    assert!(smma.evaluate(9 * ONE).is_some());
}

#[test]
fn ema_of_constant_stream_is_constant() {
    let c = 5 * ONE;
    let mut ema = EMA::initialize(4, c);
    for _ in 0..3 {
        assert_eq!(ema.evaluate(c), None);
    }
    for _ in 0..5 {
        assert_eq!(ema.evaluate(c), Some(c));
    }
}

#[test]
fn smma_of_constant_stream_is_constant() {
    let c = 7 * ONE;
    let mut smma = SMMA::initialize(3, c);
    assert_eq!(smma.evaluate(c), None);
    assert_eq!(smma.evaluate(c), None);
    for _ in 0..4 {
        assert_eq!(smma.evaluate(c), Some(c));
    }
}

#[test]
fn sma_of_constant_stream_is_constant_whatever_the_seed() {
    let c = 3 * ONE;
    let mut sma = SMA::initialize(4, 100 * ONE);
    for _ in 0..3 {
        assert_eq!(sma.evaluate(c), None);
    }
    for _ in 0..3 {
        assert_eq!(sma.evaluate(c), Some(c));
    }
}

#[test]
fn ema_step_moves_two_over_period_plus_one() {
    let mut ema = EMA::initialize(3, 0);
    assert_eq!(ema.evaluate(4 * ONE), None);
    assert_eq!(ema.ema, 2 * ONE);
}

#[test]
fn smma_step_moves_one_over_period() {
    let mut smma = SMMA::initialize(4, 0);
    assert_eq!(smma.evaluate(8 * ONE), None);
    assert_eq!(smma.smma, 2 * ONE);
}

#[test]
fn macd_is_short_minus_long_once_both_warm() {
    let mut macd = MACD::initialize(1, 2, 0);
    assert_eq!(macd.evaluate(6 * ONE), None);
    assert_eq!(macd.evaluate(6 * ONE), Some(600_000_000 - 533_333_333));
}

#[test]
fn macd_histogram_waits_for_signal() {
    let mut h = MACDHistogram::initialize(1, 1, 2, 0);
    assert_eq!(h.evaluate(ONE), None);
    let out = h.evaluate(ONE);
    assert_eq!(out, Some((0, 0)));
}

#[test]
fn rsi_formula() {
    assert_eq!(rsi(Some(3 * ONE), Some(ONE)), Some(75 * ONE));
    assert_eq!(rsi(Some(ONE), Some(0)), Some(100 * ONE));
    assert_eq!(rsi(Some(0), Some(ONE)), Some(0));
    assert_eq!(rsi(Some(0), Some(0)), None);
    assert_eq!(rsi(None, Some(ONE)), None);
}

#[test]
fn rsi_tracks_gains_and_losses() {
    let mut r = RSI::initialize(SMA::initialize(2, 0), SMA::initialize(2, 0), 10 * ONE);
    assert_eq!(r.evaluate(12 * ONE), None);
    assert_eq!(r.evaluate(10 * ONE), Some(50 * ONE));
}

#[test]
fn stretched_rsi_waits_for_its_smoothing() {
    let mut r = StretchedRSI::initialize(SMA::initialize(1, 0), SMA::initialize(1, 0), SMA::initialize(2, 0), 10 * ONE);
    assert_eq!(r.evaluate(12 * ONE), None);
    assert_eq!(r.previous_value, 12 * ONE);
    assert_eq!(r.evaluate(14 * ONE), Some(100 * ONE));
    assert_eq!(r.previous_value, 14 * ONE);
}

#[test]
fn tuple_runs_in_lockstep() {
    let mut t = (Value::initialize(0), EMA::initialize(1, 0));
    assert_eq!(t.evaluate(4 * ONE), (4 * ONE, Some(4 * ONE)));
}

#[test]
fn stretched_rsi_measures_each_change_from_the_previous_observation() {
    let mut r = StretchedRSI::initialize(EMA::initialize(1, 0), EMA::initialize(1, 0), EMA::initialize(3, 0), 0);
    assert_eq!(r.evaluate(10 * ONE), None);
    assert_eq!(r.evaluate(10 * ONE), None);
    assert_eq!(r.change.ema, 25 * ONE / 10);
    assert_eq!(r.previous_value, 10 * ONE);
}
