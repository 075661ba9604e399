use paper_trading::auth::{generate_user_id, hash_password, verification_outcome, verify_password, AuthError};
use paper_trading::feed::{parse_price, spot_price_point, ApiError};
use paper_trading::fixed::SCALE;
use paper_trading::indicator_request::{
    check_indicator_request, compute_indicator, parse_indicator, IndicatorKind, IndicatorRequestError,
};
use paper_trading::market::{CandleBuilder, MarketData, OhlcResolution, Window};
use paper_trading::models::{Candle, PricePoint};

fn p(asset: &str, ts: i64, price: u64) -> PricePoint {
    PricePoint { timestamp: ts, asset: asset.to_string(), price }
}

#[test]
fn window_evicts_per_asset() {
    let mut w: Window<PricePoint> = Window::new(3);
    w.push(p("QUIET", 0, 1));
    for i in 0..10 {
        w.push(p("BUSY", i, i as u64));
    }
    let quiet = "QUIET".to_string();
    let busy = "BUSY".to_string();
    assert_eq!(w.count(&quiet), 1);
    assert_eq!(w.count(&busy), 3);
    let last = w.window(&busy, 10);
    assert_eq!(last.iter().map(|x| x.price).collect::<Vec<_>>(), vec![7, 8, 9]);
    let two = w.window(&busy, 2);
    assert_eq!(two.iter().map(|x| x.price).collect::<Vec<_>>(), vec![8, 9]);
    assert_eq!(w.window(&"NONE".to_string(), 5).len(), 0);
}

#[test]
fn tick_tier_never_exceeds_capacity() {
    let mut m = MarketData::new();
    let cap = m.ticks.capacity();
    for i in 0..(cap + 50) {
        m.ingest(p("BTC", i as i64, 1 + i as u64));
    }
    let btc = "BTC".to_string();
    assert_eq!(m.ticks.count(&btc), cap);
    assert_eq!(m.latest_price(&btc), Some((cap + 50) as u64));
    assert_eq!(m.price_window(&btc, 2).len(), 2);
}

#[test]
fn ohlc_tiers_are_separate() {
    let mut m = MarketData::new();
    let c = Candle { timestamp: 0, asset: "BTC".to_string(), open: 1, high: 3, low: 1, close: 2 };
    m.ingest_ohlc(OhlcResolution::OneMinute, c);
    m.ingest_history(p("BTC", 0, 5));
    let btc = "BTC".to_string();
    assert_eq!(m.ohlc_window(OhlcResolution::OneMinute, &btc, 10).len(), 1);
    assert_eq!(m.ohlc_window(OhlcResolution::FiveMinute, &btc, 10).len(), 0);
    assert_eq!(m.history_window(&btc, 10)[0].price, 5);
    assert_eq!(m.latest_price(&btc), None);
}

#[test]
fn candle_builder_closes_periods() {
    let mut b = CandleBuilder::new("BTC".to_string(), 3);
    assert!(b.observe(10, 5).is_none());
    assert!(b.observe(15, 9).is_none());
    let c = b.observe(20, 7).unwrap();
    assert_eq!((c.timestamp, c.open, c.high, c.low, c.close), (10, 5, 9, 5, 7));
    assert!(b.observe(25, 4).is_none());
    assert_eq!(b.open, 4);
}

#[test]
fn price_text_parsing() {
    assert_eq!(parse_price(b"65432.12").unwrap(), 6_543_212_000_000);
    assert_eq!(parse_price(b"7").unwrap(), 7 * SCALE);
    assert_eq!(parse_price(b"0.123456789").unwrap(), 12_345_678);
    assert_eq!(parse_price(b"3.").unwrap(), 3 * SCALE);
    assert!(parse_price(b"").is_err());
    assert!(parse_price(b".5").is_err());
    assert!(parse_price(b"1.2.3").is_err());
    assert!(parse_price(b"12a").is_err());
    assert!(parse_price(b"999999999999999").is_err());
    let t = spot_price_point("BTC".to_string(), b"100.5").unwrap();
    assert_eq!(t.price, 10_050_000_000);
    assert_eq!(t.asset, "BTC");
    match spot_price_point("BTC".to_string(), b"x") {
        Err(ApiError::ParseError(m)) => assert!(!m.is_empty()),
        _ => panic!("expected a parse error"),
    }
    assert_eq!(ApiError::RequestFailed("down".to_string()).message(), "down");
}

#[test]
fn indicator_names() {
    assert_eq!(parse_indicator(b"sma_20"), Some((IndicatorKind::Sma, 20)));
    assert_eq!(parse_indicator(b"ema_12"), Some((IndicatorKind::Ema, 12)));
    assert_eq!(parse_indicator(b"ema_200"), Some((IndicatorKind::Ema, 200)));
    assert_eq!(parse_indicator(b"sma_1"), None);
    assert_eq!(parse_indicator(b"sma_201"), None);
    assert_eq!(parse_indicator(b"rsi_14"), None);
    assert_eq!(parse_indicator(b"sma_2x"), None);
    assert_eq!(parse_indicator(b"sma20"), None);
    let prices: Vec<u64> = vec![1, 2, 3, 4];
    assert_eq!(compute_indicator(IndicatorKind::Sma, 2, &prices), vec![None, Some(1), Some(2), Some(3)]);
}

#[test]
fn indicator_request_checks() {
    let h = "1h".to_string();
    assert_eq!(check_indicator_request(&"8h".to_string(), 50), Err(IndicatorRequestError::UnsupportedTimeframe));
    assert_eq!(check_indicator_request(&h, 0), Err(IndicatorRequestError::NoData));
    assert_eq!(check_indicator_request(&h, 19), Err(IndicatorRequestError::InsufficientData));
    assert_eq!(check_indicator_request(&h, 20), Ok(()));
}

#[test]
fn auth_helpers() {
    let id = generate_user_id();
    assert_eq!(id.len(), 36);
    assert_ne!(id, generate_user_id());
    let h = hash_password("secret").unwrap();
    assert!(verify_password("secret", &h).unwrap());
    assert!(!verify_password("wrong", &h).unwrap());
    assert!(matches!(verify_password("secret", "not-a-hash"), Err(AuthError::HashError(_))));
    assert_eq!(AuthError::HashError("boom".to_string()).message(), "Password hashing error: boom");
    assert_eq!(AuthError::InvalidCredentials.message(), "Invalid username or password");
}

#[test]
fn verification_outcome_maps_errors() {
    assert!(matches!(verification_outcome(Ok(true)), Ok(true)));
    match verification_outcome(Err("bad hash".to_string())) {
        Err(AuthError::HashError(m)) => assert_eq!(m, "bad hash"),
        _ => panic!("expected a hash error"),
    }
}
