use paper_trading::fixed::SCALE;
use paper_trading::indicators::{EMA, RSI, SMA};

fn fx(v: f64) -> u64 {
    (v * SCALE as f64).round() as u64
}

fn fl(v: u64) -> f64 {
    v as f64 / SCALE as f64
}

fn series(values: &[f64]) -> Vec<u64> {
    values.iter().map(|&v| fx(v)).collect()
}

#[test]
fn test_sma_basic() {
    let prices = series(&[100.0, 102.0, 101.0, 103.0, 105.0, 104.0, 106.0]);
    let sma = SMA::new(3);
    let result = sma.calculate(&prices);

    assert!(result[0].is_none());
    assert!(result[1].is_none());
    assert!((fl(result[2].unwrap()) - 101.0).abs() < 0.001);
    assert!((fl(result[3].unwrap()) - 102.0).abs() < 0.001);
    assert!((fl(result[4].unwrap()) - 103.0).abs() < 0.001);
}

#[test]
fn sma_full_series() {
    let prices = series(&[100.0, 102.0, 101.0, 103.0, 105.0, 104.0, 106.0]);
    let result = SMA::new(3).calculate(&prices);
    let expected = [None, None, Some(101.0), Some(102.0), Some(103.0), Some(104.0), Some(105.0)];
    assert_eq!(result.len(), expected.len());
    for (got, want) in result.iter().zip(expected.iter()) {
        match (got, want) {
            (None, None) => {}
            (Some(g), Some(w)) => assert_eq!(*g, fx(*w)),
            _ => panic!("warmup mismatch"),
        }
    }
}

#[test]
fn test_sma_insufficient_data() {
    let prices = series(&[100.0, 102.0]);
    let sma = SMA::new(3);
    let result = sma.calculate(&prices);

    assert!(result[0].is_none());
    assert!(result[1].is_none());
}

#[test]
fn test_sma_period_20() {
    let mut prices = Vec::new();
    for i in 0..25 {
        prices.push(fx(100.0 + i as f64));
    }

    let sma = SMA::new(20);
    let result = sma.calculate(&prices);

    for i in 0..19 {
        assert!(result[i].is_none());
    }
    assert!((fl(result[19].unwrap()) - 109.5).abs() < 0.001);
    assert!((fl(result[20].unwrap()) - 110.5).abs() < 0.001);
}

#[test]
fn test_ema_basic() {
    let prices = series(&[100.0, 102.0, 101.0, 103.0, 105.0, 104.0, 106.0]);
    let ema = EMA::new(3);
    let result = ema.calculate(&prices);

    assert!(result[0].is_none());
    assert!(result[1].is_none());
    assert!((fl(result[2].unwrap()) - 101.0).abs() < 0.001);
    assert!((fl(result[3].unwrap()) - 102.0).abs() < 0.001);
    assert!((fl(result[4].unwrap()) - 103.5).abs() < 0.001);
}

#[test]
fn ema_seed_and_first_step_exact() {
    let prices = series(&[100.0, 102.0, 101.0, 103.0, 105.0, 104.0, 106.0]);
    let result = EMA::new(3).calculate(&prices);
    assert_eq!(result[2], Some(fx(101.0)));
    assert_eq!(result[3], Some(fx(102.0)));
    assert_eq!(result.len(), 7);
}

#[test]
fn test_ema_period_12() {
    let mut prices = Vec::new();
    for i in 0..20 {
        prices.push(fx(100.0 + i as f64));
    }

    let ema = EMA::new(12);
    let result = ema.calculate(&prices);

    for i in 0..11 {
        assert!(result[i].is_none());
    }
    assert!((fl(result[11].unwrap()) - 105.5).abs() < 0.001);

    let k = 2.0 / 13.0;
    let expected = 112.0 * k + 105.5 * (1.0 - k);
    assert!((fl(result[12].unwrap()) - expected).abs() < 0.001);
}

#[test]
fn test_ema_smoothing_factor() {
    let ema = EMA::new(12);
    let k = fl(ema.smoothing_factor());
    assert!((k - 2.0 / 13.0).abs() < 0.0001);

    let ema26 = EMA::new(26);
    let k26 = fl(ema26.smoothing_factor());
    assert!((k26 - 2.0 / 27.0).abs() < 0.0001);
}

#[test]
fn test_rsi_basic() {
    let prices = series(&[
        100.0, 102.0, 104.0, 103.0, 105.0, 107.0, 106.0, 108.0, 110.0, 109.0, 111.0, 113.0, 112.0,
        114.0, 116.0, 115.0, 117.0, 119.0, 118.0, 120.0,
    ]);
    let rsi = RSI::new(14);
    let result = rsi.calculate(&prices);

    for i in 0..14 {
        assert!(result[i].is_none(), "Index {} should be NaN", i);
    }
    assert!(result[14].is_some(), "Index 14 should have a value");
    let v = fl(result[14].unwrap());
    assert!(v >= 0.0 && v <= 100.0, "RSI should be between 0-100");
    assert!(v > 50.0, "RSI should be high with mostly gains");
}

#[test]
fn test_rsi_downtrend() {
    let prices = series(&[
        120.0, 118.0, 116.0, 117.0, 115.0, 113.0, 114.0, 112.0, 110.0, 111.0, 109.0, 107.0, 108.0,
        106.0, 104.0, 105.0, 103.0, 101.0, 102.0, 100.0,
    ]);
    let rsi = RSI::new(14);
    let result = rsi.calculate(&prices);

    assert!(fl(result[14].unwrap()) < 50.0, "RSI should be low with mostly losses");
}

#[test]
fn test_rsi_insufficient_data() {
    let prices = series(&[100.0, 102.0, 104.0, 103.0, 105.0]);
    let rsi = RSI::new(14);
    let result = rsi.calculate(&prices);

    for (i, val) in result.iter().enumerate() {
        assert!(val.is_none(), "Index {} should be NaN", i);
    }
}

#[test]
fn test_rsi_all_gains() {
    let mut prices = vec![fx(100.0)];
    for i in 1..20 {
        prices.push(fx(100.0 + i as f64));
    }

    let rsi = RSI::new(14);
    let result = rsi.calculate(&prices);

    let v = fl(result[14].unwrap());
    assert!(v > 90.0, "RSI should be very high (>90) with all gains, got {}", v);
}

#[test]
fn test_rsi_all_losses() {
    let mut prices = vec![fx(120.0)];
    for i in 1..20 {
        prices.push(fx(120.0 - i as f64));
    }

    let rsi = RSI::new(14);
    let result = rsi.calculate(&prices);

    assert!(fl(result[14].unwrap()) < 1.0, "RSI should be close to 0 with all losses");
}

#[test]
fn test_rsi_period_14() {
    let mut prices = vec![100.0];
    for i in 1..30 {
        let change = if i % 2 == 0 { 1.0 } else { -0.5 };
        prices.push(prices[i - 1] + change);
    }
    let prices = series(&prices);

    let rsi = RSI::new(14);
    let result = rsi.calculate(&prices);

    for i in 0..14 {
        assert!(result[i].is_none());
    }
    for i in 14..result.len() {
        assert!(result[i].is_some(), "Index {} should have a value", i);
        let v = fl(result[i].unwrap());
        assert!(v >= 0.0 && v <= 100.0, "RSI at {} should be between 0-100", i);
    }
}

#[test]
fn test_rsi_no_change() {
    let prices = vec![fx(100.0); 20];
    let rsi = RSI::new(14);
    let result = rsi.calculate(&prices);

    assert!(result[14].is_some(), "Should handle flat prices");
}

#[test]
fn rsi_zero_loss_is_one_hundred() {
    let prices = vec![fx(100.0); 20];
    let result = RSI::new(14).calculate(&prices);
    assert_eq!(result[14], Some(100 * SCALE));
}

#[test]
fn rsi_mixed_exact_value() {
    // one gain of 2 and one loss of 1 over period 2: 100 * 2 / 3
    let prices = series(&[100.0, 102.0, 101.0]);
    let result = RSI::new(2).calculate(&prices);
    assert_eq!(result[0], None);
    assert_eq!(result[1], None);
    assert_eq!(result[2], Some(100 * SCALE * 2 / 3));
}
