use paper_trading::bots::{BotContext, BotDecision, NaiveMomentumBot, PriceHistory, Strategy, TradingBot};
use paper_trading::fixed::SCALE;
use paper_trading::models::PricePoint;

fn fx(v: f64) -> u64 {
    (v * SCALE as f64).round() as u64
}

fn create_test_context(prices: Vec<f64>, current_price: f64) -> BotContext {
    let price_window = prices
        .iter()
        .map(|&p| PricePoint {
            timestamp: chrono::Utc::now().timestamp(),
            asset: "BTC".to_string(),
            price: fx(p),
        })
        .collect();

    BotContext {
        price_window,
        base_balance: 0,
        quote_balance: fx(10000.0),
        current_price: fx(current_price),
        base_asset: "BTC".to_string(),
        quote_asset: "USD".to_string(),
        tick_count: 0,
    }
}

#[test]
fn test_uptrend_detection() {
    let mut bot = NaiveMomentumBot::new(fx(10000.0));

    let ctx1 = create_test_context(vec![], 100.0);
    bot.tick(&ctx1);

    let ctx2 = create_test_context(vec![], 105.0);
    bot.tick(&ctx2);

    let ctx3 = create_test_context(vec![], 110.0);
    let decision = bot.tick(&ctx3);

    assert_eq!(decision, BotDecision::Buy { quote_amount: fx(100.0) });
    assert_eq!(bot.cooldown_remaining(), 3);
}

#[test]
fn test_downtrend_detection() {
    let mut bot = NaiveMomentumBot::new(fx(10000.0));

    bot.tick(&create_test_context(vec![], 110.0));
    bot.tick(&create_test_context(vec![], 105.0));
    let decision = bot.tick(&create_test_context(vec![], 100.0));

    assert_eq!(decision, BotDecision::Sell { quote_amount: fx(100.0) });
    assert_eq!(bot.cooldown_remaining(), 3);
}

#[test]
fn test_cooldown_behavior() {
    let mut bot = NaiveMomentumBot::new(fx(10000.0));

    bot.tick(&create_test_context(vec![], 100.0));
    bot.tick(&create_test_context(vec![], 105.0));
    bot.tick(&create_test_context(vec![], 110.0));

    assert_eq!(bot.tick(&create_test_context(vec![], 115.0)), BotDecision::DoNothing);
    assert_eq!(bot.tick(&create_test_context(vec![], 120.0)), BotDecision::DoNothing);
    assert_eq!(bot.tick(&create_test_context(vec![], 125.0)), BotDecision::DoNothing);

    assert_eq!(bot.cooldown_remaining(), 0);
}

#[test]
fn test_no_trend() {
    let mut bot = NaiveMomentumBot::new(fx(10000.0));

    bot.tick(&create_test_context(vec![], 100.0));
    bot.tick(&create_test_context(vec![], 105.0));
    let decision = bot.tick(&create_test_context(vec![], 103.0));

    assert_eq!(decision, BotDecision::DoNothing);
}

#[test]
fn momentum_warmup_buy_cooldown_then_reevaluates() {
    let mut bot = NaiveMomentumBot::new(fx(10000.0));
    let step = fx(100.0);
    assert_eq!(bot.observe(fx(100.0)), BotDecision::DoNothing);
    assert_eq!(bot.observe(fx(105.0)), BotDecision::DoNothing);
    assert_eq!(bot.observe(fx(110.0)), BotDecision::Buy { quote_amount: step });
    // three ticks of cooldown whatever the price does
    assert_eq!(bot.observe(fx(90.0)), BotDecision::DoNothing);
    assert_eq!(bot.observe(fx(80.0)), BotDecision::DoNothing);
    assert_eq!(bot.observe(fx(70.0)), BotDecision::DoNothing);
    // then the last three prices (80, 70, 60) are evaluated again
    assert_eq!(bot.observe(fx(60.0)), BotDecision::Sell { quote_amount: step });
}

#[test]
fn momentum_flat_prices_never_trade() {
    let mut bot = NaiveMomentumBot::new(fx(500.0));
    for _ in 0..10 {
        assert_eq!(bot.observe(fx(100.0)), BotDecision::DoNothing);
    }
    assert_eq!(bot.stepsize_quote(), fx(5.0));
}

#[test]
fn price_history_keeps_most_recent() {
    let mut h = PriceHistory::new(3);
    for p in [1u64, 2, 3, 4, 5] {
        h.push(p);
    }
    assert_eq!(h.prices(), &vec![3u64, 4, 5]);
    assert_eq!(h.last_n(2), vec![4u64, 5]);
    assert_eq!(h.last_n(10), vec![3u64, 4, 5]);
    assert!(h.has_at_least(3));
    assert!(!h.has_at_least(4));
    assert_eq!(h.len(), 3);
}

#[test]
fn strategy_registry_by_name() {
    assert!(Strategy::from_name(&"naive_momentum".to_string(), fx(100.0)).is_some());
    assert!(Strategy::from_name(&"other".to_string(), fx(100.0)).is_none());
    let s = Strategy::from_name(&"naive_momentum".to_string(), fx(100.0)).unwrap();
    assert_eq!(s.display_name(), "Naive Momentum Bot");
}
