use paper_trading::bots::{BotDecision, Strategy};
use paper_trading::fixed::SCALE;
use paper_trading::models::{PricePoint, TradeSide, TransactionType, UserData};
use paper_trading::state::{AppStateInner, BotError, ExecutionResult, StopReason, TickOutcome, TradeError};

fn fx(v: f64) -> u64 {
    (v * SCALE as f64).round() as u64
}

fn s(v: &str) -> String {
    v.to_string()
}

fn tick(asset: &str, price: f64) -> PricePoint {
    PricePoint { timestamp: 1_700_000_000, asset: s(asset), price: fx(price) }
}

fn demo() -> String {
    s("demo_user")
}

fn balance(st: &AppStateInner, asset: &str) -> u64 {
    st.get_user(&demo()).unwrap().get_balance(&s(asset))
}

#[test]
fn new_state_has_seeded_demo_account() {
    let st = AppStateInner::new();
    let u = st.get_user(&demo()).unwrap();
    assert_eq!(u.username, "Demo User");
    assert_eq!(u.usd_balance(), fx(10000.0));
    assert_eq!(u.lifetime_funding(), fx(10000.0) as u128);
}

#[test]
fn buy_moves_both_legs() {
    let mut st = AppStateInner::new();
    st.add_price_point(tick("BTC", 50000.0));
    let t = st.execute_trade_at(&demo(), &s("BTC"), &s("USD"), TradeSide::Buy, fx(0.1), 42).unwrap();
    assert_eq!(t.price, fx(50000.0));
    assert_eq!(t.quantity, fx(0.1));
    assert_eq!(t.timestamp, 42);
    assert_eq!(t.base_usd_price, Some(fx(50000.0)));
    assert_eq!(t.quote_usd_price, Some(SCALE));
    assert_eq!(t.transaction_type, TransactionType::Trade);
    assert_eq!(t.quote_cost(), fx(5000.0) as u128);
    assert_eq!(balance(&st, "USD"), fx(5000.0));
    assert_eq!(balance(&st, "BTC"), fx(0.1));
    assert_eq!(st.get_user(&demo()).unwrap().trade_history.len(), 1);
}

#[test]
fn sell_moves_both_legs() {
    let mut st = AppStateInner::new();
    st.add_price_point(tick("BTC", 100.0));
    st.execute_trade_at(&demo(), &s("BTC"), &s("USD"), TradeSide::Buy, fx(10.0), 1).unwrap();
    st.add_price_point(tick("BTC", 120.0));
    st.execute_trade_at(&demo(), &s("BTC"), &s("USD"), TradeSide::Sell, fx(4.0), 2).unwrap();
    assert_eq!(balance(&st, "BTC"), fx(6.0));
    assert_eq!(balance(&st, "USD"), fx(10000.0 - 1000.0 + 480.0));
}

#[test]
fn trade_errors_leave_balances() {
    let mut st = AppStateInner::new();
    assert_eq!(
        st.execute_trade_at(&demo(), &s("BTC"), &s("USD"), TradeSide::Buy, 0, 1).unwrap_err(),
        TradeError::InvalidQuantity
    );
    assert_eq!(
        st.execute_trade_at(&demo(), &s("BTC"), &s("USD"), TradeSide::Buy, fx(1.0), 1).unwrap_err(),
        TradeError::PriceUnavailable
    );
    st.add_price_point(tick("BTC", 50000.0));
    assert_eq!(
        st.execute_trade_at(&s("nobody"), &s("BTC"), &s("USD"), TradeSide::Buy, fx(1.0), 1).unwrap_err(),
        TradeError::UserNotFound
    );
    assert_eq!(
        st.execute_trade_at(&demo(), &s("BTC"), &s("USD"), TradeSide::Buy, fx(1.0), 1).unwrap_err(),
        TradeError::InsufficientFunds
    );
    assert_eq!(
        st.execute_trade_at(&demo(), &s("BTC"), &s("USD"), TradeSide::Sell, fx(1.0), 1).unwrap_err(),
        TradeError::InsufficientAssets
    );
    assert_eq!(balance(&st, "USD"), fx(10000.0));
    assert_eq!(balance(&st, "BTC"), 0);
    assert_eq!(st.get_user(&demo()).unwrap().trade_history.len(), 0);
}

#[test]
fn repeated_buys_never_overspend() {
    let mut st = AppStateInner::new();
    st.add_price_point(tick("BTC", 3000.0));
    let mut ok = 0u64;
    for _ in 0..10 {
        if st.execute_trade(&demo(), &s("BTC"), &s("USD"), TradeSide::Buy, fx(1.0)).is_ok() {
            ok += 1;
        }
    }
    assert_eq!(ok, 3);
    assert!(ok * fx(3000.0) <= fx(10000.0));
    assert_eq!(balance(&st, "USD"), fx(1000.0));
}

#[test]
fn deposit_limits_leave_balances() {
    let mut st = AppStateInner::new();
    assert_eq!(st.deposit(&demo(), fx(5.0)).unwrap_err(), TradeError::DepositTooSmall);
    assert_eq!(st.deposit(&demo(), fx(200000.0)).unwrap_err(), TradeError::DepositTooLarge);
    assert_eq!(balance(&st, "USD"), fx(10000.0));
    assert_eq!(st.get_user(&demo()).unwrap().trade_history.len(), 0);
}

#[test]
fn deposit_and_withdraw_record_history() {
    let mut st = AppStateInner::new();
    let d = st.deposit_at(&demo(), fx(10.0), 7).unwrap();
    assert_eq!(d.transaction_type, TransactionType::Deposit);
    assert_eq!(d.side, TradeSide::Buy);
    assert_eq!(d.price, SCALE);
    assert_eq!(balance(&st, "USD"), fx(10010.0));
    let w = st.withdraw_at(&demo(), fx(1010.0), 8).unwrap();
    assert_eq!(w.transaction_type, TransactionType::Withdrawal);
    assert_eq!(w.side, TradeSide::Sell);
    assert_eq!(balance(&st, "USD"), fx(9000.0));
    let u = st.get_user(&demo()).unwrap();
    assert_eq!(u.lifetime_deposits(), fx(10.0) as u128);
    assert_eq!(u.lifetime_withdrawals(), fx(1010.0) as u128);
    assert_eq!(u.lifetime_funding(), fx(10010.0) as u128);
    assert_eq!(st.deposit(&demo(), fx(100000.0)).unwrap().quantity, fx(100000.0));
}

#[test]
fn withdraw_errors() {
    let mut st = AppStateInner::new();
    assert_eq!(st.withdraw(&demo(), 0).unwrap_err(), TradeError::InvalidQuantity);
    assert_eq!(st.withdraw(&demo(), fx(10000.01)).unwrap_err(), TradeError::WithdrawalExceedsBalance);
    assert_eq!(st.withdraw(&s("ghost"), fx(1.0)).unwrap_err(), TradeError::UserNotFound);
    assert_eq!(st.deposit(&s("ghost"), fx(20.0)).unwrap_err(), TradeError::UserNotFound);
    assert!(st.withdraw(&demo(), fx(10000.0)).is_ok());
    assert_eq!(balance(&st, "USD"), 0);
}

#[test]
fn pair_price_triangulates() {
    let mut st = AppStateInner::new();
    assert_eq!(st.get_pair_price(&s("BTC"), &s("ETH")), None);
    st.add_price_point(tick("BTC", 60000.0));
    assert_eq!(st.get_pair_price(&s("BTC"), &s("ETH")), None);
    st.add_price_point(tick("ETH", 3000.0));
    assert_eq!(st.get_pair_price(&s("BTC"), &s("ETH")), Some(fx(20.0)));
    assert_eq!(st.get_pair_price(&s("ETH"), &s("BTC")), Some(fx(0.05)));
    assert_eq!(st.get_pair_price(&s("BTC"), &s("USD")), Some(fx(60000.0)));
    assert_eq!(st.get_pair_price(&s("USD"), &s("ETH")), Some(SCALE / 3000));
    assert_eq!(st.get_latest_price(&s("DOGE")), None);
}

#[test]
fn cross_trade_uses_pair_price() {
    let mut st = AppStateInner::new();
    st.add_price_point(tick("ETH", 2000.0));
    st.add_price_point(tick("BTC", 40000.0));
    st.execute_trade_at(&demo(), &s("ETH"), &s("USD"), TradeSide::Buy, fx(2.0), 1).unwrap();
    let t = st.execute_trade_at(&demo(), &s("BTC"), &s("ETH"), TradeSide::Buy, fx(0.05), 2).unwrap();
    assert_eq!(t.price, fx(20.0));
    assert_eq!(balance(&st, "ETH"), fx(1.0));
    assert_eq!(balance(&st, "BTC"), fx(0.05));
    assert_eq!(t.quote_usd_price, Some(fx(2000.0)));
    assert_eq!(t.usd_value(), Some(fx(2000.0) as u128));
}

#[test]
fn portfolio_value_prices_every_holding() {
    let mut st = AppStateInner::new();
    st.add_price_point(tick("BTC", 1000.0));
    st.execute_trade_at(&demo(), &s("BTC"), &s("USD"), TradeSide::Buy, fx(2.0), 1).unwrap();
    st.add_price_point(tick("BTC", 1500.0));
    assert_eq!(st.calculate_portfolio_value_usd(&demo()), Some(fx(11000.0) as u128));
    assert_eq!(st.calculate_portfolio_value_usd(&s("ghost")), None);
}

#[test]
fn bot_registry_lifecycle() {
    let mut st = AppStateInner::new();
    let name = s("naive_momentum");
    assert_eq!(st.start_bot(&demo(), &name, s("BTC"), s("USD"), 0).err(), Some(BotError::InvalidStoploss));
    assert_eq!(st.start_bot(&s("ghost"), &name, s("BTC"), s("USD"), fx(100.0)).err(), Some(BotError::UserNotFound));
    assert_eq!(st.start_bot(&demo(), &s("nope"), s("BTC"), s("USD"), fx(100.0)).err(), Some(BotError::UnknownBot));
    assert!(st.start_bot(&demo(), &name, s("BTC"), s("USD"), fx(100.0)).is_ok());
    assert_eq!(st.start_bot(&demo(), &name, s("BTC"), s("USD"), fx(100.0)).err(), Some(BotError::AlreadyActive));
    let rec = st.bot_status(&demo()).unwrap();
    assert_eq!(rec.bot_name, "Naive Momentum Bot");
    assert_eq!(rec.initial_portfolio_value_usd, fx(10000.0) as u128);
    assert_eq!(rec.stoploss_amount, fx(100.0));
    assert!(st.stop_bot(&demo()).is_some());
    assert!(st.bot_status(&demo()).is_none());
    assert!(st.stop_bot(&demo()).is_none());
}

fn momentum(stoploss: u64) -> Strategy {
    Strategy::from_name(&s("naive_momentum"), stoploss).unwrap()
}

#[test]
fn supervisor_stops_without_context() {
    let mut st = AppStateInner::new();
    st.start_bot(&demo(), &s("naive_momentum"), s("BTC"), s("USD"), fx(100.0)).unwrap();
    let mut bot = momentum(fx(100.0));
    assert_eq!(st.bot_tick(&demo(), &mut bot, 0), TickOutcome::Stopped(StopReason::ContextUnavailable));
    assert!(st.bot_status(&demo()).is_none());
    assert_eq!(st.bot_tick(&demo(), &mut bot, 1), TickOutcome::NotActive);
}

#[test]
fn supervisor_buys_on_uptrend_and_skips_unfunded_sell() {
    let mut st = AppStateInner::new();
    st.start_bot(&demo(), &s("naive_momentum"), s("BTC"), s("USD"), fx(10000.0)).unwrap();
    let mut bot = momentum(fx(10000.0));
    for (k, price) in [100.0, 105.0].iter().enumerate() {
        st.add_price_point(tick("BTC", *price));
        assert_eq!(st.bot_tick(&demo(), &mut bot, k as u64), TickOutcome::Continue);
    }
    st.add_price_point(tick("BTC", 110.0));
    assert_eq!(st.bot_tick(&demo(), &mut bot, 2), TickOutcome::Continue);
    // bought 100 USD worth at 110
    let usd = balance(&st, "USD");
    assert!(usd >= fx(9900.0) && usd <= fx(9900.000001));
    assert_eq!(balance(&st, "BTC"), fx(100.0) * SCALE / fx(110.0));
    let t = st.get_user(&demo()).unwrap().trade_history.pop().unwrap();
    assert_eq!(t.bot_name, Some(s("Naive Momentum Bot")));
    assert_eq!(t.side, TradeSide::Buy);

    let mut bear = AppStateInner::new();
    bear.start_bot(&demo(), &s("naive_momentum"), s("ETH"), s("USD"), fx(10000.0)).unwrap();
    let mut bot = momentum(fx(10000.0));
    for (k, price) in [110.0, 105.0, 100.0].iter().enumerate() {
        bear.add_price_point(tick("ETH", *price));
        assert_eq!(bear.bot_tick(&demo(), &mut bot, k as u64), TickOutcome::Continue);
    }
    // the sell asked for ETH the account does not hold: skipped
    assert_eq!(balance(&bear, "ETH"), 0);
    assert_eq!(bear.get_user(&demo()).unwrap().trade_history.len(), 0);
}

#[test]
fn supervisor_enforces_stoploss() {
    let mut st = AppStateInner::new();
    st.add_price_point(tick("BTC", 100.0));
    st.execute_trade_at(&demo(), &s("BTC"), &s("USD"), TradeSide::Buy, fx(90.0), 1).unwrap();
    st.start_bot(&demo(), &s("naive_momentum"), s("BTC"), s("USD"), fx(500.0)).unwrap();
    let mut bot = momentum(fx(500.0));
    assert_eq!(st.bot_tick(&demo(), &mut bot, 0), TickOutcome::Continue);
    // 90 BTC lose 10 each: 900 >= 500
    st.add_price_point(tick("BTC", 90.0));
    assert_eq!(st.bot_tick(&demo(), &mut bot, 1), TickOutcome::Stopped(StopReason::StoplossBreached));
    assert!(st.bot_status(&demo()).is_none());
}

#[test]
fn supervisor_stops_on_oversized_buy() {
    let mut st = AppStateInner::new();
    st.start_bot(&demo(), &s("naive_momentum"), s("BTC"), s("USD"), fx(2_000_000.0)).unwrap();
    let mut bot = momentum(fx(2_000_000.0));
    for (k, price) in [100.0, 101.0].iter().enumerate() {
        st.add_price_point(tick("BTC", *price));
        assert_eq!(st.bot_tick(&demo(), &mut bot, k as u64), TickOutcome::Continue);
    }
    st.add_price_point(tick("BTC", 102.0));
    assert_eq!(st.bot_tick(&demo(), &mut bot, 2), TickOutcome::Stopped(StopReason::InsufficientFunds));
    assert_eq!(balance(&st, "USD"), fx(10000.0));
}

#[test]
fn bot_decision_paths() {
    let mut st = AppStateInner::new();
    st.add_price_point(tick("BTC", 100.0));
    let name = s("bot");
    assert_eq!(
        st.execute_bot_decision(&demo(), BotDecision::DoNothing, &s("BTC"), &s("USD"), fx(100.0), &name, 0),
        ExecutionResult::NoAction
    );
    assert_eq!(
        st.execute_bot_decision(&demo(), BotDecision::Buy { quote_amount: fx(10.0) }, &s("BTC"), &s("USD"), 0, &name, 0),
        ExecutionResult::Failed(TradeError::PriceUnavailable)
    );
    assert_eq!(
        st.execute_bot_decision(&s("x"), BotDecision::Buy { quote_amount: fx(10.0) }, &s("BTC"), &s("USD"), fx(100.0), &name, 0),
        ExecutionResult::Failed(TradeError::UserNotFound)
    );
    assert_eq!(
        st.execute_bot_decision(&demo(), BotDecision::Buy { quote_amount: fx(10.0) }, &s("BTC"), &s("USD"), fx(100.0), &name, 0),
        ExecutionResult::TradeExecuted
    );
    assert_eq!(balance(&st, "BTC"), fx(0.1));
}

#[test]
fn context_assembly() {
    let mut st = AppStateInner::new();
    assert!(st.assemble_bot_context(&demo(), &s("BTC"), &s("USD"), 3).is_none());
    st.add_price_point(tick("BTC", 10.0));
    st.add_price_point(tick("ETH", 1.0));
    st.add_price_point(tick("BTC", 11.0));
    let ctx = st.assemble_bot_context(&demo(), &s("BTC"), &s("USD"), 3).unwrap();
    assert_eq!(ctx.price_window.len(), 2);
    assert_eq!(ctx.current_price, fx(11.0));
    assert_eq!(ctx.quote_balance, fx(10000.0));
    assert_eq!(ctx.base_balance, 0);
    assert_eq!(ctx.tick_count, 3);
    assert!(st.assemble_bot_context(&s("ghost"), &s("BTC"), &s("USD"), 3).is_none());
}

#[test]
fn stored_account_migrates_cash() {
    let u = UserData::from_stored(s("bob"), fx(50.0), vec![(s("BTC"), fx(1.0))], vec![]);
    assert_eq!(u.usd_balance(), fx(50.0));
    assert_eq!(u.get_balance(&s("BTC")), fx(1.0));
    let v = UserData::from_stored(s("ann"), fx(50.0), vec![(s("USD"), fx(7.0))], vec![]);
    assert_eq!(v.usd_balance(), fx(7.0));
}

#[test]
fn insert_user_adds_account() {
    let mut st = AppStateInner::new();
    st.insert_user(s("u1"), UserData::new(s("alice")));
    assert_eq!(st.get_user(&s("u1")).unwrap().username, "alice");
    assert!(st.check_stoploss(&s("u1"), fx(10000.0) as u128, fx(1.0)) == Some(false));
    assert!(st.check_stoploss(&s("u1"), fx(10001.0) as u128, fx(1.0)) == Some(true));
    assert_eq!(TradeError::DepositTooSmall.message(), "deposit too small");
}

#[test]
fn same_asset_trade_nets_on_one_balance() {
    let mut st = AppStateInner::new();
    st.add_price_point(tick("BTC", 100.0));
    st.execute_trade_at(&demo(), &s("BTC"), &s("USD"), TradeSide::Buy, fx(2.0), 1).unwrap();
    let t = st.execute_trade_at(&demo(), &s("BTC"), &s("BTC"), TradeSide::Buy, fx(1.0), 2).unwrap();
    assert_eq!(t.price, SCALE);
    // one unit debited as cost and one credited as quantity
    assert_eq!(balance(&st, "BTC"), fx(2.0));
}
