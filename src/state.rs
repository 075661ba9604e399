//! The process-wide state: market data, the ledger of accounts, and the
//! registry of running bots. Every mutation is one method call, so a caller
//! that holds the state exclusively makes each check-and-mutate atomic.

use vstd::prelude::*;
use crate::fixed::{SCALE, fx_mul, checked_fx_mul, checked_fx_div};
use crate::keyed::{find_key, key_index, keys_unique, lookup, put, delete, lemma_lookup_put, lemma_put_unique, lemma_delete_unique};
use crate::market::{ratio, MarketData, OhlcResolution, after_ingest, last_tagged, latest_price_of, pair_price_of};
use crate::models::{SEED_BALANCE, Candle, PricePoint, Trade, TradeSide, TransactionType, UserData, balance_in, reference_asset, is_reference_asset, default_quote_asset};
use crate::bots::{BotContext, BotDecision, TradingBot, Strategy, momentum_name, MOMENTUM_HISTORY};
use crate::clock::now_timestamp;

verus! {

/// Why a trade, deposit or withdrawal was refused. Nothing is changed when
/// one is returned.
#[derive(Debug, Clone, Copy, PartialEq, Eq, Structural)]
pub enum TradeError {
    InvalidQuantity,
    InsufficientFunds,
    InsufficientAssets,
    PriceUnavailable,
    UserNotFound,
    DepositTooSmall,
    DepositTooLarge,
    WithdrawalExceedsBalance,
    /// A credited balance would exceed the largest representable amount.
    BalanceOverflow,
}

impl TradeError {
    pub fn message(&self) -> (r: String)
        ensures
            r@ == match self {
                TradeError::InvalidQuantity => "invalid quantity"@,
                TradeError::InsufficientFunds => "insufficient funds"@,
                TradeError::InsufficientAssets => "insufficient assets"@,
                TradeError::PriceUnavailable => "price unavailable"@,
                TradeError::UserNotFound => "user not found"@,
                TradeError::DepositTooSmall => "deposit too small"@,
                TradeError::DepositTooLarge => "deposit too large"@,
                TradeError::WithdrawalExceedsBalance => "withdrawal exceeds balance"@,
                TradeError::BalanceOverflow => "balance overflow"@,
            },
    {
        let s = match self {
            TradeError::InvalidQuantity => "invalid quantity",
            TradeError::InsufficientFunds => "insufficient funds",
            TradeError::InsufficientAssets => "insufficient assets",
            TradeError::PriceUnavailable => "price unavailable",
            TradeError::UserNotFound => "user not found",
            TradeError::DepositTooSmall => "deposit too small",
            TradeError::DepositTooLarge => "deposit too large",
            TradeError::WithdrawalExceedsBalance => "withdrawal exceeds balance",
            TradeError::BalanceOverflow => "balance overflow",
        };
        s.to_owned()
    }
}

/// Smallest accepted deposit.
pub const MIN_DEPOSIT: u64 = 10 * SCALE;
/// Largest accepted deposit.
pub const MAX_DEPOSIT: u64 = 100_000 * SCALE;

/// Balances after trading `qty` of `base` against `quote` at `price`, or
/// the refusal. Buy debits `price * qty` of quote, then credits `qty` of base;
/// Sell debits `qty` of base, then credits the proceeds in quote.
pub open spec fn settle(
    bal: Seq<(String, u64)>,
    base: String,
    quote: String,
    side: TradeSide,
    qty: u64,
    price: u64,
) -> Result<Seq<(String, u64)>, TradeError> {
    let cost = fx_mul(qty as int, price as int);
    match side {
        TradeSide::Buy => {
            let qb = balance_in(bal, quote@);
            if qb < cost {
                Err(TradeError::InsufficientFunds)
            } else {
                let b1 = put(bal, quote, (qb - cost) as u64);
                let nb = balance_in(b1, base@) + qty;
                if nb > u64::MAX {
                    Err(TradeError::BalanceOverflow)
                } else {
                    Ok(put(b1, base, nb as u64))
                }
            }
        },
        TradeSide::Sell => {
            let bb = balance_in(bal, base@);
            if bb < qty {
                Err(TradeError::InsufficientAssets)
            } else {
                let b1 = put(bal, base, (bb - qty) as u64);
                let nq = balance_in(b1, quote@) + cost;
                if nq > u64::MAX {
                    Err(TradeError::BalanceOverflow)
                } else {
                    Ok(put(b1, quote, nq as u64))
                }
            }
        },
    }
}

/// Reference-currency price of `a` for a trade record: one for the
/// reference itself, else its newest tick.
pub open spec fn usd_price_of(ticks: Seq<PricePoint>, a: Seq<char>) -> Option<u64> {
    if a == reference_asset() { Some(SCALE) } else { latest_price_of(ticks, a) }
}

/// User ids are unique and every account keeps one entry per asset.
pub open spec fn accounts_wf(s: Seq<(String, UserData)>) -> bool {
    &&& keys_unique(s)
    &&& forall|i: int| 0 <= i < s.len() ==> #[trigger] s[i].1.wf()
}

proof fn lemma_put_accounts_wf(s: Seq<(String, UserData)>, k: String, v: UserData)
    requires
        accounts_wf(s),
        v.wf(),
    ensures
        accounts_wf(put(s, k, v)),
{
    lemma_put_unique(s, k, v);
    crate::keyed::lemma_key_index(s, k@);
    let t = put(s, k, v);
    assert forall|i: int| 0 <= i < t.len() implies #[trigger] t[i].1.wf() by {
        if i < s.len() && i != key_index(s, k@) {
            assert(t[i] == s[i]);
        }
    }
}

/// A supervision record: at most one per user.
#[derive(Debug)]
pub struct BotInstance {
    pub bot_name: String,
    pub trading_pair: (String, String),
    pub stoploss_amount: u64,
    pub initial_portfolio_value_usd: u128,
}

impl BotInstance {
    pub fn duplicate(&self) -> (r: Self)
        ensures
            r == *self,
    {
        BotInstance {
            bot_name: self.bot_name.clone(),
            trading_pair: (self.trading_pair.0.clone(), self.trading_pair.1.clone()),
            stoploss_amount: self.stoploss_amount,
            initial_portfolio_value_usd: self.initial_portfolio_value_usd,
        }
    }
}

/// Reference-currency value of one balance entry: zero for an empty entry
/// or an asset without a price.
pub open spec fn entry_value(e: (String, u64), ticks: Seq<PricePoint>) -> int {
    if e.1 == 0 {
        0
    } else if e.0@ == reference_asset() {
        e.1 as int
    } else {
        match latest_price_of(ticks, e.0@) {
            Some(p) => fx_mul(e.1 as int, p as int),
            None => 0,
        }
    }
}

/// Sum of the values of all balance entries.
pub open spec fn portfolio_value_of(bal: Seq<(String, u64)>, ticks: Seq<PricePoint>) -> int
    decreases bal.len(),
{
    if bal.len() == 0 {
        0
    } else {
        portfolio_value_of(bal.drop_last(), ticks) + entry_value(bal.last(), ticks)
    }
}

/// `v` capped at the largest `u128`.
pub open spec fn saturate(v: int) -> int {
    if v > u128::MAX { u128::MAX as int } else { v }
}

/// What became of a strategy's decision.
#[derive(Debug, Clone, Copy, PartialEq, Eq, Structural)]
pub enum ExecutionResult {
    TradeExecuted,
    NoAction,
    /// A buy asked for more quote than the account holds.
    InsufficientFunds,
    Failed(TradeError),
}

/// Why a bot was stopped by its supervisor.
#[derive(Debug, Clone, Copy, PartialEq, Eq, Structural)]
pub enum StopReason {
    ContextUnavailable,
    InsufficientFunds,
    ExecutionFailed(TradeError),
    StoplossBreached,
}

/// The result of one supervision tick.
#[derive(Debug, Clone, Copy, PartialEq, Eq, Structural)]
pub enum TickOutcome {
    /// The bot has no record (it was stopped); its task should end.
    NotActive,
    Continue,
    /// The record was removed; its task should end.
    Stopped(StopReason),
}

/// Why a bot could not be started.
#[derive(Debug, Clone, Copy, PartialEq, Eq, Structural)]
pub enum BotError {
    InvalidStoploss,
    AlreadyActive,
    UserNotFound,
    UnknownBot,
}

/// Raw ticks handed to a strategy: one hour at a 5-second cadence.
pub const BOT_WINDOW: usize = 720;

pub struct AppStateInner {
    pub users: Vec<(String, UserData)>,
    pub market: MarketData,
    pub active_bots: Vec<(String, BotInstance)>,
}

/// `post` differs from `pre` only in the account of `user`, which now has
/// balances `bal` and `t` appended to its history.
pub open spec fn account_updated(
    pre: &AppStateInner,
    post: &AppStateInner,
    user: Seq<char>,
    bal: Seq<(String, u64)>,
    t: Trade,
) -> bool {
    &&& post.market == pre.market
    &&& post.active_bots == pre.active_bots
    &&& forall|k: Seq<char>| k != user ==> #[trigger] lookup(post.users@, k) == lookup(pre.users@, k)
    &&& lookup(pre.users@, user) matches Some(a) && lookup(post.users@, user) matches Some(b)
        && b.username == a.username && b.asset_balances@ == bal
        && b.trade_history@ == a.trade_history@.push(t)
}

/// The effect of the internal trade path: validation, settlement and the
/// history record.
pub open spec fn trade_effect(
    pre: &AppStateInner,
    post: &AppStateInner,
    user: String,
    base: String,
    quote: String,
    side: TradeSide,
    qty: u64,
    price: u64,
    base_usd: Option<u64>,
    quote_usd: Option<u64>,
    bot: Option<String>,
    now: i64,
    r: Result<Trade, TradeError>,
) -> bool {
    if qty == 0 {
        r == Err::<Trade, TradeError>(TradeError::InvalidQuantity) && *post == *pre
    } else {
        match lookup(pre.users@, user@) {
            None => r == Err::<Trade, TradeError>(TradeError::UserNotFound) && *post == *pre,
            Some(acct) => match settle(acct.asset_balances@, base, quote, side, qty, price) {
                Err(e) => r == Err::<Trade, TradeError>(e) && *post == *pre,
                Ok(bal) => match r {
                    Ok(t) => {
                        &&& t.user_id == user
                        &&& t.transaction_type == TransactionType::Trade
                        &&& t.base_asset == base
                        &&& t.quote_asset == quote
                        &&& t.side == side
                        &&& t.quantity == qty
                        &&& t.price == price
                        &&& t.timestamp == now
                        &&& t.base_usd_price == base_usd
                        &&& t.quote_usd_price == quote_usd
                        &&& t.bot_name == bot
                        &&& account_updated(pre, post, user@, bal, t)
                    },
                    Err(_) => false,
                },
            },
        }
    }
}

/// The effect of a deposit or withdrawal that passed its amount checks:
/// the reference balance becomes `new_balance` and a record of `kind` is
/// appended.
pub open spec fn funding_effect(
    pre: &AppStateInner,
    post: &AppStateInner,
    user: String,
    kind: TransactionType,
    amount: u64,
    new_balance: int,
    now: i64,
    t: Trade,
) -> bool {
    &&& t.user_id == user
    &&& t.transaction_type == kind
    &&& t.base_asset@ == reference_asset()
    &&& t.quote_asset@ == reference_asset()
    &&& t.side == (if kind == TransactionType::Deposit { TradeSide::Buy } else { TradeSide::Sell })
    &&& t.quantity == amount
    &&& t.price == SCALE
    &&& t.timestamp == now
    &&& t.base_usd_price == Some(SCALE)
    &&& t.quote_usd_price == Some(SCALE)
    &&& t.bot_name is None
    &&& post.market == pre.market
    &&& post.active_bots == pre.active_bots
    &&& forall|k: Seq<char>| k != user@ ==> #[trigger] lookup(post.users@, k) == lookup(pre.users@, k)
    &&& lookup(pre.users@, user@) matches Some(a) && lookup(post.users@, user@) matches Some(b)
        && b.username == a.username
        && b.trade_history@ == a.trade_history@.push(t)
        && (forall|x: Seq<char>| #[trigger] balance_in(b.asset_balances@, x)
            == if x == reference_asset() { new_balance } else { balance_in(a.asset_balances@, x) as int })
}

/// A manual trade at time `now`: quantity check, pair pricing, then the
/// internal trade path with reference-currency snapshots of both legs.
pub open spec fn manual_trade_effect(
    pre: &AppStateInner,
    post: &AppStateInner,
    user: String,
    base: String,
    quote: String,
    side: TradeSide,
    qty: u64,
    now: i64,
    r: Result<Trade, TradeError>,
) -> bool {
    let ticks = pre.market.ticks.view_entries();
    if qty == 0 {
        r == Err::<Trade, TradeError>(TradeError::InvalidQuantity) && *post == *pre
    } else {
        match pair_price_of(ticks, base@, quote@) {
            None => r == Err::<Trade, TradeError>(TradeError::PriceUnavailable) && *post == *pre,
            Some(price) => trade_effect(
                pre,
                post,
                user,
                base,
                quote,
                side,
                qty,
                price,
                usd_price_of(ticks, base@),
                usd_price_of(ticks, quote@),
                None,
                now,
                r,
            ),
        }
    }
}

/// A deposit at time `now`.
pub open spec fn deposit_effect(
    pre: &AppStateInner,
    post: &AppStateInner,
    user: String,
    amount: u64,
    now: i64,
    r: Result<Trade, TradeError>,
) -> bool {
    if amount < MIN_DEPOSIT {
        r == Err::<Trade, TradeError>(TradeError::DepositTooSmall) && *post == *pre
    } else if amount > MAX_DEPOSIT {
        r == Err::<Trade, TradeError>(TradeError::DepositTooLarge) && *post == *pre
    } else {
        match lookup(pre.users@, user@) {
            None => r == Err::<Trade, TradeError>(TradeError::UserNotFound) && *post == *pre,
            Some(a) => {
                let usd = balance_in(a.asset_balances@, reference_asset());
                if usd + amount > u64::MAX {
                    r == Err::<Trade, TradeError>(TradeError::BalanceOverflow) && *post == *pre
                } else {
                    match r {
                        Ok(t) => funding_effect(pre, post, user, TransactionType::Deposit, amount, usd + amount, now, t),
                        Err(_) => false,
                    }
                }
            },
        }
    }
}

/// A withdrawal at time `now`.
pub open spec fn withdraw_effect(
    pre: &AppStateInner,
    post: &AppStateInner,
    user: String,
    amount: u64,
    now: i64,
    r: Result<Trade, TradeError>,
) -> bool {
    if amount == 0 {
        r == Err::<Trade, TradeError>(TradeError::InvalidQuantity) && *post == *pre
    } else {
        match lookup(pre.users@, user@) {
            None => r == Err::<Trade, TradeError>(TradeError::UserNotFound) && *post == *pre,
            Some(a) => {
                let usd = balance_in(a.asset_balances@, reference_asset());
                if amount > usd {
                    r == Err::<Trade, TradeError>(TradeError::WithdrawalExceedsBalance) && *post == *pre
                } else {
                    match r {
                        Ok(t) => funding_effect(pre, post, user, TransactionType::Withdrawal, amount, usd - amount, now, t),
                        Err(_) => false,
                    }
                }
            },
        }
    }
}

/// Checks whether `settle` succeeds, without changing anything.
fn plan_settlement(
    acct: &UserData,
    base: &String,
    quote: &String,
    side: TradeSide,
    qty: u64,
    price: u64,
) -> (r: Result<(), TradeError>)
    ensures
        r is Ok <==> settle(acct.asset_balances@, *base, *quote, side, qty, price) is Ok,
        r matches Err(e) ==> settle(acct.asset_balances@, *base, *quote, side, qty, price)
            == Err::<Seq<(String, u64)>, TradeError>(e),
{
    let cost = checked_fx_mul(qty, price);
    let ghost bal = acct.asset_balances@;
    match side {
        TradeSide::Buy => {
            let qb = acct.get_balance(quote);
            let c = match cost {
                None => {
                    return Err(TradeError::InsufficientFunds);
                },
                Some(c) => c,
            };
            if qb < c {
                return Err(TradeError::InsufficientFunds);
            }
            proof {
                lemma_lookup_put(bal, *quote, (qb - c) as u64, base@);
            }
            let b1 = if *base == *quote { qb - c } else { acct.get_balance(base) };
            if b1 > u64::MAX - qty {
                return Err(TradeError::BalanceOverflow);
            }
            Ok(())
        },
        TradeSide::Sell => {
            let bb = acct.get_balance(base);
            if bb < qty {
                return Err(TradeError::InsufficientAssets);
            }
            proof {
                lemma_lookup_put(bal, *base, (bb - qty) as u64, quote@);
            }
            let q1 = if *base == *quote { bb - qty } else { acct.get_balance(quote) };
            let c = match cost {
                None => {
                    return Err(TradeError::BalanceOverflow);
                },
                Some(c) => c,
            };
            if q1 > u64::MAX - c {
                return Err(TradeError::BalanceOverflow);
            }
            Ok(())
        },
    }
}

/// Applies a settlement that `plan_settlement` accepted.
fn apply_settlement(
    acct: &mut UserData,
    base: &String,
    quote: &String,
    side: TradeSide,
    qty: u64,
    price: u64,
)
    requires
        settle(old(acct).asset_balances@, *base, *quote, side, qty, price) is Ok,
    ensures
        final(acct).username == old(acct).username,
        final(acct).trade_history == old(acct).trade_history,
        Ok::<Seq<(String, u64)>, TradeError>(final(acct).asset_balances@)
            == settle(old(acct).asset_balances@, *base, *quote, side, qty, price),
        old(acct).wf() ==> final(acct).wf(),
{
    let ghost bal = acct.asset_balances@;
    let c = checked_fx_mul(qty, price);
    match side {
        TradeSide::Buy => {
            let qb = acct.get_balance(quote);
            let c = c.unwrap();
            acct.set_balance(quote, qb - c);
            let nb = acct.get_balance(base);
            acct.set_balance(base, nb + qty);
        },
        TradeSide::Sell => {
            let bb = acct.get_balance(base);
            acct.set_balance(base, bb - qty);
            let nq = acct.get_balance(quote);
            proof {
                lemma_lookup_put(bal, *base, (bb - qty) as u64, quote@);
            }
            let c = c.unwrap();
            acct.set_balance(quote, nq + c);
        },
    }
}

impl AppStateInner {
    pub open spec fn wf(&self) -> bool {
        &&& self.market.wf()
        &&& keys_unique(self.active_bots@)
        &&& accounts_wf(self.users@)
    }

    /// Empty market data, no bots, and the demo account.
    pub fn new() -> (r: Self)
        ensures
            r.wf(),
            r.active_bots@.len() == 0,
            r.users@.len() == 1,
            r.users@[0].0@ == seq!['d', 'e', 'm', 'o', '_', 'u', 's', 'e', 'r'],
            r.users@[0].1.username@ == seq!['D', 'e', 'm', 'o', ' ', 'U', 's', 'e', 'r'],
            r.users@[0].1.asset_balances@.len() == 1,
            r.users@[0].1.asset_balances@[0].0@ == reference_asset(),
            r.users@[0].1.asset_balances@[0].1 == SEED_BALANCE,
            r.users@[0].1.trade_history@.len() == 0,
    {
        let mut users: Vec<(String, UserData)> = Vec::new();
        let id = "demo_user".to_owned();
        let name = "Demo User".to_owned();
        proof {
            reveal_strlit("demo_user");
            reveal_strlit("Demo User");
            assert(id@ =~= seq!['d', 'e', 'm', 'o', '_', 'u', 's', 'e', 'r']);
            assert(name@ =~= seq!['D', 'e', 'm', 'o', ' ', 'U', 's', 'e', 'r']);
        }
        users.push((id, UserData::new(name)));
        AppStateInner { users, market: MarketData::new(), active_bots: Vec::new() }
    }

    /// Adds or replaces the account of `user_id`.
    pub fn insert_user(&mut self, user_id: String, data: UserData)
        requires
            old(self).wf(),
            data.wf(),
        ensures
            final(self).wf(),
            final(self).users@ == put(old(self).users@, user_id, data),
            final(self).market == old(self).market,
            final(self).active_bots == old(self).active_bots,
    {
        proof {
            lemma_put_accounts_wf(old(self).users@, user_id, data);
        }
        match find_key(&self.users, &user_id) {
            Some(i) => {
                let (k, _) = self.users.remove(i);
                self.users.insert(i, (k, data));
                proof {
                    assert(self.users@ =~= put(old(self).users@, user_id, data));
                }
            },
            None => {
                self.users.push((user_id, data));
            },
        }
    }

    /// A copy of the account of `user_id`.
    pub fn get_user(&self, user_id: &String) -> (r: Option<UserData>)
        ensures
            r is Some <==> lookup(self.users@, user_id@) is Some,
            r matches Some(d) ==> d.username == lookup(self.users@, user_id@).unwrap().username
                && d.asset_balances@ == lookup(self.users@, user_id@).unwrap().asset_balances@
                && d.trade_history@ == lookup(self.users@, user_id@).unwrap().trade_history@,
    {
        match find_key(&self.users, user_id) {
            Some(i) => Some(self.users[i].1.duplicate()),
            None => None,
        }
    }

    /// Records a raw price tick.
    pub fn add_price_point(&mut self, point: PricePoint)
        requires
            old(self).wf(),
        ensures
            final(self).wf(),
            final(self).market.ticks.view_entries()
                == after_ingest(old(self).market.ticks.view_entries(), old(self).market.ticks.cap(), point),
            final(self).market.ticks.cap() == old(self).market.ticks.cap(),
            final(self).users == old(self).users,
            final(self).active_bots == old(self).active_bots,
    {
        self.market.ingest(point);
    }

    /// Records a closed candle in the tier of `resolution`.
    pub fn ingest_ohlc(&mut self, resolution: OhlcResolution, candle: Candle)
        requires
            old(self).wf(),
        ensures
            final(self).wf(),
            final(self).market.ticks == old(self).market.ticks,
            final(self).market.history_5m == old(self).market.history_5m,
            resolution == OhlcResolution::OneMinute ==> final(self).market.ohlc_1m.view_entries()
                == after_ingest(old(self).market.ohlc_1m.view_entries(), old(self).market.ohlc_1m.cap(), candle)
                && final(self).market.ohlc_5m == old(self).market.ohlc_5m,
            resolution == OhlcResolution::FiveMinute ==> final(self).market.ohlc_5m.view_entries()
                == after_ingest(old(self).market.ohlc_5m.view_entries(), old(self).market.ohlc_5m.cap(), candle)
                && final(self).market.ohlc_1m == old(self).market.ohlc_1m,
            final(self).users == old(self).users,
            final(self).active_bots == old(self).active_bots,
    {
        self.market.ingest_ohlc(resolution, candle);
    }

    /// Price of the newest tick of `asset`.
    pub fn get_latest_price(&self, asset: &String) -> (r: Option<u64>)
        ensures
            r == latest_price_of(self.market.ticks.view_entries(), asset@),
    {
        self.market.latest_price(asset)
    }

    /// Price of `base` in units of `quote`.
    pub fn get_pair_price(&self, base: &String, quote: &String) -> (r: Option<u64>)
        ensures
            r == pair_price_of(self.market.ticks.view_entries(), base@, quote@),
    {
        self.market.pair_price(base, quote)
    }

    /// The last `limit` raw ticks of `asset`, oldest first.
    pub fn get_price_window(&self, asset: &String, limit: usize) -> (r: Vec<PricePoint>)
        ensures
            r@ == last_tagged(self.market.ticks.view_entries(), asset@, limit as int),
    {
        self.market.price_window(asset, limit)
    }

    fn usd_price(&self, asset: &String) -> (r: Option<u64>)
        ensures
            r == usd_price_of(self.market.ticks.view_entries(), asset@),
    {
        if is_reference_asset(asset) {
            Some(SCALE)
        } else {
            self.market.latest_price(asset)
        }
    }

    /// Puts `acct` back at position `i`, where `user` was found.
    fn store_account(&mut self, i: usize, key: String, acct: UserData, user: &String)
        requires
            accounts_wf(old(self).users@),
            acct.wf(),
            i as int == key_index(old(self).users@, user@),
            i < old(self).users@.len(),
            key == old(self).users@[i as int].0,
        ensures
            accounts_wf(final(self).users@),
            final(self).users@ == put(old(self).users@, *user, acct),
            final(self).market == old(self).market,
            final(self).active_bots == old(self).active_bots,
    {
        proof {
            lemma_put_accounts_wf(old(self).users@, *user, acct);
        }
        self.users.set(i, (key, acct));
        proof {
            assert(self.users@ =~= put(old(self).users@, *user, acct));
        }
    }

    /// The internal trade path shared by manual and bot trades.
    pub fn execute_trade_internal(
        &mut self,
        user: &String,
        base: &String,
        quote: &String,
        side: TradeSide,
        quantity: u64,
        price: u64,
        base_usd_price: Option<u64>,
        quote_usd_price: Option<u64>,
        bot_name: Option<String>,
        now: i64,
    ) -> (r: Result<Trade, TradeError>)
        requires
            old(self).wf(),
        ensures
            final(self).wf(),
            trade_effect(
                old(self),
                final(self),
                *user,
                *base,
                *quote,
                side,
                quantity,
                price,
                base_usd_price,
                quote_usd_price,
                bot_name,
                now,
                r,
            ),
            final(self).market == old(self).market,
            final(self).active_bots == old(self).active_bots,
    {
        if quantity == 0 {
            return Err(TradeError::InvalidQuantity);
        }
        let idx = match find_key(&self.users, user) {
            None => {
                return Err(TradeError::UserNotFound);
            },
            Some(i) => i,
        };
        let planned = plan_settlement(&self.users[idx].1, base, quote, side, quantity, price);
        if let Err(e) = planned {
            return Err(e);
        }
        let key = self.users[idx].0.clone();
        let mut acct = self.users[idx].1.duplicate();
        proof {
            assert(self.users@[idx as int].1.wf());
        }
        apply_settlement(&mut acct, base, quote, side, quantity, price);
        let t = Trade {
            user_id: user.clone(),
            transaction_type: TransactionType::Trade,
            base_asset: base.clone(),
            quote_asset: quote.clone(),
            side,
            quantity,
            price,
            timestamp: now,
            base_usd_price,
            quote_usd_price,
            bot_name,
        };
        acct.trade_history.push(t.duplicate());
        let ghost acct_view = acct;
        self.store_account(idx, key, acct, user);
        proof {
            assert forall|k: Seq<char>| k != user@ implies #[trigger] lookup(self.users@, k) == lookup(old(self).users@, k) by {
                lemma_lookup_put(old(self).users@, *user, acct_view, k);
            }
            lemma_lookup_put(old(self).users@, *user, acct_view, user@);
        }
        Ok(t)
    }
}

impl AppStateInner {
    /// A manual trade stamped `now`.
    pub fn execute_trade_at(
        &mut self,
        user: &String,
        base: &String,
        quote: &String,
        side: TradeSide,
        quantity: u64,
        now: i64,
    ) -> (r: Result<Trade, TradeError>)
        requires
            old(self).wf(),
        ensures
            final(self).wf(),
            manual_trade_effect(old(self), final(self), *user, *base, *quote, side, quantity, now, r),
    {
        if quantity == 0 {
            return Err(TradeError::InvalidQuantity);
        }
        let price = match self.market.pair_price(base, quote) {
            None => {
                return Err(TradeError::PriceUnavailable);
            },
            Some(p) => p,
        };
        let base_usd = self.usd_price(base);
        let quote_usd = self.usd_price(quote);
        self.execute_trade_internal(user, base, quote, side, quantity, price, base_usd, quote_usd, None, now)
    }

    /// A manual trade stamped with the current time.
    pub fn execute_trade(
        &mut self,
        user: &String,
        base: &String,
        quote: &String,
        side: TradeSide,
        quantity: u64,
    ) -> (r: Result<Trade, TradeError>)
        requires
            old(self).wf(),
        ensures
            final(self).wf(),
            exists|now: i64| manual_trade_effect(old(self), final(self), *user, *base, *quote, side, quantity, now, r),
    {
        let now = now_timestamp();
        self.execute_trade_at(user, base, quote, side, quantity, now)
    }

    /// Credits `amount` of the reference currency when `amount` lies within
    /// the deposit limits; stamped `now`.
    pub fn deposit_at(&mut self, user: &String, amount: u64, now: i64) -> (r: Result<Trade, TradeError>)
        requires
            old(self).wf(),
        ensures
            final(self).wf(),
            deposit_effect(old(self), final(self), *user, amount, now, r),
    {
        if amount < MIN_DEPOSIT {
            return Err(TradeError::DepositTooSmall);
        }
        if amount > MAX_DEPOSIT {
            return Err(TradeError::DepositTooLarge);
        }
        let idx = match find_key(&self.users, user) {
            None => {
                return Err(TradeError::UserNotFound);
            },
            Some(i) => i,
        };
        let usd = self.users[idx].1.usd_balance();
        if usd > u64::MAX - amount {
            return Err(TradeError::BalanceOverflow);
        }
        let t = self.record_funding(idx, user, TransactionType::Deposit, TradeSide::Buy, amount, usd + amount, now);
        Ok(t)
    }

    /// Debits `amount` of the reference currency when the account holds it;
    /// stamped `now`.
    pub fn withdraw_at(&mut self, user: &String, amount: u64, now: i64) -> (r: Result<Trade, TradeError>)
        requires
            old(self).wf(),
        ensures
            final(self).wf(),
            withdraw_effect(old(self), final(self), *user, amount, now, r),
    {
        if amount == 0 {
            return Err(TradeError::InvalidQuantity);
        }
        let idx = match find_key(&self.users, user) {
            None => {
                return Err(TradeError::UserNotFound);
            },
            Some(i) => i,
        };
        let usd = self.users[idx].1.usd_balance();
        if amount > usd {
            return Err(TradeError::WithdrawalExceedsBalance);
        }
        let t = self.record_funding(idx, user, TransactionType::Withdrawal, TradeSide::Sell, amount, usd - amount, now);
        Ok(t)
    }

    /// A deposit stamped with the current time.
    pub fn deposit(&mut self, user: &String, amount: u64) -> (r: Result<Trade, TradeError>)
        requires
            old(self).wf(),
        ensures
            final(self).wf(),
            exists|now: i64| deposit_effect(old(self), final(self), *user, amount, now, r),
    {
        let now = now_timestamp();
        self.deposit_at(user, amount, now)
    }

    /// A withdrawal stamped with the current time.
    pub fn withdraw(&mut self, user: &String, amount: u64) -> (r: Result<Trade, TradeError>)
        requires
            old(self).wf(),
        ensures
            final(self).wf(),
            exists|now: i64| withdraw_effect(old(self), final(self), *user, amount, now, r),
    {
        let now = now_timestamp();
        self.withdraw_at(user, amount, now)
    }

    /// Sets the reference balance of the account at `idx` and appends the
    /// funding record.
    fn record_funding(
        &mut self,
        idx: usize,
        user: &String,
        kind: TransactionType,
        side: TradeSide,
        amount: u64,
        new_balance: u64,
        now: i64,
    ) -> (t: Trade)
        requires
            old(self).wf(),
            idx as int == key_index(old(self).users@, user@),
            idx < old(self).users@.len(),
            side == (if kind == TransactionType::Deposit { TradeSide::Buy } else { TradeSide::Sell }),
        ensures
            final(self).wf(),
            funding_effect(old(self), final(self), *user, kind, amount, new_balance as int, now, t),
    {
        let key = self.users[idx].0.clone();
        let mut acct = self.users[idx].1.duplicate();
        proof {
            assert(self.users@[idx as int].1.wf());
        }
        let ghost before = acct;
        let usd_key = default_quote_asset();
        acct.set_balance(&usd_key, new_balance);
        let t = Trade {
            user_id: user.clone(),
            transaction_type: kind,
            base_asset: default_quote_asset(),
            quote_asset: default_quote_asset(),
            side,
            quantity: amount,
            price: SCALE,
            timestamp: now,
            base_usd_price: Some(SCALE),
            quote_usd_price: Some(SCALE),
            bot_name: None,
        };
        acct.trade_history.push(t.duplicate());
        let ghost acct_view = acct;
        self.store_account(idx, key, acct, user);
        proof {
            assert forall|k: Seq<char>| k != user@ implies #[trigger] lookup(self.users@, k) == lookup(old(self).users@, k) by {
                lemma_lookup_put(old(self).users@, *user, acct_view, k);
            }
            lemma_lookup_put(old(self).users@, *user, acct_view, user@);
            assert forall|x: Seq<char>| #[trigger] balance_in(acct_view.asset_balances@, x)
                == if x == reference_asset() { new_balance as int } else { balance_in(before.asset_balances@, x) as int } by {
                lemma_lookup_put(before.asset_balances@, usd_key, new_balance, x);
            }
        }
        t
    }
}

/// Base quantity worth `quote_amount` at `price`; `None` for a zero price or
/// a quantity that does not fit.
pub open spec fn base_quantity(quote_amount: u64, price: u64) -> Option<u64> {
    ratio(quote_amount, price)
}

/// The effect of executing decision `d` for `user` at `price`, stamped `now`.
pub open spec fn decision_effect(
    pre: &AppStateInner,
    post: &AppStateInner,
    user: String,
    d: BotDecision,
    base: String,
    quote: String,
    price: u64,
    bot: String,
    now: i64,
    r: ExecutionResult,
) -> bool {
    let ticks = pre.market.ticks.view_entries();
    let trade = |side: TradeSide, qty: u64|
        exists|tr: Result<Trade, TradeError>|
            trade_effect(pre, post, user, base, quote, side, qty, price,
                usd_price_of(ticks, base@), usd_price_of(ticks, quote@), Some(bot), now, tr)
            && r == match tr {
                Ok(_) => ExecutionResult::TradeExecuted,
                Err(e) => ExecutionResult::Failed(e),
            };
    match d {
        BotDecision::DoNothing => r == ExecutionResult::NoAction && *post == *pre,
        BotDecision::Buy { quote_amount } => match base_quantity(quote_amount, price) {
            None => r == ExecutionResult::Failed(TradeError::PriceUnavailable) && *post == *pre,
            Some(qty) => match lookup(pre.users@, user@) {
                None => r == ExecutionResult::Failed(TradeError::UserNotFound) && *post == *pre,
                Some(a) => if balance_in(a.asset_balances@, quote@) < quote_amount {
                    r == ExecutionResult::InsufficientFunds && *post == *pre
                } else {
                    trade(TradeSide::Buy, qty)
                },
            },
        },
        BotDecision::Sell { quote_amount } => match base_quantity(quote_amount, price) {
            None => r == ExecutionResult::Failed(TradeError::PriceUnavailable) && *post == *pre,
            Some(qty) => match lookup(pre.users@, user@) {
                None => r == ExecutionResult::Failed(TradeError::UserNotFound) && *post == *pre,
                Some(a) => if balance_in(a.asset_balances@, base@) < qty {
                    r == ExecutionResult::NoAction && *post == *pre
                } else {
                    trade(TradeSide::Sell, qty)
                },
            },
        },
    }
}

/// Whether the loss from `initial` to the current value of `user`'s
/// portfolio reaches `stoploss`; `None` without an account.
pub open spec fn stoploss_breached(st: &AppStateInner, user: Seq<char>, initial: u128, stoploss: u64) -> Option<bool> {
    match lookup(st.users@, user) {
        None => None,
        Some(a) => Some(
            initial as int >= saturate(portfolio_value_of(a.asset_balances@, st.market.ticks.view_entries()))
                + stoploss as int,
        ),
    }
}

/// The context of a tick can be assembled: there is price history for the
/// base asset, a pair price and an account.
pub open spec fn context_available(st: &AppStateInner, user: Seq<char>, base: Seq<char>, quote: Seq<char>) -> bool {
    let ticks = st.market.ticks.view_entries();
    &&& last_tagged(ticks, base, BOT_WINDOW as int).len() > 0
    &&& pair_price_of(ticks, base, quote) is Some
    &&& lookup(st.users@, user) is Some
}

impl AppStateInner {
    /// Reference-currency value of `user`'s portfolio (capped at the largest
    /// `u128`); `None` without an account.
    pub fn calculate_portfolio_value_usd(&self, user: &String) -> (r: Option<u128>)
        ensures
            r is None <==> lookup(self.users@, user@) is None,
            r is Some ==> r.unwrap() as int == saturate(
                portfolio_value_of(lookup(self.users@, user@).unwrap().asset_balances@, self.market.ticks.view_entries()),
            ),
    {
        let idx = match find_key(&self.users, user) {
            None => {
                return None;
            },
            Some(i) => i,
        };
        let bal = &self.users[idx].1.asset_balances;
        let ghost ticks = self.market.ticks.view_entries();
        let mut total: u128 = 0;
        let mut i: usize = 0;
        while i < bal.len()
            invariant
                i <= bal@.len(),
                ticks == self.market.ticks.view_entries(),
                total as int == saturate(portfolio_value_of(bal@.subrange(0, i as int), ticks)),
            decreases bal@.len() - i,
        {
            let (asset, amount) = (&bal[i].0, bal[i].1);
            let v: u128 = if amount == 0 {
                0
            } else if is_reference_asset(asset) {
                amount as u128
            } else {
                match self.market.latest_price(asset) {
                    Some(p) => {
                        proof {
                            crate::fixed::lemma_u64_product_fits(amount as int, p as int);
                        }
                        (amount as u128) * (p as u128) / (SCALE as u128)
                    },
                    None => 0,
                }
            };
            proof {
                let pre = bal@.subrange(0, i as int + 1);
                assert(pre.drop_last() =~= bal@.subrange(0, i as int));
                assert(v as int == entry_value(bal@[i as int], ticks));
            }
            total = if total > u128::MAX - v { u128::MAX } else { total + v };
            i = i + 1;
        }
        proof {
            assert(bal@.subrange(0, i as int) =~= bal@);
        }
        Some(total)
    }

    /// Starts supervision of a bot for `user_id`, valued now for its stoploss.
    /// Returns the strategy for the caller's task to drive.
    pub fn start_bot(
        &mut self,
        user_id: &String,
        bot_name: &String,
        base_asset: String,
        quote_asset: String,
        stoploss_amount: u64,
    ) -> (r: Result<Strategy, BotError>)
        requires
            old(self).wf(),
        ensures
            final(self).wf(),
            stoploss_amount == 0 ==> r == Err::<Strategy, BotError>(BotError::InvalidStoploss),
            stoploss_amount > 0 && lookup(old(self).active_bots@, user_id@) is Some
                ==> r == Err::<Strategy, BotError>(BotError::AlreadyActive),
            stoploss_amount > 0 && lookup(old(self).active_bots@, user_id@) is None
                && lookup(old(self).users@, user_id@) is None
                ==> r == Err::<Strategy, BotError>(BotError::UserNotFound),
            stoploss_amount > 0 && lookup(old(self).active_bots@, user_id@) is None
                && lookup(old(self).users@, user_id@) is Some && bot_name@ != momentum_name()
                ==> r == Err::<Strategy, BotError>(BotError::UnknownBot),
            stoploss_amount > 0 && lookup(old(self).active_bots@, user_id@) is None
                && lookup(old(self).users@, user_id@) is Some && bot_name@ == momentum_name()
                ==> r is Ok,
            r is Err ==> *final(self) == *old(self),
            r is Ok ==> stoploss_amount > 0 && bot_name@ == momentum_name()
                && lookup(old(self).active_bots@, user_id@) is None
                && lookup(old(self).users@, user_id@) is Some,
            r matches Ok(s) ==> (s matches Strategy::NaiveMomentum(b) && b.step() == stoploss_amount / 100
                && b.history().len() == 0 && b.cooldown() == 0 && b.capacity() == MOMENTUM_HISTORY),
            r is Ok ==> final(self).users == old(self).users && final(self).market == old(self).market,
            r is Ok ==> final(self).active_bots@.len() == old(self).active_bots@.len() + 1
                && final(self).active_bots@.drop_last() == old(self).active_bots@
                && final(self).active_bots@.last().0@ == user_id@
                && final(self).active_bots@.last().1.trading_pair == (base_asset, quote_asset)
                && final(self).active_bots@.last().1.stoploss_amount == stoploss_amount
                && final(self).active_bots@.last().1.initial_portfolio_value_usd as int == saturate(
                    portfolio_value_of(lookup(old(self).users@, user_id@).unwrap().asset_balances@,
                        old(self).market.ticks.view_entries()),
                ),
    {
        if stoploss_amount == 0 {
            return Err(BotError::InvalidStoploss);
        }
        if find_key(&self.active_bots, user_id).is_some() {
            return Err(BotError::AlreadyActive);
        }
        let initial = match self.calculate_portfolio_value_usd(user_id) {
            None => {
                return Err(BotError::UserNotFound);
            },
            Some(v) => v,
        };
        let strategy = match Strategy::from_name(bot_name, stoploss_amount) {
            None => {
                return Err(BotError::UnknownBot);
            },
            Some(s) => s,
        };
        let record = BotInstance {
            bot_name: strategy.display_name(),
            trading_pair: (base_asset, quote_asset),
            stoploss_amount,
            initial_portfolio_value_usd: initial,
        };
        let ghost rec = record;
        self.active_bots.push((user_id.clone(), record));
        proof {
            crate::keyed::lemma_key_index(old(self).active_bots@, user_id@);
            assert(put(old(self).active_bots@, *user_id, rec) == self.active_bots@);
            lemma_put_unique(old(self).active_bots@, *user_id, rec);
            assert(self.active_bots@.drop_last() =~= old(self).active_bots@);
        }
        Ok(strategy)
    }

    /// Removes the supervision record of `user_id`, returning it.
    pub fn stop_bot(&mut self, user_id: &String) -> (r: Option<BotInstance>)
        requires
            old(self).wf(),
        ensures
            final(self).wf(),
            r == lookup(old(self).active_bots@, user_id@),
            final(self).active_bots@ == delete(old(self).active_bots@, user_id@),
            lookup(final(self).active_bots@, user_id@) is None,
            final(self).users == old(self).users,
            final(self).market == old(self).market,
    {
        proof {
            lemma_delete_unique(old(self).active_bots@, user_id@);
        }
        match find_key(&self.active_bots, user_id) {
            None => None,
            Some(i) => {
                let (_, rec) = self.active_bots.remove(i);
                Some(rec)
            },
        }
    }

    /// A copy of the supervision record of `user_id`.
    pub fn bot_status(&self, user_id: &String) -> (r: Option<BotInstance>)
        ensures
            r == lookup(self.active_bots@, user_id@),
    {
        match find_key(&self.active_bots, user_id) {
            None => None,
            Some(i) => Some(self.active_bots[i].1.duplicate()),
        }
    }

    /// The context of one tick: the last ticks of `base`, the pair price and
    /// the two balances.
    pub fn assemble_bot_context(
        &self,
        user: &String,
        base: &String,
        quote: &String,
        tick_count: u64,
    ) -> (r: Option<BotContext>)
        ensures
            r is Some <==> context_available(self, user@, base@, quote@),
            r matches Some(ctx) ==> context_matches(self, user@, *base, *quote, tick_count, ctx),
    {
        let window = self.market.price_window(base, BOT_WINDOW);
        if window.len() == 0 {
            return None;
        }
        let price = match self.market.pair_price(base, quote) {
            None => {
                return None;
            },
            Some(p) => p,
        };
        let idx = match find_key(&self.users, user) {
            None => {
                return None;
            },
            Some(i) => i,
        };
        let acct = &self.users[idx].1;
        Some(BotContext {
            price_window: window,
            base_balance: acct.get_balance(base),
            quote_balance: acct.get_balance(quote),
            current_price: price,
            base_asset: base.clone(),
            quote_asset: quote.clone(),
            tick_count,
        })
    }

    /// Validates and executes a strategy's decision. A buy beyond the quote
    /// balance is a hard failure; a sell beyond the base balance is skipped.
    pub fn execute_bot_decision(
        &mut self,
        user: &String,
        decision: BotDecision,
        base: &String,
        quote: &String,
        price: u64,
        bot_name: &String,
        now: i64,
    ) -> (r: ExecutionResult)
        requires
            old(self).wf(),
        ensures
            final(self).wf(),
            decision_effect(old(self), final(self), *user, decision, *base, *quote, price, *bot_name, now, r),
            final(self).market == old(self).market,
            final(self).active_bots == old(self).active_bots,
    {
        let (quote_amount, side) = match decision {
            BotDecision::DoNothing => {
                return ExecutionResult::NoAction;
            },
            BotDecision::Buy { quote_amount } => (quote_amount, TradeSide::Buy),
            BotDecision::Sell { quote_amount } => (quote_amount, TradeSide::Sell),
        };
        let qty = match checked_fx_div(quote_amount, price) {
            None => {
                return ExecutionResult::Failed(TradeError::PriceUnavailable);
            },
            Some(q) => q,
        };
        let idx = match find_key(&self.users, user) {
            None => {
                return ExecutionResult::Failed(TradeError::UserNotFound);
            },
            Some(i) => i,
        };
        match side {
            TradeSide::Buy => {
                if self.users[idx].1.get_balance(quote) < quote_amount {
                    return ExecutionResult::InsufficientFunds;
                }
            },
            TradeSide::Sell => {
                if self.users[idx].1.get_balance(base) < qty {
                    return ExecutionResult::NoAction;
                }
            },
        }
        let base_usd = self.usd_price(base);
        let quote_usd = self.usd_price(quote);
        let tr = self.execute_trade_internal(
            user,
            base,
            quote,
            side,
            qty,
            price,
            base_usd,
            quote_usd,
            Some(bot_name.clone()),
            now,
        );
        match tr {
            Ok(_) => ExecutionResult::TradeExecuted,
            Err(e) => ExecutionResult::Failed(e),
        }
    }

    /// Whether `user`'s loss since `initial` has reached `stoploss`.
    pub fn check_stoploss(&self, user: &String, initial: u128, stoploss: u64) -> (r: Option<bool>)
        ensures
            r == stoploss_breached(self, user@, initial, stoploss),
    {
        match self.calculate_portfolio_value_usd(user) {
            None => None,
            Some(v) => Some(initial >= v && initial - v >= stoploss as u128),
        }
    }
}

/// `post` is `mid` with the supervision record of `user` removed.
pub open spec fn bot_removed(mid: &AppStateInner, post: &AppStateInner, user: Seq<char>) -> bool {
    &&& post.users == mid.users
    &&& post.market == mid.market
    &&& post.active_bots@ == delete(mid.active_bots@, user)
}

/// A tick whose context was available: decision `d` executed at `now` took
/// `pre` to `mid` with result `er`, then the bot was stopped or kept.
pub open spec fn tick_after_decision(
    pre: &AppStateInner,
    mid: &AppStateInner,
    post: &AppStateInner,
    user: String,
    rec: BotInstance,
    d: BotDecision,
    now: i64,
    er: ExecutionResult,
    r: TickOutcome,
) -> bool {
    let base = rec.trading_pair.0;
    let quote = rec.trading_pair.1;
    let price = pair_price_of(pre.market.ticks.view_entries(), base@, quote@).unwrap();
    &&& decision_effect(pre, mid, user, d, base, quote, price, rec.bot_name, now, er)
    &&& match er {
        ExecutionResult::InsufficientFunds =>
            r == TickOutcome::Stopped(StopReason::InsufficientFunds) && bot_removed(mid, post, user@),
        ExecutionResult::Failed(e) =>
            r == TickOutcome::Stopped(StopReason::ExecutionFailed(e)) && bot_removed(mid, post, user@),
        _ => match stoploss_breached(mid, user@, rec.initial_portfolio_value_usd, rec.stoploss_amount) {
            Some(true) => r == TickOutcome::Stopped(StopReason::StoplossBreached) && bot_removed(mid, post, user@),
            Some(false) => r == TickOutcome::Continue && *post == *mid,
            None => r == TickOutcome::Stopped(StopReason::ContextUnavailable) && bot_removed(mid, post, user@),
        },
    }
}

/// `ctx` is the context of tick `tick_count` for `user` trading `base`
/// against `quote` in `st`.
pub open spec fn context_matches(
    st: &AppStateInner,
    user: Seq<char>,
    base: String,
    quote: String,
    tick_count: u64,
    ctx: BotContext,
) -> bool {
    &&& ctx.price_window@ == last_tagged(st.market.ticks.view_entries(), base@, BOT_WINDOW as int)
    &&& Some(ctx.current_price) == pair_price_of(st.market.ticks.view_entries(), base@, quote@)
    &&& ctx.base_balance == balance_in(lookup(st.users@, user).unwrap().asset_balances@, base@)
    &&& ctx.quote_balance == balance_in(lookup(st.users@, user).unwrap().asset_balances@, quote@)
    &&& ctx.base_asset == base
    &&& ctx.quote_asset == quote
    &&& ctx.tick_count == tick_count
}

/// One supervision tick of `user`'s bot: the strategy `pre_bot` is asked
/// once, on the assembled context, becomes `post_bot`, and its decision is
/// executed at some time `now`.
pub open spec fn tick_effect<B: TradingBot>(
    pre: &AppStateInner,
    post: &AppStateInner,
    user: String,
    pre_bot: B,
    post_bot: B,
    tick_count: u64,
    r: TickOutcome,
) -> bool {
    match lookup(pre.active_bots@, user@) {
        None => r == TickOutcome::NotActive && *post == *pre && post_bot == pre_bot,
        Some(rec) => if !context_available(pre, user@, rec.trading_pair.0@, rec.trading_pair.1@) {
            &&& r == TickOutcome::Stopped(StopReason::ContextUnavailable)
            &&& bot_removed(pre, post, user@)
            &&& post_bot == pre_bot
        } else {
            exists|ctx: BotContext, now: i64, mid: AppStateInner, er: ExecutionResult|
                context_matches(pre, user@, rec.trading_pair.0, rec.trading_pair.1, tick_count, ctx)
                && pre_bot.advanced(&post_bot, &ctx)
                && #[trigger] tick_after_decision(pre, &mid, post, user, rec, pre_bot.decision(&ctx), now, er, r)
        },
    }
}

impl AppStateInner {
    /// One supervision tick: stop if the record is gone, assemble the
    /// context, ask the strategy, execute its decision, enforce the stoploss.
    pub fn bot_tick<B: TradingBot>(&mut self, user: &String, bot: &mut B, tick_count: u64) -> (r: TickOutcome)
        requires
            old(self).wf(),
        ensures
            final(self).wf(),
            tick_effect(old(self), final(self), *user, *old(bot), *final(bot), tick_count, r),
    {
        let rec = match self.bot_status(user) {
            None => {
                return TickOutcome::NotActive;
            },
            Some(rec) => rec,
        };
        let base = rec.trading_pair.0.clone();
        let quote = rec.trading_pair.1.clone();
        let ctx = match self.assemble_bot_context(user, &base, &quote, tick_count) {
            None => {
                self.stop_bot(user);
                return TickOutcome::Stopped(StopReason::ContextUnavailable);
            },
            Some(c) => c,
        };
        let decision = bot.tick(&ctx);
        let now = now_timestamp();
        let er = self.execute_bot_decision(user, decision, &base, &quote, ctx.current_price, &rec.bot_name, now);
        let ghost mid = *self;
        let r = match er {
            ExecutionResult::InsufficientFunds => {
                self.stop_bot(user);
                TickOutcome::Stopped(StopReason::InsufficientFunds)
            },
            ExecutionResult::Failed(e) => {
                self.stop_bot(user);
                TickOutcome::Stopped(StopReason::ExecutionFailed(e))
            },
            _ => match self.check_stoploss(user, rec.initial_portfolio_value_usd, rec.stoploss_amount) {
                Some(true) => {
                    self.stop_bot(user);
                    TickOutcome::Stopped(StopReason::StoplossBreached)
                },
                Some(false) => TickOutcome::Continue,
                None => {
                    self.stop_bot(user);
                    TickOutcome::Stopped(StopReason::ContextUnavailable)
                },
            },
        };
        proof {
            assert(context_matches(old(self), user@, rec.trading_pair.0, rec.trading_pair.1, tick_count, ctx));
            assert(tick_after_decision(old(self), &mid, self, *user, rec, old(bot).decision(&ctx), now, er, r));
        }
        r
    }
}


/// A successful trade of `qty` base units at `price` moves the two legs and
/// nothing else: a buy takes `price * qty` (rounded down) from the quote
/// balance and adds `qty` to the base balance; a sell does the reverse.
/// When base and quote are the same asset both moves land on its balance.
pub proof fn lemma_trade_moves_balances(
    pre: &AppStateInner,
    post: &AppStateInner,
    user: String,
    base: String,
    quote: String,
    side: TradeSide,
    qty: u64,
    price: u64,
    base_usd: Option<u64>,
    quote_usd: Option<u64>,
    bot: Option<String>,
    now: i64,
    r: Result<Trade, TradeError>,
    other: Seq<char>,
)
    requires
        trade_effect(pre, post, user, base, quote, side, qty, price, base_usd, quote_usd, bot, now, r),
        r is Ok,
    ensures
        ({
            let a = lookup(pre.users@, user@).unwrap().asset_balances@;
            let b = lookup(post.users@, user@).unwrap().asset_balances@;
            let cost = fx_mul(qty as int, price as int);
            &&& base@ == quote@ && side == TradeSide::Buy
                ==> balance_in(b, base@) == balance_in(a, base@) - cost + qty
            &&& base@ == quote@ && side == TradeSide::Sell
                ==> balance_in(b, base@) == balance_in(a, base@) - qty + cost
            &&& base@ != quote@ && side == TradeSide::Buy ==> balance_in(b, quote@) == balance_in(a, quote@) - cost
                && balance_in(b, base@) == balance_in(a, base@) + qty
            &&& base@ != quote@ && side == TradeSide::Sell ==> balance_in(b, base@) == balance_in(a, base@) - qty
                && balance_in(b, quote@) == balance_in(a, quote@) + cost
            &&& other != base@ && other != quote@ ==> balance_in(b, other) == balance_in(a, other)
        }),
{
    let a = lookup(pre.users@, user@).unwrap().asset_balances@;
    let cost = fx_mul(qty as int, price as int);
    match side {
        TradeSide::Buy => {
            let b1 = put(a, quote, (balance_in(a, quote@) - cost) as u64);
            let nb = balance_in(b1, base@) + qty;
            lemma_lookup_put(a, quote, (balance_in(a, quote@) - cost) as u64, quote@);
            lemma_lookup_put(a, quote, (balance_in(a, quote@) - cost) as u64, base@);
            lemma_lookup_put(a, quote, (balance_in(a, quote@) - cost) as u64, other);
            lemma_lookup_put(b1, base, nb as u64, quote@);
            lemma_lookup_put(b1, base, nb as u64, base@);
            lemma_lookup_put(b1, base, nb as u64, other);
        },
        TradeSide::Sell => {
            let b1 = put(a, base, (balance_in(a, base@) - qty) as u64);
            let nq = balance_in(b1, quote@) + cost;
            lemma_lookup_put(a, base, (balance_in(a, base@) - qty) as u64, quote@);
            lemma_lookup_put(a, base, (balance_in(a, base@) - qty) as u64, base@);
            lemma_lookup_put(a, base, (balance_in(a, base@) - qty) as u64, other);
            lemma_lookup_put(b1, quote, nq as u64, quote@);
            lemma_lookup_put(b1, quote, nq as u64, base@);
            lemma_lookup_put(b1, quote, nq as u64, other);
        },
    }
}

/// Quote spent by the successful buys among the first `n` results.
pub open spec fn spent(results: Seq<Result<Trade, TradeError>>, n: int) -> int
    decreases n,
{
    if n <= 0 {
        0
    } else {
        spent(results, n - 1) + match results[n - 1] {
            Ok(t) => fx_mul(t.quantity as int, t.price as int),
            Err(_) => 0,
        }
    }
}

/// Attempt `i` is a buy of `base` against `quote` by `user` that took
/// `states[i]` to `states[i + 1]`: refused with nothing changed, or run
/// through the internal trade path at some quantity and price.
pub open spec fn buy_attempt(
    states: Seq<AppStateInner>,
    results: Seq<Result<Trade, TradeError>>,
    user: String,
    base: String,
    quote: String,
    i: int,
) -> bool {
    ||| results[i] is Err && states[i + 1] == states[i]
    ||| exists|qty: u64, price: u64, bu: Option<u64>, qu: Option<u64>, bot: Option<String>, now: i64|
        #[trigger] trade_effect(&states[i], &states[i + 1], user, base, quote, TradeSide::Buy, qty, price, bu, qu, bot, now, results[i])
}

/// A manual buy (`execute_trade`, `execute_trade_at`) is such an attempt.
pub proof fn lemma_manual_buy_is_attempt(
    states: Seq<AppStateInner>,
    results: Seq<Result<Trade, TradeError>>,
    user: String,
    base: String,
    quote: String,
    i: int,
    qty: u64,
    now: i64,
)
    requires
        0 <= i,
        i + 1 < states.len(),
        i < results.len(),
        manual_trade_effect(&states[i], &states[i + 1], user, base, quote, TradeSide::Buy, qty, now, results[i]),
    ensures
        buy_attempt(states, results, user, base, quote, i),
{
    let ticks = states[i].market.ticks.view_entries();
    if qty > 0 {
        if let Some(price) = pair_price_of(ticks, base@, quote@) {
            assert(trade_effect(&states[i], &states[i + 1], user, base, quote, TradeSide::Buy, qty, price,
                usd_price_of(ticks, base@), usd_price_of(ticks, quote@), None, now, results[i]));
        }
    }
}

/// Quote balance of `user` in `st` (zero without an account).
pub open spec fn quote_balance(st: AppStateInner, user: Seq<char>, quote: Seq<char>) -> int {
    match lookup(st.users@, user) {
        Some(a) => balance_in(a.asset_balances@, quote) as int,
        None => 0,
    }
}

/// However a run of buy attempts by one user is ordered, the successful ones
/// together never cost more than the quote balance held before the first:
/// each attempt runs against the state the previous one left, and a buy is
/// refused unless its cost is covered.
pub proof fn lemma_buys_never_overspend(
    states: Seq<AppStateInner>,
    results: Seq<Result<Trade, TradeError>>,
    user: String,
    base: String,
    quote: String,
)
    requires
        states.len() == results.len() + 1,
        base@ != quote@,
        forall|i: int| 0 <= i < results.len() ==> #[trigger] buy_attempt(states, results, user, base, quote, i),
    ensures
        spent(results, results.len() as int) + quote_balance(states.last(), user@, quote@)
            == quote_balance(states[0], user@, quote@),
        spent(results, results.len() as int) <= quote_balance(states[0], user@, quote@),
    decreases results.len(),
{
    let n = results.len() as int;
    if n > 0 {
        let ps = states.drop_last();
        let pr = results.drop_last();
        assert forall|i: int| 0 <= i < n - 1 implies #[trigger] buy_attempt(ps, pr, user, base, quote, i) by {
            assert(buy_attempt(states, results, user, base, quote, i));
            assert(ps[i] == states[i]);
            assert(ps[i + 1] == states[i + 1]);
            assert(pr[i] == results[i]);
            if !(results[i] is Err && states[i + 1] == states[i]) {
                let (qty, price, bu, qu, bot, now) = choose|qty: u64, price: u64, bu: Option<u64>, qu: Option<u64>, bot: Option<String>, now: i64|
                    #[trigger] trade_effect(&states[i], &states[i + 1], user, base, quote, TradeSide::Buy, qty, price, bu, qu, bot, now, results[i]);
                assert(trade_effect(&ps[i], &ps[i + 1], user, base, quote, TradeSide::Buy, qty, price, bu, qu, bot, now, pr[i]));
            }
        }
        lemma_buys_never_overspend(ps, pr, user, base, quote);
        lemma_spent_prefix(results, n - 1);
        assert(ps.last() == states[n - 1]);
        assert(buy_attempt(states, results, user, base, quote, n - 1));
        if !(results[n - 1] is Err && states[n] == states[n - 1]) {
            let (qty, price, bu, qu, bot, now) = choose|qty: u64, price: u64, bu: Option<u64>, qu: Option<u64>, bot: Option<String>, now: i64|
                #[trigger] trade_effect(&states[n - 1], &states[n], user, base, quote, TradeSide::Buy, qty, price, bu, qu, bot, now, results[n - 1]);
            if results[n - 1] is Ok {
                lemma_trade_moves_balances(&states[n - 1], &states[n], user, base, quote, TradeSide::Buy, qty, price, bu, qu, bot, now, results[n - 1], quote@);
            }
        }
    }
}

proof fn lemma_spent_prefix(results: Seq<Result<Trade, TradeError>>, i: int)
    requires
        0 <= i < results.len(),
    ensures
        spent(results.drop_last(), i) == spent(results, i),
    decreases i,
{
    if i > 0 {
        lemma_spent_prefix(results, i - 1);
    }
}

} // verus!
