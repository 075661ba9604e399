//! Market observations, transactions and accounts.

use vstd::prelude::*;
use crate::fixed::{SCALE, fx_mul};
use crate::keyed::{find_key, lookup, put, keys_unique, lemma_lookup_put, lemma_lookup_take_next, lemma_put_unique};

verus! {

/// The reference quote currency, `"USD"`.
pub open spec fn reference_asset() -> Seq<char> {
    seq!['U', 'S', 'D']
}

/// Amount every new account starts with, in the reference currency.
pub const SEED_BALANCE: u64 = 10_000 * SCALE;

/// The reference currency's symbol.
pub fn default_quote_asset() -> (r: String)
    ensures
        r@ == reference_asset(),
{
    let s = "USD".to_owned();
    proof {
        reveal_strlit("USD");
    }
    s
}

/// Whether `asset` is the reference currency.
pub fn is_reference_asset(asset: &String) -> (r: bool)
    ensures
        r == (asset@ == reference_asset()),
{
    let usd = default_quote_asset();
    *asset == usd
}

/// One timestamped price observation (`timestamp` in Unix seconds).
#[derive(Debug)]
pub struct PricePoint {
    pub timestamp: i64,
    pub asset: String,
    pub price: u64,
}

impl PricePoint {
    /// A copy of this observation.
    pub fn duplicate(&self) -> (r: Self)
        ensures
            r == *self,
    {
        PricePoint { timestamp: self.timestamp, asset: self.asset.clone(), price: self.price }
    }
}

/// Open-high-low-close summary of one period (`timestamp` is its start).
#[derive(Debug)]
pub struct Candle {
    pub timestamp: i64,
    pub asset: String,
    pub open: u64,
    pub high: u64,
    pub low: u64,
    pub close: u64,
}

impl Candle {
    /// A copy of this candle.
    pub fn duplicate(&self) -> (r: Self)
        ensures
            r == *self,
    {
        Candle {
            timestamp: self.timestamp,
            asset: self.asset.clone(),
            open: self.open,
            high: self.high,
            low: self.low,
            close: self.close,
        }
    }
}

#[derive(Debug, Clone, Copy, PartialEq, Eq, Structural)]
pub enum TransactionType {
    Trade,
    Deposit,
    Withdrawal,
}

/// The kind recorded when none is given.
pub fn default_transaction_type() -> (r: TransactionType)
    ensures
        r == TransactionType::Trade,
{
    TransactionType::Trade
}

#[derive(Debug, Clone, Copy, PartialEq, Eq, Structural)]
pub enum TradeSide {
    Buy,
    Sell,
}

/// One entry of an account's history. `quantity` is in base units and
/// `price` is the base asset priced in the quote asset.
#[derive(Debug)]
pub struct Trade {
    pub user_id: String,
    pub transaction_type: TransactionType,
    pub base_asset: String,
    pub quote_asset: String,
    pub side: TradeSide,
    pub quantity: u64,
    pub price: u64,
    pub timestamp: i64,
    pub base_usd_price: Option<u64>,
    pub quote_usd_price: Option<u64>,
    /// Name of the strategy that placed the trade, for bot trades.
    pub bot_name: Option<String>,
}

impl Trade {
    /// A copy of this record.
    pub fn duplicate(&self) -> (r: Self)
        ensures
            r == *self,
    {
        let bot_name = match &self.bot_name {
            Some(n) => Some(n.clone()),
            None => None,
        };
        Trade {
            user_id: self.user_id.clone(),
            transaction_type: self.transaction_type,
            base_asset: self.base_asset.clone(),
            quote_asset: self.quote_asset.clone(),
            side: self.side,
            quantity: self.quantity,
            price: self.price,
            timestamp: self.timestamp,
            base_usd_price: self.base_usd_price,
            quote_usd_price: self.quote_usd_price,
            bot_name,
        }
    }

    /// Total cost in the quote asset: `quantity * price`, rounded down.
    pub fn quote_cost(&self) -> (r: u128)
        ensures
            r as int == fx_mul(self.quantity as int, self.price as int),
    {
        proof {
            crate::fixed::lemma_u64_product_fits(self.quantity as int, self.price as int);
        }
        (self.quantity as u128) * (self.price as u128) / (SCALE as u128)
    }

    /// The quote cost valued in the reference currency, when the quote
    /// asset's reference price was recorded and the product fits in `u128`.
    pub fn usd_value(&self) -> (r: Option<u128>)
        ensures
            self.quote_usd_price is None ==> r is None,
            (self.quote_usd_price is Some)
                ==> (r is Some <==> fx_mul(self.quantity as int, self.price as int) * self.quote_usd_price.unwrap() <= u128::MAX),
            r is Some ==> r.unwrap() as int
                == fx_mul(fx_mul(self.quantity as int, self.price as int), self.quote_usd_price.unwrap() as int),
    {
        match self.quote_usd_price {
            None => None,
            Some(q) => {
                let cost = self.quote_cost();
                if q == 0 {
                    proof {
                        assert(cost * q == 0) by (nonlinear_arith) requires q == 0;
                    }
                    return Some(0);
                }
                if cost <= u128::MAX / (q as u128) {
                    proof {
                        assert(cost * q <= u128::MAX) by (nonlinear_arith)
                            requires cost <= u128::MAX / (q as u128), q > 0;
                    }
                    Some(cost * (q as u128) / (SCALE as u128))
                } else {
                    proof {
                        let m = u128::MAX as int / q as int;
                        vstd::arithmetic::div_mod::lemma_fundamental_div_mod(u128::MAX as int, q as int);
                        assert(cost * q > u128::MAX) by (nonlinear_arith)
                            requires
                                cost >= m + 1,
                                q > 0,
                                u128::MAX == q * m + (u128::MAX as int % q as int),
                                (u128::MAX as int % q as int) < q,
                        ;
                    }
                    None
                }
            }
        }
    }

    /// The base asset traded.
    pub fn asset(&self) -> (r: &String)
        ensures
            r == &self.base_asset,
    {
        &self.base_asset
    }
}

/// Balance of `asset` in a list of balance entries (zero when absent).
pub open spec fn balance_in(s: Seq<(String, u64)>, asset: Seq<char>) -> nat {
    match lookup(s, asset) {
        Some(v) => v as nat,
        None => 0,
    }
}

/// Sum of the quantities of the history entries of kind `kind`.
pub open spec fn kind_total(h: Seq<Trade>, kind: TransactionType) -> int
    decreases h.len(),
{
    if h.len() == 0 {
        0
    } else {
        kind_total(h.drop_last(), kind) + if h.last().transaction_type == kind {
            h.last().quantity as int
        } else {
            0
        }
    }
}

proof fn lemma_kind_total_bound(h: Seq<Trade>, kind: TransactionType)
    ensures
        0 <= kind_total(h, kind) <= h.len() * (u64::MAX as int),
    decreases h.len(),
{
    if h.len() > 0 {
        lemma_kind_total_bound(h.drop_last(), kind);
        assert((h.len() - 1) * (u64::MAX as int) + u64::MAX as int == h.len() * (u64::MAX as int))
            by (nonlinear_arith);
    }
}

/// An account: balances per asset (never negative, being unsigned) and an
/// append-only transaction history.
#[derive(Debug)]
pub struct UserData {
    pub username: String,
    pub asset_balances: Vec<(String, u64)>,
    pub trade_history: Vec<Trade>,
}

impl UserData {
    /// Each asset has at most one balance entry.
    pub open spec fn wf(&self) -> bool {
        keys_unique(self.asset_balances@)
    }

    /// A fresh account seeded with 10,000 units of the reference currency.
    pub fn new(username: String) -> (r: Self)
        ensures
            r.wf(),
            r.username == username,
            r.asset_balances@ == seq![(r.asset_balances@[0].0, SEED_BALANCE)],
            r.asset_balances@[0].0@ == reference_asset(),
            r.trade_history@.len() == 0,
    {
        let mut balances: Vec<(String, u64)> = Vec::new();
        balances.push((default_quote_asset(), SEED_BALANCE));
        UserData { username, asset_balances: balances, trade_history: Vec::new() }
    }

    /// Rebuilds an account from stored parts. Of several entries for one
    /// asset the first is kept. A stored account whose balances lack the
    /// reference currency gets its legacy cash balance there when that is
    /// positive.
    pub fn from_stored(
        username: String,
        cash_balance: u64,
        asset_balances: Vec<(String, u64)>,
        trade_history: Vec<Trade>,
    ) -> (r: Self)
        ensures
            r.wf(),
            r.username == username,
            r.trade_history == trade_history,
            forall|a: Seq<char>| #[trigger] lookup(r.asset_balances@, a)
                == if a == reference_asset() && lookup(asset_balances@, a) is None && cash_balance > 0 {
                    Some(cash_balance)
                } else {
                    lookup(asset_balances@, a)
                },
    {
        let mut balances: Vec<(String, u64)> = Vec::new();
        let mut i: usize = 0;
        while i < asset_balances.len()
            invariant
                i <= asset_balances@.len(),
                keys_unique(balances@),
                forall|a: Seq<char>| #[trigger] lookup(balances@, a) == lookup(asset_balances@.take(i as int), a),
            decreases asset_balances@.len() - i,
        {
            let key = asset_balances[i].0.clone();
            let amount = asset_balances[i].1;
            let ghost before = balances@;
            let absent = find_key(&balances, &key).is_none();
            if absent {
                proof {
                    lemma_put_unique(balances@, key, amount);
                }
                balances.push((key, amount));
            }
            proof {
                assert forall|a: Seq<char>| #[trigger] lookup(balances@, a)
                    == lookup(asset_balances@.take(i as int + 1), a) by {
                    lemma_lookup_take_next(asset_balances@, i as int, a);
                    lemma_lookup_put(before, key, amount, a);
                    assert(asset_balances@[i as int].0 == key);
                }
            }
            i = i + 1;
        }
        proof {
            assert(asset_balances@.take(i as int) =~= asset_balances@);
        }
        let usd = default_quote_asset();
        if find_key(&balances, &usd).is_none() && cash_balance > 0 {
            proof {
                lemma_put_unique(balances@, usd, cash_balance);
                assert forall|a: Seq<char>| #[trigger] lookup(balances@.push((usd, cash_balance)), a)
                    == if a == reference_asset() { Some(cash_balance) } else { lookup(balances@, a) } by {
                    lemma_lookup_put(balances@, usd, cash_balance, a);
                }
            }
            balances.push((usd, cash_balance));
        }
        UserData { username, asset_balances: balances, trade_history }
    }

    /// Whether each asset has at most one balance entry.
    pub fn has_unique_balances(&self) -> (r: bool)
        ensures
            r == self.wf(),
    {
        let n = self.asset_balances.len();
        let mut i: usize = 0;
        while i < n
            invariant
                n == self.asset_balances@.len(),
                i <= n,
                forall|x: int, y: int| 0 <= x < y < n && x < i ==> self.asset_balances@[x].0@ != self.asset_balances@[y].0@,
            decreases n - i,
        {
            let mut j: usize = i + 1;
            while j < n
                invariant
                    n == self.asset_balances@.len(),
                    i < n,
                    i < j <= n,
                    forall|x: int, y: int| 0 <= x < y < n && x < i ==> self.asset_balances@[x].0@ != self.asset_balances@[y].0@,
                    forall|y: int| i < y < j ==> self.asset_balances@[i as int].0@ != self.asset_balances@[y].0@,
                decreases n - j,
            {
                if self.asset_balances[i].0 == self.asset_balances[j].0 {
                    return false;
                }
                j = j + 1;
            }
            i = i + 1;
        }
        true
    }

    /// A copy of this account.
    pub fn duplicate(&self) -> (r: Self)
        ensures
            r.username == self.username,
            r.asset_balances@ == self.asset_balances@,
            r.trade_history@ == self.trade_history@,
    {
        let mut balances: Vec<(String, u64)> = Vec::new();
        let mut i: usize = 0;
        while i < self.asset_balances.len()
            invariant
                i <= self.asset_balances@.len(),
                balances@ =~= self.asset_balances@.subrange(0, i as int),
            decreases self.asset_balances@.len() - i,
        {
            let e = &self.asset_balances[i];
            balances.push((e.0.clone(), e.1));
            i = i + 1;
        }
        let mut history: Vec<Trade> = Vec::new();
        let mut j: usize = 0;
        while j < self.trade_history.len()
            invariant
                j <= self.trade_history@.len(),
                history@ =~= self.trade_history@.subrange(0, j as int),
            decreases self.trade_history@.len() - j,
        {
            history.push(self.trade_history[j].duplicate());
            j = j + 1;
        }
        proof {
            assert(balances@ =~= self.asset_balances@);
            assert(history@ =~= self.trade_history@);
        }
        UserData { username: self.username.clone(), asset_balances: balances, trade_history: history }
    }

    /// Balance in the reference currency.
    pub fn usd_balance(&self) -> (r: u64)
        ensures
            r as nat == balance_in(self.asset_balances@, reference_asset()),
    {
        let usd = default_quote_asset();
        self.get_balance(&usd)
    }

    /// Balance of any asset (zero when the account never held it).
    pub fn get_balance(&self, asset: &String) -> (r: u64)
        ensures
            r as nat == balance_in(self.asset_balances@, asset@),
    {
        match find_key(&self.asset_balances, asset) {
            Some(i) => self.asset_balances[i].1,
            None => 0,
        }
    }

    /// Sets the balance of `asset`, adding an entry when it has none.
    pub fn set_balance(&mut self, asset: &String, amount: u64)
        ensures
            final(self).username == old(self).username,
            final(self).trade_history == old(self).trade_history,
            final(self).asset_balances@ == put(old(self).asset_balances@, *asset, amount),
            old(self).wf() ==> final(self).wf(),
    {
        proof {
            if old(self).wf() {
                lemma_put_unique(old(self).asset_balances@, *asset, amount);
            }
        }
        match find_key(&self.asset_balances, asset) {
            Some(i) => {
                let (k, _) = self.asset_balances.remove(i);
                self.asset_balances.insert(i, (k, amount));
                proof {
                    assert(self.asset_balances@ =~= put(old(self).asset_balances@, *asset, amount));
                }
            }
            None => {
                self.asset_balances.push((asset.clone(), amount));
            }
        }
    }

    fn total_of_kind(&self, kind: TransactionType) -> (r: u128)
        ensures
            r as int == kind_total(self.trade_history@, kind),
    {
        let mut total: u128 = 0;
        let mut i: usize = 0;
        while i < self.trade_history.len()
            invariant
                i <= self.trade_history@.len(),
                total as int == kind_total(self.trade_history@.subrange(0, i as int), kind),
            decreases self.trade_history@.len() - i,
        {
            proof {
                let pre = self.trade_history@.subrange(0, i as int + 1);
                assert(pre.drop_last() =~= self.trade_history@.subrange(0, i as int));
                lemma_kind_total_bound(pre, kind);
                crate::fixed::lemma_u64_product_fits(pre.len() as int, u64::MAX as int);
            }
            let t = &self.trade_history[i];
            if t.transaction_type == kind {
                total = total + t.quantity as u128;
            }
            i = i + 1;
        }
        proof {
            assert(self.trade_history@.subrange(0, i as int) =~= self.trade_history@);
        }
        total
    }

    /// Sum of all deposits (the initial seed excluded).
    pub fn lifetime_deposits(&self) -> (r: u128)
        ensures
            r as int == kind_total(self.trade_history@, TransactionType::Deposit),
    {
        self.total_of_kind(TransactionType::Deposit)
    }

    /// Sum of all withdrawals.
    pub fn lifetime_withdrawals(&self) -> (r: u128)
        ensures
            r as int == kind_total(self.trade_history@, TransactionType::Withdrawal),
    {
        self.total_of_kind(TransactionType::Withdrawal)
    }

    /// The seed plus all deposits.
    pub fn lifetime_funding(&self) -> (r: u128)
        ensures
            r as int == SEED_BALANCE + kind_total(self.trade_history@, TransactionType::Deposit),
    {
        let n = self.trade_history.len();
        proof {
            lemma_kind_total_bound(self.trade_history@, TransactionType::Deposit);
            crate::fixed::lemma_u64_product_fits(n as int, u64::MAX as int);
            assert(n * (u64::MAX as int) + SEED_BALANCE <= u128::MAX) by (nonlinear_arith)
                requires
                    n <= u64::MAX,
                    SEED_BALANCE < u64::MAX,
            ;
        }
        let d = self.lifetime_deposits();
        SEED_BALANCE as u128 + d
    }
}

} // verus!
