//! Strategies: pure decision functions over market and portfolio context.

use vstd::prelude::*;
use crate::models::PricePoint;

verus! {

/// What a strategy asks for on one tick. Amounts are in the quote asset.
#[derive(Debug, Clone, Copy, PartialEq, Eq, Structural)]
pub enum BotDecision {
    DoNothing,
    Buy { quote_amount: u64 },
    Sell { quote_amount: u64 },
}

/// Read-only context handed to a strategy on each tick.
#[derive(Debug)]
pub struct BotContext {
    /// Recent raw ticks of the base asset, oldest first.
    pub price_window: Vec<PricePoint>,
    pub base_balance: u64,
    pub quote_balance: u64,
    /// Current price of the base asset in the quote asset.
    pub current_price: u64,
    pub base_asset: String,
    pub quote_asset: String,
    /// Ticks since the bot started (0-based).
    pub tick_count: u64,
}

/// A strategy driven once per supervision tick.
pub trait TradingBot: Sized {
    /// The decision this strategy takes on `ctx`.
    spec fn decision(&self, ctx: &BotContext) -> BotDecision;

    /// `post` is this strategy after it decided on `ctx`.
    spec fn advanced(&self, post: &Self, ctx: &BotContext) -> bool;

    fn tick(&mut self, ctx: &BotContext) -> (r: BotDecision)
        ensures
            r == old(self).decision(ctx),
            old(self).advanced(final(self), ctx),
    ;

    fn name(&self) -> String;
}

/// `s` after recording `p` in a history bounded by `max`.
pub open spec fn history_after(s: Seq<u64>, max: int, p: u64) -> Seq<u64> {
    if s.len() + 1 > max { s.push(p).drop_first() } else { s.push(p) }
}

/// The most recent prices, at most `max_size` of them.
pub struct PriceHistory {
    prices: Vec<u64>,
    max_size: usize,
}

impl PriceHistory {
    pub closed spec fn view(&self) -> Seq<u64> {
        self.prices@
    }

    pub closed spec fn bound(&self) -> int {
        self.max_size as int
    }

    pub fn new(max_size: usize) -> (r: Self)
        ensures
            r.view().len() == 0,
            r.bound() == max_size,
    {
        PriceHistory { prices: Vec::new(), max_size }
    }

    /// Records `price`, dropping the oldest once over `max_size`.
    pub fn push(&mut self, price: u64)
        ensures
            final(self).view() == history_after(old(self).view(), old(self).bound(), price),
            final(self).bound() == old(self).bound(),
    {
        self.prices.push(price);
        if self.prices.len() > self.max_size {
            self.prices.remove(0);
            proof {
                assert(self.prices@ =~= old(self).prices@.push(price).drop_first());
            }
        }
    }

    /// All tracked prices, oldest first.
    pub fn prices(&self) -> (r: &Vec<u64>)
        ensures
            r@ == self.view(),
    {
        &self.prices
    }

    /// The most recent `n` prices (fewer when there are fewer).
    pub fn last_n(&self, n: usize) -> (r: Vec<u64>)
        ensures
            r@ == if self.view().len() > n {
                self.view().subrange(self.view().len() - n, self.view().len() as int)
            } else {
                self.view()
            },
    {
        let len = self.prices.len();
        let start: usize = if len > n { len - n } else { 0 };
        let mut out: Vec<u64> = Vec::new();
        let mut i: usize = start;
        while i < len
            invariant
                start <= i <= len,
                len == self.prices@.len(),
                out@ =~= self.prices@.subrange(start as int, i as int),
            decreases len - i,
        {
            out.push(self.prices[i]);
            i = i + 1;
        }
        proof {
            assert(self.prices@.subrange(0, len as int) =~= self.prices@);
        }
        out
    }

    pub fn has_at_least(&self, n: usize) -> (r: bool)
        ensures
            r == (self.view().len() >= n),
    {
        self.prices.len() >= n
    }

    pub fn len(&self) -> (r: usize)
        ensures
            r == self.view().len(),
    {
        self.prices.len()
    }
}

/// Prices the momentum strategy remembers.
pub const MOMENTUM_HISTORY: usize = 10;
/// Ticks skipped after each trade.
pub const MOMENTUM_COOLDOWN: u32 = 3;

/// Cooldown and decision of the momentum rule, given the history that
/// already includes the current price.
pub open spec fn momentum_rule(h: Seq<u64>, cooldown: u32, step: u64) -> (u32, BotDecision) {
    if cooldown > 0 {
        ((cooldown - 1) as u32, BotDecision::DoNothing)
    } else if h.len() < 3 {
        (0, BotDecision::DoNothing)
    } else {
        let a = h[h.len() - 3];
        let b = h[h.len() - 2];
        let c = h[h.len() - 1];
        if b > a && c > b {
            (MOMENTUM_COOLDOWN, BotDecision::Buy { quote_amount: step })
        } else if b < a && c < b {
            (MOMENTUM_COOLDOWN, BotDecision::Sell { quote_amount: step })
        } else {
            (0, BotDecision::DoNothing)
        }
    }
}

/// Buys after three rising prices, sells after three falling ones, trading
/// 1% of the stoploss amount and then resting for three ticks.
pub struct NaiveMomentumBot {
    stepsize_quote: u64,
    price_history: PriceHistory,
    cooldown_remaining: u32,
}

impl NaiveMomentumBot {
    pub closed spec fn step(&self) -> u64 {
        self.stepsize_quote
    }

    pub closed spec fn history(&self) -> Seq<u64> {
        self.price_history.view()
    }

    pub closed spec fn cooldown(&self) -> u32 {
        self.cooldown_remaining
    }

    pub closed spec fn capacity(&self) -> int {
        self.price_history.bound()
    }

    /// A bot whose step is 1% of `stoploss_amount`.
    pub fn new(stoploss_amount: u64) -> (r: Self)
        ensures
            r.capacity() == MOMENTUM_HISTORY,
            r.step() == stoploss_amount / 100,
            r.history().len() == 0,
            r.cooldown() == 0,
    {
        NaiveMomentumBot {
            stepsize_quote: stoploss_amount / 100,
            price_history: PriceHistory::new(MOMENTUM_HISTORY),
            cooldown_remaining: 0,
        }
    }

    pub fn stepsize_quote(&self) -> (r: u64)
        ensures
            r == self.step(),
    {
        self.stepsize_quote
    }

    pub fn cooldown_remaining(&self) -> (r: u32)
        ensures
            r == self.cooldown(),
    {
        self.cooldown_remaining
    }

    /// The last three prices rise strictly.
    fn is_uptrend(&self) -> (r: bool)
        ensures
            r == (self.history().len() >= 3 && {
                let h = self.history();
                h[h.len() - 2] > h[h.len() - 3] && h[h.len() - 1] > h[h.len() - 2]
            }),
    {
        if !self.price_history.has_at_least(3) {
            return false;
        }
        let recent = self.price_history.last_n(3);
        recent[1] > recent[0] && recent[2] > recent[1]
    }

    /// The last three prices fall strictly.
    fn is_downtrend(&self) -> (r: bool)
        ensures
            r == (self.history().len() >= 3 && {
                let h = self.history();
                h[h.len() - 2] < h[h.len() - 3] && h[h.len() - 1] < h[h.len() - 2]
            }),
    {
        if !self.price_history.has_at_least(3) {
            return false;
        }
        let recent = self.price_history.last_n(3);
        recent[1] < recent[0] && recent[2] < recent[1]
    }

    /// Records `price` and decides.
    pub fn observe(&mut self, price: u64) -> (r: BotDecision)
        ensures
            final(self).capacity() == old(self).capacity(),
            final(self).step() == old(self).step(),
            final(self).history() == history_after(old(self).history(), old(self).capacity(), price),
            (final(self).cooldown(), r) == momentum_rule(final(self).history(), old(self).cooldown(), old(self).step()),
    {
        self.price_history.push(price);
        if self.cooldown_remaining > 0 {
            self.cooldown_remaining = self.cooldown_remaining - 1;
            return BotDecision::DoNothing;
        }
        if !self.price_history.has_at_least(3) {
            return BotDecision::DoNothing;
        }
        if self.is_uptrend() {
            self.cooldown_remaining = MOMENTUM_COOLDOWN;
            return BotDecision::Buy { quote_amount: self.stepsize_quote };
        }
        if self.is_downtrend() {
            self.cooldown_remaining = MOMENTUM_COOLDOWN;
            return BotDecision::Sell { quote_amount: self.stepsize_quote };
        }
        BotDecision::DoNothing
    }
}

/// Registry name of the momentum strategy, `"naive_momentum"`.
pub open spec fn momentum_name() -> Seq<char> {
    seq!['n', 'a', 'i', 'v', 'e', '_', 'm', 'o', 'm', 'e', 'n', 't', 'u', 'm']
}

/// Display name of the momentum strategy, `"Naive Momentum Bot"`.
pub open spec fn momentum_display_name() -> Seq<char> {
    seq!['N', 'a', 'i', 'v', 'e', ' ', 'M', 'o', 'm', 'e', 'n', 't', 'u', 'm', ' ', 'B', 'o', 't']
}

fn naive_momentum_display_name() -> (r: String)
    ensures
        r@ == momentum_display_name(),
{
    let s = "Naive Momentum Bot".to_owned();
    proof {
        reveal_strlit("Naive Momentum Bot");
        assert(s@ =~= momentum_display_name());
    }
    s
}

/// The strategies a bot can be started with.
pub enum Strategy {
    NaiveMomentum(NaiveMomentumBot),
}

impl Strategy {
    /// The strategy registered under `name`, configured for `stoploss_amount`.
    pub fn from_name(name: &String, stoploss_amount: u64) -> (r: Option<Strategy>)
        ensures
            r is Some <==> name@ == momentum_name(),
            r matches Some(s) ==> (s matches Strategy::NaiveMomentum(b) && b.step() == stoploss_amount / 100
                && b.history().len() == 0 && b.cooldown() == 0 && b.capacity() == MOMENTUM_HISTORY),
    {
        let key = "naive_momentum".to_owned();
        proof {
            reveal_strlit("naive_momentum");
            assert(key@ =~= momentum_name());
        }
        if *name == key {
            Some(Strategy::NaiveMomentum(NaiveMomentumBot::new(stoploss_amount)))
        } else {
            None
        }
    }

    /// Asks the strategy for its decision on `ctx`.
    pub fn decide(&mut self, ctx: &BotContext) -> (r: BotDecision)
        ensures
            r == old(self).decision(ctx),
            old(self).advanced(final(self), ctx),
    {
        match self {
            Strategy::NaiveMomentum(b) => b.tick(ctx),
        }
    }

    pub fn display_name(&self) -> (r: String)
        ensures
            r@ == momentum_display_name(),
    {
        match self {
            Strategy::NaiveMomentum(_) => naive_momentum_display_name(),
        }
    }
}

impl TradingBot for NaiveMomentumBot {
    /// The momentum rule applied to the history extended by the current price.
    open spec fn decision(&self, ctx: &BotContext) -> BotDecision {
        momentum_rule(
            history_after(self.history(), self.capacity(), ctx.current_price),
            self.cooldown(),
            self.step(),
        ).1
    }

    open spec fn advanced(&self, post: &Self, ctx: &BotContext) -> bool {
        let h = history_after(self.history(), self.capacity(), ctx.current_price);
        &&& post.capacity() == self.capacity()
        &&& post.step() == self.step()
        &&& post.history() == h
        &&& post.cooldown() == momentum_rule(h, self.cooldown(), self.step()).0
    }

    fn tick(&mut self, ctx: &BotContext) -> (r: BotDecision) {
        self.observe(ctx.current_price)
    }

    fn name(&self) -> String {
        naive_momentum_display_name()
    }
}

impl TradingBot for Strategy {
    open spec fn decision(&self, ctx: &BotContext) -> BotDecision {
        match self {
            Strategy::NaiveMomentum(b) => b.decision(ctx),
        }
    }

    open spec fn advanced(&self, post: &Self, ctx: &BotContext) -> bool {
        match (self, post) {
            (Strategy::NaiveMomentum(a), Strategy::NaiveMomentum(b)) => a.advanced(b, ctx),
        }
    }

    fn tick(&mut self, ctx: &BotContext) -> (r: BotDecision) {
        self.decide(ctx)
    }

    fn name(&self) -> String {
        self.display_name()
    }
}

} // verus!
