use vstd::prelude::*;
use std::collections::VecDeque;
use rand::Rng;
use crate::types::{Order, OrderSide, Trade};
use crate::wide::{wide, mul_wide, add_wide, wide_gt};

verus! {

/// The default number of observed prices an agent remembers.
pub const MAX_HISTORY: usize = 50;

/// How an agent decides what to quote. Multipliers are in thousandths.
#[derive(Debug, Clone, Copy, PartialEq, Eq, Structural)]
pub enum Strategy {
    RandomWalker,
    TrendFollower { window_size: usize },
    MeanReverter { window_size: usize, std_dev_multiplier_milli: u64 },
    MarketMaker { spread_bps: u64 },
}

/// A trading agent with its balances and the prices it has observed, oldest first.
#[derive(Debug)]
pub struct Agent {
    pub id: u64,
    pub name: String,
    pub cash: u64,
    pub inventory: u64,
    pub strategy: Strategy,
    pub price_history: VecDeque<u64>,
    pub max_history: usize,
}

// ---------------------------------------------------------------- observation

/// The history after observing `price` with room for `max` prices.
pub open spec fn observed(h: Seq<u64>, price: u64, max: usize) -> Seq<u64> {
    if price == 0 {
        h
    } else if h.push(price).len() > max {
        h.push(price).drop_first()
    } else {
        h.push(price)
    }
}

// ----------------------------------------------------------------- settlement

/// Cash and inventory of agent `id` after `t` is applied to it: the buy leg
/// when it bought, can pay and the units fit in `u64`; then the sell leg when
/// it sold (revenue always, saturating at the top of `u64`; units only when it
/// holds them). A self-trade thus applies both legs once.
pub open spec fn after_trade(id: u64, cash: u64, inventory: u64, t: Trade) -> (u64, u64) {
    let cost = t.price * t.amount;
    let bought: (u64, u64) = if t.buyer_id == id && cash >= cost && inventory + t.amount <= u64::MAX {
        ((cash - cost) as u64, (inventory + t.amount) as u64)
    } else {
        (cash, inventory)
    };
    if t.seller_id == id {
        (
            if bought.0 + cost > u64::MAX { u64::MAX } else { (bought.0 + cost) as u64 },
            if bought.1 >= t.amount { (bought.1 - t.amount) as u64 } else { bought.1 },
        )
    } else {
        bought
    }
}

// -------------------------------------------------------------------- quoting

/// Sum of the prices in `h`.
pub open spec fn sum(h: Seq<u64>) -> int
    decreases h.len(),
{
    if h.len() == 0 {
        0
    } else {
        sum(h.drop_last()) + h.last()
    }
}

/// `sum over p in h of (n*p - s)^2`; with `n = |h|` and `s = sum(h)` it is
/// `n^3` times the population variance.
pub open spec fn dev_sq_sum(h: Seq<u64>, n: int, s: int) -> int
    decreases h.len(),
{
    if h.len() == 0 {
        0
    } else {
        dev_sq_sum(h.drop_last(), n, s) + (n * h.last() - s) * (n * h.last() - s)
    }
}

/// `d / n > (km / 1000) * sigma` where `w = n^3 sigma^2`, without square roots.
pub open spec fn beyond_band(n: int, d: int, w: int, km: int) -> bool {
    d > 0 && n * ((1000 * d) * (1000 * d)) > (km * km) * w
}

/// `cur > mean + k * sigma` over the whole history, with `k = km / 1000`.
pub open spec fn above_band(h: Seq<u64>, cur: u64, km: u64) -> bool {
    let n = h.len() as int;
    beyond_band(n, n * cur - sum(h), dev_sq_sum(h, n, sum(h)), km as int)
}

/// `cur < mean - k * sigma` over the whole history, with `k = km / 1000`.
pub open spec fn below_band(h: Seq<u64>, cur: u64, km: u64) -> bool {
    let n = h.len() as int;
    beyond_band(n, sum(h) - n * cur, dev_sq_sum(h, n, sum(h)), km as int)
}

/// A noisy quote: `current + noise`, kept within `1 ..= u64::MAX`.
pub open spec fn noisy_price(current: u64, noise: int) -> u64 {
    if current + noise < 1 {
        1
    } else if current + noise > u64::MAX {
        u64::MAX
    } else {
        (current + noise) as u64
    }
}

/// The market maker's half-spread: `max(10, floor(current * bps / 10000))`.
pub open spec fn half_spread(current: u64, bps: u64) -> int {
    if current * bps / 10000 < 10 {
        10
    } else {
        current * bps / 10000
    }
}

/// The market maker's bid: `max(1, current - s)`.
pub open spec fn maker_bid_price(current: u64, bps: u64) -> u64 {
    if current - half_spread(current, bps) < 1 {
        1
    } else {
        (current - half_spread(current, bps)) as u64
    }
}

/// The market maker's ask: `current + s`, saturating at the top of `u64`.
pub open spec fn maker_ask_price(current: u64, bps: u64) -> u64 {
    if current + half_spread(current, bps) > u64::MAX {
        u64::MAX
    } else {
        (current + half_spread(current, bps)) as u64
    }
}

/// A one-unit order of trader `trader` (timestamp left for the scheduler).
pub open spec fn quote(order_id: u64, trader: u64, side: OrderSide, price: u64) -> Order {
    Order { id: order_id, trader_id: trader, side: side, price: price, amount: 1, timestamp: 0 }
}

/// What an agent quotes at `current`, given its state and the random draws
/// `coin` (bid rather than ask), `noise` and `order_id`. A trend window of
/// zero never triggers; the market maker bids only what it can pay at its bid
/// price.
pub open spec fn decision(
    id: u64,
    cash: u64,
    inventory: u64,
    strategy: Strategy,
    h: Seq<u64>,
    current: u64,
    coin: bool,
    noise: int,
    order_id: u64,
) -> Option<Order> {
    if current == 0 {
        None
    } else {
        match strategy {
            Strategy::RandomWalker => {
                if coin {
                    if cash >= current {
                        Some(quote(order_id, id, OrderSide::Bid, noisy_price(current, noise)))
                    } else {
                        None
                    }
                } else if inventory >= 1 {
                    Some(quote(order_id, id, OrderSide::Ask, noisy_price(current, noise)))
                } else {
                    None
                }
            },
            Strategy::TrendFollower { window_size } => {
                if h.len() < window_size || window_size == 0 {
                    None
                } else {
                    let past = h[h.len() - window_size];
                    if current > past && cash >= current {
                        Some(quote(order_id, id, OrderSide::Bid, current))
                    } else if current < past && inventory >= 1 {
                        Some(quote(order_id, id, OrderSide::Ask, current))
                    } else {
                        None
                    }
                }
            },
            Strategy::MeanReverter { window_size, std_dev_multiplier_milli } => {
                if h.len() < window_size {
                    None
                } else if above_band(h, current, std_dev_multiplier_milli) {
                    if inventory >= 1 {
                        Some(quote(order_id, id, OrderSide::Ask, current))
                    } else {
                        None
                    }
                } else if below_band(h, current, std_dev_multiplier_milli) && cash >= current {
                    Some(quote(order_id, id, OrderSide::Bid, current))
                } else {
                    None
                }
            },
            Strategy::MarketMaker { spread_bps } => {
                if coin {
                    if cash >= maker_bid_price(current, spread_bps) {
                        Some(quote(order_id, id, OrderSide::Bid, maker_bid_price(current, spread_bps)))
                    } else {
                        None
                    }
                } else if inventory >= 1 {
                    Some(quote(order_id, id, OrderSide::Ask, maker_ask_price(current, spread_bps)))
                } else {
                    None
                }
            },
        }
    }
}

// ------------------------------------------------------------ outside draws

/// Relies on rand::random: a value drawn from the thread-local generator.
pub assume_specification<T>[ rand::random::<T> ]() -> T
    where
        rand::distributions::Standard: rand::distributions::Distribution<T>,
;

/// Relies on rand::Rng::gen_range on an inclusive range: the value lies in it
/// (the range is non-empty, so the call does not panic).
#[verifier::external_body]
fn uniform_in(lo: i64, hi: i64) -> (r: i64)
    requires
        lo <= hi,
    ensures
        lo <= r <= hi,
{
    rand::thread_rng().gen_range(lo..=hi)
}

// ----------------------------------------------------------------------- impl

impl Agent {
    /// The history respects its bound, which is at most `MAX_HISTORY`.
    pub open spec fn wf(&self) -> bool {
        &&& self.price_history@.len() <= self.max_history
        &&& self.max_history <= MAX_HISTORY
    }

    /// A new agent with an empty history of room `MAX_HISTORY`.
    pub fn new(id: u64, name: String, cash: u64, inventory: u64, strategy: Strategy) -> (r: Self)
        ensures
            r.wf(),
            r.id == id,
            r.name@ == name@,
            r.cash == cash,
            r.inventory == inventory,
            r.strategy == strategy,
            r.price_history@ == Seq::<u64>::empty(),
            r.max_history == MAX_HISTORY,
    {
        Agent {
            id,
            name,
            cash,
            inventory,
            strategy,
            price_history: VecDeque::new(),
            max_history: MAX_HISTORY,
        }
    }

    /// Records an observed price; zero is ignored and the oldest price is
    /// evicted beyond `max_history`.
    pub fn update_market_data(&mut self, price: u64)
        requires
            old(self).wf(),
        ensures
            final(self).wf(),
            final(self).price_history@ == observed(old(self).price_history@, price, old(self).max_history),
            final(self).id == old(self).id,
            final(self).name == old(self).name,
            final(self).cash == old(self).cash,
            final(self).inventory == old(self).inventory,
            final(self).strategy == old(self).strategy,
            final(self).max_history == old(self).max_history,
    {
        if price == 0 {
            return;
        }
        self.price_history.push_back(price);
        if self.price_history.len() > self.max_history {
            self.price_history.pop_front();
            assert(self.price_history@ =~= old(self).price_history@.push(price).drop_first());
        }
    }

    /// Applies a trade to this agent's balances (see `after_trade`).
    pub fn on_trade(&mut self, trade: &Trade)
        ensures
            (final(self).cash, final(self).inventory) == after_trade(
                old(self).id,
                old(self).cash,
                old(self).inventory,
                *trade,
            ),
            final(self).id == old(self).id,
            final(self).name == old(self).name,
            final(self).strategy == old(self).strategy,
            final(self).price_history == old(self).price_history,
            final(self).max_history == old(self).max_history,
    {
        proof {
            assert(trade.price * trade.amount <= u64::MAX * u64::MAX) by (nonlinear_arith)
                requires trade.price <= u64::MAX, trade.amount <= u64::MAX;
        }
        let cost: u128 = trade.price as u128 * trade.amount as u128;
        if trade.buyer_id == self.id {
            if self.cash as u128 >= cost && self.inventory <= u64::MAX - trade.amount {
                self.cash = self.cash - cost as u64;
                self.inventory = self.inventory + trade.amount;
            }
        }
        if trade.seller_id == self.id {
            if self.cash as u128 + cost > u64::MAX as u128 {
                self.cash = u64::MAX;
            } else {
                self.cash = (self.cash as u128 + cost) as u64;
            }
            if self.inventory >= trade.amount {
                self.inventory = self.inventory - trade.amount;
            }
        }
    }

    /// Draws what the strategy needs and returns the resulting quote, if any.
    pub fn act(&mut self, current_price: u64) -> (r: Option<Order>)
        requires
            old(self).wf(),
        ensures
            *final(self) == *old(self),
            r matches Some(o) ==> o.price >= 1 && o.amount == 1 && o.trader_id == old(self).id,
            exists|coin: bool, noise: int, order_id: u64|
                -20 <= noise <= 20 && r == decision(
                    old(self).id,
                    old(self).cash,
                    old(self).inventory,
                    old(self).strategy,
                    old(self).price_history@,
                    current_price,
                    coin,
                    noise,
                    order_id,
                ),
    {
        if current_price == 0 {
            assert(decision(self.id, self.cash, self.inventory, self.strategy, self.price_history@, 0, true, 0, 0)
                == None::<Order>);
            return None;
        }
        let coin: bool = rand::random::<bool>();
        let noise = uniform_in(-20, 20);
        let order_id: u64 = rand::random::<u64>();
        self.quote_with(current_price, coin, noise, order_id)
    }

    /// The quote of this agent at `current_price` for the given draws: the
    /// strategy's rule, with every bid affordable and every ask deliverable.
    pub fn quote_with(&self, current_price: u64, coin: bool, noise: i64, order_id: u64) -> (r: Option<Order>)
        requires
            self.wf(),
            -20 <= noise <= 20,
        ensures
            r == decision(
                self.id,
                self.cash,
                self.inventory,
                self.strategy,
                self.price_history@,
                current_price,
                coin,
                noise as int,
                order_id,
            ),
            r matches Some(o) ==> o.price >= 1 && o.amount == 1 && o.trader_id == self.id
                && (o.side == OrderSide::Bid ==> self.cash >= current_price || self.cash >= o.price)
                && (o.side == OrderSide::Ask ==> self.inventory >= 1),
    {
        if current_price == 0 {
            return None;
        }
        match self.strategy {
            Strategy::RandomWalker => {
                let price = noisy_price_exec(current_price, noise);
                if coin {
                    if self.cash >= current_price {
                        return Some(make_quote(order_id, self.id, OrderSide::Bid, price));
                    }
                } else if self.inventory >= 1 {
                    return Some(make_quote(order_id, self.id, OrderSide::Ask, price));
                }
                None
            },
            Strategy::TrendFollower { window_size } => {
                let len = self.price_history.len();
                if len < window_size || window_size == 0 {
                    return None;
                }
                let past = self.price_history[len - window_size];
                if current_price > past && self.cash >= current_price {
                    Some(make_quote(order_id, self.id, OrderSide::Bid, current_price))
                } else if current_price < past && self.inventory >= 1 {
                    Some(make_quote(order_id, self.id, OrderSide::Ask, current_price))
                } else {
                    None
                }
            },
            Strategy::MeanReverter { window_size, std_dev_multiplier_milli } => {
                if self.price_history.len() < window_size {
                    return None;
                }
                let signal = band_signal(&self.price_history, current_price, std_dev_multiplier_milli);
                match signal {
                    Some(OrderSide::Ask) => {
                        if self.inventory >= 1 {
                            Some(make_quote(order_id, self.id, OrderSide::Ask, current_price))
                        } else {
                            None
                        }
                    },
                    Some(OrderSide::Bid) => {
                        if self.cash >= current_price {
                            Some(make_quote(order_id, self.id, OrderSide::Bid, current_price))
                        } else {
                            None
                        }
                    },
                    None => None,
                }
            },
            Strategy::MarketMaker { spread_bps } => {
                let spread = half_spread_exec(current_price, spread_bps);
                if coin {
                    let bid = if (current_price as u128) <= spread || current_price as u128 - spread < 1 {
                        1
                    } else {
                        (current_price as u128 - spread) as u64
                    };
                    if self.cash >= bid {
                        return Some(make_quote(order_id, self.id, OrderSide::Bid, bid));
                    }
                } else if self.inventory >= 1 {
                    let ask = if current_price as u128 + spread > u64::MAX as u128 {
                        u64::MAX
                    } else {
                        (current_price as u128 + spread) as u64
                    };
                    return Some(make_quote(order_id, self.id, OrderSide::Ask, ask));
                }
                None
            },
        }
    }
}

fn make_quote(order_id: u64, trader: u64, side: OrderSide, price: u64) -> (r: Order)
    ensures
        r == quote(order_id, trader, side, price),
{
    Order { id: order_id, trader_id: trader, side, price, amount: 1, timestamp: 0 }
}

fn noisy_price_exec(current: u64, noise: i64) -> (r: u64)
    requires
        -20 <= noise <= 20,
    ensures
        r == noisy_price(current, noise as int),
{
    let v: i128 = current as i128 + noise as i128;
    if v < 1 {
        1
    } else if v > u64::MAX as i128 {
        u64::MAX
    } else {
        v as u64
    }
}

fn half_spread_exec(current: u64, bps: u64) -> (r: u128)
    ensures
        r == half_spread(current, bps),
        r <= u64::MAX * u64::MAX,
{
    proof {
        assert(0 <= current * bps <= u64::MAX * u64::MAX) by (nonlinear_arith);
    }
    let s: u128 = current as u128 * bps as u128 / 10000;
    if s < 10 {
        10
    } else {
        s
    }
}

/// Which side the mean-reversion band calls for: an ask above it, a bid below it.
fn band_signal(h: &VecDeque<u64>, cur: u64, km: u64) -> (r: Option<OrderSide>)
    requires
        h@.len() <= MAX_HISTORY,
    ensures
        r == (if above_band(h@, cur, km) {
            Some(OrderSide::Ask)
        } else if below_band(h@, cur, km) {
            Some(OrderSide::Bid)
        } else {
            None::<OrderSide>
        }),
{
    let n = h.len();
    let mut s: u128 = 0;
    let mut i: usize = 0;
    while i < n
        invariant
            n == h@.len() <= MAX_HISTORY,
            0 <= i <= n,
            s == sum(h@.subrange(0, i as int)),
            s <= i * 0xFFFF_FFFF_FFFF_FFFF,
        decreases n - i,
    {
        assert(h@.subrange(0, i + 1).drop_last() =~= h@.subrange(0, i as int));
        s = s + h[i] as u128;
        i = i + 1;
    }
    assert(h@.subrange(0, n as int) =~= h@);
    let nn: u128 = n as u128;
    let mut w: (u128, u128) = (0, 0);
    i = 0;
    while i < n
        invariant
            n == h@.len() <= MAX_HISTORY,
            nn == n,
            0 <= i <= n,
            s == sum(h@),
            s <= 50 * 0xFFFF_FFFF_FFFF_FFFFint,
            wide(w.0, w.1) == dev_sq_sum(h@.subrange(0, i as int), nn as int, s as int),
            wide(w.0, w.1) <= i * (GAP_CAP * GAP_CAP),
        decreases n - i,
    {
        assert(h@.subrange(0, i + 1).drop_last() =~= h@.subrange(0, i as int));
        let p: u128 = h[i] as u128;
        proof {
            assert(nn * p <= 50 * 0xFFFF_FFFF_FFFF_FFFFint) by (nonlinear_arith)
                requires nn <= 50, p <= 0xFFFF_FFFF_FFFF_FFFFint;
        }
        let np: u128 = nn * p;
        let d: u128 = if np >= s { np - s } else { s - np };
        let dd = mul_wide(d, d);
        proof {
            assert(d * d <= GAP_CAP * GAP_CAP) by (nonlinear_arith)
                requires d <= GAP_CAP, d >= 0;
            assert((np - s) * (np - s) == d * d) by (nonlinear_arith)
                requires d == np - s || d == s - np;
            assert(i * (GAP_CAP * GAP_CAP) + GAP_CAP * GAP_CAP == (i + 1) * (GAP_CAP * GAP_CAP)) by (nonlinear_arith);
            assert((i + 1) * (GAP_CAP * GAP_CAP) <= 50 * (GAP_CAP * GAP_CAP)) by (nonlinear_arith)
                requires i + 1 <= 50;
            assert(50 * (GAP_CAP * GAP_CAP) < 0x1_0000_0000_0000_0000_0000_0000_0000_0000int
                * 0x1_0000_0000_0000_0000_0000_0000_0000_0000int) by (nonlinear_arith)
                requires GAP_CAP <= 0x40_0000_0000_0000_0000int, GAP_CAP >= 0;
        }
        match add_wide(w, dd) {
            Some(next) => {
                w = next;
            },
            None => {
                assert(false);
            },
        }
        i = i + 1;
    }
    assert(h@.subrange(0, n as int) =~= h@);
    proof {
        assert(n * (GAP_CAP * GAP_CAP) <= 50 * (GAP_CAP * GAP_CAP)) by (nonlinear_arith)
            requires n <= 50;
        assert(nn * cur <= 50 * 0xFFFF_FFFF_FFFF_FFFFint) by (nonlinear_arith)
            requires nn <= 50, cur <= 0xFFFF_FFFF_FFFF_FFFFint;
    }
    let ncur: u128 = nn * cur as u128;
    if ncur > s {
        if beyond(nn, ncur - s, w, km) {
            return Some(OrderSide::Ask);
        }
        return None;
    }
    if s > ncur {
        if beyond(nn, s - ncur, w, km) {
            return Some(OrderSide::Bid);
        }
    }
    None
}

/// The largest gap `|n*p - s|` over a history of at most `MAX_HISTORY` prices.
pub const GAP_CAP: u128 = 50 * 0xFFFF_FFFF_FFFF_FFFF;

/// Decides `beyond_band(n, d, w, km)` for a positive gap `d`, exactly, in
/// 256-bit arithmetic.
fn beyond(n: u128, d: u128, w: (u128, u128), km: u64) -> (r: bool)
    requires
        n <= 50,
        0 < d <= GAP_CAP,
        wide(w.0, w.1) <= 50 * (GAP_CAP * GAP_CAP),
    ensures
        r == beyond_band(n as int, d as int, wide(w.0, w.1), km as int),
{
    let ghost two128: int = 0x1_0000_0000_0000_0000_0000_0000_0000_0000int;
    proof {
        assert(n * (1000 * d) <= 50 * (1000 * GAP_CAP)) by (nonlinear_arith)
            requires n <= 50, d <= GAP_CAP, n >= 0, d >= 0;
        assert(km * km <= 0xFFFF_FFFF_FFFF_FFFFint * 0xFFFF_FFFF_FFFF_FFFFint) by (nonlinear_arith)
            requires km <= 0xFFFF_FFFF_FFFF_FFFFint, km >= 0;
    }
    let scaled: u128 = 1000 * d;
    let lhs = mul_wide(n * scaled, scaled);
    proof {
        assert((n * scaled) * scaled == n * ((1000 * d) * (1000 * d))) by (nonlinear_arith)
            requires scaled == 1000 * d;
        assert(n * scaled * scaled <= 50 * (1000 * GAP_CAP) * (1000 * GAP_CAP)) by (nonlinear_arith)
            requires n <= 50, scaled <= 1000 * GAP_CAP, n >= 0, scaled >= 0;
    }
    let k2: u128 = km as u128 * km as u128;
    let (whi, wlo) = w;
    proof {
        assert(whi < 0x10_0000) by (nonlinear_arith)
            requires
                whi * two128 + wlo <= 50 * (GAP_CAP * GAP_CAP),
                wlo >= 0, whi >= 0,
                two128 == 0x1_0000_0000_0000_0000_0000_0000_0000_0000int;
    }
    let p0 = mul_wide(k2, wlo);
    let p1 = mul_wide(k2, whi);
    proof {
        assert((km * km) * wide(whi, wlo) == wide(p0.0, p0.1) + wide(p1.0, p1.1) * two128) by (nonlinear_arith)
            requires
                k2 == km * km,
                wide(p0.0, p0.1) == k2 * wlo,
                wide(p1.0, p1.1) == k2 * whi,
                wide(whi, wlo) == whi * two128 + wlo;
    }
    if p1.0 > 0 {
        proof {
            assert(wide(p1.0, p1.1) * two128 >= two128 * two128) by (nonlinear_arith)
                requires wide(p1.0, p1.1) >= two128, two128 > 0;
            assert(wide(p0.0, p0.1) >= 0) by (nonlinear_arith)
                requires p0.0 >= 0, p0.1 >= 0;
        }
        return false;
    }
    match add_wide(p0, (p1.1, 0)) {
        Some(rhs) => wide_gt(lhs, rhs),
        None => false,
    }
}

/// The history after observing each price of `ps` in turn.
pub open spec fn observed_all(h: Seq<u64>, ps: Seq<u64>, max: usize) -> Seq<u64>
    decreases ps.len(),
{
    if ps.len() == 0 {
        h
    } else {
        observed(observed_all(h, ps.drop_last(), max), ps.last(), max)
    }
}

/// However many prices are observed, the history never outgrows its bound.
pub proof fn lemma_history_bounded(h: Seq<u64>, ps: Seq<u64>, max: usize)
    requires
        h.len() <= max,
    ensures
        observed_all(h, ps, max).len() <= max,
    decreases ps.len(),
{
    if ps.len() > 0 {
        lemma_history_bounded(h, ps.drop_last(), max);
    }
}

/// A trade between two distinct agents who can afford it conserves units
/// and cash: the buyer pays exactly what the seller receives, and the seller
/// delivers exactly what the buyer gets.
pub proof fn lemma_trade_conserves(
    buyer_cash: u64,
    buyer_inventory: u64,
    seller_cash: u64,
    seller_inventory: u64,
    t: Trade,
)
    requires
        t.buyer_id != t.seller_id,
        buyer_cash >= t.price * t.amount,
        buyer_inventory + t.amount <= u64::MAX,
        seller_inventory >= t.amount,
        seller_cash + t.price * t.amount <= u64::MAX,
    ensures
        ({
            let b = after_trade(t.buyer_id, buyer_cash, buyer_inventory, t);
            let s = after_trade(t.seller_id, seller_cash, seller_inventory, t);
            &&& b.0 + s.0 == buyer_cash + seller_cash
            &&& b.1 + s.1 == buyer_inventory + seller_inventory
            &&& b.1 == buyer_inventory + t.amount
            &&& b.0 == buyer_cash - t.price * t.amount
        }),
{
}

/// A self-trade that the agent can afford leaves its cash and units as they were.
pub proof fn lemma_self_trade_cancels(id: u64, cash: u64, inventory: u64, t: Trade)
    requires
        t.buyer_id == id,
        t.seller_id == id,
        cash >= t.price * t.amount,
        inventory + t.amount <= u64::MAX,
    ensures
        after_trade(id, cash, inventory, t) == (cash, inventory),
{
}

} // verus!
