use vstd::prelude::*;
use crate::types::{Order, OrderSide, Trade};

verus! {

/// `a` is matched no later than `b` among resting orders of `side`:
/// better price first, then earlier timestamp.
pub open spec fn precedes(side: OrderSide, a: Order, b: Order) -> bool {
    match side {
        OrderSide::Bid => a.price > b.price || (a.price == b.price && a.timestamp <= b.timestamp),
        OrderSide::Ask => a.price < b.price || (a.price == b.price && a.timestamp <= b.timestamp),
    }
}

/// `a` is strictly ahead of `b` in price-time priority on `side`.
pub open spec fn ahead(side: OrderSide, a: Order, b: Order) -> bool {
    !precedes(side, b, a)
}

/// The orders of `s` stand in price-time priority for `side`.
pub open spec fn sorted(side: OrderSide, s: Seq<Order>) -> bool {
    forall|i: int, j: int| 0 <= i < j < s.len() ==> precedes(side, #[trigger] s[i], #[trigger] s[j])
}

/// Every resting order has a positive price and a positive amount.
pub open spec fn resting_valid(s: Seq<Order>) -> bool {
    forall|i: int| 0 <= i < s.len() ==> (#[trigger] s[i]).price >= 1 && s[i].amount > 0
}

/// Where `o` goes when it rests on a side holding `s`: after every order that
/// it is not strictly ahead of (insertion order breaks full ties).
pub open spec fn rest_pos(side: OrderSide, s: Seq<Order>, o: Order) -> int
    decreases s.len(),
{
    if s.len() == 0 {
        0
    } else if ahead(side, o, s[0]) {
        0
    } else {
        1 + rest_pos(side, s.drop_first(), o)
    }
}

/// The side `s` after `o` has come to rest on it.
pub open spec fn rested(side: OrderSide, s: Seq<Order>, o: Order) -> Seq<Order> {
    s.insert(rest_pos(side, s, o), o)
}

/// The same order with another amount.
pub open spec fn with_amount(o: Order, amount: u64) -> Order {
    Order { amount: amount, ..o }
}

/// A taker crosses a maker when its limit reaches the maker's price.
pub open spec fn crosses(taker: Order, maker: Order) -> bool {
    match taker.side {
        OrderSide::Bid => taker.price >= maker.price,
        OrderSide::Ask => taker.price <= maker.price,
    }
}

/// The trade of `amount` units between `taker` and resting `maker`, at the maker's price.
pub open spec fn fill(taker: Order, maker: Order, amount: u64) -> Trade {
    match taker.side {
        OrderSide::Bid => Trade {
            buyer_id: taker.trader_id,
            seller_id: maker.trader_id,
            price: maker.price,
            amount: amount,
            timestamp: taker.timestamp,
        },
        OrderSide::Ask => Trade {
            buyer_id: maker.trader_id,
            seller_id: taker.trader_id,
            price: maker.price,
            amount: amount,
            timestamp: taker.timestamp,
        },
    }
}

/// Matching `taker` against the opposite side `opp`, best maker first:
/// the trades, the opposite side afterwards, and the taker's residual amount.
pub open spec fn sweep(opp: Seq<Order>, taker: Order) -> (Seq<Trade>, Seq<Order>, u64)
    decreases opp.len(),
{
    if taker.amount == 0 || opp.len() == 0 || !crosses(taker, opp[0]) {
        (Seq::empty(), opp, taker.amount)
    } else if taker.amount < opp[0].amount {
        (
            seq![fill(taker, opp[0], taker.amount)],
            opp.update(0, with_amount(opp[0], (opp[0].amount - taker.amount) as u64)),
            0,
        )
    } else {
        let rest = sweep(opp.drop_first(), with_amount(taker, (taker.amount - opp[0].amount) as u64));
        (seq![fill(taker, opp[0], opp[0].amount)] + rest.0, rest.1, rest.2)
    }
}

/// The side that an order of side `side` rests on after matching, given that
/// side `s` and the residual `r`.
pub open spec fn after_rest(side: OrderSide, s: Seq<Order>, o: Order, r: u64) -> Seq<Order> {
    if r > 0 {
        rested(side, s, with_amount(o, r))
    } else {
        s
    }
}

/// Bids, asks and pending trades of a book.
pub type BookState = (Seq<Order>, Seq<Order>, Seq<Trade>);

/// The book state after `o` is added: matched against the opposite side,
/// its residual rested, its trades appended.
pub open spec fn book_after(b: BookState, o: Order) -> BookState {
    match o.side {
        OrderSide::Bid => {
            let m = sweep(b.1, o);
            (after_rest(OrderSide::Bid, b.0, o, m.2), m.1, b.2 + m.0)
        },
        OrderSide::Ask => {
            let m = sweep(b.0, o);
            (m.1, after_rest(OrderSide::Ask, b.1, o, m.2), b.2 + m.0)
        },
    }
}

/// The book state after the orders of `os` are added in turn.
pub open spec fn books_after(b: BookState, os: Seq<Order>) -> BookState
    decreases os.len(),
{
    if os.len() == 0 {
        b
    } else {
        book_after(books_after(b, os.drop_last()), os.last())
    }
}

/// Every trade has a positive price.
pub open spec fn trades_valid(ts: Seq<Trade>) -> bool {
    forall|k: int| 0 <= k < ts.len() ==> (#[trigger] ts[k]).price >= 1
}

/// A central limit order book with price-time priority.
pub struct OrderBook {
    bids: Vec<Order>,
    asks: Vec<Order>,
    /// Trades produced since the last drain, oldest first.
    pub trades: Vec<Trade>,
}

impl OrderBook {
    /// Resting bids, best first.
    pub closed spec fn bid_queue(&self) -> Seq<Order> {
        self.bids@
    }

    /// Trades produced since the last drain, oldest first.
    pub closed spec fn pending(&self) -> Seq<Trade> {
        self.trades@
    }

    /// Resting asks, best first.
    pub closed spec fn ask_queue(&self) -> Seq<Order> {
        self.asks@
    }

    /// Bids, asks and pending trades.
    pub open spec fn state(&self) -> BookState {
        (self.bid_queue(), self.ask_queue(), self.pending())
    }

    /// Both sides stand in price-time priority and hold only live orders.
    pub open spec fn wf(&self) -> bool {
        &&& trades_valid(self.pending())
        &&& sorted(OrderSide::Bid, self.bid_queue())
        &&& sorted(OrderSide::Ask, self.ask_queue())
        &&& resting_valid(self.bid_queue())
        &&& resting_valid(self.ask_queue())
    }

    /// An empty book.
    pub fn new() -> (r: Self)
        ensures
            r.wf(),
            r.bid_queue() == Seq::<Order>::empty(),
            r.ask_queue() == Seq::<Order>::empty(),
            r.pending() == Seq::<Trade>::empty(),
    {
        OrderBook { bids: Vec::new(), asks: Vec::new(), trades: Vec::new() }
    }

    /// The highest resting bid price, if any bid rests.
    pub fn best_bid_price(&self) -> (r: Option<u64>)
        requires
            self.wf(),
        ensures
            r == (if self.bid_queue().len() > 0 {
                Some(self.bid_queue()[0].price)
            } else {
                None::<u64>
            }),
            r matches Some(p) ==> forall|i: int|
                0 <= i < self.bid_queue().len() ==> #[trigger] self.bid_queue()[i].price <= p,
    {
        if self.bids.len() > 0 {
            assert forall|i: int| 0 <= i < self.bid_queue().len() implies #[trigger] self.bid_queue()[i].price
                <= self.bids@[0].price by {
                if i > 0 {
                    assert(precedes(OrderSide::Bid, self.bids@[0], self.bids@[i]));
                }
            }
            Some(self.bids[0].price)
        } else {
            None
        }
    }

    /// The lowest resting ask price, if any ask rests.
    pub fn best_ask_price(&self) -> (r: Option<u64>)
        requires
            self.wf(),
        ensures
            r == (if self.ask_queue().len() > 0 {
                Some(self.ask_queue()[0].price)
            } else {
                None::<u64>
            }),
            r matches Some(p) ==> forall|i: int|
                0 <= i < self.ask_queue().len() ==> #[trigger] self.ask_queue()[i].price >= p,
    {
        if self.asks.len() > 0 {
            assert forall|i: int| 0 <= i < self.ask_queue().len() implies #[trigger] self.ask_queue()[i].price
                >= self.asks@[0].price by {
                if i > 0 {
                    assert(precedes(OrderSide::Ask, self.asks@[0], self.asks@[i]));
                }
            }
            Some(self.asks[0].price)
        } else {
            None
        }
    }

    /// Matches `order` against the opposite side at the makers' prices, then
    /// rests what is left of it. A zero-amount order changes nothing.
    pub fn add_order(&mut self, order: Order)
        requires
            old(self).wf(),
            order.price >= 1,
        ensures
            final(self).wf(),
            final(self).state() == book_after(old(self).state(), order),
    {
        match order.side {
            OrderSide::Bid => self.match_bid(order),
            OrderSide::Ask => self.match_ask(order),
        }
    }

    fn match_bid(&mut self, bid: Order)
        requires
            old(self).wf(),
            bid.price >= 1,
            bid.side == OrderSide::Bid,
        ensures
            final(self).wf(),
            ({
                let m = sweep(old(self).ask_queue(), bid);
                &&& final(self).pending() == old(self).pending() + m.0
                &&& final(self).ask_queue() == m.1
                &&& final(self).bid_queue() == after_rest(OrderSide::Bid, old(self).bid_queue(), bid, m.2)
            }),
    {
        proof {
            lemma_sweep_fills(self.asks@, bid);
        }
        let residual = match_against(&mut self.asks, &mut self.trades, bid, OrderSide::Ask);
        if residual > 0 {
            rest_order(&mut self.bids, OrderSide::Bid, Order { amount: residual, ..bid });
        }
    }

    fn match_ask(&mut self, ask: Order)
        requires
            old(self).wf(),
            ask.price >= 1,
            ask.side == OrderSide::Ask,
        ensures
            final(self).wf(),
            ({
                let m = sweep(old(self).bid_queue(), ask);
                &&& final(self).pending() == old(self).pending() + m.0
                &&& final(self).bid_queue() == m.1
                &&& final(self).ask_queue() == after_rest(OrderSide::Ask, old(self).ask_queue(), ask, m.2)
            }),
    {
        proof {
            lemma_sweep_fills(self.bids@, ask);
        }
        let residual = match_against(&mut self.bids, &mut self.trades, ask, OrderSide::Bid);
        if residual > 0 {
            rest_order(&mut self.asks, OrderSide::Ask, Order { amount: residual, ..ask });
        }
    }

    /// The resting bids, best first.
    pub fn resting_bids(&self) -> (r: &Vec<Order>)
        ensures
            r@ == self.bid_queue(),
    {
        &self.bids
    }

    /// The resting asks, best first.
    pub fn resting_asks(&self) -> (r: &Vec<Order>)
        ensures
            r@ == self.ask_queue(),
    {
        &self.asks
    }

    /// Hands out the trades produced since the last drain, oldest first, and
    /// forgets them.
    pub fn drain_trades(&mut self) -> (r: Vec<Trade>)
        ensures
            r@ == old(self).pending(),
            final(self).pending() == Seq::<Trade>::empty(),
            old(self).wf() ==> final(self).wf(),
            final(self).bid_queue() == old(self).bid_queue(),
            final(self).ask_queue() == old(self).ask_queue(),
    {
        let mut out: Vec<Trade> = Vec::new();
        out.append(&mut self.trades);
        out
    }
}

fn ahead_exec(side: OrderSide, a: &Order, b: &Order) -> (r: bool)
    ensures
        r == ahead(side, *a, *b),
{
    match side {
        OrderSide::Bid => a.price > b.price || (a.price == b.price && a.timestamp < b.timestamp),
        OrderSide::Ask => a.price < b.price || (a.price == b.price && a.timestamp < b.timestamp),
    }
}

fn crosses_exec(taker: &Order, maker: &Order) -> (r: bool)
    ensures
        r == crosses(*taker, *maker),
{
    match taker.side {
        OrderSide::Bid => taker.price >= maker.price,
        OrderSide::Ask => taker.price <= maker.price,
    }
}

fn fill_exec(taker: &Order, maker: &Order, amount: u64) -> (r: Trade)
    ensures
        r == fill(*taker, *maker, amount),
{
    match taker.side {
        OrderSide::Bid => Trade {
            buyer_id: taker.trader_id,
            seller_id: maker.trader_id,
            price: maker.price,
            amount: amount,
            timestamp: taker.timestamp,
        },
        OrderSide::Ask => Trade {
            buyer_id: maker.trader_id,
            seller_id: taker.trader_id,
            price: maker.price,
            amount: amount,
            timestamp: taker.timestamp,
        },
    }
}

/// Matches `taker` against the resting side `opposite` (of kind `side`),
/// appending the trades, and returns the taker's residual amount.
fn match_against(opposite: &mut Vec<Order>, trades: &mut Vec<Trade>, taker: Order, side: OrderSide) -> (residual: u64)
    requires
        sorted(side, old(opposite)@),
        resting_valid(old(opposite)@),
    ensures
        ({
            let m = sweep(old(opposite)@, taker);
            &&& final(trades)@ == old(trades)@ + m.0
            &&& final(opposite)@ == m.1
            &&& residual == m.2
        }),
        sorted(side, final(opposite)@),
        resting_valid(final(opposite)@),
{
    proof {
        lemma_sweep_keeps_side(side, old(opposite)@, taker);
    }
    let mut remaining = taker.amount;
    loop
        invariant
            ({
                let m0 = sweep(old(opposite)@, taker);
                let m = sweep(opposite@, with_amount(taker, remaining));
                &&& old(trades)@ + m0.0 == trades@ + m.0
                &&& m0.1 == m.1
                &&& m0.2 == m.2
            }),
            resting_valid(opposite@),
        ensures
            sweep(opposite@, with_amount(taker, remaining)).0 == Seq::<Trade>::empty(),
            sweep(opposite@, with_amount(taker, remaining)).1 == opposite@,
            sweep(opposite@, with_amount(taker, remaining)).2 == remaining,
        decreases opposite@.len(),
    {
        let cur = Order { amount: remaining, ..taker };
        if remaining == 0 || opposite.len() == 0 {
            break;
        }
        let maker = opposite[0];
        if !crosses_exec(&cur, &maker) {
            break;
        }
        if remaining < maker.amount {
            let t = fill_exec(&cur, &maker, remaining);
            trades.push(t);
            opposite.set(0, Order { amount: maker.amount - remaining, ..maker });
            remaining = 0;
            proof {
                let m = sweep(opposite@, with_amount(taker, remaining));
                assert(m.0 =~= Seq::<Trade>::empty());
            }
            break;
        } else {
            let t = fill_exec(&cur, &maker, maker.amount);
            let ghost before = opposite@;
            let ghost trades_before = trades@;
            trades.push(t);
            opposite.remove(0);
            remaining = remaining - maker.amount;
            proof {
                assert(opposite@ =~= before.drop_first());
                let rest = sweep(opposite@, with_amount(taker, remaining));
                assert(with_amount(cur, (cur.amount - before[0].amount) as u64) == with_amount(taker, remaining));
                assert(trades_before + (seq![t] + rest.0) =~= trades@ + rest.0);
            }
        }
    }
    proof {
        let m0 = sweep(old(opposite)@, taker);
        assert(trades@ + Seq::<Trade>::empty() =~= trades@);
    }
    remaining
}

/// Rests `o` on `s` at its place in price-time priority.
fn rest_order(s: &mut Vec<Order>, side: OrderSide, o: Order)
    requires
        sorted(side, old(s)@),
        resting_valid(old(s)@),
        o.price >= 1,
        o.amount > 0,
    ensures
        final(s)@ == rested(side, old(s)@, o),
        sorted(side, final(s)@),
        resting_valid(final(s)@),
{
    let mut i: usize = 0;
    while i < s.len() && !ahead_exec(side, &o, &s[i])
        invariant
            0 <= i <= s@.len(),
            forall|j: int| 0 <= j < i ==> !ahead(side, o, #[trigger] s@[j]),
        decreases s@.len() - i,
    {
        i = i + 1;
    }
    proof {
        lemma_rest_pos_skip(side, s@, o, i as int);
        assert(s@.subrange(i as int, s@.len() as int).len() == 0 || s@.subrange(i as int, s@.len() as int)[0] == s@[i as int]);
        lemma_rest_sorted(side, s@, o);
    }
    s.insert(i, o);
}

/// Skipping a prefix that `o` is not ahead of moves its resting place by that prefix.
proof fn lemma_rest_pos_skip(side: OrderSide, s: Seq<Order>, o: Order, i: int)
    requires
        0 <= i <= s.len(),
        forall|j: int| 0 <= j < i ==> !ahead(side, o, #[trigger] s[j]),
    ensures
        rest_pos(side, s, o) == i + rest_pos(side, s.subrange(i, s.len() as int), o),
    decreases i,
{
    if i == 0 {
        assert(s.subrange(0, s.len() as int) =~= s);
    } else {
        let t = s.drop_first();
        assert forall|j: int| 0 <= j < i - 1 implies !ahead(side, o, #[trigger] t[j]) by {
            assert(t[j] == s[j + 1]);
        }
        lemma_rest_pos_skip(side, t, o, i - 1);
        assert(t.subrange(i - 1, t.len() as int) =~= s.subrange(i, s.len() as int));
    }
}

/// `o` is not ahead of anything before its resting place, and is ahead of what
/// stands there.
proof fn lemma_rest_pos_bounds(side: OrderSide, s: Seq<Order>, o: Order)
    ensures
        0 <= rest_pos(side, s, o) <= s.len(),
        forall|j: int| 0 <= j < rest_pos(side, s, o) ==> !ahead(side, o, #[trigger] s[j]),
        rest_pos(side, s, o) < s.len() ==> ahead(side, o, s[rest_pos(side, s, o)]),
    decreases s.len(),
{
    if s.len() > 0 && !ahead(side, o, s[0]) {
        let t = s.drop_first();
        lemma_rest_pos_bounds(side, t, o);
        assert forall|j: int| 0 <= j < rest_pos(side, s, o) implies !ahead(side, o, #[trigger] s[j]) by {
            if j > 0 {
                assert(s[j] == t[j - 1]);
            }
        }
    }
}

/// Resting an order keeps a side in price-time priority.
proof fn lemma_rest_sorted(side: OrderSide, s: Seq<Order>, o: Order)
    requires
        sorted(side, s),
    ensures
        sorted(side, rested(side, s, o)),
{
    lemma_rest_pos_bounds(side, s, o);
    let k = rest_pos(side, s, o);
    let r = rested(side, s, o);
    assert forall|i: int, j: int| 0 <= i < j < r.len() implies precedes(side, #[trigger] r[i], #[trigger] r[j]) by {
        if j < k {
            assert(r[i] == s[i] && r[j] == s[j]);
        } else if j == k {
            assert(r[i] == s[i]);
        } else if i == k {
            assert(r[j] == s[j - 1]);
            assert(precedes(side, s[k], s[j - 1]) || k == j - 1);
        } else if i < k {
            assert(r[i] == s[i] && r[j] == s[j - 1]);
        } else {
            assert(r[i] == s[i - 1] && r[j] == s[j - 1]);
        }
    }
}

/// Matching keeps the opposite side in price-time priority and live.
proof fn lemma_sweep_keeps_side(side: OrderSide, opp: Seq<Order>, taker: Order)
    requires
        sorted(side, opp),
        resting_valid(opp),
    ensures
        sorted(side, sweep(opp, taker).1),
        resting_valid(sweep(opp, taker).1),
    decreases opp.len(),
{
    if taker.amount == 0 || opp.len() == 0 || !crosses(taker, opp[0]) {
    } else if taker.amount < opp[0].amount {
        let r = sweep(opp, taker).1;
        assert forall|i: int, j: int| 0 <= i < j < r.len() implies precedes(side, #[trigger] r[i], #[trigger] r[j]) by {
            assert(precedes(side, opp[i], opp[j]));
        }
        assert forall|i: int| 0 <= i < r.len() implies (#[trigger] r[i]).price >= 1 && r[i].amount > 0 by {
            assert(opp[i].price >= 1);
        }
    } else {
        let t = opp.drop_first();
        assert forall|i: int, j: int| 0 <= i < j < t.len() implies precedes(side, #[trigger] t[i], #[trigger] t[j]) by {
            assert(precedes(side, opp[i + 1], opp[j + 1]));
        }
        assert forall|i: int| 0 <= i < t.len() implies (#[trigger] t[i]).price >= 1 && t[i].amount > 0 by {
            assert(opp[i + 1].price >= 1);
        }
        lemma_sweep_keeps_side(side, t, with_amount(taker, (taker.amount - opp[0].amount) as u64));
    }
}

/// What each trade of a sweep is: the `k`-th trade consumes the `k`-th resting
/// order, at that maker's price, for no more than either side holds; every
/// maker but the last is filled to exhaustion.
pub proof fn lemma_sweep_fills(opp: Seq<Order>, taker: Order)
    requires
        resting_valid(opp),
    ensures
        ({
            let ts = sweep(opp, taker).0;
            &&& ts.len() <= opp.len()
            &&& forall|k: int| 0 <= k < ts.len() ==> {
                &&& #[trigger] ts[k] == fill(taker, opp[k], ts[k].amount)
                &&& crosses(taker, opp[k])
                &&& ts[k].price == opp[k].price
                &&& ts[k].price >= 1
                &&& 0 < ts[k].amount <= opp[k].amount
                &&& ts[k].amount <= taker.amount
            }
            &&& forall|k: int| 0 <= k < ts.len() - 1 ==> (#[trigger] ts[k]).amount == opp[k].amount
        }),
    decreases opp.len(),
{
    if taker.amount == 0 || opp.len() == 0 || !crosses(taker, opp[0]) {
    } else if taker.amount < opp[0].amount {
    } else {
        let t = opp.drop_first();
        let taker2 = with_amount(taker, (taker.amount - opp[0].amount) as u64);
        assert forall|i: int| 0 <= i < t.len() implies (#[trigger] t[i]).price >= 1 && t[i].amount > 0 by {
            assert(t[i] == opp[i + 1]);
        }
        lemma_sweep_fills(t, taker2);
        let ts = sweep(opp, taker).0;
        let rest = sweep(t, taker2).0;
        assert forall|k: int| 0 < k < ts.len() implies ts[k] == rest[k - 1] && opp[k] == t[k - 1] by {}
        assert forall|k: int| 0 < k < ts.len() implies fill(taker2, t[k - 1], rest[k - 1].amount) == fill(
            taker,
            opp[k],
            ts[k].amount,
        ) && crosses(taker2, t[k - 1]) == crosses(taker, opp[k]) by {}
    }
}

/// Price-time priority of a sweep over a side in priority order: makers are
/// consumed in queue order, so a bid pays non-decreasing prices and an ask
/// receives non-increasing ones, and at a tied price the earlier maker trades first.
pub proof fn lemma_sweep_priority(side: OrderSide, opp: Seq<Order>, taker: Order)
    requires
        sorted(side, opp),
        resting_valid(opp),
    ensures
        ({
            let ts = sweep(opp, taker).0;
            forall|i: int, j: int| 0 <= i < j < ts.len() ==> {
                &&& precedes(side, opp[i], opp[j])
                &&& (side == OrderSide::Ask ==> (#[trigger] ts[i]).price <= (#[trigger] ts[j]).price)
                &&& (side == OrderSide::Bid ==> ts[i].price >= ts[j].price)
                &&& (ts[i].price == ts[j].price ==> opp[i].timestamp <= opp[j].timestamp)
            }
        }),
{
    lemma_sweep_fills(opp, taker);
    let ts = sweep(opp, taker).0;
    assert forall|i: int, j: int| 0 <= i < j < ts.len() implies precedes(side, opp[i], opp[j]) by {}
}

/// FIFO within a price level: of two resting orders at one price, the earlier
/// one stands first, and a sweep that reaches the later one has filled the
/// earlier one to exhaustion.
pub proof fn lemma_fifo_at_level(side: OrderSide, opp: Seq<Order>, taker: Order, i: int, j: int)
    requires
        sorted(side, opp),
        resting_valid(opp),
        0 <= i < opp.len(),
        0 <= j < opp.len(),
        opp[i].price == opp[j].price,
        opp[i].timestamp < opp[j].timestamp,
        j < sweep(opp, taker).0.len(),
    ensures
        i < j,
        sweep(opp, taker).0[i].amount == opp[i].amount,
{
    if j < i {
        assert(precedes(side, opp[j], opp[i]));
    }
    lemma_sweep_fills(opp, taker);
    let ts = sweep(opp, taker).0;
    assert(i < ts.len() - 1);
    assert(ts[i].amount == opp[i].amount);
}

} // verus!
