use vstd::prelude::*;
use rand::seq::SliceRandom;
use crate::types::{Order, OrderSide, Trade, ServerMessage};
use crate::orderbook::{OrderBook, book_after, books_after};
use crate::agents::{Agent, after_trade, observed, decision};

verus! {

broadcast use vstd::multiset::group_multiset_axioms;

/// The price the market opens at, in minor units.
pub const INITIAL_PRICE: u64 = 10_000;

/// The cash every agent holds after a reset.
pub const INITIAL_CASH: u64 = 1_000_000;

/// The inventory every agent holds after a reset.
pub const INITIAL_INVENTORY: u64 = 1_000;

/// Synthetic trader of earnings shocks.
pub const EARNINGS_TRADER: u64 = 999_999;

/// Synthetic trader of tariff shocks.
pub const TARIFFS_TRADER: u64 = 999_998;

/// Synthetic trader of rug pulls.
pub const RUG_PULL_TRADER: u64 = 999_997;

/// Synthetic trader of whale accumulation.
pub const WHALE_TRADER: u64 = 999_996;

/// The most orders a single command injects.
pub const MAX_SHOCK_ORDERS: usize = 10;

/// A control-plane command, applied between ticks. Magnitudes, severities
/// and surprises are in thousandths (`1000` stands for `1.0`).
#[derive(Debug, Clone, Copy, PartialEq, Eq, Structural)]
pub enum SimulationCommand {
    InjectOrder(Order),
    SetPaused(bool),
    Reset,
    FlashCrash { seller_id: u64, quantity: u64, price: u64 },
    UpdateVolatility(u64),
    Pump { buyer_id: u64, base_price: u64, magnitude_milli: u64 },
    Dump { seller_id: u64, base_price: u64, magnitude_milli: u64 },
    Earnings { surprise_milli: i64 },
    Tariffs { severity_milli: u64 },
    RugPull { magnitude_milli: u64 },
    WhaleAccumulation { magnitude_milli: u64 },
}

impl SimulationCommand {
    /// Whether `handle_command` may take this command at `current` (see `command_fits`).
    pub fn fits(&self, current: u64) -> (r: bool)
        ensures
            r == command_fits(*self, current),
    {
        match *self {
            SimulationCommand::InjectOrder(o) => o.price >= 1,
            SimulationCommand::FlashCrash { price, .. } => price >= 1,
            SimulationCommand::Pump { base_price, magnitude_milli, .. } => {
                magnitude_milli <= u64::MAX / 2 && (if base_price == 0 {
                    current <= u64::MAX - 400
                } else {
                    base_price <= u64::MAX - 200
                })
            },
            SimulationCommand::Dump { magnitude_milli, .. } => magnitude_milli <= u64::MAX / 2,
            SimulationCommand::Earnings { surprise_milli } => surprise_milli <= 0 || current <= u64::MAX - 700,
            SimulationCommand::RugPull { magnitude_milli } => magnitude_milli <= u64::MAX / 3,
            SimulationCommand::WhaleAccumulation { magnitude_milli } => {
                magnitude_milli <= u64::MAX / 2 && current <= u64::MAX - 140 - magnitude_milli / 20
            },
            _ => true,
        }
    }
}

/// What one unpaused tick produced: the trades settled, in match order, and
/// the market-data messages to broadcast (trades first, then the ticker).
pub struct TickReport {
    pub trades: Vec<Trade>,
    pub messages: Vec<ServerMessage>,
}

/// The engine state owned by the simulation worker.
pub struct Simulation {
    pub book: OrderBook,
    pub agents: Vec<Agent>,
    pub agent_ids: Vec<u64>,
    pub current_price: u64,
    pub tick: u64,
    pub paused: bool,
}

// ------------------------------------------------------------------ shocks

/// `x` kept within `1 ..= u64::MAX`.
pub open spec fn clamp_price(x: int) -> u64 {
    if x < 1 {
        1
    } else if x > u64::MAX {
        u64::MAX
    } else {
        x as u64
    }
}

/// `count` orders at prices `start, start + step, ...` (kept at least 1),
/// with ids taken from `ids`.
pub open spec fn ladder(
    ids: Seq<u64>,
    trader: u64,
    side: OrderSide,
    amount: u64,
    tick: u64,
    start: int,
    step: int,
    count: nat,
) -> Seq<Order> {
    Seq::new(
        count,
        |i: int|
            Order {
                id: ids[i],
                trader_id: trader,
                side: side,
                price: clamp_price(start + step * i),
                amount: amount,
                timestamp: tick,
            },
    )
}

/// `|s|` of a surprise in thousandths.
pub open spec fn abs_milli(s: i64) -> int {
    if s < 0 {
        -s
    } else {
        s as int
    }
}

/// The earnings order size `min(5000, 1500 + 10 * floor(|surprise| * 30))`.
pub open spec fn earnings_amount(surprise_milli: i64) -> u64 {
    let m = abs_milli(surprise_milli) * 30 / 1000;
    if 1500 + 10 * m > 5000 {
        5000
    } else {
        (1500 + 10 * m) as u64
    }
}

/// The rug-pull price `floor(current * (1 - 0.15 * magnitude))`, at least 0.
pub open spec fn rug_pull_price(current: u64, magnitude_milli: u64) -> int {
    if 150 * magnitude_milli >= 1_000_000 {
        0
    } else {
        current * (1_000_000 - 150 * magnitude_milli) / 1_000_000
    }
}

/// The orders a shock command injects, in injection order, at the current
/// price and tick, with ids taken from `ids`.
pub open spec fn shock_orders(cmd: SimulationCommand, current: u64, tick: u64, ids: Seq<u64>) -> Seq<Order> {
    match cmd {
        SimulationCommand::FlashCrash { seller_id, quantity, price } => seq![
            Order {
                id: ids[0],
                trader_id: seller_id,
                side: OrderSide::Ask,
                price: price,
                amount: quantity,
                timestamp: tick,
            },
        ],
        SimulationCommand::Pump { buyer_id, base_price, magnitude_milli } => ladder(
            ids,
            buyer_id,
            OrderSide::Bid,
            (2 * magnitude_milli) as u64,
            tick,
            if base_price == 0 { current + 200 } else { base_price as int },
            50,
            5,
        ),
        SimulationCommand::Dump { seller_id, base_price, magnitude_milli } => ladder(
            ids,
            seller_id,
            OrderSide::Ask,
            (2 * magnitude_milli) as u64,
            tick,
            if base_price == 0 { current - 200 } else { base_price as int },
            -50,
            5,
        ),
        SimulationCommand::Earnings { surprise_milli } => {
            if surprise_milli > 0 {
                ladder(ids, EARNINGS_TRADER, OrderSide::Bid, earnings_amount(surprise_milli), tick, current + 300, 100, 5)
            } else if surprise_milli < 0 {
                ladder(ids, EARNINGS_TRADER, OrderSide::Ask, earnings_amount(surprise_milli), tick, current - 300, -100, 5)
            } else {
                Seq::empty()
            }
        },
        SimulationCommand::Tariffs { severity_milli } => ladder(
            ids,
            TARIFFS_TRADER,
            OrderSide::Ask,
            (1000 + severity_milli / 2) as u64,
            tick,
            current - severity_milli / 10,
            -50,
            7,
        ),
        SimulationCommand::RugPull { magnitude_milli } => ladder(
            ids,
            RUG_PULL_TRADER,
            OrderSide::Ask,
            (3 * magnitude_milli) as u64,
            tick,
            rug_pull_price(current, magnitude_milli),
            -20,
            10,
        ),
        SimulationCommand::WhaleAccumulation { magnitude_milli } => ladder(
            ids,
            WHALE_TRADER,
            OrderSide::Bid,
            (2 * magnitude_milli) as u64,
            tick,
            current + magnitude_milli / 20,
            20,
            8,
        ),
        _ => Seq::empty(),
    }
}

/// The command is valid (its orders have positive prices) and its arithmetic
/// fits in `u64` at `current`.
pub open spec fn command_fits(cmd: SimulationCommand, current: u64) -> bool {
    match cmd {
        SimulationCommand::InjectOrder(o) => o.price >= 1,
        SimulationCommand::FlashCrash { price, .. } => price >= 1,
        SimulationCommand::Pump { base_price, magnitude_milli, .. } => 2 * magnitude_milli <= u64::MAX && (if base_price
            == 0 {
            current + 400
        } else {
            base_price + 200
        }) <= u64::MAX,
        SimulationCommand::Dump { magnitude_milli, .. } => 2 * magnitude_milli <= u64::MAX,
        SimulationCommand::Earnings { surprise_milli } => surprise_milli > 0 ==> current + 700 <= u64::MAX,
        SimulationCommand::RugPull { magnitude_milli } => 3 * magnitude_milli <= u64::MAX,
        SimulationCommand::WhaleAccumulation { magnitude_milli } => 2 * magnitude_milli <= u64::MAX && current
            + magnitude_milli / 20 + 140 <= u64::MAX,
        _ => true,
    }
}

// ------------------------------------------------------------- settlement

/// Cash and inventory of agent `id` after the trades of `ts` in order.
pub open spec fn settled(id: u64, cash: u64, inventory: u64, ts: Seq<Trade>) -> (u64, u64)
    decreases ts.len(),
{
    if ts.len() == 0 {
        (cash, inventory)
    } else {
        let before = settled(id, cash, inventory, ts.drop_last());
        after_trade(id, before.0, before.1, ts.last())
    }
}

/// The market-data message of a trade.
pub open spec fn trade_message(t: Trade) -> ServerMessage {
    ServerMessage::Trade { price: t.price, quantity: t.amount, buyer_id: t.buyer_id, seller_id: t.seller_id }
}

/// The market-data messages of trades, in order.
pub open spec fn trade_messages(ts: Seq<Trade>) -> Seq<ServerMessage> {
    Seq::new(ts.len(), |k: int| trade_message(ts[k]))
}

/// No two agents share an id.
pub open spec fn ids_unique(agents: Seq<Agent>) -> bool {
    forall|i: int, j: int| 0 <= i < j < agents.len() ==> (#[trigger] agents[i]).id != (#[trigger] agents[j]).id
}

/// `b` is `a` with every agent's cash and inventory back at the initial values.
pub open spec fn agents_reset(a: Seq<Agent>, b: Seq<Agent>) -> bool {
    &&& b.len() == a.len()
    &&& forall|i: int| 0 <= i < a.len() ==> {
        &&& (#[trigger] b[i]).cash == INITIAL_CASH
        &&& b[i].inventory == INITIAL_INVENTORY
        &&& b[i].id == a[i].id
        &&& b[i].name == a[i].name
        &&& b[i].strategy == a[i].strategy
        &&& b[i].price_history == a[i].price_history
        &&& b[i].max_history == a[i].max_history
    }
}

/// The top price of a side, or 0 when it is empty.
pub open spec fn top_or_zero(s: Seq<Order>) -> u64 {
    if s.len() > 0 {
        s[0].price
    } else {
        0
    }
}

/// The ticker message of a state.
pub open spec fn ticker(s: Simulation) -> ServerMessage {
    ServerMessage::Ticker {
        price: s.current_price,
        tick: s.tick,
        best_bid: top_or_zero(s.book.bid_queue()),
        best_ask: top_or_zero(s.book.ask_queue()),
    }
}

/// What applying `cmd` does to state `s`, giving `t`, when shock orders take
/// their ids from `ids`.
pub open spec fn applied(s: Simulation, t: Simulation, cmd: SimulationCommand, ids: Seq<u64>) -> bool {
    match cmd {
        SimulationCommand::Reset => {
            &&& t.book.state() == (Seq::<Order>::empty(), Seq::<Order>::empty(), Seq::<Trade>::empty())
            &&& t.current_price == INITIAL_PRICE
            &&& t.tick == 0
            &&& t.paused == s.paused
            &&& agents_reset(s.agents@, t.agents@)
            &&& t.agent_ids@ == s.agent_ids@
        },
        _ => {
            &&& t.book.state() == match cmd {
                SimulationCommand::InjectOrder(o) => book_after(s.book.state(), o),
                SimulationCommand::SetPaused(_) => s.book.state(),
                SimulationCommand::UpdateVolatility(_) => s.book.state(),
                _ => books_after(s.book.state(), shock_orders(cmd, s.current_price, s.tick, ids)),
            }
            &&& t.paused == match cmd {
                SimulationCommand::SetPaused(b) => b,
                _ => s.paused,
            }
            &&& t.current_price == s.current_price
            &&& t.tick == s.tick
            &&& t.agents@ == s.agents@
            &&& t.agent_ids@ == s.agent_ids@
        },
    }
}

// ---------------------------------------------------------- outside calls

/// Relies on rand's SliceRandom::shuffle with the thread-local generator: it
/// only swaps elements, so the result is a permutation of the input.
#[verifier::external_body]
fn shuffle_ids(ids: &mut Vec<u64>)
    ensures
        final(ids)@.len() == old(ids)@.len(),
        final(ids)@.to_multiset() == old(ids)@.to_multiset(),
{
    ids.shuffle(&mut rand::thread_rng());
}

// ------------------------------------------------------------------ engine

fn find_agent(agents: &Vec<Agent>, id: u64) -> (r: Option<usize>)
    ensures
        r matches Some(j) ==> j < agents@.len() && agents@[j as int].id == id,
        r is None ==> forall|i: int| 0 <= i < agents@.len() ==> (#[trigger] agents@[i]).id != id,
{
    let mut i: usize = 0;
    while i < agents.len()
        invariant
            0 <= i <= agents@.len(),
            forall|k: int| 0 <= k < i ==> (#[trigger] agents@[k]).id != id,
        decreases agents@.len() - i,
    {
        if agents[i].id == id {
            return Some(i);
        }
        i = i + 1;
    }
    None
}

/// Adds a ladder of orders to the book (see `ladder`); `up` picks the sign of `step`.
fn place_ladder(
    book: &mut OrderBook,
    ids: &Vec<u64>,
    trader: u64,
    side: OrderSide,
    amount: u64,
    tick: u64,
    start: u64,
    step: u64,
    up: bool,
    count: usize,
)
    requires
        old(book).wf(),
        count <= ids@.len(),
        step * count <= u64::MAX,
        up ==> start >= 1 && start + step * count <= u64::MAX + step,
    ensures
        final(book).wf(),
        final(book).state() == books_after(
            old(book).state(),
            ladder(ids@, trader, side, amount, tick, start as int, if up { step as int } else { -step }, count as nat),
        ),
{
    let ghost step_i: int = if up { step as int } else { -step };
    let mut i: usize = 0;
    while i < count
        invariant
            0 <= i <= count <= ids@.len(),
            step * count <= u64::MAX,
            up ==> start >= 1 && start + step * count <= u64::MAX + step,
            step_i == (if up { step as int } else { -step }),
            book.wf(),
            book.state() == books_after(
                old(book).state(),
                ladder(ids@, trader, side, amount, tick, start as int, step_i, i as nat),
            ),
        decreases count - i,
    {
        proof {
            assert(step * i <= step * count) by (nonlinear_arith)
                requires i <= count;
            assert(step * i + step <= step * count) by (nonlinear_arith)
                requires i < count;
        }
        let offset: u64 = step * i as u64;
        let price: u64 = if up {
            start + offset
        } else {
            let p = start.saturating_sub(offset);
            if p < 1 {
                1
            } else {
                p
            }
        };
        let o = Order { id: ids[i], trader_id: trader, side, price, amount, timestamp: tick };
        proof {
            let next = ladder(ids@, trader, side, amount, tick, start as int, step_i, (i + 1) as nat);
            let prev = ladder(ids@, trader, side, amount, tick, start as int, step_i, i as nat);
            assert(next.drop_last() =~= prev);
            assert(step_i * i == if up { step * i } else { -(step * i) }) by (nonlinear_arith)
                requires step_i == (if up { step as int } else { -step });
            assert(next.last() == o);
        }
        book.add_order(o);
        i = i + 1;
    }
}

fn earnings_amount_exec(surprise_milli: i64) -> (r: u64)
    ensures
        r == earnings_amount(surprise_milli),
{
    let a: u128 = if surprise_milli < 0 {
        (-(surprise_milli as i128)) as u128
    } else {
        surprise_milli as u128
    };
    let m: u128 = a * 30 / 1000;
    if 1500 + 10 * m > 5000 {
        5000
    } else {
        (1500 + 10 * m) as u64
    }
}

fn rug_pull_price_exec(current: u64, magnitude_milli: u64) -> (r: u64)
    ensures
        r == rug_pull_price(current, magnitude_milli),
{
    let k: u128 = 150 * magnitude_milli as u128;
    if k >= 1_000_000 {
        0
    } else {
        proof {
            assert(current * (1_000_000 - k) <= current * 1_000_000) by (nonlinear_arith)
                requires k <= 1_000_000;
            assert(current * (1_000_000 - k) / 1_000_000 <= current) by (nonlinear_arith)
                requires current * (1_000_000 - k) <= current * 1_000_000;
        }
        (current as u128 * (1_000_000 - k) / 1_000_000) as u64
    }
}

impl Simulation {
    /// The engine is consistent: a well-formed book, a positive price,
    /// agents with distinct ids and bounded histories.
    pub open spec fn wf(&self) -> bool {
        &&& self.book.wf()
        &&& self.current_price >= 1
        &&& ids_unique(self.agents@)
        &&& forall|i: int| 0 <= i < self.agents@.len() ==> (#[trigger] self.agents@[i]).wf()
    }

    /// A fresh engine over `agents`: empty book, opening price, tick 0, running.
    pub fn new(agents: Vec<Agent>) -> (r: Self)
        requires
            ids_unique(agents@),
            forall|i: int| 0 <= i < agents@.len() ==> (#[trigger] agents@[i]).wf(),
        ensures
            r.wf(),
            r.book.state() == (Seq::<Order>::empty(), Seq::<Order>::empty(), Seq::<Trade>::empty()),
            r.agents@ == agents@,
            r.agent_ids@ == Seq::new(agents@.len(), |i: int| agents@[i].id),
            r.current_price == INITIAL_PRICE,
            r.tick == 0,
            !r.paused,
    {
        let mut agent_ids: Vec<u64> = Vec::new();
        let mut i: usize = 0;
        while i < agents.len()
            invariant
                0 <= i <= agents@.len(),
                agent_ids@ == Seq::new(i as nat, |k: int| agents@[k].id),
            decreases agents@.len() - i,
        {
            agent_ids.push(agents[i].id);
            i = i + 1;
            assert(agent_ids@ =~= Seq::new(i as nat, |k: int| agents@[k].id));
        }
        Simulation { book: OrderBook::new(), agents, agent_ids, current_price: INITIAL_PRICE, tick: 0, paused: false }
    }

    /// Applies a command, drawing the ids of any orders it injects.
    pub fn handle_command(&mut self, cmd: &SimulationCommand)
        requires
            old(self).wf(),
            command_fits(*cmd, old(self).current_price),
        ensures
            final(self).wf(),
            exists|ids: Seq<u64>| applied(*old(self), *final(self), *cmd, ids),
    {
        let mut ids: Vec<u64> = Vec::new();
        let mut i: usize = 0;
        while i < MAX_SHOCK_ORDERS
            invariant
                ids@.len() == i,
                i <= MAX_SHOCK_ORDERS,
            decreases MAX_SHOCK_ORDERS - i,
        {
            ids.push(rand::random::<u64>());
            i = i + 1;
        }
        self.handle_command_with_ids(cmd, &ids);
    }

    /// Applies a command whose injected orders take their ids from `ids`.
    pub fn handle_command_with_ids(&mut self, cmd: &SimulationCommand, ids: &Vec<u64>)
        requires
            old(self).wf(),
            command_fits(*cmd, old(self).current_price),
            ids@.len() >= MAX_SHOCK_ORDERS,
        ensures
            final(self).wf(),
            applied(*old(self), *final(self), *cmd, ids@),
    {
        let current = self.current_price;
        let tick = self.tick;
        match *cmd {
            SimulationCommand::InjectOrder(order) => {
                self.book.add_order(order);
            },
            SimulationCommand::SetPaused(is_paused) => {
                self.paused = is_paused;
            },
            SimulationCommand::Reset => {
                self.reset();
            },
            SimulationCommand::FlashCrash { seller_id, quantity, price } => {
                let o = Order { id: ids[0], trader_id: seller_id, side: OrderSide::Ask, price, amount: quantity, timestamp: tick };
                self.book.add_order(o);
                proof {
                    let os = shock_orders(*cmd, current, tick, ids@);
                    assert(os.drop_last() =~= Seq::<Order>::empty());
                    assert(os.last() == o);
                    assert(books_after(old(self).book.state(), os.drop_last()) == old(self).book.state());
                }
            },
            SimulationCommand::UpdateVolatility(_) => {},
            SimulationCommand::Pump { buyer_id, base_price, magnitude_milli } => {
                let start = if base_price == 0 { current + 200 } else { base_price };
                place_ladder(&mut self.book, ids, buyer_id, OrderSide::Bid, 2 * magnitude_milli, tick, start, 50, true, 5);
            },
            SimulationCommand::Dump { seller_id, base_price, magnitude_milli } => {
                let start = if base_price == 0 { current.saturating_sub(200) } else { base_price };
                place_ladder(&mut self.book, ids, seller_id, OrderSide::Ask, 2 * magnitude_milli, tick, start, 50, false, 5);
                proof {
                    let a = ladder(ids@, seller_id, OrderSide::Ask, (2 * magnitude_milli) as u64, tick, start as int, -50, 5);
                    let b = shock_orders(*cmd, current, tick, ids@);
                    assert(a =~= b);
                }
            },
            SimulationCommand::Earnings { surprise_milli } => {
                let amount = earnings_amount_exec(surprise_milli);
                if surprise_milli > 0 {
                    place_ladder(&mut self.book, ids, EARNINGS_TRADER, OrderSide::Bid, amount, tick, current + 300, 100, true, 5);
                } else if surprise_milli < 0 {
                    let start = current.saturating_sub(300);
                    place_ladder(&mut self.book, ids, EARNINGS_TRADER, OrderSide::Ask, amount, tick, start, 100, false, 5);
                    proof {
                        let a = ladder(ids@, EARNINGS_TRADER, OrderSide::Ask, amount, tick, start as int, -100, 5);
                        let b = shock_orders(*cmd, current, tick, ids@);
                        assert(a =~= b);
                    }
                }
            },
            SimulationCommand::Tariffs { severity_milli } => {
                let start = current.saturating_sub(severity_milli / 10);
                place_ladder(&mut self.book, ids, TARIFFS_TRADER, OrderSide::Ask, 1000 + severity_milli / 2, tick, start, 50, false, 7);
                proof {
                    let a = ladder(ids@, TARIFFS_TRADER, OrderSide::Ask, (1000 + severity_milli / 2) as u64, tick, start as int, -50, 7);
                    let b = shock_orders(*cmd, current, tick, ids@);
                    assert(a =~= b);
                }
            },
            SimulationCommand::RugPull { magnitude_milli } => {
                let start = rug_pull_price_exec(current, magnitude_milli);
                place_ladder(&mut self.book, ids, RUG_PULL_TRADER, OrderSide::Ask, 3 * magnitude_milli, tick, start, 20, false, 10);
            },
            SimulationCommand::WhaleAccumulation { magnitude_milli } => {
                let start = current + magnitude_milli / 20;
                place_ladder(&mut self.book, ids, WHALE_TRADER, OrderSide::Bid, 2 * magnitude_milli, tick, start, 20, true, 8);
            },
        }
    }

    /// Empties the book, reopens at the initial price and tick 0, and gives
    /// every agent the initial cash and inventory.
    pub fn reset(&mut self)
        requires
            old(self).wf(),
        ensures
            final(self).wf(),
            applied(*old(self), *final(self), SimulationCommand::Reset, Seq::<u64>::empty()),
    {
        self.book = OrderBook::new();
        self.current_price = INITIAL_PRICE;
        self.tick = 0;
        let mut i: usize = 0;
        while i < self.agents.len()
            invariant
                0 <= i <= self.agents@.len(),
                self.agents@.len() == old(self).agents@.len(),
                self.book.wf(),
                self.book.state() == (Seq::<Order>::empty(), Seq::<Order>::empty(), Seq::<Trade>::empty()),
                self.current_price == INITIAL_PRICE,
                self.tick == 0,
                self.paused == old(self).paused,
                self.agent_ids@ == old(self).agent_ids@,
                ids_unique(self.agents@),
                forall|k: int| 0 <= k < self.agents@.len() ==> (#[trigger] self.agents@[k]).wf(),
                forall|k: int| 0 <= k < self.agents@.len() ==> {
                    &&& (#[trigger] self.agents@[k]).id == old(self).agents@[k].id
                    &&& self.agents@[k].name == old(self).agents@[k].name
                    &&& self.agents@[k].strategy == old(self).agents@[k].strategy
                    &&& self.agents@[k].price_history == old(self).agents@[k].price_history
                    &&& self.agents@[k].max_history == old(self).agents@[k].max_history
                },
                forall|k: int| 0 <= k < i ==> (#[trigger] self.agents@[k]).cash == INITIAL_CASH
                    && self.agents@[k].inventory == INITIAL_INVENTORY,
            decreases self.agents@.len() - i,
        {
            let mut a = self.agents.remove(i);
            a.cash = INITIAL_CASH;
            a.inventory = INITIAL_INVENTORY;
            self.agents.insert(i, a);
            i = i + 1;
        }
    }

    /// Applies each trade, in order, to its buyer and its seller where they
    /// are agents of this engine; synthetic traders are not settled.
    pub fn settle(&mut self, trades: &Vec<Trade>)
        requires
            old(self).wf(),
        ensures
            final(self).wf(),
            final(self).book == old(self).book,
            final(self).current_price == old(self).current_price,
            final(self).tick == old(self).tick,
            final(self).paused == old(self).paused,
            final(self).agent_ids@ == old(self).agent_ids@,
            final(self).agents@.len() == old(self).agents@.len(),
            forall|i: int| 0 <= i < old(self).agents@.len() ==> {
                &&& (#[trigger] final(self).agents@[i]).id == old(self).agents@[i].id
                &&& final(self).agents@[i].name == old(self).agents@[i].name
                &&& final(self).agents@[i].strategy == old(self).agents@[i].strategy
                &&& final(self).agents@[i].price_history == old(self).agents@[i].price_history
                &&& final(self).agents@[i].max_history == old(self).agents@[i].max_history
                &&& (final(self).agents@[i].cash, final(self).agents@[i].inventory) == settled(
                    old(self).agents@[i].id,
                    old(self).agents@[i].cash,
                    old(self).agents@[i].inventory,
                    trades@,
                )
            },
    {
        let mut k: usize = 0;
        while k < trades.len()
            invariant
                0 <= k <= trades@.len(),
                self.book == old(self).book,
                self.current_price == old(self).current_price,
                self.tick == old(self).tick,
                self.paused == old(self).paused,
                self.agent_ids@ == old(self).agent_ids@,
                self.wf(),
                self.agents@.len() == old(self).agents@.len(),
                forall|i: int| 0 <= i < old(self).agents@.len() ==> {
                    &&& (#[trigger] self.agents@[i]).id == old(self).agents@[i].id
                    &&& self.agents@[i].name == old(self).agents@[i].name
                    &&& self.agents@[i].strategy == old(self).agents@[i].strategy
                    &&& self.agents@[i].price_history == old(self).agents@[i].price_history
                    &&& self.agents@[i].max_history == old(self).agents@[i].max_history
                    &&& (self.agents@[i].cash, self.agents@[i].inventory) == settled(
                        old(self).agents@[i].id,
                        old(self).agents@[i].cash,
                        old(self).agents@[i].inventory,
                        trades@.subrange(0, k as int),
                    )
                },
            decreases trades@.len() - k,
        {
            let t = trades[k];
            settle_one(&mut self.agents, &t);
            proof {
                assert(trades@.subrange(0, k + 1).drop_last() =~= trades@.subrange(0, k as int));
            }
            k = k + 1;
        }
        assert(trades@.subrange(0, trades@.len() as int) =~= trades@);
    }

    /// One iteration of the scheduler after the command drain. While paused
    /// nothing happens. Otherwise the tick advances, the agents (in a fresh
    /// random order) observe the price and may each submit one order stamped
    /// with the tick, the book's trades are drained and settled, the price
    /// moves to the last trade's, and the trade messages and then the ticker
    /// are reported.
    pub fn run_tick(&mut self) -> (r: Option<TickReport>)
        requires
            old(self).wf(),
            !old(self).paused ==> old(self).tick < u64::MAX,
        ensures
            final(self).wf(),
            old(self).paused ==> r is None && *final(self) == *old(self),
            !old(self).paused ==> r is Some,
            r matches Some(rep) ==> tick_effect(*old(self), *final(self), rep.trades@, rep.messages@),
    {
        if self.paused {
            return None;
        }
        self.tick = self.tick + 1;
        shuffle_ids(&mut self.agent_ids);
        let ghost s1 = *self;
        assert(ids_unique(s1.agents@));
        let ghost start = self.book.state();
        let ghost mut os: Seq<Order> = Seq::empty();
        let ghost mut draws: Seq<(bool, int, u64)> = Seq::empty();
        proof {
            let none = s1.agent_ids@.subrange(0, 0);
            none.to_multiset_ensures();
            assert forall|x: u64| none.to_multiset().count(x) == 0 by {
                assert(!none.contains(x));
            }
        }
        let mut k: usize = 0;
        while k < self.agent_ids.len()
            invariant
                0 <= k <= self.agent_ids@.len(),
                self.wf(),
                self.tick == s1.tick,
                self.current_price == s1.current_price,
                self.paused == s1.paused,
                self.agent_ids@ == s1.agent_ids@,
                self.book.state() == books_after(start, os),
                draws.len() == k,
                ids_unique(s1.agents@),
                forall|m: int| 0 <= m < draws.len() ==> -20 <= (#[trigger] draws[m]).1 <= 20,
                os == round_orders(s1.agents@, s1.agent_ids@.subrange(0, k as int), s1.current_price, s1.tick, draws),
                forall|m: int| 0 <= m < os.len() ==> (#[trigger] os[m]).timestamp == s1.tick && os[m].amount == 1
                    && s1.agent_ids@.contains(os[m].trader_id),
                self.agents@.len() == s1.agents@.len(),
                forall|i: int| 0 <= i < s1.agents@.len() ==> {
                    &&& (#[trigger] self.agents@[i]).id == s1.agents@[i].id
                    &&& self.agents@[i].name == s1.agents@[i].name
                    &&& self.agents@[i].strategy == s1.agents@[i].strategy
                    &&& self.agents@[i].max_history == s1.agents@[i].max_history
                    &&& self.agents@[i].cash == s1.agents@[i].cash
                    &&& self.agents@[i].inventory == s1.agents@[i].inventory
                    &&& self.agents@[i].price_history@ == observed_times(
                        s1.agents@[i].price_history@,
                        s1.current_price,
                        s1.agents@[i].max_history,
                        s1.agent_ids@.subrange(0, k as int).to_multiset().count(s1.agents@[i].id),
                    )
                },
            decreases self.agent_ids@.len() - k,
        {
            let id = self.agent_ids[k];
            proof {
                let prefix = s1.agent_ids@.subrange(0, k as int);
                assert(s1.agent_ids@.subrange(0, k + 1) =~= prefix.push(id));
                vstd::seq_lib::to_multiset_build(prefix, id);
            }
            match find_agent(&self.agents, id) {
                Some(j) => {
                    let ghost before = self.agents@;
                    let mut a = self.agents.remove(j);
                    assert(a == before[j as int]);
                    a.update_market_data(self.current_price);
                    let ghost acting = a;
                    let quote = a.act(self.current_price);
                    let ghost (coin, noise, order_id) = choose|coin: bool, noise: int, order_id: u64|
                        -20 <= noise <= 20 && quote == decision(
                            acting.id,
                            acting.cash,
                            acting.inventory,
                            acting.strategy,
                            acting.price_history@,
                            s1.current_price,
                            coin,
                            noise,
                            order_id,
                        );
                    self.agents.insert(j, a);
                    proof {
                        let ids = s1.agent_ids@.subrange(0, k + 1);
                        let d2 = draws.push((coin, noise, order_id));
                        lemma_round_orders_draws(s1.agents@, ids.drop_last(), s1.current_price, s1.tick, draws, d2);
                        assert(ids.drop_last() =~= s1.agent_ids@.subrange(0, k as int));
                        assert(ids.last() == id);
                        assert(s1.agents@[j as int].id == id);
                        assert(has_agent(s1.agents@, id));
                        let jj = choose|jj: int| 0 <= jj < s1.agents@.len() && (#[trigger] s1.agents@[jj]).id == id;
                        if jj != j {
                            if jj < j {
                                assert(s1.agents@[jj].id != s1.agents@[j as int].id);
                            } else {
                                assert(s1.agents@[j as int].id != s1.agents@[jj].id);
                            }
                        }
                        assert(agent_with(s1.agents@, id) == s1.agents@[j as int]);
                        draws = d2;
                    }
                    proof {
                        assert(self.agents@ =~= before.update(j as int, a));
                        assert forall|x: int, y: int| 0 <= x < y < self.agents@.len() implies (
                        #[trigger] self.agents@[x]).id != (#[trigger] self.agents@[y]).id by {
                            assert(self.agents@[x].id == before[x].id);
                            assert(self.agents@[y].id == before[y].id);
                        }
                        assert forall|x: int| 0 <= x < self.agents@.len() implies (
                        #[trigger] self.agents@[x]).wf() by {
                            if x != j {
                                assert(self.agents@[x] == before[x]);
                            }
                        }
                    }
                    match quote {
                        Some(o) => {
                            let stamped = Order { timestamp: self.tick, ..o };
                            self.book.add_order(stamped);
                            proof {
                                assert(s1.agent_ids@[k as int] == stamped.trader_id);
                                let prev = os;
                                os = os.push(stamped);
                                assert(os.drop_last() =~= prev);
                                assert(os == round_orders(
                                    s1.agents@,
                                    s1.agent_ids@.subrange(0, k + 1),
                                    s1.current_price,
                                    s1.tick,
                                    draws,
                                ));
                            }
                        },
                        None => {},
                    }
                },
                None => {
                    proof {
                        let ids = s1.agent_ids@.subrange(0, k + 1);
                        let d2 = draws.push((true, 0int, 0u64));
                        lemma_round_orders_draws(s1.agents@, ids.drop_last(), s1.current_price, s1.tick, draws, d2);
                        assert(ids.drop_last() =~= s1.agent_ids@.subrange(0, k as int));
                        assert(ids.last() == id);
                        assert(!has_agent(s1.agents@, id)) by {
                            if has_agent(s1.agents@, id) {
                                let jj = choose|jj: int| 0 <= jj < s1.agents@.len() && (#[trigger] s1.agents@[jj]).id == id;
                                assert(self.agents@[jj].id == id);
                            }
                        }
                        draws = d2;
                    }
                },
            }
            k = k + 1;
        }
        assert(s1.agent_ids@.subrange(0, s1.agent_ids@.len() as int) =~= s1.agent_ids@);
        let trades = self.book.drain_trades();
        if trades.len() > 0 {
            self.current_price = trades[trades.len() - 1].price;
        }
        let ghost s2 = *self;
        self.settle(&trades);
        let mut messages: Vec<ServerMessage> = Vec::new();
        let mut m: usize = 0;
        while m < trades.len()
            invariant
                0 <= m <= trades@.len(),
                messages@ == trade_messages(trades@.subrange(0, m as int)),
            decreases trades@.len() - m,
        {
            let t = trades[m];
            messages.push(ServerMessage::Trade { price: t.price, quantity: t.amount, buyer_id: t.buyer_id, seller_id: t.seller_id });
            m = m + 1;
            assert(messages@ =~= trade_messages(trades@.subrange(0, m as int)));
        }
        assert(trades@.subrange(0, trades@.len() as int) =~= trades@);
        let best_bid = match self.book.best_bid_price() {
            Some(p) => p,
            None => 0,
        };
        let best_ask = match self.book.best_ask_price() {
            Some(p) => p,
            None => 0,
        };
        messages.push(ServerMessage::Ticker { price: self.current_price, tick: self.tick, best_bid, best_ask });
        proof {
            old(self).agent_ids@.to_multiset_ensures();
            s1.agent_ids@.to_multiset_ensures();
            assert forall|m: int| 0 <= m < os.len() implies (#[trigger] os[m]).timestamp == self.tick && os[m].amount
                == 1 && old(self).agent_ids@.contains(os[m].trader_id) by {
                let x = os[m].trader_id;
                assert(s1.agent_ids@.to_multiset().count(x) > 0);
                assert(old(self).agent_ids@.to_multiset().count(x) > 0);
            }
            assert(books_after(start, os) == (self.book.bid_queue(), self.book.ask_queue(), trades@));
        }
        Some(TickReport { trades, messages })
    }
}

/// The history after observing `price` `n` times.
pub open spec fn observed_times(h: Seq<u64>, price: u64, max: usize, n: nat) -> Seq<u64>
    decreases n,
{
    if n == 0 {
        h
    } else {
        observed(observed_times(h, price, max, (n - 1) as nat), price, max)
    }
}

/// Whether some agent of `agents` has id `id`.
pub open spec fn has_agent(agents: Seq<Agent>, id: u64) -> bool {
    exists|j: int| 0 <= j < agents.len() && (#[trigger] agents[j]).id == id
}

/// The agent of `agents` with id `id`, when there is one.
pub open spec fn agent_with(agents: Seq<Agent>, id: u64) -> Agent {
    agents[choose|j: int| 0 <= j < agents.len() && (#[trigger] agents[j]).id == id]
}

/// The orders of an agent round over the listing `ids`, the `k`-th listing
/// drawing `draws[k]` (coin, noise, order id): each listed agent, having
/// observed `current` once per listing so far, submits its own decision,
/// stamped with `tick`; a listing of no agent submits nothing.
pub open spec fn round_orders(
    agents: Seq<Agent>,
    ids: Seq<u64>,
    current: u64,
    tick: u64,
    draws: Seq<(bool, int, u64)>,
) -> Seq<Order>
    decreases ids.len(),
{
    if ids.len() == 0 {
        Seq::empty()
    } else {
        let prev = round_orders(agents, ids.drop_last(), current, tick, draws);
        let id = ids.last();
        if has_agent(agents, id) {
            let a = agent_with(agents, id);
            let d = draws[ids.len() - 1];
            let h = observed_times(a.price_history@, current, a.max_history, ids.to_multiset().count(id));
            match decision(a.id, a.cash, a.inventory, a.strategy, h, current, d.0, d.1, d.2) {
                Some(o) => prev.push(Order { timestamp: tick, ..o }),
                None => prev,
            }
        } else {
            prev
        }
    }
}

/// A round depends only on the draws of its own listings.
proof fn lemma_round_orders_draws(
    agents: Seq<Agent>,
    ids: Seq<u64>,
    current: u64,
    tick: u64,
    d1: Seq<(bool, int, u64)>,
    d2: Seq<(bool, int, u64)>,
)
    requires
        forall|k: int| 0 <= k < ids.len() ==> d1[k] == d2[k],
    ensures
        round_orders(agents, ids, current, tick, d1) == round_orders(agents, ids, current, tick, d2),
    decreases ids.len(),
{
    if ids.len() > 0 {
        lemma_round_orders_draws(agents, ids.drop_last(), current, tick, d1, d2);
    }
}

/// What an unpaused tick did to state `s`, giving `t`, with `trades` settled
/// and `msgs` reported: the tick advanced; every agent observed the price
/// once per listing of its id; the book took, in the shuffled listing order,
/// each listed agent's own decision for some draws (`round_orders`), stamped
/// with the new tick, and its trades (those pending before included)
/// were drained; the price moved to the last trade's; every agent was settled
/// against the trades; the agent order was permuted.
pub open spec fn tick_effect(s: Simulation, t: Simulation, trades: Seq<Trade>, msgs: Seq<ServerMessage>) -> bool {
    &&& t.tick == s.tick + 1
    &&& t.paused == s.paused
    &&& exists|draws: Seq<(bool, int, u64)>|
        #![trigger round_orders(s.agents@, t.agent_ids@, s.current_price, t.tick, draws)]
        {
            let os = round_orders(s.agents@, t.agent_ids@, s.current_price, t.tick, draws);
            &&& draws.len() == t.agent_ids@.len()
            &&& forall|k: int| 0 <= k < draws.len() ==> -20 <= (#[trigger] draws[k]).1 <= 20
            &&& forall|m: int| 0 <= m < os.len() ==> (#[trigger] os[m]).timestamp == t.tick && os[m].amount == 1
                && s.agent_ids@.contains(os[m].trader_id)
            &&& books_after(s.book.state(), os) == (t.book.bid_queue(), t.book.ask_queue(), trades)
        }
    &&& t.book.pending() == Seq::<Trade>::empty()
    &&& t.current_price == (if trades.len() == 0 { s.current_price } else { trades.last().price })
    &&& msgs == trade_messages(trades).push(ticker(t))
    &&& t.agents@.len() == s.agents@.len()
    &&& forall|i: int| 0 <= i < s.agents@.len() ==> {
        &&& (#[trigger] t.agents@[i]).id == s.agents@[i].id
        &&& t.agents@[i].name == s.agents@[i].name
        &&& t.agents@[i].strategy == s.agents@[i].strategy
        &&& t.agents@[i].price_history@ == observed_times(
            s.agents@[i].price_history@,
            s.current_price,
            s.agents@[i].max_history,
            s.agent_ids@.to_multiset().count(s.agents@[i].id),
        )
        &&& (t.agents@[i].cash, t.agents@[i].inventory) == settled(
            s.agents@[i].id,
            s.agents@[i].cash,
            s.agents@[i].inventory,
            trades,
        )
    }
    &&& t.agent_ids@.to_multiset() == s.agent_ids@.to_multiset()
}

/// Applies `t` at index `j` (see `Agent::on_trade`).
fn settle_at(agents: &mut Vec<Agent>, j: usize, t: &Trade)
    requires
        j < old(agents)@.len(),
    ensures
        final(agents)@.len() == old(agents)@.len(),
        forall|i: int| 0 <= i < old(agents)@.len() && i != j ==> #[trigger] final(agents)@[i] == old(agents)@[i],
        final(agents)@[j as int].id == old(agents)@[j as int].id,
        final(agents)@[j as int].name == old(agents)@[j as int].name,
        final(agents)@[j as int].strategy == old(agents)@[j as int].strategy,
        final(agents)@[j as int].price_history == old(agents)@[j as int].price_history,
        final(agents)@[j as int].max_history == old(agents)@[j as int].max_history,
        (final(agents)@[j as int].cash, final(agents)@[j as int].inventory) == after_trade(
            old(agents)@[j as int].id,
            old(agents)@[j as int].cash,
            old(agents)@[j as int].inventory,
            *t,
        ),
{
    let mut a = agents.remove(j);
    a.on_trade(t);
    agents.insert(j, a);
    assert(forall|i: int| 0 <= i < old(agents)@.len() && i != j ==> #[trigger] agents@[i] == old(agents)@[i]);
}

/// Applies one trade to its buyer and its seller among `agents`.
fn settle_one(agents: &mut Vec<Agent>, t: &Trade)
    requires
        ids_unique(old(agents)@),
        forall|i: int| 0 <= i < old(agents)@.len() ==> (#[trigger] old(agents)@[i]).wf(),
    ensures
        ids_unique(final(agents)@),
        forall|i: int| 0 <= i < final(agents)@.len() ==> (#[trigger] final(agents)@[i]).wf(),
        final(agents)@.len() == old(agents)@.len(),
        forall|i: int| 0 <= i < old(agents)@.len() ==> {
            &&& (#[trigger] final(agents)@[i]).id == old(agents)@[i].id
            &&& final(agents)@[i].name == old(agents)@[i].name
            &&& final(agents)@[i].strategy == old(agents)@[i].strategy
            &&& final(agents)@[i].price_history == old(agents)@[i].price_history
            &&& final(agents)@[i].max_history == old(agents)@[i].max_history
            &&& (final(agents)@[i].cash, final(agents)@[i].inventory) == after_trade(
                old(agents)@[i].id,
                old(agents)@[i].cash,
                old(agents)@[i].inventory,
                *t,
            )
        },
{
    let ghost a0 = agents@;
    match find_agent(agents, t.buyer_id) {
        Some(j) => {
            settle_at(agents, j, t);
        },
        None => {},
    }
    let ghost a1 = agents@;
    if t.seller_id != t.buyer_id {
        match find_agent(agents, t.seller_id) {
            Some(j) => {
                settle_at(agents, j, t);
            },
            None => {},
        }
    }
    assert forall|x: int, y: int| 0 <= x < y < agents@.len() implies (#[trigger] agents@[x]).id != (
    #[trigger] agents@[y]).id by {
        assert(agents@[x].id == a1[x].id && a1[x].id == a0[x].id);
        assert(agents@[y].id == a1[y].id && a1[y].id == a0[y].id);
    }
    assert forall|i: int| 0 <= i < agents@.len() implies (#[trigger] agents@[i]).wf() by {
        assert(a1[i].price_history == a0[i].price_history);
    }
}

/// Sum of a sequence of integers.
pub open spec fn seq_total(xs: Seq<int>) -> int
    decreases xs.len(),
{
    if xs.len() == 0 {
        0
    } else {
        seq_total(xs.drop_last()) + xs.last()
    }
}

/// The cash of each agent.
pub open spec fn cash_of(agents: Seq<Agent>) -> Seq<int> {
    Seq::new(agents.len(), |i: int| agents[i].cash as int)
}

/// The inventory of each agent.
pub open spec fn units_of(agents: Seq<Agent>) -> Seq<int> {
    Seq::new(agents.len(), |i: int| agents[i].inventory as int)
}

/// Changing one entry by `d` changes the total by `d`.
proof fn lemma_total_single(xs: Seq<int>, ys: Seq<int>, k: int, d: int)
    requires
        xs.len() == ys.len(),
        0 <= k < xs.len(),
        ys[k] == xs[k] + d,
        forall|i: int| 0 <= i < xs.len() && i != k ==> ys[i] == xs[i],
    ensures
        seq_total(ys) == seq_total(xs) + d,
    decreases xs.len(),
{
    if k == xs.len() - 1 {
        assert(ys.drop_last() =~= xs.drop_last());
    } else {
        lemma_total_single(xs.drop_last(), ys.drop_last(), k, d);
    }
}

/// Moving `d` from one entry to another keeps the total.
proof fn lemma_total_transfer(xs: Seq<int>, ys: Seq<int>, b: int, s: int, d: int)
    requires
        xs.len() == ys.len(),
        0 <= b < xs.len(),
        0 <= s < xs.len(),
        b != s,
        ys[b] == xs[b] - d,
        ys[s] == xs[s] + d,
        forall|i: int| 0 <= i < xs.len() && i != b && i != s ==> ys[i] == xs[i],
    ensures
        seq_total(ys) == seq_total(xs),
    decreases xs.len(),
{
    let n = xs.len() - 1;
    if b == n {
        lemma_total_single(xs.drop_last(), ys.drop_last(), s, d);
    } else if s == n {
        lemma_total_single(xs.drop_last(), ys.drop_last(), b, -d);
    } else {
        lemma_total_transfer(xs.drop_last(), ys.drop_last(), b, s, d);
    }
}

/// Conservation over a population: settling a trade between two distinct
/// agents, the buyer able to pay and hold the units and the seller holding
/// them with room for the revenue, leaves total cash and total units unchanged.
pub proof fn lemma_population_conserves(before: Seq<Agent>, after: Seq<Agent>, t: Trade, b: int, s: int)
    requires
        ids_unique(before),
        after.len() == before.len(),
        forall|i: int| 0 <= i < before.len() ==> (#[trigger] after[i].cash, after[i].inventory) == after_trade(
            before[i].id,
            before[i].cash,
            before[i].inventory,
            t,
        ),
        0 <= b < before.len(),
        0 <= s < before.len(),
        before[b].id == t.buyer_id,
        before[s].id == t.seller_id,
        t.buyer_id != t.seller_id,
        before[b].cash >= t.price * t.amount,
        before[b].inventory + t.amount <= u64::MAX,
        before[s].inventory >= t.amount,
        before[s].cash + t.price * t.amount <= u64::MAX,
    ensures
        seq_total(cash_of(after)) == seq_total(cash_of(before)),
        seq_total(units_of(after)) == seq_total(units_of(before)),
{
    assert((after[b].cash, after[b].inventory) == after_trade(before[b].id, before[b].cash, before[b].inventory, t));
    assert((after[s].cash, after[s].inventory) == after_trade(before[s].id, before[s].cash, before[s].inventory, t));
    assert(after[b].cash == before[b].cash - t.price * t.amount && after[b].inventory == before[b].inventory + t.amount);
    assert(after[s].cash == before[s].cash + t.price * t.amount && after[s].inventory == before[s].inventory - t.amount);
    assert forall|i: int| 0 <= i < before.len() && i != b && i != s implies cash_of(after)[i] == cash_of(before)[i]
        && units_of(after)[i] == units_of(before)[i] by {
        if before[i].id == t.buyer_id {
            assert(i == b);
        }
        if before[i].id == t.seller_id {
            assert(i == s);
        }
        assert((after[i].cash, after[i].inventory) == (before[i].cash, before[i].inventory));
    }
    lemma_total_transfer(cash_of(before), cash_of(after), b, s, t.price * t.amount);
    lemma_total_transfer(units_of(before), units_of(after), s, b, t.amount as int);
}

} // verus!
