use market_engine::admin::{
    control_command, crash_command, dump_command, earnings_command, inject_order_command, pump_command,
    rug_pull_command, tariffs_command, whale_command, AdminError, ControlRequest, InjectOrderRequest,
};
use market_engine::agents::{Agent, Strategy};
use market_engine::orderbook::OrderBook;
use market_engine::simulation::{Simulation, SimulationCommand};
use market_engine::types::{Order, OrderSide, ServerMessage, Trade};

fn order(id: u64, trader: u64, side: OrderSide, price: u64, amount: u64, ts: u64) -> Order {
    Order { id, trader_id: trader, side, price, amount, timestamp: ts }
}

fn agent(id: u64, strategy: Strategy) -> Agent {
    Agent::new(id, format!("agent_{}", id), 1_000_000, 1_000, strategy)
}

fn bid_prices(book: &OrderBook) -> Vec<u64> {
    book.resting_bids().iter().map(|o| o.price).collect()
}

#[test]
fn cross_at_maker_price() {
    let mut book = OrderBook::new();
    book.add_order(order(1, 2, OrderSide::Ask, 100, 5, 1));
    book.add_order(order(2, 1, OrderSide::Bid, 110, 3, 2));
    let trades = book.drain_trades();
    assert_eq!(trades, vec![Trade { buyer_id: 1, seller_id: 2, price: 100, amount: 3, timestamp: 2 }]);
    assert_eq!(book.resting_asks().len(), 1);
    assert_eq!(book.resting_asks()[0].amount, 2);
    assert_eq!(book.best_ask_price(), Some(100));
    assert_eq!(book.best_bid_price(), None);
}

#[test]
fn partial_sweep_across_prices() {
    let mut book = OrderBook::new();
    book.add_order(order(1, 7, OrderSide::Ask, 100, 2, 1));
    book.add_order(order(2, 8, OrderSide::Ask, 101, 2, 2));
    book.add_order(order(3, 9, OrderSide::Bid, 101, 3, 3));
    let trades = book.drain_trades();
    let got: Vec<(u64, u64)> = trades.iter().map(|t| (t.price, t.amount)).collect();
    assert_eq!(got, vec![(100, 2), (101, 1)]);
    assert_eq!(book.resting_asks().len(), 1);
    assert_eq!((book.resting_asks()[0].price, book.resting_asks()[0].amount), (101, 1));
    assert_eq!(book.best_ask_price(), Some(101));
    assert_eq!(book.best_bid_price(), None);
}

#[test]
fn time_priority() {
    let mut book = OrderBook::new();
    book.add_order(order(1, 11, OrderSide::Bid, 100, 1, 1));
    book.add_order(order(2, 12, OrderSide::Bid, 100, 1, 2));
    book.add_order(order(3, 13, OrderSide::Ask, 100, 1, 3));
    let trades = book.drain_trades();
    assert_eq!(trades.len(), 1);
    assert_eq!(trades[0].buyer_id, 11);
    assert_eq!(trades[0].seller_id, 13);
    assert_eq!(book.resting_bids().len(), 1);
    assert_eq!(book.resting_bids()[0].timestamp, 2);
}

#[test]
fn insertion_order_breaks_full_ties() {
    let mut book = OrderBook::new();
    book.add_order(order(1, 21, OrderSide::Ask, 50, 1, 4));
    book.add_order(order(2, 22, OrderSide::Ask, 50, 1, 4));
    book.add_order(order(3, 23, OrderSide::Bid, 50, 1, 5));
    assert_eq!(book.drain_trades()[0].seller_id, 21);
}

#[test]
fn fifo_exhausts_earlier_order_first() {
    let mut book = OrderBook::new();
    book.add_order(order(1, 31, OrderSide::Ask, 100, 3, 1));
    book.add_order(order(2, 32, OrderSide::Ask, 100, 3, 2));
    book.add_order(order(3, 33, OrderSide::Bid, 100, 4, 3));
    let trades = book.drain_trades();
    assert_eq!(trades.len(), 2);
    assert_eq!((trades[0].seller_id, trades[0].amount), (31, 3));
    assert_eq!((trades[1].seller_id, trades[1].amount), (32, 1));
}

#[test]
fn ask_sweeps_bids_in_falling_price_order() {
    let mut book = OrderBook::new();
    book.add_order(order(1, 1, OrderSide::Bid, 98, 1, 1));
    book.add_order(order(2, 2, OrderSide::Bid, 100, 1, 2));
    book.add_order(order(3, 3, OrderSide::Bid, 99, 1, 3));
    book.add_order(order(4, 4, OrderSide::Ask, 97, 5, 4));
    let prices: Vec<u64> = book.drain_trades().iter().map(|t| t.price).collect();
    assert_eq!(prices, vec![100, 99, 98]);
    assert_eq!(book.best_ask_price(), Some(97));
    assert_eq!(book.resting_asks()[0].amount, 2);
    assert_eq!(book.best_bid_price(), None);
}

#[test]
fn trades_never_exceed_either_side() {
    let mut book = OrderBook::new();
    book.add_order(order(1, 1, OrderSide::Ask, 10, 4, 1));
    book.add_order(order(2, 2, OrderSide::Ask, 12, 1, 1));
    book.add_order(order(3, 3, OrderSide::Bid, 15, 7, 2));
    for t in book.drain_trades() {
        assert!(t.price >= 1);
        assert!(t.amount <= 7);
    }
    assert_eq!(book.best_bid_price(), Some(15));
    assert_eq!(book.resting_bids()[0].amount, 2);
}

#[test]
fn exact_fill_removes_both() {
    let mut book = OrderBook::new();
    book.add_order(order(1, 1, OrderSide::Bid, 100, 5, 1));
    book.add_order(order(2, 2, OrderSide::Ask, 90, 5, 2));
    let trades = book.drain_trades();
    assert_eq!(trades, vec![Trade { buyer_id: 1, seller_id: 2, price: 100, amount: 5, timestamp: 2 }]);
    assert_eq!(book.best_bid_price(), None);
    assert_eq!(book.best_ask_price(), None);
}

#[test]
fn zero_amount_is_ignored() {
    let mut book = OrderBook::new();
    book.add_order(order(1, 1, OrderSide::Ask, 100, 5, 1));
    book.add_order(order(2, 2, OrderSide::Bid, 200, 0, 2));
    assert!(book.drain_trades().is_empty());
    assert_eq!(book.best_bid_price(), None);
    assert_eq!(book.resting_asks()[0].amount, 5);
}

#[test]
fn non_crossing_orders_rest() {
    let mut book = OrderBook::new();
    book.add_order(order(1, 1, OrderSide::Bid, 99, 1, 1));
    book.add_order(order(2, 2, OrderSide::Ask, 101, 1, 1));
    assert!(book.drain_trades().is_empty());
    assert_eq!(book.best_bid_price(), Some(99));
    assert_eq!(book.best_ask_price(), Some(101));
}

#[test]
fn self_trade_is_emitted() {
    let mut book = OrderBook::new();
    book.add_order(order(1, 5, OrderSide::Ask, 100, 1, 1));
    book.add_order(order(2, 5, OrderSide::Bid, 100, 1, 2));
    let trades = book.drain_trades();
    assert_eq!(trades.len(), 1);
    assert_eq!((trades[0].buyer_id, trades[0].seller_id), (5, 5));
}

#[test]
fn second_drain_is_empty() {
    let mut book = OrderBook::new();
    book.add_order(order(1, 1, OrderSide::Ask, 100, 1, 1));
    book.add_order(order(2, 2, OrderSide::Bid, 100, 1, 2));
    assert_eq!(book.drain_trades().len(), 1);
    assert!(book.drain_trades().is_empty());
}

#[test]
fn history_is_bounded() {
    let mut a = agent(1, Strategy::RandomWalker);
    for p in 1..=120u64 {
        a.update_market_data(p);
        assert!(a.price_history.len() <= a.max_history);
    }
    assert_eq!(a.price_history.len(), 50);
    assert_eq!(a.price_history.front(), Some(&71));
    assert_eq!(a.price_history.back(), Some(&120));
    a.update_market_data(0);
    assert_eq!(a.price_history.back(), Some(&120));
}

#[test]
fn mean_reverter_trigger() {
    let strategy = Strategy::MeanReverter { window_size: 3, std_dev_multiplier_milli: 1000 };
    let mut a = agent(4, strategy);
    for _ in 0..3 {
        a.update_market_data(100);
    }
    let q = a.quote_with(200, true, 0, 9).expect("an ask");
    assert_eq!((q.side, q.price, q.amount, q.trader_id, q.id), (OrderSide::Ask, 200, 1, 4, 9));
    let acted = a.act(200).expect("an ask");
    assert_eq!((acted.side, acted.price), (OrderSide::Ask, 200));
    assert_eq!(a.quote_with(100, true, 0, 9), None);
    assert_eq!(a.act(100), None);
}

#[test]
fn mean_reverter_below_band_bids() {
    let strategy = Strategy::MeanReverter { window_size: 2, std_dev_multiplier_milli: 1000 };
    let mut a = agent(4, strategy);
    for p in [100u64, 102, 98, 100] {
        a.update_market_data(p);
    }
    // mean 100, sigma sqrt(2) ~ 1.41
    assert_eq!(a.quote_with(99, true, 0, 1), None);
    assert_eq!(a.quote_with(98, true, 0, 1).map(|o| o.side), Some(OrderSide::Bid));
    assert_eq!(a.quote_with(102, true, 0, 1).map(|o| o.side), Some(OrderSide::Ask));
}

#[test]
fn mean_reverter_waits_for_window() {
    let strategy = Strategy::MeanReverter { window_size: 3, std_dev_multiplier_milli: 1000 };
    let mut a = agent(4, strategy);
    a.update_market_data(100);
    a.update_market_data(100);
    assert_eq!(a.quote_with(200, true, 0, 1), None);
}

#[test]
fn trend_follower_follows() {
    let mut a = agent(2, Strategy::TrendFollower { window_size: 2 });
    a.update_market_data(100);
    assert_eq!(a.quote_with(150, true, 0, 1), None);
    a.update_market_data(120);
    let up = a.quote_with(150, false, 0, 1).expect("a bid");
    assert_eq!((up.side, up.price), (OrderSide::Bid, 150));
    let down = a.quote_with(90, false, 0, 1).expect("an ask");
    assert_eq!((down.side, down.price), (OrderSide::Ask, 90));
    assert_eq!(a.quote_with(100, false, 0, 1), None);
}

#[test]
fn random_walker_quotes_with_noise() {
    let a = agent(3, Strategy::RandomWalker);
    let b = a.quote_with(10_000, true, -20, 5).expect("a bid");
    assert_eq!((b.side, b.price), (OrderSide::Bid, 9_980));
    let s = a.quote_with(10_000, false, 20, 5).expect("an ask");
    assert_eq!((s.side, s.price), (OrderSide::Ask, 10_020));
    assert_eq!(a.quote_with(5, false, -20, 5).map(|o| o.price), Some(1));
    let mut broke = agent(3, Strategy::RandomWalker);
    broke.cash = 10;
    broke.inventory = 0;
    assert_eq!(broke.quote_with(10_000, true, 0, 5), None);
    assert_eq!(broke.quote_with(10_000, false, 0, 5), None);
    let mut walker = agent(3, Strategy::RandomWalker);
    let drawn = loop {
        if let Some(o) = walker.act(10_000) {
            break o.price;
        }
    };
    assert!((9_980..=10_020).contains(&drawn));
}

#[test]
fn market_maker_spreads() {
    let a = agent(5, Strategy::MarketMaker { spread_bps: 50 });
    let b = a.quote_with(10_000, true, 0, 1).expect("a bid");
    assert_eq!((b.side, b.price), (OrderSide::Bid, 9_950));
    let s = a.quote_with(10_000, false, 0, 1).expect("an ask");
    assert_eq!((s.side, s.price), (OrderSide::Ask, 10_050));
    // floor(1000 * 50 / 10000) = 5, raised to the minimum of 10
    assert_eq!(a.quote_with(1_000, true, 0, 1).map(|o| o.price), Some(990));
    assert_eq!(a.quote_with(5, true, 0, 1).map(|o| o.price), Some(1));
}

#[test]
fn zero_price_means_no_action() {
    let mut a = agent(6, Strategy::RandomWalker);
    assert_eq!(a.act(0), None);
    assert_eq!(a.quote_with(0, true, 0, 1), None);
}

#[test]
fn on_trade_moves_cash_and_units() {
    let mut buyer = agent(1, Strategy::RandomWalker);
    let mut seller = agent(2, Strategy::RandomWalker);
    let t = Trade { buyer_id: 1, seller_id: 2, price: 100, amount: 3, timestamp: 1 };
    buyer.on_trade(&t);
    seller.on_trade(&t);
    assert_eq!((buyer.cash, buyer.inventory), (999_700, 1_003));
    assert_eq!((seller.cash, seller.inventory), (1_000_300, 997));
    assert_eq!(buyer.cash + seller.cash, 2_000_000);
    assert_eq!(buyer.inventory + seller.inventory, 2_000);
}

#[test]
fn on_trade_refuses_unfunded_buy() {
    let mut buyer = Agent::new(1, "b".to_string(), 50, 0, Strategy::RandomWalker);
    buyer.on_trade(&Trade { buyer_id: 1, seller_id: 2, price: 100, amount: 1, timestamp: 1 });
    assert_eq!((buyer.cash, buyer.inventory), (50, 0));
    let mut seller = Agent::new(2, "s".to_string(), 0, 0, Strategy::RandomWalker);
    seller.on_trade(&Trade { buyer_id: 1, seller_id: 2, price: 100, amount: 1, timestamp: 1 });
    assert_eq!((seller.cash, seller.inventory), (100, 0));
}

#[test]
fn self_trade_cancels_on_agent() {
    let mut a = agent(7, Strategy::RandomWalker);
    a.on_trade(&Trade { buyer_id: 7, seller_id: 7, price: 100, amount: 2, timestamp: 1 });
    assert_eq!((a.cash, a.inventory), (1_000_000, 1_000));
}

#[test]
fn pump_command_places_five_bids() {
    let mut sim = Simulation::new(vec![]);
    assert_eq!(sim.current_price, 10_000);
    sim.handle_command(&pump_command());
    let bids = sim.book.resting_bids();
    assert_eq!(bids.len(), 5);
    let mut prices: Vec<u64> = bids.iter().map(|o| o.price).collect();
    prices.sort();
    assert_eq!(prices, vec![10_200, 10_250, 10_300, 10_350, 10_400]);
    assert!(bids.iter().all(|o| o.amount == 2000 && o.trader_id == 888 && o.side == OrderSide::Bid));
}

#[test]
fn pause_gates_ticks() {
    let mut sim = Simulation::new(vec![agent(1, Strategy::RandomWalker), agent(2, Strategy::MarketMaker { spread_bps: 50 })]);
    sim.handle_command(&SimulationCommand::SetPaused(true));
    for _ in 0..5 {
        assert!(sim.run_tick().is_none());
        assert_eq!(sim.tick, 0);
    }
    sim.handle_command(&SimulationCommand::SetPaused(false));
    let report = sim.run_tick().expect("a report");
    assert_eq!(sim.tick, 1);
    match report.messages.last() {
        Some(ServerMessage::Ticker { tick, price, .. }) => {
            assert_eq!(*tick, 1);
            assert_eq!(*price, sim.current_price);
        },
        other => panic!("expected a ticker, got {:?}", other),
    }
    assert_eq!(report.messages.len(), report.trades.len() + 1);
}

#[test]
fn tick_settles_trades_and_moves_price() {
    let mut sim = Simulation::new(vec![agent(1, Strategy::RandomWalker), agent(2, Strategy::RandomWalker)]);
    sim.handle_command(&SimulationCommand::InjectOrder(order(1, 1, OrderSide::Ask, 9_000, 1, 0)));
    sim.handle_command(&SimulationCommand::InjectOrder(order(2, 2, OrderSide::Bid, 9_500, 1, 0)));
    let report = sim.run_tick().expect("a report");
    assert_eq!(report.trades[0], Trade { buyer_id: 2, seller_id: 1, price: 9_000, amount: 1, timestamp: 0 });
    assert_eq!(
        report.messages[0],
        ServerMessage::Trade { price: 9_000, quantity: 1, buyer_id: 2, seller_id: 1 }
    );
    let last = report.trades.last().unwrap().price;
    assert_eq!(sim.current_price, last);
    let total_units: u64 = sim.agents.iter().map(|a| a.inventory).sum();
    assert_eq!(total_units, 2_000);
    let total_cash: u64 = sim.agents.iter().map(|a| a.cash).sum();
    assert_eq!(total_cash, 2_000_000);
}

#[test]
fn reset_restores_agents_and_empties_book() {
    let mut sim = Simulation::new(vec![agent(1, Strategy::RandomWalker)]);
    sim.agents[0].cash = 5;
    sim.agents[0].inventory = 7;
    sim.handle_command(&crash_command());
    sim.current_price = 4_000;
    sim.tick = 9;
    sim.handle_command(&SimulationCommand::Reset);
    assert_eq!((sim.agents[0].cash, sim.agents[0].inventory), (1_000_000, 1_000));
    assert_eq!(sim.book.best_bid_price(), None);
    assert_eq!(sim.book.best_ask_price(), None);
    assert_eq!((sim.current_price, sim.tick), (10_000, 0));
}

#[test]
fn flash_crash_rests_one_ask() {
    let mut sim = Simulation::new(vec![]);
    sim.tick = 3;
    sim.handle_command(&crash_command());
    let asks = sim.book.resting_asks();
    assert_eq!(asks.len(), 1);
    assert_eq!((asks[0].trader_id, asks[0].price, asks[0].amount, asks[0].timestamp), (999, 4_000, 20_000, 3));
}

#[test]
fn dump_command_steps_down() {
    let mut sim = Simulation::new(vec![]);
    sim.handle_command(&dump_command());
    let prices: Vec<u64> = sim.book.resting_asks().iter().map(|o| o.price).collect();
    assert_eq!(prices, vec![9_600, 9_650, 9_700, 9_750, 9_800]);
}

#[test]
fn dump_saturates_at_one() {
    let mut sim = Simulation::new(vec![]);
    sim.current_price = 150;
    sim.handle_command(&dump_command());
    let prices: Vec<u64> = sim.book.resting_asks().iter().map(|o| o.price).collect();
    assert_eq!(prices, vec![1, 1, 1, 1, 1]);
}

#[test]
fn earnings_positive_and_negative() {
    let mut sim = Simulation::new(vec![]);
    sim.handle_command(&earnings_command(10_000).unwrap());
    assert_eq!(bid_prices(&sim.book), vec![10_700, 10_600, 10_500, 10_400, 10_300]);
    // m = floor(10 * 30) = 300, q = min(5000, 1500 + 3000)
    assert!(sim.book.resting_bids().iter().all(|o| o.amount == 4_500 && o.trader_id == 999_999));
    let mut down = Simulation::new(vec![]);
    down.handle_command(&earnings_command(-50_000).unwrap());
    let asks: Vec<(u64, u64)> = down.book.resting_asks().iter().map(|o| (o.price, o.amount)).collect();
    assert_eq!(asks, vec![(9_300, 5_000), (9_400, 5_000), (9_500, 5_000), (9_600, 5_000), (9_700, 5_000)]);
    let mut flat = Simulation::new(vec![]);
    flat.handle_command(&earnings_command(0).unwrap());
    assert_eq!(flat.book.best_bid_price(), None);
    assert_eq!(flat.book.best_ask_price(), None);
}

#[test]
fn tariffs_rug_pull_and_whale() {
    let mut sim = Simulation::new(vec![]);
    sim.handle_command(&tariffs_command(2_000).unwrap());
    let asks: Vec<(u64, u64)> = sim.book.resting_asks().iter().map(|o| (o.price, o.amount)).collect();
    assert_eq!(asks.len(), 7);
    assert_eq!(asks[0], (9_500, 2_000));
    assert_eq!(asks[6], (9_800, 2_000));

    let mut rug = Simulation::new(vec![]);
    rug.handle_command(&rug_pull_command(2_000).unwrap());
    let asks: Vec<(u64, u64)> = rug.book.resting_asks().iter().map(|o| (o.price, o.amount)).collect();
    assert_eq!(asks.len(), 10);
    assert_eq!(asks[0], (6_820, 6_000));
    assert_eq!(asks[9], (7_000, 6_000));

    let mut whale = Simulation::new(vec![]);
    whale.handle_command(&whale_command(1_000).unwrap());
    let bids: Vec<(u64, u64)> = whale.book.resting_bids().iter().map(|o| (o.price, o.amount)).collect();
    assert_eq!(bids.len(), 8);
    assert_eq!(bids[0], (10_190, 2_000));
    assert_eq!(bids[7], (10_050, 2_000));
}

#[test]
fn admin_validation() {
    let req = InjectOrderRequest { side: "BiD".to_string(), price: 123, quantity: 4, trader_id: 9 };
    match inject_order_command(&req, 77) {
        Ok(SimulationCommand::InjectOrder(o)) => {
            assert_eq!(o, order(77, 9, OrderSide::Bid, 123, 4, 0));
        },
        _ => panic!("expected an order"),
    }
    let ask = InjectOrderRequest { side: "ASK".to_string(), price: 5, quantity: 1, trader_id: 1 };
    assert!(matches!(inject_order_command(&ask, 1), Ok(SimulationCommand::InjectOrder(Order { side: OrderSide::Ask, .. }))));
    let bad = InjectOrderRequest { side: "buy".to_string(), price: 123, quantity: 4, trader_id: 9 };
    assert!(matches!(inject_order_command(&bad, 1), Err(AdminError::InvalidRequest(_))));
    let free = InjectOrderRequest { side: "bid".to_string(), price: 0, quantity: 4, trader_id: 9 };
    assert!(matches!(inject_order_command(&free, 1), Err(AdminError::InvalidRequest(_))));

    assert!(matches!(control_command(&ControlRequest { action: "PAUSE".to_string() }), Ok(SimulationCommand::SetPaused(true))));
    assert!(matches!(control_command(&ControlRequest { action: "Resume".to_string() }), Ok(SimulationCommand::SetPaused(false))));
    assert!(matches!(control_command(&ControlRequest { action: "stop".to_string() }), Err(AdminError::InvalidRequest(_))));

    assert!(earnings_command(50_001).is_err());
    assert!(earnings_command(-50_000).is_ok());
    assert!(tariffs_command(-1).is_err());
    assert!(tariffs_command(10_000).is_ok());
    assert!(rug_pull_command(499).is_err());
    assert!(whale_command(5_001).is_err());
    assert_eq!(AdminError::InvalidRequest(String::new()).status_code(), 400);
    assert_eq!(AdminError::CommandChannelError.status_code(), 500);
}

#[test]
fn ticks_shuffle_agent_order() {
    let agents = (1..=6).map(|id| agent(id, Strategy::TrendFollower { window_size: 1_000 })).collect();
    let mut sim = Simulation::new(agents);
    let first = sim.agent_ids.clone();
    let mut sorted = first.clone();
    sorted.sort();
    let mut changed = false;
    for _ in 0..40 {
        sim.run_tick().expect("a report");
        let mut now = sim.agent_ids.clone();
        changed |= now != first;
        now.sort();
        assert_eq!(now, sorted);
    }
    assert!(changed);
    assert_eq!(sim.tick, 40);
}

#[test]
fn random_walker_noise_varies() {
    let mut walker = agent(3, Strategy::RandomWalker);
    let mut prices = std::collections::BTreeSet::new();
    for _ in 0..400 {
        if let Some(o) = walker.act(10_000) {
            assert!((9_980..=10_020).contains(&o.price));
            prices.insert(o.price);
        }
    }
    assert!(prices.len() > 1);
}

#[test]
fn shock_orders_take_given_ids() {
    let mut sim = Simulation::new(vec![]);
    sim.tick = 7;
    let ids: Vec<u64> = (100..110).collect();
    sim.handle_command_with_ids(&SimulationCommand::WhaleAccumulation { magnitude_milli: 1_000 }, &ids);
    let mut got: Vec<(u64, u64, u64)> = sim.book.resting_bids().iter().map(|o| (o.id, o.price, o.timestamp)).collect();
    got.sort();
    let want: Vec<(u64, u64, u64)> = (0..8u64).map(|i| (100 + i, 10_050 + 20 * i, 7)).collect();
    assert_eq!(got, want);
}

#[test]
fn command_range_checks() {
    assert!(SimulationCommand::InjectOrder(order(1, 1, OrderSide::Bid, 0, 1, 0)).fits(10_000) == false);
    assert!(SimulationCommand::Earnings { surprise_milli: 1 }.fits(u64::MAX - 700));
    assert!(!SimulationCommand::Earnings { surprise_milli: 1 }.fits(u64::MAX - 699));
    assert!(SimulationCommand::Earnings { surprise_milli: -1 }.fits(u64::MAX - 699));
    assert!(SimulationCommand::Reset.fits(1));
}

#[test]
fn mean_reverter_at_large_prices() {
    let strategy = Strategy::MeanReverter { window_size: 3, std_dev_multiplier_milli: 1000 };
    let mut a = Agent::new(8, "big".to_string(), u64::MAX, 1_000, strategy);
    for _ in 0..3 {
        a.update_market_data(1);
    }
    let q = a.quote_with(2_000_000_000_000, true, 0, 1).expect("an ask");
    assert_eq!((q.side, q.price), (OrderSide::Ask, 2_000_000_000_000));

    let mut b = Agent::new(9, "top".to_string(), u64::MAX, 1_000, strategy);
    for p in [u64::MAX, u64::MAX - 2, u64::MAX - 4, u64::MAX - 2] {
        b.update_market_data(p);
    }
    // mean MAX - 2, sigma sqrt(2)
    assert_eq!(b.quote_with(u64::MAX - 3, true, 0, 1), None);
    assert_eq!(b.quote_with(u64::MAX - 4, true, 0, 1).map(|o| o.side), Some(OrderSide::Bid));
    assert_eq!(b.quote_with(u64::MAX, true, 0, 1).map(|o| o.side), Some(OrderSide::Ask));
}

#[test]
fn mean_reverter_full_history() {
    let strategy = Strategy::MeanReverter { window_size: 1, std_dev_multiplier_milli: 2_000 };
    let mut a = agent(10, strategy);
    for p in 0..50u64 {
        a.update_market_data(1_000 + (p % 2) * 10);
    }
    // mean 1005, sigma 5: the band is 995 ..= 1015
    assert_eq!(a.quote_with(1_015, true, 0, 1), None);
    assert_eq!(a.quote_with(1_016, true, 0, 1).map(|o| o.side), Some(OrderSide::Ask));
    assert_eq!(a.quote_with(994, true, 0, 1).map(|o| o.side), Some(OrderSide::Bid));
}

#[test]
fn earnings_bound_only_for_rising_prices() {
    assert!(SimulationCommand::Earnings { surprise_milli: 0 }.fits(u64::MAX));
    assert!(SimulationCommand::Earnings { surprise_milli: -5 }.fits(u64::MAX));
    assert!(!SimulationCommand::Earnings { surprise_milli: 5 }.fits(u64::MAX));
}
