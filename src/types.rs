use vstd::prelude::*;

verus! {

/// Which side of the book an order stands on.
#[derive(Debug, Clone, Copy, PartialEq, Eq, Structural)]
pub enum OrderSide {
    /// A buy order.
    Bid,
    /// A sell order.
    Ask,
}

/// A limit order. Prices are in minor currency units.
#[derive(Debug, Clone, Copy, PartialEq, Eq, Structural)]
pub struct Order {
    pub id: u64,
    pub trader_id: u64,
    pub side: OrderSide,
    pub price: u64,
    pub amount: u64,
    pub timestamp: u64,
}

/// An execution between a buyer and a seller.
#[derive(Debug, Clone, Copy, PartialEq, Eq, Structural)]
pub struct Trade {
    pub buyer_id: u64,
    pub seller_id: u64,
    pub price: u64,
    pub amount: u64,
    pub timestamp: u64,
}

/// A market-data message for subscribers.
#[derive(Debug, Clone, Copy, PartialEq, Eq, Structural)]
pub enum ServerMessage {
    Ticker { price: u64, tick: u64, best_bid: u64, best_ask: u64 },
    Trade { price: u64, quantity: u64, buyer_id: u64, seller_id: u64 },
}

} // verus!
