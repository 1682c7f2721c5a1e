use vstd::prelude::*;
use crate::types::{Order, OrderSide};
use crate::simulation::SimulationCommand;

verus! {

/// The trader of a flash crash.
pub const CRASH_SELLER: u64 = 999;

/// The size of a flash crash.
pub const CRASH_QUANTITY: u64 = 20_000;

/// The price of a flash crash.
pub const CRASH_PRICE: u64 = 4_000;

/// The trader of pumps and dumps.
pub const PUMP_TRADER: u64 = 888;

/// A request to inject an order: `side` is "bid" or "ask" in any case.
pub struct InjectOrderRequest {
    pub side: String,
    pub price: u64,
    pub quantity: u64,
    pub trader_id: u64,
}

/// A request to pause or resume: `action` is "pause" or "resume" in any case.
pub struct ControlRequest {
    pub action: String,
}

/// The body of every admin answer.
pub struct AdminResponse {
    pub success: bool,
    pub message: String,
}

/// Why an admin request failed.
#[derive(Debug)]
pub enum AdminError {
    /// The request did not validate (answered with 400).
    InvalidRequest(String),
    /// The engine no longer takes commands (answered with 500).
    CommandChannelError,
}

/// The lowercase form of a text.
pub uninterp spec fn lower_of(s: Seq<char>) -> Seq<char>;

/// Relies on str::to_lowercase: its result depends on the characters alone.
#[verifier::external_body]
fn lowercase(s: &str) -> (r: String)
    ensures
        r@ == lower_of(s@),
{
    s.to_lowercase()
}

/// The side a lowercase name stands for.
pub open spec fn side_named(f: Seq<char>) -> Option<OrderSide> {
    if f == "bid"@ {
        Some(OrderSide::Bid)
    } else if f == "ask"@ {
        Some(OrderSide::Ask)
    } else {
        None
    }
}

/// The pause state a lowercase action stands for.
pub open spec fn pause_named(f: Seq<char>) -> Option<bool> {
    if f == "pause"@ {
        Some(true)
    } else if f == "resume"@ {
        Some(false)
    } else {
        None
    }
}

/// The side named by a lowercase text, if any.
pub fn side_from_folded(f: &String) -> (r: Option<OrderSide>)
    ensures
        r == side_named(f@),
{
    let bid = "bid".to_owned();
    let ask = "ask".to_owned();
    proof {
        reveal_strlit("bid");
        reveal_strlit("ask");
    }
    if *f == bid {
        Some(OrderSide::Bid)
    } else if *f == ask {
        Some(OrderSide::Ask)
    } else {
        None
    }
}

/// The pause state named by a lowercase text, if any.
pub fn pause_from_folded(f: &String) -> (r: Option<bool>)
    ensures
        r == pause_named(f@),
{
    let pause = "pause".to_owned();
    let resume = "resume".to_owned();
    proof {
        reveal_strlit("pause");
        reveal_strlit("resume");
    }
    if *f == pause {
        Some(true)
    } else if *f == resume {
        Some(false)
    } else {
        None
    }
}

/// The order an injection request asks for, with id `order_id`: rejected
/// unless the side is "bid" or "ask" (in any case) and the price is positive.
pub fn inject_order_command(req: &InjectOrderRequest, order_id: u64) -> (r: Result<SimulationCommand, AdminError>)
    ensures
        side_named(lower_of(req.side@)) matches Some(side) ==> req.price >= 1 ==> r == Ok::<
            SimulationCommand,
            AdminError,
        >(
            SimulationCommand::InjectOrder(
                Order {
                    id: order_id,
                    trader_id: req.trader_id,
                    side: side,
                    price: req.price,
                    amount: req.quantity,
                    timestamp: 0,
                },
            ),
        ),
        (side_named(lower_of(req.side@)) is None || req.price == 0) ==> r matches Err(
            AdminError::InvalidRequest(_),
        ),
{
    let folded = lowercase(req.side.as_str());
    let side = match side_from_folded(&folded) {
        Some(s) => s,
        None => {
            return Err(AdminError::InvalidRequest("side must be 'bid' or 'ask'".to_owned()));
        },
    };
    if req.price == 0 {
        return Err(AdminError::InvalidRequest("price must be at least 1".to_owned()));
    }
    Ok(
        SimulationCommand::InjectOrder(
            Order { id: order_id, trader_id: req.trader_id, side, price: req.price, amount: req.quantity, timestamp: 0 },
        ),
    )
}

/// The pause command a control request asks for.
pub fn control_command(req: &ControlRequest) -> (r: Result<SimulationCommand, AdminError>)
    ensures
        pause_named(lower_of(req.action@)) matches Some(p) ==> r == Ok::<SimulationCommand, AdminError>(
            SimulationCommand::SetPaused(p),
        ),
        pause_named(lower_of(req.action@)) is None ==> r matches Err(AdminError::InvalidRequest(_)),
{
    let folded = lowercase(req.action.as_str());
    match pause_from_folded(&folded) {
        Some(p) => Ok(SimulationCommand::SetPaused(p)),
        None => Err(AdminError::InvalidRequest("action must be 'pause' or 'resume'".to_owned())),
    }
}

/// A flash crash: one large ask far below the market.
pub fn crash_command() -> (r: SimulationCommand)
    ensures
        r == (SimulationCommand::FlashCrash { seller_id: CRASH_SELLER, quantity: CRASH_QUANTITY, price: CRASH_PRICE }),
{
    SimulationCommand::FlashCrash { seller_id: CRASH_SELLER, quantity: CRASH_QUANTITY, price: CRASH_PRICE }
}

/// A pump of magnitude 1 from just above the market.
pub fn pump_command() -> (r: SimulationCommand)
    ensures
        r == (SimulationCommand::Pump { buyer_id: PUMP_TRADER, base_price: 0, magnitude_milli: 1000 }),
{
    SimulationCommand::Pump { buyer_id: PUMP_TRADER, base_price: 0, magnitude_milli: 1000 }
}

/// A dump of magnitude 1 from just below the market.
pub fn dump_command() -> (r: SimulationCommand)
    ensures
        r == (SimulationCommand::Dump { seller_id: PUMP_TRADER, base_price: 0, magnitude_milli: 1000 }),
{
    SimulationCommand::Dump { seller_id: PUMP_TRADER, base_price: 0, magnitude_milli: 1000 }
}

/// An earnings surprise, in thousandths of a percent point, within -50..=50.
pub fn earnings_command(surprise_milli: i64) -> (r: Result<SimulationCommand, AdminError>)
    ensures
        -50_000 <= surprise_milli <= 50_000 ==> r == Ok::<SimulationCommand, AdminError>(
            SimulationCommand::Earnings { surprise_milli },
        ),
        !(-50_000 <= surprise_milli <= 50_000) ==> r matches Err(AdminError::InvalidRequest(_)),
{
    if surprise_milli < -50_000 || surprise_milli > 50_000 {
        return Err(AdminError::InvalidRequest("surprise_pct must be between -50% and +50%".to_owned()));
    }
    Ok(SimulationCommand::Earnings { surprise_milli })
}

/// A tariff shock of severity (in thousandths) within 0..=10.
pub fn tariffs_command(severity_milli: i64) -> (r: Result<SimulationCommand, AdminError>)
    ensures
        0 <= severity_milli <= 10_000 ==> r == Ok::<SimulationCommand, AdminError>(
            SimulationCommand::Tariffs { severity_milli: severity_milli as u64 },
        ),
        !(0 <= severity_milli <= 10_000) ==> r matches Err(AdminError::InvalidRequest(_)),
{
    if severity_milli < 0 || severity_milli > 10_000 {
        return Err(AdminError::InvalidRequest("severity must be between 0 and 10".to_owned()));
    }
    Ok(SimulationCommand::Tariffs { severity_milli: severity_milli as u64 })
}

/// A rug pull of magnitude (in thousandths) within 0.5..=5.
pub fn rug_pull_command(magnitude_milli: i64) -> (r: Result<SimulationCommand, AdminError>)
    ensures
        500 <= magnitude_milli <= 5_000 ==> r == Ok::<SimulationCommand, AdminError>(
            SimulationCommand::RugPull { magnitude_milli: magnitude_milli as u64 },
        ),
        !(500 <= magnitude_milli <= 5_000) ==> r matches Err(AdminError::InvalidRequest(_)),
{
    if magnitude_milli < 500 || magnitude_milli > 5_000 {
        return Err(AdminError::InvalidRequest("magnitude must be between 0.5 and 5.0".to_owned()));
    }
    Ok(SimulationCommand::RugPull { magnitude_milli: magnitude_milli as u64 })
}

/// Whale accumulation of magnitude (in thousandths) within 0.5..=5.
pub fn whale_command(magnitude_milli: i64) -> (r: Result<SimulationCommand, AdminError>)
    ensures
        500 <= magnitude_milli <= 5_000 ==> r == Ok::<SimulationCommand, AdminError>(
            SimulationCommand::WhaleAccumulation { magnitude_milli: magnitude_milli as u64 },
        ),
        !(500 <= magnitude_milli <= 5_000) ==> r matches Err(AdminError::InvalidRequest(_)),
{
    if magnitude_milli < 500 || magnitude_milli > 5_000 {
        return Err(AdminError::InvalidRequest("magnitude must be between 0.5 and 5.0".to_owned()));
    }
    Ok(SimulationCommand::WhaleAccumulation { magnitude_milli: magnitude_milli as u64 })
}

impl AdminError {
    /// The HTTP status this error is answered with.
    pub fn status_code(&self) -> (r: u16)
        ensures
            r == (match self {
                AdminError::InvalidRequest(_) => 400u16,
                AdminError::CommandChannelError => 500u16,
            }),
    {
        match self {
            AdminError::InvalidRequest(_) => 400,
            AdminError::CommandChannelError => 500,
        }
    }
}

} // verus!
