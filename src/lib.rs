pub mod types;
pub mod orderbook;
pub mod agents;
pub mod simulation;
pub mod admin;
mod wide;
