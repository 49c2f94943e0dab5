//! Client-side protocol engine for an EV charging station: frame
//! classification and correlation, a timeout-gated delivery queue, a
//! heartbeat scheduler, and the action handlers governing transactions
//! and connector availability.

pub mod codec;
pub mod config;
pub mod engine;
pub mod ext;
pub mod numbers;
pub mod parse;
pub mod payloads;
pub mod router;
