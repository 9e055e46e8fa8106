//! Verified core of a keeper bot: which order events to act on, what each transaction was
//! sent for, which transactions are still unconfirmed, how oracle price messages become
//! market price updates, and when a price feed connection is tried again or given up.

pub mod intent;
pub mod limiter;
pub mod liquidation;
pub mod market_state;
pub mod message;
pub mod outside;
pub mod pending;
pub mod precision;
pub mod selection;
pub mod session;
