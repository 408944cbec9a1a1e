//! Automated rebalance-signal trading core.
//!
//! The crate detects portfolio-rebalance signals published by a
//! subscription-gated analytics service, sizes them into brokerage orders,
//! and drives their submission exactly once per scheduled run.  All decision
//! logic lives here, verified; network, file and broker I/O is driven by a
//! thin unverified shell that calls into this crate.

pub mod calendar;
pub mod clock;
pub mod config;
pub mod detect;
pub mod email;
pub mod error;
pub mod events;
pub mod executor;
pub mod gateway;
pub mod markvalue;
pub mod pricing;
pub mod profile;
pub mod schedule;
pub mod server_ip;
pub mod sizing;
pub mod strutil;
