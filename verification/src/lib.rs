//! Measures the behaviour of a SOCKS5 proxy as a client sees it.
//!
//! The crate holds the wire formats, the probe state machines, the sample
//! statistics and the scoring rules. Sockets, timers and the command line
//! live with the caller, which feeds events in and carries actions out.

use vstd::prelude::*;

pub mod clock;
pub mod config;
pub mod decimal;
pub mod error;
pub mod metrics;
pub mod probes;
pub mod report;
pub mod score;
pub mod server;
pub mod socks5;
pub mod stats;

pub use config::Config;
pub use error::NetworkTestError;
pub use metrics::Metrics;
pub use report::Report;
pub use socks5::Socks5Client;

verus! {

/// The result type of every fallible operation of this crate.
pub type Result<T> = std::result::Result<T, NetworkTestError>;

} // verus!
