//! The five probes. Each is a state machine: the caller performs the
//! action it is told, and reports what happened with the time on its own
//! monotonic clock, in nanoseconds.

pub mod bandwidth;
pub mod connection_perf;
pub mod dns_stability;
pub mod network_jitter;
pub mod round_robin;
pub mod tcp_stability;
