//! The companion servers: what each of the five answers to what it reads.
//! Listening, accepting and writing are the caller's.

pub mod bandwidth_server;
pub mod connection_perf_server;
pub mod dns_stability_server;
pub mod lines;
pub mod network_jitter_server;
pub mod tcp_stability_server;

use vstd::prelude::*;

verus! {

/// The five services, in the order of their ports.
#[derive(Debug, Clone, Copy, PartialEq, Eq, Structural)]
pub enum ServerType {
    TcpStability,
    Bandwidth,
    ConnectionPerf,
    DnsStability,
    NetworkJitter,
}

/// How far above the base port a service listens: one to five, in the
/// order of the services.
pub open spec fn port_offset_of(service: ServerType) -> u16 {
    match service {
        ServerType::TcpStability => 1,
        ServerType::Bandwidth => 2,
        ServerType::ConnectionPerf => 3,
        ServerType::DnsStability => 4,
        ServerType::NetworkJitter => 5,
    }
}

/// How far above the base port `service` listens.
pub fn port_offset(service: ServerType) -> (offset: u16)
    ensures
        offset == port_offset_of(service),
{
    match service {
        ServerType::TcpStability => 1,
        ServerType::Bandwidth => 2,
        ServerType::ConnectionPerf => 3,
        ServerType::DnsStability => 4,
        ServerType::NetworkJitter => 5,
    }
}

/// The port of `service` above the base port `base`, where there is one.
pub fn service_port(base: u16, service: ServerType) -> (port: Option<u16>)
    ensures
        port == if base + port_offset_of(service) <= u16::MAX {
            Some((base + port_offset_of(service)) as u16)
        } else {
            None
        },
{
    base.checked_add(port_offset(service))
}

/// Whether `service` talks UDP. Only the DNS service does.
pub fn is_datagram_service(service: ServerType) -> (b: bool)
    ensures
        b == (service == ServerType::DnsStability),
{
    match service {
        ServerType::DnsStability => true,
        _ => false,
    }
}

} // verus!
