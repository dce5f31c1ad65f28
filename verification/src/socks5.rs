//! The SOCKS5 client side of RFC 1928 and RFC 1929: addresses, the messages
//! of a negotiation and the framing of relayed UDP datagrams.
//!
//! Nothing here touches a socket. A negotiation is a state machine: it says
//! what to write and how many bytes to read, and is handed what was read.

use crate::decimal::decimal_digits;
use crate::decimal::format_decimal;
use crate::decimal::lemma_decimal_digits;
use crate::decimal::lemma_parse_decimal_digits;
use crate::decimal::parse_decimal;
use crate::decimal::parse_unsigned;
use crate::error::ErrorKind;
use crate::error::NetworkTestError;
use vstd::prelude::*;
use vstd::string::StrSliceExecFns;
use vstd::string::StringExecFns;
use vstd::string::StringSliceAdditionalSpecFns;
use vstd::utf8::encode_utf8;

verus! {

/// Protocol version byte of every SOCKS5 message.
pub const SOCKS_VERSION: u8 = 0x05;

/// Version byte of the username/password sub-negotiation.
pub const AUTH_VERSION: u8 = 0x01;

/// Method byte: no authentication.
pub const METHOD_NONE: u8 = 0x00;

/// Method byte: username and password.
pub const METHOD_USER_PASS: u8 = 0x02;

/// Method byte: the proxy accepts none of the offered methods.
pub const METHOD_REFUSED: u8 = 0xFF;

/// Command byte: open a TCP tunnel.
pub const CMD_CONNECT: u8 = 0x01;

/// Command byte: open a UDP association.
pub const CMD_UDP_ASSOCIATE: u8 = 0x03;

/// Address type byte: four octets of IPv4.
pub const ATYP_IPV4: u8 = 0x01;

/// Address type byte: a length byte, then a domain name.
pub const ATYP_DOMAIN: u8 = 0x03;

/// Address type byte: sixteen octets of IPv6.
pub const ATYP_IPV6: u8 = 0x04;

/// Default time allowed for the TCP connection to the proxy, in nanoseconds.
pub const DEFAULT_TIMEOUT_NS: u64 = 5_000_000_000;

/// An IP address as its octets in network order.
#[derive(Clone, Copy, Debug)]
pub enum IpAddress {
    V4([u8; 4]),
    V6([u8; 16]),
}

/// The mathematical value of an [`IpAddress`].
pub enum IpAddressView {
    V4(Seq<u8>),
    V6(Seq<u8>),
}

impl View for IpAddress {
    type V = IpAddressView;

    open spec fn view(&self) -> IpAddressView {
        match self {
            IpAddress::V4(o) => IpAddressView::V4(o@),
            IpAddress::V6(o) => IpAddressView::V6(o@),
        }
    }
}

/// An IP address and a port: where the proxy listens.
#[derive(Clone, Copy, Debug)]
pub struct SocketAddress {
    pub ip: IpAddress,
    pub port: u16,
}

/// The mathematical value of a [`SocketAddress`].
pub struct SocketAddressView {
    pub ip: IpAddressView,
    pub port: u16,
}

impl View for SocketAddress {
    type V = SocketAddressView;

    open spec fn view(&self) -> SocketAddressView {
        SocketAddressView { ip: self.ip@, port: self.port }
    }
}

/// The host of a target: an IP literal already read into octets, or the
/// bytes of a domain name.
#[derive(Clone, Debug)]
pub enum Host {
    V4([u8; 4]),
    V6([u8; 16]),
    Domain(Vec<u8>),
}

/// The mathematical value of a [`Host`].
pub enum HostView {
    V4(Seq<u8>),
    V6(Seq<u8>),
    Domain(Seq<u8>),
}

/// The greatest length that a length byte can hold.
pub const MAX_FIELD: usize = 255;

impl HostView {
    /// Whether the host can stand in a message: octet counts are those of
    /// the address family, and a domain name has at most 255 bytes, so that
    /// its length fits the length byte.
    pub open spec fn wf(self) -> bool {
        match self {
            HostView::V4(o) => o.len() == 4,
            HostView::V6(o) => o.len() == 16,
            HostView::Domain(d) => d.len() <= MAX_FIELD,
        }
    }
}

impl View for Host {
    type V = HostView;

    open spec fn view(&self) -> HostView {
        match self {
            Host::V4(o) => HostView::V4(o@),
            Host::V6(o) => HostView::V6(o@),
            Host::Domain(d) => HostView::Domain(d@),
        }
    }
}

impl Host {
    /// A domain-name host, from the name's text.
    pub fn domain(name: &str) -> (h: Host)
        ensures
            h@ == HostView::Domain(name.spec_bytes()),
    {
        Host::Domain(name.as_bytes_vec())
    }

    /// Whether the host can stand in a message.
    pub fn is_valid(&self) -> (b: bool)
        ensures
            b == self@.wf(),
    {
        match self {
            Host::V4(_) => true,
            Host::V6(_) => true,
            Host::Domain(d) => d.len() <= MAX_FIELD,
        }
    }
}

/// Whether `text` has at most 255 bytes, so that its length fits a length
/// byte.
pub fn fits_length_byte(text: &str) -> (b: bool)
    ensures
        b == (text.spec_bytes().len() <= MAX_FIELD),
{
    text.as_bytes().len() <= MAX_FIELD
}

/// The two bytes of a port, most significant first.
pub open spec fn port_wire(port: u16) -> Seq<u8> {
    seq![(port / 256) as u8, (port % 256) as u8]
}

/// The port that two bytes in network order stand for.
pub open spec fn port_from_wire(hi: u8, lo: u8) -> u16 {
    (hi as int * 256 + lo as int) as u16
}

/// The address part of a request or datagram: the type byte, then the
/// octets, or the length byte and the name, which has at most 255 bytes.
pub open spec fn address_wire(host: HostView) -> Seq<u8> {
    match host {
        HostView::V4(o) => seq![ATYP_IPV4] + o,
        HostView::V6(o) => seq![ATYP_IPV6] + o,
        HostView::Domain(d) => seq![ATYP_DOMAIN, d.len() as u8] + d,
    }
}

/// The greeting: version 5, one method offered.
pub open spec fn greeting_wire(with_credentials: bool) -> Seq<u8> {
    seq![
        SOCKS_VERSION,
        1u8,
        if with_credentials {
            METHOD_USER_PASS
        } else {
            METHOD_NONE
        },
    ]
}

/// The username/password request of RFC 1929, for a username and a
/// password of at most 255 bytes each.
pub open spec fn auth_request_wire(username: Seq<u8>, password: Seq<u8>) -> Seq<u8> {
    seq![AUTH_VERSION, username.len() as u8] + username + seq![password.len() as u8] + password
}

/// The CONNECT request for a target.
pub open spec fn connect_request_wire(host: HostView, port: u16) -> Seq<u8> {
    seq![SOCKS_VERSION, CMD_CONNECT, 0u8] + address_wire(host) + port_wire(port)
}

/// The UDP ASSOCIATE request: the client names no source of its own.
pub open spec fn udp_associate_request_wire() -> Seq<u8> {
    seq![SOCKS_VERSION, CMD_UDP_ASSOCIATE, 0u8, ATYP_IPV4, 0u8, 0u8, 0u8, 0u8, 0u8, 0u8]
}

/// A datagram as the relay expects it: two reserved bytes, fragment 0, the
/// target's address and port, then the payload.
pub open spec fn udp_datagram_wire(host: HostView, port: u16, payload: Seq<u8>) -> Seq<u8> {
    seq![0u8, 0u8, 0u8] + address_wire(host) + port_wire(port) + payload
}

/// Appends `bytes` to `out`.
pub fn append_bytes(out: &mut Vec<u8>, bytes: &[u8])
    ensures
        final(out)@ == old(out)@ + bytes@,
{
    let mut i: usize = 0;
    while i < bytes.len()
        invariant
            i <= bytes.len(),
            out@ == old(out)@ + bytes@.subrange(0, i as int),
        decreases bytes.len() - i,
    {
        out.push(bytes[i]);
        i = i + 1;
        assert(out@ =~= old(out)@ + bytes@.subrange(0, i as int));
    }
    assert(bytes@.subrange(0, i as int) =~= bytes@);
}

/// Appends the two bytes of `port`, most significant first.
fn append_port(out: &mut Vec<u8>, port: u16)
    ensures
        final(out)@ == old(out)@ + port_wire(port),
{
    out.push((port / 256) as u8);
    out.push((port % 256) as u8);
    assert(out@ =~= old(out)@ + port_wire(port));
}

/// Appends the address part for `host`.
fn append_address(out: &mut Vec<u8>, host: &Host)
    requires
        host@.wf(),
    ensures
        final(out)@ == old(out)@ + address_wire(host@),
{
    match host {
        Host::V4(o) => {
            out.push(ATYP_IPV4);
            append_bytes(out, o.as_slice());
            assert(out@ =~= old(out)@ + address_wire(host@));
        },
        Host::V6(o) => {
            out.push(ATYP_IPV6);
            append_bytes(out, o.as_slice());
            assert(out@ =~= old(out)@ + address_wire(host@));
        },
        Host::Domain(d) => {
            out.push(ATYP_DOMAIN);
            out.push(d.len() as u8);
            append_bytes(out, d.as_slice());
            assert(out@ =~= old(out)@ + address_wire(host@));
        },
    }
}

/// The greeting to send on a fresh connection to the proxy.
pub fn greeting(with_credentials: bool) -> (out: Vec<u8>)
    ensures
        out@ == greeting_wire(with_credentials),
{
    let mut out: Vec<u8> = Vec::new();
    out.push(SOCKS_VERSION);
    out.push(1);
    out.push(if with_credentials { METHOD_USER_PASS } else { METHOD_NONE });
    assert(out@ =~= greeting_wire(with_credentials));
    out
}

/// The username/password request. Neither the username nor the password
/// may have more than 255 bytes.
pub fn auth_request(username: &str, password: &str) -> (out: Vec<u8>)
    requires
        username.spec_bytes().len() <= MAX_FIELD,
        password.spec_bytes().len() <= MAX_FIELD,
    ensures
        out@ == auth_request_wire(username.spec_bytes(), password.spec_bytes()),
{
    let user = username.as_bytes();
    let pass = password.as_bytes();
    let mut out: Vec<u8> = Vec::new();
    out.push(AUTH_VERSION);
    out.push(user.len() as u8);
    append_bytes(&mut out, user);
    out.push(pass.len() as u8);
    append_bytes(&mut out, pass);
    assert(out@ =~= auth_request_wire(username.spec_bytes(), password.spec_bytes()));
    out
}

/// The CONNECT request for `host` and `port`.
pub fn connect_request(host: &Host, port: u16) -> (out: Vec<u8>)
    requires
        host@.wf(),
    ensures
        out@ == connect_request_wire(host@, port),
{
    let mut out: Vec<u8> = Vec::new();
    out.push(SOCKS_VERSION);
    out.push(CMD_CONNECT);
    out.push(0);
    append_address(&mut out, host);
    append_port(&mut out, port);
    assert(out@ =~= connect_request_wire(host@, port));
    out
}

/// The UDP ASSOCIATE request.
pub fn udp_associate_request() -> (out: Vec<u8>)
    ensures
        out@ == udp_associate_request_wire(),
{
    let mut out: Vec<u8> = Vec::new();
    out.push(SOCKS_VERSION);
    out.push(CMD_UDP_ASSOCIATE);
    out.push(0);
    out.push(ATYP_IPV4);
    out.push(0);
    out.push(0);
    out.push(0);
    out.push(0);
    out.push(0);
    out.push(0);
    assert(out@ =~= udp_associate_request_wire());
    out
}

/// Builds the message `content`.
fn message(content: &str) -> (r: String)
    ensures
        r@ == content@,
{
    String::from_str(content)
}

/// Builds the message `prefix` followed by `n` in decimal.
fn message_with_number(prefix: &str, n: u8) -> (r: String)
    ensures
        r@ == prefix@ + decimal_digits(n as nat),
{
    let mut r = String::from_str(prefix);
    let digits = format_decimal(n as u64);
    r.append(digits.as_str());
    r
}

/// The authentication method that the proxy chose.
#[derive(Clone, Copy, Debug, PartialEq, Eq, Structural)]
pub enum MethodChoice {
    NoAuth,
    UserPass,
}

/// What the two bytes of a method reply mean: the chosen method, or the
/// text of the protocol error.
pub open spec fn method_reply_meaning(reply: Seq<u8>) -> std::result::Result<
    MethodChoice,
    Seq<char>,
> {
    if reply[0] != SOCKS_VERSION {
        Err("invalid version"@)
    } else if reply[1] == METHOD_NONE {
        Ok(MethodChoice::NoAuth)
    } else if reply[1] == METHOD_USER_PASS {
        Ok(MethodChoice::UserPass)
    } else if reply[1] == METHOD_REFUSED {
        Err("no acceptable methods"@)
    } else {
        Err("unknown method "@ + decimal_digits(reply[1] as nat))
    }
}

/// Reads the proxy's answer to the greeting.
pub fn parse_method_reply(reply: &[u8]) -> (r: Result<MethodChoice, NetworkTestError>)
    requires
        reply@.len() == 2,
    ensures
        match r {
            Ok(m) => method_reply_meaning(reply@) == Ok::<MethodChoice, Seq<char>>(m),
            Err(e) => e is Socks5 && method_reply_meaning(reply@) == Err::<
                MethodChoice,
                Seq<char>,
            >(e.spec_message()),
        },
{
    if reply[0] != SOCKS_VERSION {
        Err(NetworkTestError::Socks5(message("invalid version")))
    } else if reply[1] == METHOD_NONE {
        Ok(MethodChoice::NoAuth)
    } else if reply[1] == METHOD_USER_PASS {
        Ok(MethodChoice::UserPass)
    } else if reply[1] == METHOD_REFUSED {
        Err(NetworkTestError::Socks5(message("no acceptable methods")))
    } else {
        Err(NetworkTestError::Socks5(message_with_number("unknown method ", reply[1])))
    }
}

/// What the two bytes of an authentication reply mean: nothing when the
/// proxy accepted, else the text of the error.
pub open spec fn auth_reply_meaning(reply: Seq<u8>) -> Option<Seq<char>> {
    if reply[0] != AUTH_VERSION {
        Some("Invalid authentication response version"@)
    } else if reply[1] != 0 {
        Some("Authentication failed"@)
    } else {
        None
    }
}

/// Reads the proxy's answer to the username/password request.
pub fn parse_auth_reply(reply: &[u8]) -> (r: Result<(), NetworkTestError>)
    requires
        reply@.len() == 2,
    ensures
        match r {
            Ok(_) => auth_reply_meaning(reply@) is None,
            Err(e) => e is Socks5 && auth_reply_meaning(reply@) == Some(e.spec_message()),
        },
{
    if reply[0] != AUTH_VERSION {
        Err(NetworkTestError::Socks5(message("Invalid authentication response version")))
    } else if reply[1] != 0 {
        Err(NetworkTestError::Socks5(message("Authentication failed")))
    } else {
        Ok(())
    }
}

/// The text for a reply code other than success.
pub open spec fn reply_code_text(rep: u8) -> Seq<char> {
    if rep == 1 {
        "General SOCKS server failure"@
    } else if rep == 2 {
        "Connection not allowed by ruleset"@
    } else if rep == 3 {
        "Network unreachable"@
    } else if rep == 4 {
        "Host unreachable"@
    } else if rep == 5 {
        "Connection refused"@
    } else if rep == 6 {
        "TTL expired"@
    } else if rep == 7 {
        "Command not supported"@
    } else if rep == 8 {
        "Address type not supported"@
    } else {
        "unknown error "@ + decimal_digits(rep as nat)
    }
}

/// The text for a reply code other than success.
fn reply_code_message(rep: u8) -> (r: String)
    requires
        rep != 0,
    ensures
        r@ == reply_code_text(rep),
{
    if rep == 1 {
        message("General SOCKS server failure")
    } else if rep == 2 {
        message("Connection not allowed by ruleset")
    } else if rep == 3 {
        message("Network unreachable")
    } else if rep == 4 {
        message("Host unreachable")
    } else if rep == 5 {
        message("Connection refused")
    } else if rep == 6 {
        message("TTL expired")
    } else if rep == 7 {
        message("Command not supported")
    } else if rep == 8 {
        message("Address type not supported")
    } else {
        message_with_number("unknown error ", rep)
    }
}

/// The command that a negotiation asks of the proxy.
#[derive(Clone, Copy, Debug, PartialEq, Eq, Structural)]
pub enum Command {
    Connect,
    UdpAssociate,
}

/// How the bound address that follows a reply head is laid out.
#[derive(Clone, Copy, Debug, PartialEq, Eq, Structural)]
pub enum BoundAddress {
    /// Four octets and a port: 6 bytes follow.
    V4,
    /// A length byte follows, then the name and a port.
    Domain,
    /// Sixteen octets and a port: 18 bytes follow.
    V6,
}

/// What the four bytes of a reply head mean for `command`: the layout of
/// what follows, or the text of the error. The reply to a UDP ASSOCIATE is
/// read as the reply to a CONNECT is: it may carry any of the three address
/// types.
pub open spec fn reply_head_meaning(command: Command, head: Seq<u8>) -> std::result::Result<
    BoundAddress,
    Seq<char>,
> {
    if head[0] != SOCKS_VERSION {
        match command {
            Command::Connect => Err("Invalid SOCKS version in connect response"@),
            Command::UdpAssociate => Err("Invalid SOCKS version in UDP associate response"@),
        }
    } else if head[1] != 0 {
        Err(reply_code_text(head[1]))
    } else if head[3] == ATYP_IPV4 {
        Ok(BoundAddress::V4)
    } else if head[3] == ATYP_DOMAIN {
        Ok(BoundAddress::Domain)
    } else if head[3] == ATYP_IPV6 {
        Ok(BoundAddress::V6)
    } else {
        match command {
            Command::Connect => Err("Unknown address type: "@ + decimal_digits(head[3] as nat)),
            Command::UdpAssociate => Err(
                "Unsupported address type for UDP relay: "@ + decimal_digits(head[3] as nat),
            ),
        }
    }
}

/// Reads the first four bytes of the proxy's reply to a request.
pub fn parse_reply_head(command: Command, head: &[u8]) -> (r: Result<
    BoundAddress,
    NetworkTestError,
>)
    requires
        head@.len() == 4,
    ensures
        match r {
            Ok(b) => reply_head_meaning(command, head@) == Ok::<BoundAddress, Seq<char>>(b),
            Err(e) => e is Socks5 && reply_head_meaning(command, head@) == Err::<
                BoundAddress,
                Seq<char>,
            >(e.spec_message()),
        },
{
    if head[0] != SOCKS_VERSION {
        match command {
            Command::Connect => Err(
                NetworkTestError::Socks5(message("Invalid SOCKS version in connect response")),
            ),
            Command::UdpAssociate => Err(
                NetworkTestError::Socks5(message("Invalid SOCKS version in UDP associate response")),
            ),
        }
    } else if head[1] != 0 {
        Err(NetworkTestError::Socks5(reply_code_message(head[1])))
    } else if head[3] == ATYP_IPV4 {
        Ok(BoundAddress::V4)
    } else if head[3] == ATYP_DOMAIN {
        Ok(BoundAddress::Domain)
    } else if head[3] == ATYP_IPV6 {
        Ok(BoundAddress::V6)
    } else {
        match command {
            Command::Connect => Err(
                NetworkTestError::Socks5(message_with_number("Unknown address type: ", head[3])),
            ),
            Command::UdpAssociate => Err(
                NetworkTestError::Socks5(
                    message_with_number("Unsupported address type for UDP relay: ", head[3]),
                ),
            ),
        }
    }
}

/// Where a proxy relays datagrams: the address it bound, which may be an
/// IP address or a domain name, and the port.
#[derive(Clone, Debug)]
pub struct RelayAddress {
    pub host: Host,
    pub port: u16,
}

/// The mathematical value of a [`RelayAddress`].
pub struct RelayAddressView {
    pub host: HostView,
    pub port: u16,
}

impl View for RelayAddress {
    type V = RelayAddressView;

    open spec fn view(&self) -> RelayAddressView {
        RelayAddressView { host: self.host@, port: self.port }
    }
}

/// Whether `tail` has the length of a bound address of this layout and
/// its port: 6 bytes, 18 bytes, or a name of at most 255 bytes and 2 bytes.
pub open spec fn tail_fits(layout: BoundAddress, tail: Seq<u8>) -> bool {
    match layout {
        BoundAddress::V4 => tail.len() == 6,
        BoundAddress::V6 => tail.len() == 18,
        BoundAddress::Domain => 2 <= tail.len() <= MAX_FIELD + 2,
    }
}

/// The address that the bytes of a bound address and its port stand for.
pub open spec fn bound_address(layout: BoundAddress, tail: Seq<u8>) -> RelayAddressView {
    match layout {
        BoundAddress::V4 => RelayAddressView {
            host: HostView::V4(tail.subrange(0, 4)),
            port: port_from_wire(tail[4], tail[5]),
        },
        BoundAddress::V6 => RelayAddressView {
            host: HostView::V6(tail.subrange(0, 16)),
            port: port_from_wire(tail[16], tail[17]),
        },
        BoundAddress::Domain => RelayAddressView {
            host: HostView::Domain(tail.subrange(0, tail.len() - 2)),
            port: port_from_wire(tail[tail.len() - 2], tail[tail.len() - 1]),
        },
    }
}

/// Reads the port that two bytes in network order stand for.
pub fn read_port(hi: u8, lo: u8) -> (port: u16)
    ensures
        port == port_from_wire(hi, lo),
{
    (hi as u16) * 256 + (lo as u16)
}

/// Copies four octets out of `bytes`, starting at `at`.
fn read_octets4(bytes: &[u8], at: usize) -> (o: [u8; 4])
    requires
        at + 4 <= bytes@.len(),
    ensures
        o@ == bytes@.subrange(at as int, at + 4),
{
    let o = [bytes[at], bytes[at + 1], bytes[at + 2], bytes[at + 3]];
    assert(o@ =~= bytes@.subrange(at as int, at + 4));
    o
}

/// Copies sixteen octets out of `bytes`, starting at `at`.
fn read_octets16(bytes: &[u8], at: usize) -> (o: [u8; 16])
    requires
        at + 16 <= bytes@.len(),
    ensures
        o@ == bytes@.subrange(at as int, at + 16),
{
    let o = [
        bytes[at],
        bytes[at + 1],
        bytes[at + 2],
        bytes[at + 3],
        bytes[at + 4],
        bytes[at + 5],
        bytes[at + 6],
        bytes[at + 7],
        bytes[at + 8],
        bytes[at + 9],
        bytes[at + 10],
        bytes[at + 11],
        bytes[at + 12],
        bytes[at + 13],
        bytes[at + 14],
        bytes[at + 15],
    ];
    assert(o@ =~= bytes@.subrange(at as int, at + 16));
    o
}

/// Reads the relay's address from the bytes that follow the reply head
/// and, for a domain name, its length byte.
pub fn parse_bound_address(layout: BoundAddress, tail: &[u8]) -> (addr: RelayAddress)
    requires
        tail_fits(layout, tail@),
    ensures
        addr@ == bound_address(layout, tail@),
        addr@.host.wf(),
{
    match layout {
        BoundAddress::V4 => RelayAddress {
            host: Host::V4(read_octets4(tail, 0)),
            port: read_port(tail[4], tail[5]),
        },
        BoundAddress::V6 => RelayAddress {
            host: Host::V6(read_octets16(tail, 0)),
            port: read_port(tail[16], tail[17]),
        },
        BoundAddress::Domain => {
            let n = tail.len();
            let mut name: Vec<u8> = Vec::new();
            append_bytes(&mut name, vstd::slice::slice_subrange(tail, 0, n - 2));
            assert(name@ =~= tail@.subrange(0, n - 2));
            RelayAddress { host: Host::Domain(name), port: read_port(tail[n - 2], tail[n - 1]) }
        },
    }
}

/// Where a negotiation stands: which reply it waits for.
#[derive(Clone, Copy, Debug, PartialEq, Eq, Structural)]
pub enum Stage {
    /// Greeting sent; the method reply is awaited.
    Method,
    /// Credentials sent; the authentication reply is awaited.
    Auth,
    /// Request sent; the four bytes of the reply head are awaited.
    ReplyHead,
    /// The length byte of a bound domain name is awaited.
    DomainLength,
    /// The bound domain name and port are awaited.
    DomainTail,
    /// Four octets and a port are awaited.
    BoundV4,
    /// Sixteen octets and a port are awaited.
    BoundV6,
    /// The negotiation has succeeded or failed; nothing more is read.
    Finished,
}

/// One negotiation with the proxy on one TCP connection.
pub struct Negotiation {
    command: Command,
    stage: Stage,
    expect: usize,
    username: Option<String>,
    password: Option<String>,
    request: Vec<u8>,
    refusal: Option<String>,
}

/// The mathematical value of a [`Negotiation`].
pub struct NegotiationView {
    pub command: Command,
    pub stage: Stage,
    /// How many bytes the next reply has.
    pub expect: nat,
    pub username: Option<Seq<u8>>,
    pub password: Option<Seq<u8>>,
    /// The request that follows the greeting and the authentication.
    pub request: Seq<u8>,
    /// Why no request can be made, where the target is no good: the
    /// negotiation then fails where its request would go out.
    pub refusal: Option<Seq<char>>,
}

/// Whether an optional field has at most 255 bytes.
pub open spec fn field_fits(field: Option<Seq<u8>>) -> bool {
    field matches Some(bytes) ==> bytes.len() <= MAX_FIELD
}

impl NegotiationView {
    /// `self` moved to `stage`, waiting for `expect` bytes.
    pub open spec fn at(self, stage: Stage, expect: nat) -> NegotiationView {
        NegotiationView { stage, expect, ..self }
    }

    /// `self` after its last step.
    pub open spec fn finished(self) -> NegotiationView {
        self.at(Stage::Finished, 0)
    }

    /// What holds of every negotiation: it reads as many bytes as its
    /// stage asks for, and its credentials fit their length bytes.
    pub open spec fn wf(self) -> bool {
        &&& stage_reads(self.stage, self.expect)
        &&& field_fits(self.username)
        &&& field_fits(self.password)
    }
}

/// What the caller does next for a negotiation.
pub enum Step {
    /// Write `send`, then read exactly `expect` bytes and hand them to
    /// [`Negotiation::advance`].
    Exchange { send: Vec<u8>, expect: usize },
    /// The tunnel to the target is open.
    Connected,
    /// The UDP association stands; datagrams go to this relay address.
    Associated(RelayAddress),
    /// The negotiation failed.
    Failed(NetworkTestError),
}

/// The mathematical value of a [`Step`].
pub enum StepView {
    Exchange { send: Seq<u8>, expect: nat },
    Connected,
    Associated(RelayAddressView),
    Failed { kind: ErrorKind, text: Seq<char> },
}

impl View for Step {
    type V = StepView;

    open spec fn view(&self) -> StepView {
        match self {
            Step::Exchange { send, expect } => StepView::Exchange {
                send: send@,
                expect: *expect as nat,
            },
            Step::Connected => StepView::Connected,
            Step::Associated(a) => StepView::Associated(a@),
            Step::Failed(e) => StepView::Failed { kind: e.spec_kind(), text: e.spec_message() },
        }
    }
}

/// How many bytes a negotiation reads at `stage`.
pub open spec fn stage_reads(stage: Stage, expect: nat) -> bool {
    match stage {
        Stage::Method => expect == 2,
        Stage::Auth => expect == 2,
        Stage::ReplyHead => expect == 4,
        Stage::DomainLength => expect == 1,
        Stage::DomainTail => 2 <= expect <= MAX_FIELD + 2,
        Stage::BoundV4 => expect == 6,
        Stage::BoundV6 => expect == 18,
        Stage::Finished => true,
    }
}

/// The negotiation moves to `stage` and reads `expect` bytes, writing nothing.
pub open spec fn step_read(n: NegotiationView, stage: Stage, expect: nat) -> (
    NegotiationView,
    StepView,
) {
    (n.at(stage, expect), StepView::Exchange { send: Seq::<u8>::empty(), expect })
}

/// The negotiation ends with a failure of the SOCKS5 protocol.
pub open spec fn step_fail(n: NegotiationView, reason: Seq<char>) -> (NegotiationView, StepView) {
    (n.finished(), StepView::Failed { kind: ErrorKind::Socks5, text: reason })
}

/// The negotiation writes its request and reads the reply head; or, where
/// no request can be made, it ends with the configuration error that says
/// why.
pub open spec fn step_request(n: NegotiationView) -> (NegotiationView, StepView) {
    match n.refusal {
        Some(reason) => (n.finished(), StepView::Failed { kind: ErrorKind::Config, text: reason }),
        None => (n.at(Stage::ReplyHead, 4), StepView::Exchange { send: n.request, expect: 4 }),
    }
}

/// The negotiation ends with success: a tunnel, or the relay's address
/// read from `reply`.
pub open spec fn step_success(n: NegotiationView, layout: BoundAddress, reply: Seq<u8>) -> (
    NegotiationView,
    StepView,
) {
    (
        n.finished(),
        match n.command {
            Command::Connect => StepView::Connected,
            Command::UdpAssociate => StepView::Associated(bound_address(layout, reply)),
        },
    )
}

/// The transition of a negotiation that is handed `reply`: its next state
/// and what the caller does next.
pub open spec fn negotiation_step(n: NegotiationView, reply: Seq<u8>) -> (
    NegotiationView,
    StepView,
) {
    match n.stage {
        Stage::Method => match method_reply_meaning(reply) {
            Err(reason) => step_fail(n, reason),
            Ok(MethodChoice::NoAuth) => step_request(n),
            Ok(MethodChoice::UserPass) => if n.username is None {
                step_fail(n, "Username required for authentication"@)
            } else if n.password is None {
                step_fail(n, "Password required for authentication"@)
            } else {
                (
                    n.at(Stage::Auth, 2),
                    StepView::Exchange {
                        send: auth_request_wire(n.username->0, n.password->0),
                        expect: 2,
                    },
                )
            },
        },
        Stage::Auth => match auth_reply_meaning(reply) {
            Some(reason) => step_fail(n, reason),
            None => step_request(n),
        },
        Stage::ReplyHead => match reply_head_meaning(n.command, reply) {
            Err(reason) => step_fail(n, reason),
            Ok(BoundAddress::V4) => step_read(n, Stage::BoundV4, 6),
            Ok(BoundAddress::V6) => step_read(n, Stage::BoundV6, 18),
            Ok(BoundAddress::Domain) => step_read(n, Stage::DomainLength, 1),
        },
        Stage::DomainLength => step_read(n, Stage::DomainTail, (reply[0] + 2) as nat),
        Stage::DomainTail => step_success(n, BoundAddress::Domain, reply),
        Stage::BoundV4 => step_success(n, BoundAddress::V4, reply),
        Stage::BoundV6 => step_success(n, BoundAddress::V6, reply),
        Stage::Finished => step_fail(n, Seq::<char>::empty()),
    }
}

/// Without authentication a CONNECT takes three exchanges after the
/// greeting: the method reply brings the request out, the reply head of an
/// IPv4 bound address asks for six more bytes, and those end the
/// negotiation with the tunnel open.
pub proof fn lemma_connect_exchanges(n: NegotiationView, reserved: u8, bound: Seq<u8>)
    requires
        n.stage == Stage::Method,
        n.command == Command::Connect,
        n.refusal is None,
    ensures
        ({
            let first = negotiation_step(n, seq![SOCKS_VERSION, METHOD_NONE]);
            let second = negotiation_step(first.0, seq![SOCKS_VERSION, 0u8, reserved, ATYP_IPV4]);
            let third = negotiation_step(second.0, bound);
            &&& first.1 == (StepView::Exchange { send: n.request, expect: 4 })
            &&& second.1 == (StepView::Exchange { send: Seq::<u8>::empty(), expect: 6 })
            &&& third.1 == StepView::Connected
            &&& third.0.stage == Stage::Finished
        }),
{
}

/// Where the proxy asks for username and password and both are set, the
/// credentials go out first, and the request follows once the proxy has
/// accepted them.
pub proof fn lemma_authenticated_exchanges(n: NegotiationView)
    requires
        n.stage == Stage::Method,
        n.username is Some,
        n.password is Some,
        n.refusal is None,
    ensures
        ({
            let first = negotiation_step(n, seq![SOCKS_VERSION, METHOD_USER_PASS]);
            let second = negotiation_step(first.0, seq![AUTH_VERSION, 0u8]);
            &&& first.1 == (StepView::Exchange {
                send: auth_request_wire(n.username->0, n.password->0),
                expect: 2,
            })
            &&& second.1 == (StepView::Exchange { send: n.request, expect: 4 })
        }),
{
}

/// A target that is no good is refused only when its request is due: the
/// greeting is answered first, and then the negotiation ends with the
/// configuration error, with nothing more written.
pub proof fn lemma_refusal_follows_greeting(n: NegotiationView, reason: Seq<char>)
    requires
        n.stage == Stage::Method,
        n.refusal == Some(reason),
    ensures
        negotiation_step(n, seq![SOCKS_VERSION, METHOD_NONE]).1 == (StepView::Failed {
            kind: ErrorKind::Config,
            text: reason,
        }),
        negotiation_step(n, seq![SOCKS_VERSION, METHOD_NONE]).0.stage == Stage::Finished,
{
}

/// The reply to a UDP ASSOCIATE may name the relay by a domain name: the
/// reply head asks for the length byte, the length byte for the name and
/// the port, and those end the negotiation with the relay at that name and
/// port.
pub proof fn lemma_relay_by_name(n: NegotiationView, reserved: u8, name: Seq<u8>, port: u16)
    requires
        n.stage == Stage::ReplyHead,
        n.command == Command::UdpAssociate,
        name.len() <= MAX_FIELD,
    ensures
        ({
            let first = negotiation_step(n, seq![SOCKS_VERSION, 0u8, reserved, ATYP_DOMAIN]);
            let second = negotiation_step(first.0, seq![name.len() as u8]);
            let third = negotiation_step(second.0, name + port_wire(port));
            &&& first.1 == (StepView::Exchange { send: Seq::<u8>::empty(), expect: 1 })
            &&& second.1 == (StepView::Exchange {
                send: Seq::<u8>::empty(),
                expect: name.len() + 2,
            })
            &&& third.1 == StepView::Associated(
                RelayAddressView { host: HostView::Domain(name), port },
            )
            &&& third.0.stage == Stage::Finished
        }),
{
    let tail = name + port_wire(port);
    assert(tail.subrange(0, tail.len() - 2) =~= name);
    let hi = (port / 256) as u8;
    let lo = (port % 256) as u8;
    assert(tail[tail.len() - 2] == hi && tail[tail.len() - 1] == lo);
    assert(port_from_wire(hi, lo) == port);
}

/// A negotiation goes on exactly as long as it asks for an exchange: after
/// a failure, an open tunnel or a standing association it is finished.
pub proof fn lemma_negotiation_ends(n: NegotiationView, reply: Seq<u8>)
    requires
        n.stage != Stage::Finished,
        reply.len() == n.expect,
        n.wf(),
    ensures
        negotiation_step(n, reply).1 is Exchange <==> negotiation_step(n, reply).0.stage
            != Stage::Finished,
        negotiation_step(n, reply).1 matches StepView::Exchange { expect, .. } ==> expect
            == negotiation_step(n, reply).0.expect,
        negotiation_step(n, reply).0.wf(),
{
}

/// The bytes of an optional text.
pub open spec fn optional_bytes(text: Option<String>) -> Option<Seq<u8>> {
    match text {
        Some(t) => Some(encode_utf8(t@)),
        None => None,
    }
}

/// The characters of an optional text.
pub open spec fn optional_text(text: Option<String>) -> Option<Seq<char>> {
    match text {
        Some(t) => Some(t@),
        None => None,
    }
}

/// The bytes of an optional text, given by its characters.
pub open spec fn text_bytes(text: Option<Seq<char>>) -> Option<Seq<u8>> {
    match text {
        Some(t) => Some(encode_utf8(t)),
        None => None,
    }
}

impl View for Negotiation {
    type V = NegotiationView;

    closed spec fn view(&self) -> NegotiationView {
        NegotiationView {
            command: self.command,
            stage: self.stage,
            expect: self.expect as nat,
            username: optional_bytes(self.username),
            password: optional_bytes(self.password),
            request: self.request@,
            refusal: optional_text(self.refusal),
        }
    }
}

impl Negotiation {
    /// Whether the negotiation has ended.
    pub fn is_finished(&self) -> (b: bool)
        ensures
            b == (self@.stage == Stage::Finished),
    {
        self.stage == Stage::Finished
    }

    /// How many bytes the next reply has.
    pub fn expected(&self) -> (n: usize)
        ensures
            n == self@.expect,
    {
        self.expect
    }

    /// Ends the negotiation with the protocol failure `content`.
    fn fail(&mut self, content: &str) -> (step: Step)
        ensures
            (final(self)@, step@) == step_fail(old(self)@, content@),
    {
        self.stage = Stage::Finished;
        self.expect = 0;
        Step::Failed(NetworkTestError::Socks5(message(content)))
    }

    /// Ends the negotiation with the protocol failure `e`.
    fn fail_with(&mut self, e: NetworkTestError) -> (step: Step)
        requires
            e is Socks5,
        ensures
            (final(self)@, step@) == step_fail(old(self)@, e.spec_message()),
    {
        self.stage = Stage::Finished;
        self.expect = 0;
        Step::Failed(e)
    }

    /// Moves on to reading `expect` bytes at `stage`, with nothing to write.
    fn read(&mut self, stage: Stage, expect: usize) -> (step: Step)
        ensures
            (final(self)@, step@) == step_read(old(self)@, stage, expect as nat),
    {
        self.stage = stage;
        self.expect = expect;
        Step::Exchange { send: Vec::new(), expect }
    }

    /// Moves on to sending the request and reading the reply head, or ends
    /// the negotiation where no request can be made.
    fn send_request(&mut self) -> (step: Step)
        ensures
            (final(self)@, step@) == step_request(old(self)@),
    {
        let refused = match &self.refusal {
            Some(reason) => Some(reason.clone()),
            None => None,
        };
        match refused {
            Some(reason) => {
                self.stage = Stage::Finished;
                self.expect = 0;
                Step::Failed(NetworkTestError::Config(reason))
            },
            None => {
                self.stage = Stage::ReplyHead;
                self.expect = 4;
                Step::Exchange { send: self.request.clone(), expect: 4 }
            },
        }
    }

    /// Ends the negotiation with success.
    fn succeed(&mut self, layout: BoundAddress, reply: &[u8]) -> (step: Step)
        requires
            tail_fits(layout, reply@),
        ensures
            (final(self)@, step@) == step_success(old(self)@, layout, reply@),
    {
        self.stage = Stage::Finished;
        self.expect = 0;
        match self.command {
            Command::Connect => Step::Connected,
            Command::UdpAssociate => Step::Associated(parse_bound_address(layout, reply)),
        }
    }

    /// Moves on after the method reply `choice`.
    fn after_method(&mut self, choice: MethodChoice) -> (step: Step)
        requires
            old(self)@.stage == Stage::Method,
            old(self)@.wf(),
        ensures
            (final(self)@, step@) == match choice {
                MethodChoice::NoAuth => step_request(old(self)@),
                MethodChoice::UserPass => if old(self)@.username is None {
                    step_fail(old(self)@, "Username required for authentication"@)
                } else if old(self)@.password is None {
                    step_fail(old(self)@, "Password required for authentication"@)
                } else {
                    (
                        old(self)@.at(Stage::Auth, 2),
                        StepView::Exchange {
                            send: auth_request_wire(
                                old(self)@.username->0,
                                old(self)@.password->0,
                            ),
                            expect: 2,
                        },
                    )
                },
            },
    {
        match choice {
            MethodChoice::NoAuth => self.send_request(),
            MethodChoice::UserPass => {
                let send = match &self.username {
                    None => None,
                    Some(username) => match &self.password {
                        None => None,
                        Some(password) => Some(auth_request(username.as_str(), password.as_str())),
                    },
                };
                match send {
                    Some(send) => {
                        self.stage = Stage::Auth;
                        self.expect = 2;
                        Step::Exchange { send, expect: 2 }
                    },
                    None => if self.username.is_none() {
                        self.fail("Username required for authentication")
                    } else {
                        self.fail("Password required for authentication")
                    },
                }
            },
        }
    }

    /// Takes the bytes that were read for the last [`Step::Exchange`] and
    /// says what comes next.
    pub fn advance(&mut self, reply: &[u8]) -> (step: Step)
        requires
            old(self)@.stage != Stage::Finished,
            old(self)@.wf(),
            reply@.len() == old(self)@.expect,
        ensures
            (final(self)@, step@) == negotiation_step(old(self)@, reply@),
            final(self)@.wf(),
            step is Exchange <==> final(self)@.stage != Stage::Finished,
            step matches Step::Exchange { expect, .. } ==> expect == final(self)@.expect,
            step matches Step::Associated(relay) ==> relay@.host.wf(),
    {
        match self.stage {
            Stage::Method => match parse_method_reply(reply) {
                Err(e) => self.fail_with(e),
                Ok(choice) => self.after_method(choice),
            },
            Stage::Auth => match parse_auth_reply(reply) {
                Err(e) => self.fail_with(e),
                Ok(_) => self.send_request(),
            },
            Stage::ReplyHead => match parse_reply_head(self.command, reply) {
                Err(e) => self.fail_with(e),
                Ok(BoundAddress::V4) => self.read(Stage::BoundV4, 6),
                Ok(BoundAddress::V6) => self.read(Stage::BoundV6, 18),
                Ok(BoundAddress::Domain) => self.read(Stage::DomainLength, 1),
            },
            Stage::DomainLength => self.read(Stage::DomainTail, reply[0] as usize + 2),
            Stage::DomainTail => self.succeed(BoundAddress::Domain, reply),
            Stage::BoundV4 => self.succeed(BoundAddress::V4, reply),
            Stage::BoundV6 => self.succeed(BoundAddress::V6, reply),
            Stage::Finished => Step::Connected,
        }
    }
}

/// A SOCKS5 client: where the proxy is and how to approach it. It never
/// changes once built, and may be cloned freely.
#[derive(Clone, Debug)]
pub struct Socks5Client {
    proxy_addr: SocketAddress,
    username: Option<String>,
    password: Option<String>,
    timeout_ns: u64,
}

/// The mathematical value of a [`Socks5Client`].
pub struct Socks5ClientView {
    pub proxy_addr: SocketAddressView,
    pub username: Option<Seq<char>>,
    pub password: Option<Seq<char>>,
    pub timeout_ns: u64,
}

impl Socks5ClientView {
    /// What holds of every client: its credentials fit their length bytes.
    pub open spec fn wf(self) -> bool {
        &&& field_fits(text_bytes(self.username))
        &&& field_fits(text_bytes(self.password))
    }

    /// The negotiation that this client begins for `command`.
    pub open spec fn begins(
        self,
        command: Command,
        request: Seq<u8>,
        refusal: Option<Seq<char>>,
    ) -> (NegotiationView, StepView) {
        (
            NegotiationView {
                command,
                stage: Stage::Method,
                expect: 2,
                username: text_bytes(self.username),
                password: text_bytes(self.password),
                request,
                refusal,
            },
            StepView::Exchange {
                send: greeting_wire(self.username is Some && self.password is Some),
                expect: 2,
            },
        )
    }
}

/// Copies an optional text.
fn copy_optional(text: &Option<String>) -> (r: Option<String>)
    ensures
        r == *text,
{
    match text {
        Some(t) => Some(t.clone()),
        None => None,
    }
}

impl View for Socks5Client {
    type V = Socks5ClientView;

    closed spec fn view(&self) -> Socks5ClientView {
        Socks5ClientView {
            proxy_addr: self.proxy_addr@,
            username: optional_text(self.username),
            password: optional_text(self.password),
            timeout_ns: self.timeout_ns,
        }
    }
}

impl Socks5Client {
    /// A client for the proxy at `proxy_addr`, without credentials, with the
    /// default connect timeout of five seconds.
    pub fn new(proxy_addr: SocketAddress) -> (c: Socks5Client)
        ensures
            c@ == (Socks5ClientView {
                proxy_addr: proxy_addr@,
                username: None,
                password: None,
                timeout_ns: DEFAULT_TIMEOUT_NS,
            }),
            c@.wf(),
    {
        Socks5Client { proxy_addr, username: None, password: None, timeout_ns: DEFAULT_TIMEOUT_NS }
    }

    /// The same client with these credentials, of at most 255 bytes each.
    pub fn with_auth(self, username: String, password: String) -> (c: Socks5Client)
        requires
            encode_utf8(username@).len() <= MAX_FIELD,
            encode_utf8(password@).len() <= MAX_FIELD,
        ensures
            c@ == (Socks5ClientView {
                username: Some(username@),
                password: Some(password@),
                ..self@
            }),
            c@.wf(),
    {
        let mut c = self;
        c.username = Some(username);
        c.password = Some(password);
        c
    }

    /// The same client with this connect timeout, in nanoseconds.
    pub fn with_timeout(self, timeout_ns: u64) -> (c: Socks5Client)
        ensures
            c@ == (Socks5ClientView { timeout_ns, ..self@ }),
            self@.wf() ==> c@.wf(),
    {
        let mut c = self;
        c.timeout_ns = timeout_ns;
        c
    }

    /// The proxy's address.
    pub fn proxy_addr(&self) -> (a: SocketAddress)
        ensures
            a@ == self@.proxy_addr,
    {
        self.proxy_addr
    }

    /// The time allowed for the TCP connection to the proxy, in nanoseconds.
    pub fn timeout_ns(&self) -> (t: u64)
        ensures
            t == self@.timeout_ns,
    {
        self.timeout_ns
    }

    /// Whether the greeting offers username and password: only when both
    /// are configured.
    pub fn offers_credentials(&self) -> (b: bool)
        ensures
            b == (self@.username is Some && self@.password is Some),
    {
        self.username.is_some() && self.password.is_some()
    }

    /// Starts a negotiation that ends with `request`, or with `refusal`.
    fn begin(&self, command: Command, request: Vec<u8>, refusal: Option<String>) -> (r: (
        Negotiation,
        Step,
    ))
        requires
            self@.wf(),
        ensures
            (r.0@, r.1@) == self@.begins(command, request@, optional_text(refusal)),
            r.0@.wf(),
    {
        let negotiation = Negotiation {
            command,
            stage: Stage::Method,
            expect: 2,
            username: copy_optional(&self.username),
            password: copy_optional(&self.password),
            request,
            refusal,
        };
        (negotiation, Step::Exchange { send: greeting(self.offers_credentials()), expect: 2 })
    }

    /// Starts the negotiation of a tunnel to `host` and `port` on a fresh
    /// connection to the proxy. The first step is the greeting.
    pub fn begin_connect(&self, host: &Host, port: u16) -> (r: (Negotiation, Step))
        requires
            self@.wf(),
            host@.wf(),
        ensures
            (r.0@, r.1@) == self@.begins(
                Command::Connect,
                connect_request_wire(host@, port),
                None,
            ),
            r.0@.wf(),
    {
        self.begin(Command::Connect, connect_request(host, port), None)
    }

    /// Starts the negotiation of a tunnel to a target that cannot be asked
    /// for, for the reason given. The greeting and the authentication go as
    /// ever; where the request would go out, the negotiation fails with a
    /// `Config` error of that reason.
    pub fn begin_refused(&self, reason: String) -> (r: (Negotiation, Step))
        requires
            self@.wf(),
        ensures
            (r.0@, r.1@) == self@.begins(Command::Connect, Seq::<u8>::empty(), Some(reason@)),
            r.0@.wf(),
    {
        self.begin(Command::Connect, Vec::new(), Some(reason))
    }

    /// Starts the negotiation of a UDP association on a fresh connection to
    /// the proxy. The first step is the greeting.
    pub fn begin_udp_associate(&self) -> (r: (Negotiation, Step))
        requires
            self@.wf(),
        ensures
            (r.0@, r.1@) == self@.begins(
                Command::UdpAssociate,
                udp_associate_request_wire(),
                None,
            ),
            r.0@.wf(),
    {
        self.begin(Command::UdpAssociate, udp_associate_request(), None)
    }

    /// Whether the client's credentials fit their length bytes, as they do
    /// for every client that this module built.
    pub fn is_valid(&self) -> (b: bool)
        ensures
            b == self@.wf(),
    {
        let user = match &self.username {
            Some(u) => fits_length_byte(u.as_str()),
            None => true,
        };
        let pass = match &self.password {
            Some(p) => fits_length_byte(p.as_str()),
            None => true,
        };
        user && pass
    }
}

/// The index of the rightmost colon of `s`, or -1 where it has none.
pub open spec fn rightmost_colon(s: Seq<char>) -> int
    decreases s.len(),
{
    if s.len() == 0 {
        -1
    } else if s.last() == ':' {
        s.len() - 1
    } else {
        rightmost_colon(s.drop_last())
    }
}

/// What an address text means: the text is split at its rightmost colon
/// into a host, taken as it stands, and a port in decimal.
pub open spec fn parse_address_meaning(s: Seq<char>) -> Option<(Seq<char>, u16)> {
    let colon = rightmost_colon(s);
    if colon < 0 {
        None
    } else {
        match parse_unsigned(s.subrange(colon + 1, s.len() as int), 65535) {
            Some(port) => Some((s.subrange(0, colon), port as u16)),
            None => None,
        }
    }
}

/// The text of the error for an address that means nothing.
pub open spec fn parse_address_error(s: Seq<char>) -> Seq<char> {
    let colon = rightmost_colon(s);
    if colon < 0 {
        "Invalid address format: "@ + s
    } else {
        "Invalid port: "@ + s.subrange(colon + 1, s.len() as int)
    }
}

/// The rightmost colon is a colon, and no colon stands to its right.
pub proof fn lemma_rightmost_colon(s: Seq<char>)
    ensures
        -1 <= rightmost_colon(s) < s.len(),
        rightmost_colon(s) >= 0 ==> s[rightmost_colon(s)] == ':',
        forall|j: int| rightmost_colon(s) < j < s.len() ==> #[trigger] s[j] != ':',
    decreases s.len(),
{
    if s.len() > 0 && s.last() != ':' {
        let p = s.drop_last();
        lemma_rightmost_colon(p);
        assert forall|j: int| rightmost_colon(s) < j < s.len() implies #[trigger] s[j] != ':' by {
            if j < p.len() {
                assert(p[j] == s[j]);
            }
        }
    }
}

/// A colon with no colon to its right is the rightmost colon.
pub proof fn lemma_rightmost_colon_is(s: Seq<char>, i: int)
    requires
        0 <= i < s.len(),
        s[i] == ':',
        forall|j: int| i < j < s.len() ==> #[trigger] s[j] != ':',
    ensures
        rightmost_colon(s) == i,
    decreases s.len(),
{
    if i < s.len() - 1 {
        let p = s.drop_last();
        assert(s.last() != ':');
        assert forall|j: int| i < j < p.len() implies #[trigger] p[j] != ':' by {
            assert(p[j] == s[j]);
        }
        lemma_rightmost_colon_is(p, i);
    }
}

/// Writing a host, a colon and a port in decimal, and reading the text
/// back, gives the host and the port again, whatever the host holds.
pub proof fn lemma_parse_address_round_trip(host: Seq<char>, port: u16)
    ensures
        parse_address_meaning(host + seq![':'] + decimal_digits(port as nat)) == Some(
            (host, port),
        ),
{
    let digits = decimal_digits(port as nat);
    let s = host + seq![':'] + digits;
    let i = host.len() as int;
    lemma_decimal_digits(port as nat);
    assert forall|j: int| i < j < s.len() implies #[trigger] s[j] != ':' by {
        assert(s[j] == digits[j - i - 1]);
    }
    lemma_rightmost_colon_is(s, i);
    assert(s.subrange(i + 1, s.len() as int) =~= digits);
    assert(s.subrange(0, i) =~= host);
    lemma_parse_decimal_digits(port as nat, 65535);
}

/// Splits `addr` at its rightmost colon into host and port.
///
/// Fails with a `Config` error where `addr` has no colon, or where what
/// follows the rightmost colon is no port.
pub fn parse_address(addr: &str) -> (r: Result<(String, u16), NetworkTestError>)
    ensures
        match r {
            Ok((host, port)) => parse_address_meaning(addr@) == Some((host@, port)),
            Err(e) => parse_address_meaning(addr@) is None && e is Config && e.spec_message()
                == parse_address_error(addr@),
        },
{
    let n: usize = addr.unicode_len();
    let mut colon: Option<usize> = None;
    let mut i: usize = 0;
    for c in it: addr.chars()
        invariant
            it.seq() == addr@,
            n == addr@.len(),
            i == it.index(),
            match colon {
                Some(at) => at < i && rightmost_colon(addr@.subrange(0, i as int)) == at,
                None => rightmost_colon(addr@.subrange(0, i as int)) == -1,
            },
    {
        proof {
            let next = addr@.subrange(0, i + 1);
            assert(next.drop_last() =~= addr@.subrange(0, i as int));
            assert(next.last() == c);
        }
        if c == ':' {
            colon = Some(i);
        }
        i = i + 1;
    }
    assert(addr@.subrange(0, i as int) =~= addr@);
    match colon {
        None => {
            let mut text = String::from_str("Invalid address format: ");
            text.append(addr);
            Err(NetworkTestError::Config(text))
        },
        Some(at) => {
            let port_text = addr.substring_char(at + 1, n);
            match parse_decimal(port_text, 65535) {
                Some(port) => {
                    let host = String::from_str(addr.substring_char(0, at));
                    Ok((host, port as u16))
                },
                None => {
                    let mut text = String::from_str("Invalid port: ");
                    text.append(port_text);
                    Err(NetworkTestError::Config(text))
                },
            }
        },
    }
}

impl Socks5Client {
    /// Splits `addr` at its rightmost colon into host and port, as
    /// [`parse_address`] does.
    pub fn parse_address(&self, addr: &str) -> (r: Result<(String, u16), NetworkTestError>)
        ensures
            match r {
                Ok((host, port)) => parse_address_meaning(addr@) == Some((host@, port)),
                Err(e) => parse_address_meaning(addr@) is None && e is Config && e.spec_message()
                    == parse_address_error(addr@),
            },
    {
        parse_address(addr)
    }
}

/// Why a relayed datagram is refused.
#[derive(Clone, Copy, Debug, PartialEq, Eq, Structural)]
pub enum UdpFault {
    /// Fewer than ten bytes.
    TooShort,
    /// A reserved byte is not zero.
    BadHeader,
    /// The fragment byte is not zero.
    Fragmented,
    /// The domain name and port run past the end.
    DomainTooShort,
    /// Fewer than the 22 bytes of an IPv6 header.
    Ipv6TooShort,
    /// An address type that is none of the three.
    UnsupportedType(u8),
}

/// The text of the error for a refused datagram.
pub open spec fn udp_fault_text(fault: UdpFault) -> Seq<char> {
    match fault {
        UdpFault::TooShort => "Invalid SOCKS5 UDP packet: too short"@,
        UdpFault::BadHeader => "Invalid SOCKS5 UDP packet: bad header"@,
        UdpFault::Fragmented => "Fragmentation not supported"@,
        UdpFault::DomainTooShort => "Invalid domain UDP packet: too short"@,
        UdpFault::Ipv6TooShort => "Invalid IPv6 UDP packet"@,
        UdpFault::UnsupportedType(t) => "Unsupported address type: "@ + decimal_digits(t as nat),
    }
}

/// The header of a relayed datagram: who sent the payload, and where the
/// payload starts.
pub struct UdpHeader {
    pub origin: HostView,
    pub port: u16,
    pub header_len: int,
}

/// What the bytes of a relayed datagram mean.
pub open spec fn parse_udp_datagram(b: Seq<u8>) -> std::result::Result<UdpHeader, UdpFault> {
    if b.len() < 10 {
        Err(UdpFault::TooShort)
    } else if b[0] != 0 || b[1] != 0 {
        Err(UdpFault::BadHeader)
    } else if b[2] != 0 {
        Err(UdpFault::Fragmented)
    } else if b[3] == ATYP_IPV4 {
        Ok(
            UdpHeader {
                origin: HostView::V4(b.subrange(4, 8)),
                port: port_from_wire(b[8], b[9]),
                header_len: 10,
            },
        )
    } else if b[3] == ATYP_DOMAIN {
        let name_len = b[4] as int;
        if b.len() < 7 + name_len {
            Err(UdpFault::DomainTooShort)
        } else {
            Ok(
                UdpHeader {
                    origin: HostView::Domain(b.subrange(5, 5 + name_len)),
                    port: port_from_wire(b[5 + name_len], b[6 + name_len]),
                    header_len: 7 + name_len,
                },
            )
        }
    } else if b[3] == ATYP_IPV6 {
        if b.len() < 22 {
            Err(UdpFault::Ipv6TooShort)
        } else {
            Ok(
                UdpHeader {
                    origin: HostView::V6(b.subrange(4, 20)),
                    port: port_from_wire(b[20], b[21]),
                    header_len: 22,
                },
            )
        }
    } else {
        Err(UdpFault::UnsupportedType(b[3]))
    }
}

/// A datagram that was framed for a target is read back as that target
/// and that payload: for an IPv4 or IPv6 target always, for a domain name
/// whenever name and payload together have at least three bytes, so that
/// the datagram reaches the ten bytes that every reader asks for.
pub proof fn lemma_udp_round_trip(host: HostView, port: u16, payload: Seq<u8>)
    requires
        host.wf(),
        host matches HostView::Domain(name) ==> name.len() + payload.len() >= 3,
    ensures
        parse_udp_datagram(udp_datagram_wire(host, port, payload)) matches Ok(header)
            && header.origin == host && header.port == port && header.header_len
            == udp_datagram_wire(host, port, payload).len() - payload.len()
            && udp_datagram_wire(host, port, payload).subrange(
            header.header_len,
            udp_datagram_wire(host, port, payload).len() as int,
        ) == payload,
{
    let wire = udp_datagram_wire(host, port, payload);
    let hi = (port / 256) as u8;
    let lo = (port % 256) as u8;
    assert(port_from_wire(hi, lo) == port);
    match host {
        HostView::V4(o) => {
            assert(wire.subrange(4, 8) =~= o);
            assert(wire[8] == hi && wire[9] == lo);
            assert(wire.subrange(10, wire.len() as int) =~= payload);
        },
        HostView::V6(o) => {
            assert(wire.subrange(4, 20) =~= o);
            assert(wire[20] == hi && wire[21] == lo);
            assert(wire.subrange(22, wire.len() as int) =~= payload);
        },
        HostView::Domain(name) => {
            let k = name.len() as int;
            assert(wire[4] == k as u8);
            assert(wire.subrange(5, 5 + k) =~= name);
            assert(wire[5 + k] == hi && wire[6 + k] == lo);
            assert(wire.subrange(7 + k, wire.len() as int) =~= payload);
        },
    }
}

/// The UDP side of an association: the relay that datagrams are sent to.
/// The sockets that carry them belong to the caller.
#[derive(Clone, Debug)]
pub struct Socks5UdpRelay {
    pub relay_addr: RelayAddress,
}

impl Socks5UdpRelay {
    /// The relay side of an association whose relay listens at `relay_addr`.
    pub fn new(relay_addr: RelayAddress) -> (r: Socks5UdpRelay)
        ensures
            r.relay_addr == relay_addr,
    {
        Socks5UdpRelay { relay_addr }
    }

    /// Frames `data` for `host` and `port`: what is sent to the relay.
    pub fn encapsulate_udp_packet(&self, data: &[u8], host: &Host, port: u16) -> (packet: Vec<u8>)
        requires
            host@.wf(),
        ensures
            packet@ == udp_datagram_wire(host@, port, data@),
    {
        let mut packet: Vec<u8> = Vec::new();
        packet.push(0);
        packet.push(0);
        packet.push(0);
        append_address(&mut packet, host);
        append_port(&mut packet, port);
        append_bytes(&mut packet, data);
        assert(packet@ =~= udp_datagram_wire(host@, port, data@));
        packet
    }

    /// Reads the header of the datagram in the first `n` bytes of `buf`.
    /// Returns where the payload starts, and who sent it.
    pub fn parse_udp_header(&self, buf: &[u8], n: usize) -> (r: Result<
        (usize, Host, u16),
        NetworkTestError,
    >)
        requires
            n <= buf@.len(),
        ensures
            match r {
                Ok((header_len, origin, port)) => parse_udp_datagram(buf@.subrange(0, n as int))
                    == Ok::<UdpHeader, UdpFault>(
                    UdpHeader { origin: origin@, port, header_len: header_len as int },
                ) && header_len <= n && origin@.wf(),
                Err(e) => e is Connection && (parse_udp_datagram(buf@.subrange(0, n as int))
                    matches Err(fault) && e.spec_message() == udp_fault_text(fault)),
            },
    {
        let ghost b = buf@.subrange(0, n as int);
        assert(forall|i: int| 0 <= i < n ==> b[i] == buf@[i]);
        if n < 10 {
            return Err(NetworkTestError::Connection(message("Invalid SOCKS5 UDP packet: too short")));
        }
        if buf[0] != 0 || buf[1] != 0 {
            return Err(
                NetworkTestError::Connection(message("Invalid SOCKS5 UDP packet: bad header")),
            );
        }
        if buf[2] != 0 {
            return Err(NetworkTestError::Connection(message("Fragmentation not supported")));
        }
        let atyp = buf[3];
        if atyp == ATYP_IPV4 {
            let o = read_octets4(buf, 4);
            assert(o@ =~= b.subrange(4, 8));
            Ok((10, Host::V4(o), read_port(buf[8], buf[9])))
        } else if atyp == ATYP_DOMAIN {
            let name_len = buf[4] as usize;
            if n < 7 + name_len {
                return Err(
                    NetworkTestError::Connection(message("Invalid domain UDP packet: too short")),
                );
            }
            let mut name: Vec<u8> = Vec::new();
            append_bytes(&mut name, vstd::slice::slice_subrange(buf, 5, 5 + name_len));
            assert(name@ =~= b.subrange(5, 5 + name_len));
            Ok(
                (
                    7 + name_len,
                    Host::Domain(name),
                    read_port(buf[5 + name_len], buf[6 + name_len]),
                ),
            )
        } else if atyp == ATYP_IPV6 {
            if n < 22 {
                return Err(NetworkTestError::Connection(message("Invalid IPv6 UDP packet")));
            }
            let o = read_octets16(buf, 4);
            assert(o@ =~= b.subrange(4, 20));
            Ok((22, Host::V6(o), read_port(buf[20], buf[21])))
        } else {
            Err(
                NetworkTestError::Connection(
                    message_with_number("Unsupported address type: ", atyp),
                ),
            )
        }
    }

    /// Unwraps the datagram in the first `n` bytes of `buf`: moves the
    /// payload to the front of `buf` and returns its length and who sent it.
    /// The bytes of `buf` behind the payload stay as they were. On an error
    /// `buf` is unchanged.
    pub fn decapsulate_udp_packet(&self, buf: &mut Vec<u8>, n: usize) -> (r: Result<
        (usize, Host, u16),
        NetworkTestError,
    >)
        requires
            n <= old(buf)@.len(),
        ensures
            final(buf)@.len() == old(buf)@.len(),
            match r {
                Ok((len, origin, port)) => len <= n && parse_udp_datagram(
                    old(buf)@.subrange(0, n as int),
                ) == Ok::<UdpHeader, UdpFault>(
                    UdpHeader { origin: origin@, port, header_len: n - len },
                ) && origin@.wf() && final(buf)@.subrange(0, len as int) == old(buf)@.subrange(
                    n - len,
                    n as int,
                ) && final(buf)@.subrange(len as int, final(buf)@.len() as int) == old(
                    buf,
                )@.subrange(len as int, old(buf)@.len() as int),
                Err(e) => final(buf)@ == old(buf)@ && e is Connection && (parse_udp_datagram(
                    old(buf)@.subrange(0, n as int),
                ) matches Err(fault) && e.spec_message() == udp_fault_text(fault)),
            },
    {
        match self.parse_udp_header(buf.as_slice(), n) {
            Err(e) => Err(e),
            Ok((header_len, origin, port)) => {
                let len = n - header_len;
                let mut i: usize = 0;
                while i < len
                    invariant
                        i <= len,
                        len == n - header_len,
                        n <= buf@.len(),
                        buf@.len() == old(buf)@.len(),
                        forall|j: int| 0 <= j < i ==> buf@[j] == old(buf)@[header_len + j],
                        forall|j: int| i <= j < buf@.len() ==> buf@[j] == old(buf)@[j],
                    decreases len - i,
                {
                    let byte = buf[i + header_len];
                    buf.set(i, byte);
                    i = i + 1;
                }
                assert(buf@.subrange(0, len as int) =~= old(buf)@.subrange(n - len, n as int));
                assert(buf@.subrange(len as int, buf@.len() as int) =~= old(buf)@.subrange(
                    len as int,
                    old(buf)@.len() as int,
                ));
                Ok((len, origin, port))
            },
        }
    }
}

} // verus!
