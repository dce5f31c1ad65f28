//! The error taxonomy shared by the client, the probes and the servers.

use vstd::prelude::*;
use vstd::string::StringExecFns;

verus! {

/// `std::io::Error` of the standard library: an operating-system error,
/// carried through unread.
#[verifier::external_type_specification]
#[verifier::external_body]
pub struct ExIoError(std::io::Error);

/// The text `body` behind the text `head`.
fn prefixed(head: &str, body: &str) -> (r: String)
    ensures
        r@ == head@ + body@,
{
    let mut r = String::from_str(head);
    r.append(body);
    r
}

/// What went wrong, by kind. `Timeout` is always told apart from the others,
/// since the probes count timeouts and failures separately.
#[derive(Debug)]
pub enum NetworkTestError {
    /// TCP-level failure, truncated stream, or closed by the peer.
    Connection(String),
    /// Violation of the SOCKS5 wire protocol, or a reply other than success.
    Socks5(String),
    /// An operating-system error that fits no other kind.
    Io(std::io::Error),
    /// The deadline of one operation ran out.
    Timeout(String),
    /// Bad address, bad argument or bad configuration.
    Config(String),
}

/// The five kinds of error, without their payload.
#[derive(Clone, Copy, Debug, PartialEq, Eq, Structural)]
pub enum ErrorKind {
    Connection,
    Socks5,
    Io,
    Timeout,
    Config,
}

impl NetworkTestError {
    /// The kind of `self`.
    pub open spec fn spec_kind(&self) -> ErrorKind {
        match self {
            NetworkTestError::Connection(_) => ErrorKind::Connection,
            NetworkTestError::Socks5(_) => ErrorKind::Socks5,
            NetworkTestError::Io(_) => ErrorKind::Io,
            NetworkTestError::Timeout(_) => ErrorKind::Timeout,
            NetworkTestError::Config(_) => ErrorKind::Config,
        }
    }

    /// The text that `self` carries. An `Io` error carries none of its own.
    pub open spec fn spec_message(&self) -> Seq<char> {
        match self {
            NetworkTestError::Connection(m) => m@,
            NetworkTestError::Socks5(m) => m@,
            NetworkTestError::Io(_) => Seq::empty(),
            NetworkTestError::Timeout(m) => m@,
            NetworkTestError::Config(m) => m@,
        }
    }

    /// The kind of `self`.
    pub fn kind(&self) -> (k: ErrorKind)
        ensures
            k == self.spec_kind(),
    {
        match self {
            NetworkTestError::Connection(_) => ErrorKind::Connection,
            NetworkTestError::Socks5(_) => ErrorKind::Socks5,
            NetworkTestError::Io(_) => ErrorKind::Io,
            NetworkTestError::Timeout(_) => ErrorKind::Timeout,
            NetworkTestError::Config(_) => ErrorKind::Config,
        }
    }

    /// The text that `self` is shown as: the name of its kind, a colon and
    /// the text it carries. For an `Io` error, the operating system's words
    /// follow the colon.
    pub fn describe(&self) -> (r: String)
        ensures
            self.spec_kind() == ErrorKind::Connection ==> r@ == "Connection error: "@
                + self.spec_message(),
            self.spec_kind() == ErrorKind::Socks5 ==> r@ == "SOCKS5 error: "@ + self.spec_message(),
            self.spec_kind() == ErrorKind::Io ==> r@.len() >= "IO error: "@.len() && r@.subrange(
                0,
                "IO error: "@.len() as int,
            ) == "IO error: "@,
            self.spec_kind() == ErrorKind::Timeout ==> r@ == "Timeout error: "@
                + self.spec_message(),
            self.spec_kind() == ErrorKind::Config ==> r@ == "Configuration error: "@
                + self.spec_message(),
    {
        match self {
            NetworkTestError::Connection(m) => prefixed("Connection error: ", m.as_str()),
            NetworkTestError::Socks5(m) => prefixed("SOCKS5 error: ", m.as_str()),
            NetworkTestError::Io(e) => {
                let words = e.to_string();
                let r = prefixed("IO error: ", words.as_str());
                assert(r@.subrange(0, "IO error: "@.len() as int) =~= "IO error: "@);
                r
            },
            NetworkTestError::Timeout(m) => prefixed("Timeout error: ", m.as_str()),
            NetworkTestError::Config(m) => prefixed("Configuration error: ", m.as_str()),
        }
    }

    /// Whether `self` is a timeout.
    pub fn is_timeout(&self) -> (b: bool)
        ensures
            b == (self.spec_kind() == ErrorKind::Timeout),
    {
        match self {
            NetworkTestError::Timeout(_) => true,
            _ => false,
        }
    }
}

} // verus!
