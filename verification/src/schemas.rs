//! The records of one snapshot: decoded socket entries, attributed
//! connections, and the options that select among them.

use vstd::prelude::*;
use crate::text::{dec_bytes, hex_bytes_lower, push_decimal, push_hex_lower};

verus! {

/// Transport protocol of a socket table.
#[derive(Debug, Clone, Copy, PartialEq, Eq, Structural)]
pub enum Protocol {
    Tcp,
    Udp,
}

/// Address family of an endpoint.
#[derive(Debug, Clone, Copy, PartialEq, Eq, Structural)]
pub enum AddressFamily {
    V4,
    V6,
}

/// An address in network order: one 32-bit word for IPv4, four for IPv6, the
/// most significant octet of each word first on the wire.
#[derive(Debug, Clone, Copy, PartialEq, Eq, Structural)]
pub enum IpAddress {
    V4(u32),
    V6(u32, u32, u32, u32),
}

/// An address with its port.
#[derive(Debug, Clone, Copy, PartialEq, Eq, Structural)]
pub struct Endpoint {
    pub address: IpAddress,
    pub port: u16,
}

/// Symbolic connection state. `Open` is the single pseudo-state of UDP.
#[derive(Debug, Clone, Copy, PartialEq, Eq, Structural)]
pub enum SocketState {
    Established,
    SynSent,
    SynRecv,
    FinWait1,
    FinWait2,
    TimeWait,
    Close,
    CloseWait,
    LastAck,
    Listen,
    Closing,
    Open,
    Unknown,
}

/// One decoded row of a kernel socket table, not yet attributed.
#[derive(Debug, Clone, Copy, PartialEq, Eq, Structural)]
pub struct SocketEntry {
    pub proto: Protocol,
    pub local: Endpoint,
    pub remote: Endpoint,
    pub state: SocketState,
    pub handle: u64,
}

/// A socket with the process that owns it, as far as it is known: `pid` and
/// `program` are empty where no owner was found.
#[derive(Debug, Clone, PartialEq, Eq)]
pub struct Connection {
    pub proto: Protocol,
    pub local: Endpoint,
    pub remote: Endpoint,
    pub state: SocketState,
    pub pid: String,
    pub program: String,
}

/// Predicates on a connection; all that are present must hold.
#[derive(Debug, Clone, PartialEq, Eq)]
pub struct FilterOptions {
    pub by_proto: Option<String>,
    pub by_remote_address: Option<String>,
    pub by_remote_port: Option<String>,
    pub by_local_port: Option<String>,
    pub by_program: Option<String>,
    pub by_pid: Option<String>,
    pub by_open: bool,
    pub by_listen: bool,
    pub exclude_ipv6: bool,
}

/// The lower-case name of a protocol.
pub open spec fn proto_text(p: Protocol) -> Seq<char> {
    match p {
        Protocol::Tcp => "tcp"@,
        Protocol::Udp => "udp"@,
    }
}

/// The upper-case name of a state.
pub open spec fn state_text(s: SocketState) -> Seq<char> {
    match s {
        SocketState::Established => "ESTABLISHED"@,
        SocketState::SynSent => "SYN_SENT"@,
        SocketState::SynRecv => "SYN_RECV"@,
        SocketState::FinWait1 => "FIN_WAIT1"@,
        SocketState::FinWait2 => "FIN_WAIT2"@,
        SocketState::TimeWait => "TIME_WAIT"@,
        SocketState::Close => "CLOSE"@,
        SocketState::CloseWait => "CLOSE_WAIT"@,
        SocketState::LastAck => "LAST_ACK"@,
        SocketState::Listen => "LISTEN"@,
        SocketState::Closing => "CLOSING"@,
        SocketState::Open => "OPEN"@,
        SocketState::Unknown => "UNKNOWN"@,
    }
}

/// Dotted decimal text of an IPv4 word.
pub open spec fn v4_text(w: u32) -> Seq<u8> {
    dec_bytes((w / 16777216) as nat) + seq![46u8] + dec_bytes(((w / 65536) % 256) as nat)
        + seq![46u8] + dec_bytes(((w / 256) % 256) as nat) + seq![46u8] + dec_bytes(
        (w % 256) as nat,
    )
}

/// The two 16-bit groups of one IPv6 word, in lower-case hexadecimal.
pub open spec fn v6_word_text(w: u32) -> Seq<u8> {
    hex_bytes_lower((w / 65536) as nat) + seq![58u8] + hex_bytes_lower((w % 65536) as nat)
}

/// Text of an address: dotted decimal for IPv4; for IPv6 all eight groups in
/// lower-case hexadecimal, separated by colons, with no run of zeros folded.
pub open spec fn address_text(a: IpAddress) -> Seq<u8> {
    match a {
        IpAddress::V4(w) => v4_text(w),
        IpAddress::V6(a, b, c, d) => v6_word_text(a) + seq![58u8] + v6_word_text(b) + seq![58u8]
            + v6_word_text(c) + seq![58u8] + v6_word_text(d),
    }
}

/// Text of an endpoint: the address, a colon, the port in decimal.
pub open spec fn endpoint_text(e: Endpoint) -> Seq<u8> {
    address_text(e.address) + seq![58u8] + dec_bytes(e.port as nat)
}

impl Protocol {
    /// The lower-case name: `tcp` or `udp`.
    pub fn name(&self) -> (r: &'static str)
        ensures
            r@ == proto_text(*self),
    {
        match self {
            Protocol::Tcp => "tcp",
            Protocol::Udp => "udp",
        }
    }
}

impl SocketState {
    /// The upper-case name, such as `LISTEN`.
    pub fn name(&self) -> (r: &'static str)
        ensures
            r@ == state_text(*self),
    {
        match self {
            SocketState::Established => "ESTABLISHED",
            SocketState::SynSent => "SYN_SENT",
            SocketState::SynRecv => "SYN_RECV",
            SocketState::FinWait1 => "FIN_WAIT1",
            SocketState::FinWait2 => "FIN_WAIT2",
            SocketState::TimeWait => "TIME_WAIT",
            SocketState::Close => "CLOSE",
            SocketState::CloseWait => "CLOSE_WAIT",
            SocketState::LastAck => "LAST_ACK",
            SocketState::Listen => "LISTEN",
            SocketState::Closing => "CLOSING",
            SocketState::Open => "OPEN",
            SocketState::Unknown => "UNKNOWN",
        }
    }
}

impl IpAddress {
    /// The family that the address belongs to.
    pub open spec fn spec_family(self) -> AddressFamily {
        match self {
            IpAddress::V4(_) => AddressFamily::V4,
            IpAddress::V6(_, _, _, _) => AddressFamily::V6,
        }
    }

    /// Whether every bit of the address is zero.
    pub open spec fn spec_is_unspecified(self) -> bool {
        match self {
            IpAddress::V4(w) => w == 0,
            IpAddress::V6(a, b, c, d) => a == 0 && b == 0 && c == 0 && d == 0,
        }
    }

    /// The family that the address belongs to.
    #[verifier::when_used_as_spec(spec_family)]
    pub fn family(self) -> (r: AddressFamily)
        ensures
            r == self.spec_family(),
    {
        match self {
            IpAddress::V4(_) => AddressFamily::V4,
            IpAddress::V6(_, _, _, _) => AddressFamily::V6,
        }
    }

    /// Whether every bit of the address is zero.
    #[verifier::when_used_as_spec(spec_is_unspecified)]
    pub fn is_unspecified(self) -> (r: bool)
        ensures
            r == self.spec_is_unspecified(),
    {
        match self {
            IpAddress::V4(w) => w == 0,
            IpAddress::V6(a, b, c, d) => a == 0 && b == 0 && c == 0 && d == 0,
        }
    }

    /// The address as ASCII text.
    pub fn text(self) -> (r: Vec<u8>)
        ensures
            r@ == address_text(self),
    {
        let mut out: Vec<u8> = Vec::new();
        match self {
            IpAddress::V4(w) => {
                push_decimal(&mut out, (w / 16777216) as u64);
                out.push(46);
                push_decimal(&mut out, ((w / 65536) % 256) as u64);
                out.push(46);
                push_decimal(&mut out, ((w / 256) % 256) as u64);
                out.push(46);
                push_decimal(&mut out, (w % 256) as u64);
                proof {
                    assert(out@ =~= v4_text(w));
                }
            },
            IpAddress::V6(a, b, c, d) => {
                push_v6_word(&mut out, a);
                out.push(58);
                push_v6_word(&mut out, b);
                out.push(58);
                push_v6_word(&mut out, c);
                out.push(58);
                push_v6_word(&mut out, d);
                proof {
                    assert(out@ =~= address_text(self));
                }
            },
        }
        out
    }
}

/// Appends the two groups of one IPv6 word.
fn push_v6_word(out: &mut Vec<u8>, w: u32)
    ensures
        final(out)@ == old(out)@ + v6_word_text(w),
{
    push_hex_lower(out, w / 65536);
    out.push(58);
    push_hex_lower(out, w % 65536);
    proof {
        assert(final(out)@ =~= old(out)@ + v6_word_text(w));
    }
}

impl Endpoint {
    /// Whether the endpoint names no peer: a zero address with port zero.
    pub open spec fn spec_is_unset(self) -> bool {
        self.address.spec_is_unspecified() && self.port == 0
    }

    /// Whether the endpoint names no peer: a zero address with port zero.
    #[verifier::when_used_as_spec(spec_is_unset)]
    pub fn is_unset(self) -> (r: bool)
        ensures
            r == self.spec_is_unset(),
    {
        self.address.is_unspecified() && self.port == 0
    }

    /// The endpoint as ASCII text, address and port joined by a colon.
    pub fn text(self) -> (r: Vec<u8>)
        ensures
            r@ == endpoint_text(self),
    {
        let mut out: Vec<u8> = self.address.text();
        out.push(58);
        push_decimal(&mut out, self.port as u64);
        proof {
            assert(out@ =~= endpoint_text(self));
        }
        out
    }
}

impl Connection {
    /// The family of the connection, which is that of its local address.
    pub open spec fn spec_family(&self) -> AddressFamily {
        self.local.address.spec_family()
    }

    /// Whether the connection has a peer.
    pub open spec fn spec_has_remote(&self) -> bool {
        !self.remote.spec_is_unset()
    }

    /// Whether the attribution is whole: a connection that names a program
    /// names its pid too, so that one without a pid is unattributed.
    pub open spec fn spec_well_attributed(&self) -> bool {
        self.pid@.len() == 0 ==> self.program@.len() == 0
    }

    /// The family of the connection, which is that of its local address.
    #[verifier::when_used_as_spec(spec_family)]
    pub fn family(&self) -> (r: AddressFamily)
        ensures
            r == self.spec_family(),
    {
        self.local.address.family()
    }

    /// Whether the connection has a peer.
    #[verifier::when_used_as_spec(spec_has_remote)]
    pub fn has_remote(&self) -> (r: bool)
        ensures
            r == self.spec_has_remote(),
    {
        !self.remote.is_unset()
    }

    /// A copy of the record.
    pub fn duplicate(&self) -> (r: Connection)
        ensures
            r == *self,
    {
        Connection {
            proto: self.proto,
            local: self.local,
            remote: self.remote,
            state: self.state,
            pid: self.pid.clone(),
            program: self.program.clone(),
        }
    }
}

impl FilterOptions {
    /// Options that constrain nothing.
    pub open spec fn spec_none() -> FilterOptions {
        FilterOptions {
            by_proto: None,
            by_remote_address: None,
            by_remote_port: None,
            by_local_port: None,
            by_program: None,
            by_pid: None,
            by_open: false,
            by_listen: false,
            exclude_ipv6: false,
        }
    }

    /// Options that constrain nothing.
    pub fn none() -> (r: FilterOptions)
        ensures
            r == FilterOptions::spec_none(),
    {
        FilterOptions {
            by_proto: None,
            by_remote_address: None,
            by_remote_port: None,
            by_local_port: None,
            by_program: None,
            by_pid: None,
            by_open: false,
            by_listen: false,
            exclude_ipv6: false,
        }
    }
}

} // verus!
