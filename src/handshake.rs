//! The SOCKS5 handshake: a model of the greeting and the request over the
//! buffered bytes, decoders that are invoked again as more bytes arrive,
//! and the replies they owe.

use vstd::prelude::*;
use crate::server::Server;

verus! {

pub const SOCKS_VERSION: u8 = 5;

pub const METHOD_NO_AUTH: u8 = 0;

pub const METHOD_NONE_ACCEPTABLE: u8 = 0xFF;

pub const CMD_CONNECT: u8 = 1;

pub const ATYP_IPV4: u8 = 1;

pub const ATYP_DOMAIN: u8 = 3;

pub const ATYP_IPV6: u8 = 4;

pub const REP_SUCCEEDED: u8 = 0;

pub const REP_GENERAL_FAILURE: u8 = 1;

pub const REP_COMMAND_NOT_SUPPORTED: u8 = 7;

pub const REP_ADDRESS_TYPE_NOT_SUPPORTED: u8 = 8;

/// Why a handshake was rejected.
#[derive(PartialEq, Eq, Structural, Clone, Copy, Debug)]
pub enum HandshakeError {
    UnsupportedVersion,
    NoAcceptableMethod,
    UnsupportedCommand,
    UnsupportedAddressType,
}

/// The outcome of decoding one message from the front of the buffered bytes.
#[derive(Debug)]
pub enum Decode<T> {
    /// More bytes are needed; nothing may be consumed yet.
    Incomplete,
    /// The message, and how many bytes it took.
    Done(T, usize),
    /// The bytes can never form a valid message.
    Failed(HandshakeError),
}

/// A destination as it appears on the wire.
#[derive(Debug)]
pub enum TargetAddr {
    Ipv4 { octets: Vec<u8>, port: u16 },
    Ipv6 { octets: Vec<u8>, port: u16 },
    Domain { name: Vec<u8>, port: u16 },
}

/// The mathematical value of a `TargetAddr`.
pub enum AddrView {
    Ipv4(Seq<u8>, u16),
    Ipv6(Seq<u8>, u16),
    Domain(Seq<u8>, u16),
}

impl View for TargetAddr {
    type V = AddrView;

    open spec fn view(&self) -> AddrView {
        match self {
            TargetAddr::Ipv4 { octets, port } => AddrView::Ipv4(octets@, *port),
            TargetAddr::Ipv6 { octets, port } => AddrView::Ipv6(octets@, *port),
            TargetAddr::Domain { name, port } => AddrView::Domain(name@, *port),
        }
    }
}

impl TargetAddr {
    /// The address fits its wire form: 4 or 16 octets, or a name of at
    /// most 255 bytes.
    pub open spec fn wf(&self) -> bool {
        addr_wf(self@)
    }

    /// Checks `wf`.
    pub fn is_well_formed(&self) -> (r: bool)
        ensures
            r == self.wf(),
    {
        match self {
            TargetAddr::Ipv4 { octets, .. } => octets.len() == 4,
            TargetAddr::Ipv6 { octets, .. } => octets.len() == 16,
            TargetAddr::Domain { name, .. } => name.len() <= 255,
        }
    }
}

pub open spec fn addr_wf(a: AddrView) -> bool {
    match a {
        AddrView::Ipv4(o, _) => o.len() == 4,
        AddrView::Ipv6(o, _) => o.len() == 16,
        AddrView::Domain(n, _) => n.len() <= 255,
    }
}

/// The address used in replies that carry no bound address: 0.0.0.0:0.
pub open spec fn unspecified_addr() -> AddrView {
    AddrView::Ipv4(seq![0u8, 0u8, 0u8, 0u8], 0)
}

/// A port as two big-endian bytes.
pub open spec fn port_bytes(p: u16) -> Seq<u8> {
    seq![(p / 256) as u8, (p % 256) as u8]
}

/// The big-endian port held at `s[i]`, `s[i + 1]`.
pub open spec fn port_at(s: Seq<u8>, i: int) -> u16 {
    (s[i] as int * 256 + s[i + 1] as int) as u16
}

/// ATYP, address and port as they are written on the wire.
pub open spec fn encode_address(a: AddrView) -> Seq<u8> {
    match a {
        AddrView::Ipv4(o, p) => seq![ATYP_IPV4] + o + port_bytes(p),
        AddrView::Ipv6(o, p) => seq![ATYP_IPV6] + o + port_bytes(p),
        AddrView::Domain(n, p) => seq![ATYP_DOMAIN, n.len() as u8] + n + port_bytes(p),
    }
}

/// A request reply: `VER | REP | RSV | ATYP | BND.ADDR | BND.PORT`.
pub open spec fn reply_bytes(rep: u8, bound: AddrView) -> Seq<u8> {
    seq![SOCKS_VERSION, rep, 0u8] + encode_address(bound)
}

/// The client offers the "no authentication required" method.
pub open spec fn offers_no_auth(methods: Seq<u8>) -> bool {
    exists|i: int| 0 <= i < methods.len() && methods[i] == METHOD_NO_AUTH
}

/// Decodes `ATYP | DST.ADDR | DST.PORT` from the front of `s`.
pub open spec fn decode_address(s: Seq<u8>) -> Decode<AddrView> {
    if s.len() < 1 {
        Decode::Incomplete
    } else if s[0] == ATYP_IPV4 {
        if s.len() < 7 {
            Decode::Incomplete
        } else {
            Decode::Done(AddrView::Ipv4(s.subrange(1, 5), port_at(s, 5)), 7)
        }
    } else if s[0] == ATYP_IPV6 {
        if s.len() < 19 {
            Decode::Incomplete
        } else {
            Decode::Done(AddrView::Ipv6(s.subrange(1, 17), port_at(s, 17)), 19)
        }
    } else if s[0] == ATYP_DOMAIN {
        if s.len() < 2 || s.len() < 4 + s[1] {
            Decode::Incomplete
        } else {
            Decode::Done(
                AddrView::Domain(s.subrange(2, 2 + s[1]), port_at(s, 2 + s[1])),
                (4 + s[1]) as usize,
            )
        }
    } else {
        Decode::Failed(HandshakeError::UnsupportedAddressType)
    }
}

/// Decodes the greeting `VER | NMETHODS | METHODS` from the front of `s`;
/// its value is the selected method.
pub open spec fn decode_greeting(s: Seq<u8>) -> Decode<u8> {
    if s.len() < 1 {
        Decode::Incomplete
    } else if s[0] != SOCKS_VERSION {
        Decode::Failed(HandshakeError::UnsupportedVersion)
    } else if s.len() < 2 || s.len() < 2 + s[1] {
        Decode::Incomplete
    } else if offers_no_auth(s.subrange(2, 2 + s[1])) {
        Decode::Done(METHOD_NO_AUTH, (2 + s[1]) as usize)
    } else {
        Decode::Failed(HandshakeError::NoAcceptableMethod)
    }
}

/// Decodes the request `VER | CMD | RSV | ATYP | DST.ADDR | DST.PORT` from
/// the front of `s`; its value is the destination.
pub open spec fn decode_request(s: Seq<u8>) -> Decode<AddrView> {
    if s.len() < 1 {
        Decode::Incomplete
    } else if s[0] != SOCKS_VERSION {
        Decode::Failed(HandshakeError::UnsupportedVersion)
    } else if s.len() < 2 {
        Decode::Incomplete
    } else if s[1] != CMD_CONNECT {
        Decode::Failed(HandshakeError::UnsupportedCommand)
    } else if s.len() < 3 {
        Decode::Incomplete
    } else {
        match decode_address(s.subrange(3, s.len() as int)) {
            Decode::Done(a, k) => Decode::Done(a, (k + 3) as usize),
            Decode::Incomplete => Decode::Incomplete,
            Decode::Failed(e) => Decode::Failed(e),
        }
    }
}

/// An executable outcome carrying a `TargetAddr` matches a modelled one.
pub open spec fn same_address_outcome(r: Decode<TargetAddr>, m: Decode<AddrView>) -> bool {
    match m {
        Decode::Incomplete => r is Incomplete,
        Decode::Done(a, k) => r matches Decode::Done(x, j) && x@ == a && j == k && x.wf(),
        Decode::Failed(e) => r matches Decode::Failed(f) && f == e,
    }
}

/// Decodes the greeting at the front of `input`.
pub fn parse_greeting(input: &[u8]) -> (r: Decode<u8>)
    ensures
        r == decode_greeting(input@),
{
    if input.len() < 1 {
        return Decode::Incomplete;
    }
    if let Err(e) = Server::read_version(input[0]) {
        return Decode::Failed(e);
    }
    if input.len() < 2 {
        return Decode::Incomplete;
    }
    let end = 2 + input[1] as usize;
    if input.len() < end {
        return Decode::Incomplete;
    }
    match Server::read_methods(vstd::slice::slice_subrange(input, 2, end)) {
        Ok(m) => Decode::Done(m, end),
        Err(e) => Decode::Failed(e),
    }
}

/// Decodes the request at the front of `input`.
pub fn parse_request(input: &[u8]) -> (r: Decode<TargetAddr>)
    ensures
        same_address_outcome(r, decode_request(input@)),
{
    if input.len() < 1 {
        return Decode::Incomplete;
    }
    if let Err(e) = Server::read_version(input[0]) {
        return Decode::Failed(e);
    }
    if input.len() < 2 {
        return Decode::Incomplete;
    }
    if let Err(e) = Server::read_command(input[1]) {
        return Decode::Failed(e);
    }
    if input.len() < 3 {
        return Decode::Incomplete;
    }
    if let Err(e) = Server::read_reserved(input[2]) {
        return Decode::Failed(e);
    }
    let rest = vstd::slice::slice_subrange(input, 3, input.len());
    match Server::read_address(rest) {
        Decode::Done(a, k) => Decode::Done(a, k + 3),
        Decode::Incomplete => Decode::Incomplete,
        Decode::Failed(e) => Decode::Failed(e),
    }
}

/// A decided greeting stays decided, the same way, whatever bytes follow:
/// a client that splits its greeting into any number of fragments gets the
/// method selection it would get by sending it at once.
pub proof fn lemma_greeting_fragmentation(s: Seq<u8>, k: int)
    requires
        0 <= k <= s.len(),
    ensures
        !(decode_greeting(s.take(k)) is Incomplete) ==> decode_greeting(s.take(k))
            == decode_greeting(s),
{
    let p = s.take(k);
    if p.len() >= 2 && p[0] == SOCKS_VERSION && p.len() >= 2 + p[1] {
        assert(p.subrange(2, 2 + p[1]) =~= s.subrange(2, 2 + s[1]));
    }
}

/// A decided address stays decided, the same way, whatever bytes follow.
pub proof fn lemma_address_fragmentation(s: Seq<u8>, k: int)
    requires
        0 <= k <= s.len(),
    ensures
        !(decode_address(s.take(k)) is Incomplete) ==> decode_address(s.take(k))
            == decode_address(s),
{
    let p = s.take(k);
    if p.len() >= 1 {
        if p[0] == ATYP_IPV4 && p.len() >= 7 {
            assert(p.subrange(1, 5) =~= s.subrange(1, 5));
        } else if p[0] == ATYP_IPV6 && p.len() >= 19 {
            assert(p.subrange(1, 17) =~= s.subrange(1, 17));
        } else if p[0] == ATYP_DOMAIN && p.len() >= 2 && p.len() >= 4 + p[1] {
            assert(p.subrange(2, 2 + p[1]) =~= s.subrange(2, 2 + s[1]));
        }
    }
}

/// A decided request stays decided, the same way, whatever bytes follow.
pub proof fn lemma_request_fragmentation(s: Seq<u8>, k: int)
    requires
        0 <= k <= s.len(),
    ensures
        !(decode_request(s.take(k)) is Incomplete) ==> decode_request(s.take(k))
            == decode_request(s),
{
    let p = s.take(k);
    if p.len() >= 3 {
        let t = s.subrange(3, s.len() as int);
        lemma_address_fragmentation(t, k - 3);
        assert(p.subrange(3, p.len() as int) =~= t.take(k - 3));
    }
}

/// A greeting whose version byte is not 5 is rejected as soon as that byte
/// arrives.
pub proof fn lemma_bad_version_greeting(s: Seq<u8>)
    requires
        s.len() >= 1,
        s[0] != SOCKS_VERSION,
    ensures
        decode_greeting(s) == Decode::<u8>::Failed(HandshakeError::UnsupportedVersion),
{
}

/// A request whose command is not CONNECT is rejected as unsupported, and
/// never decodes to a destination.
pub proof fn lemma_bad_command_request(s: Seq<u8>)
    requires
        s.len() >= 2,
        s[0] == SOCKS_VERSION,
        s[1] != CMD_CONNECT,
    ensures
        decode_request(s) == Decode::<AddrView>::Failed(HandshakeError::UnsupportedCommand),
{
}

/// Decoding the address part of an encoded reply gives back the bound
/// address, and takes exactly its encoding.
pub proof fn lemma_reply_round_trip(rep: u8, bound: AddrView)
    requires
        addr_wf(bound),
    ensures
        ({
            let r = reply_bytes(rep, bound);
            decode_address(r.subrange(3, r.len() as int)) == Decode::Done(
                bound,
                encode_address(bound).len() as usize,
            )
        }),
{
    let r = reply_bytes(rep, bound);
    let e = encode_address(bound);
    assert(r.subrange(3, r.len() as int) =~= e);
    match bound {
        AddrView::Ipv4(o, p) => {
            assert(e.subrange(1, 5) =~= o);
            assert(port_at(e, 5) == p);
        },
        AddrView::Ipv6(o, p) => {
            assert(e.subrange(1, 17) =~= o);
            assert(port_at(e, 17) == p);
        },
        AddrView::Domain(n, p) => {
            assert(e[1] == n.len());
            assert(e.subrange(2, 2 + n.len() as int) =~= n);
            assert(port_at(e, 2 + n.len() as int) == p);
        },
    }
}

} // verus!
