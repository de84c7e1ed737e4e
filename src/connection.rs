//! One proxied connection as a state machine over plain values: the
//! readiness loop hands it the bytes and events it observed, and asks it
//! what to read and write next.

use vstd::prelude::*;
use crate::cursor::ByteCursor;
use crate::handshake::{
    AddrView, Decode, HandshakeError, TargetAddr, parse_greeting, parse_request, decode_greeting,
    decode_request, reply_bytes, unspecified_addr, addr_wf, SOCKS_VERSION, CMD_CONNECT,
    METHOD_NONE_ACCEPTABLE, REP_SUCCEEDED, REP_GENERAL_FAILURE, REP_COMMAND_NOT_SUPPORTED,
    REP_ADDRESS_TYPE_NOT_SUPPORTED,
};
use crate::relay::{Pump, PumpView, fresh_pump, MAX_READ_CHUNK};
use crate::server::Server;

verus! {

/// Where a connection stands in its lifetime.
#[derive(PartialEq, Eq, Structural, Clone, Copy, Debug)]
pub enum Phase {
    AwaitingGreeting,
    AwaitingRequest,
    Connecting,
    Relaying,
    Closing,
}

/// Why the outbound connection to the destination could not be made.
#[derive(PartialEq, Eq, Structural, Clone, Copy, Debug)]
pub enum ConnectFailure {
    General,
    NotAllowed,
    NetworkUnreachable,
    HostUnreachable,
    ConnectionRefused,
}

impl ConnectFailure {
    pub open spec fn reply_code(self) -> u8 {
        match self {
            ConnectFailure::General => 1,
            ConnectFailure::NotAllowed => 2,
            ConnectFailure::NetworkUnreachable => 3,
            ConnectFailure::HostUnreachable => 4,
            ConnectFailure::ConnectionRefused => 5,
        }
    }

    /// The REP code that reports this failure.
    pub fn code(&self) -> (r: u8)
        ensures
            r == self.reply_code(),
    {
        match self {
            ConnectFailure::General => 1,
            ConnectFailure::NotAllowed => 2,
            ConnectFailure::NetworkUnreachable => 3,
            ConnectFailure::HostUnreachable => 4,
            ConnectFailure::ConnectionRefused => 5,
        }
    }
}

/// What one handshake step does to a connection.
pub struct Progress {
    pub phase: Phase,
    /// Bytes owed to the client.
    pub reply: Seq<u8>,
    /// Buffered bytes left once the step consumed its message.
    pub rest: Seq<u8>,
    pub target: Option<AddrView>,
}

/// The reply owed when a greeting is rejected: a refusal of every method,
/// or nothing for a version the server does not speak.
pub open spec fn greeting_failure_reply(e: HandshakeError) -> Seq<u8> {
    if e == HandshakeError::NoAcceptableMethod {
        seq![SOCKS_VERSION, METHOD_NONE_ACCEPTABLE]
    } else {
        Seq::empty()
    }
}

/// The reply owed when a request is rejected.
pub open spec fn request_failure_reply(e: HandshakeError) -> Seq<u8> {
    match e {
        HandshakeError::UnsupportedVersion => Seq::empty(),
        HandshakeError::UnsupportedCommand => reply_bytes(
            REP_COMMAND_NOT_SUPPORTED,
            unspecified_addr(),
        ),
        HandshakeError::UnsupportedAddressType => reply_bytes(
            REP_ADDRESS_TYPE_NOT_SUPPORTED,
            unspecified_addr(),
        ),
        HandshakeError::NoAcceptableMethod => reply_bytes(REP_GENERAL_FAILURE, unspecified_addr()),
    }
}

/// Decoding a request from the buffered bytes `s`.
pub open spec fn request_progress(s: Seq<u8>) -> Progress {
    match decode_request(s) {
        Decode::Incomplete => Progress {
            phase: Phase::AwaitingRequest,
            reply: Seq::empty(),
            rest: s,
            target: None,
        },
        Decode::Done(a, k) => Progress {
            phase: Phase::Connecting,
            reply: Seq::empty(),
            rest: s.subrange(k as int, s.len() as int),
            target: Some(a),
        },
        Decode::Failed(e) => Progress {
            phase: Phase::Closing,
            reply: request_failure_reply(e),
            rest: s,
            target: None,
        },
    }
}

/// Decoding a greeting from the buffered bytes `s`, and then a request from
/// what follows it.
pub open spec fn greeting_progress(s: Seq<u8>) -> Progress {
    match decode_greeting(s) {
        Decode::Incomplete => Progress {
            phase: Phase::AwaitingGreeting,
            reply: Seq::empty(),
            rest: s,
            target: None,
        },
        Decode::Done(m, k) => {
            let p = request_progress(s.subrange(k as int, s.len() as int));
            Progress { reply: seq![SOCKS_VERSION, m] + p.reply, ..p }
        },
        Decode::Failed(e) => Progress {
            phase: Phase::Closing,
            reply: greeting_failure_reply(e),
            rest: s,
            target: None,
        },
    }
}

/// The mathematical state of a connection.
pub struct ConnView {
    pub phase: Phase,
    /// Handshake bytes read from the client and not yet consumed.
    pub pending_input: Seq<u8>,
    /// Handshake replies not yet written to the client.
    pub replies: Seq<u8>,
    /// The decoded destination, while it is being connected to.
    pub target: Option<AddrView>,
    /// Client to destination.
    pub upstream: PumpView,
    /// Destination to client.
    pub downstream: PumpView,
}

impl ConnView {
    /// Both pumps account for their bytes, and a destination is held
    /// exactly while connecting.
    pub open spec fn wf(self) -> bool {
        &&& self.upstream.wf()
        &&& self.downstream.wf()
        &&& (self.phase == Phase::Connecting <==> self.target is Some)
        &&& (self.target matches Some(a) ==> addr_wf(a))
    }

    /// How many bytes the next read from the client may take.
    pub open spec fn client_budget(self) -> int {
        match self.phase {
            Phase::AwaitingGreeting | Phase::AwaitingRequest => MAX_READ_CHUNK as int,
            Phase::Relaying => self.upstream.budget(),
            _ => 0,
        }
    }

    /// How many bytes the next read from the destination may take.
    pub open spec fn dest_budget(self) -> int {
        if self.phase == Phase::Relaying {
            self.downstream.budget()
        } else {
            0
        }
    }

    /// The bytes to write to the client next: replies first, then relayed data.
    pub open spec fn client_outbound(self) -> Seq<u8> {
        if self.replies.len() > 0 {
            self.replies
        } else if self.phase == Phase::Relaying {
            self.downstream.buffered
        } else {
            Seq::empty()
        }
    }

    /// The bytes to write to the destination next.
    pub open spec fn dest_outbound(self) -> Seq<u8> {
        if self.phase == Phase::Relaying {
            self.upstream.buffered
        } else {
            Seq::empty()
        }
    }

    /// Nothing is owed to either side any more: the sockets may be closed.
    pub open spec fn finished(self) -> bool {
        &&& self.replies.len() == 0
        &&& (self.phase == Phase::Closing || (self.phase == Phase::Relaying
            && self.upstream.drained() && self.downstream.drained()))
    }

    /// `self` is `old` after the handshake step `p`.
    pub open spec fn applies(self, old: ConnView, p: Progress) -> bool {
        &&& self.phase == p.phase
        &&& self.replies == old.replies + p.reply
        &&& self.pending_input == p.rest
        &&& self.target == p.target
        &&& self.upstream == old.upstream
        &&& self.downstream == old.downstream
    }
}

/// A connection just accepted.
pub open spec fn fresh_connection() -> ConnView {
    ConnView {
        phase: Phase::AwaitingGreeting,
        pending_input: Seq::empty(),
        replies: Seq::empty(),
        target: None,
        upstream: fresh_pump(),
        downstream: fresh_pump(),
    }
}

/// A connection: handshake state, pending replies and the two relay pumps.
pub struct Connection {
    phase: Phase,
    inbound: ByteCursor,
    replies: Vec<u8>,
    target: Option<TargetAddr>,
    upstream: Pump,
    downstream: Pump,
}

impl View for Connection {
    type V = ConnView;

    closed spec fn view(&self) -> ConnView {
        ConnView {
            phase: self.phase,
            pending_input: self.inbound@,
            replies: self.replies@,
            target: match self.target {
                Some(t) => Some(t@),
                None => None,
            },
            upstream: self.upstream@,
            downstream: self.downstream@,
        }
    }
}

/// The address 0.0.0.0:0.
fn unspecified() -> (r: TargetAddr)
    ensures
        r@ == unspecified_addr(),
        r.wf(),
{
    let octets: Vec<u8> = vec![0, 0, 0, 0];
    let r = TargetAddr::Ipv4 { octets, port: 0 };
    assert(r@ =~= unspecified_addr()) by {
        assert(octets@ =~= seq![0u8, 0u8, 0u8, 0u8]);
    }
    r
}

impl Connection {
    pub open spec fn wf(&self) -> bool {
        self@.wf()
    }

    /// A connection just accepted, waiting for the client's greeting.
    pub fn new() -> (r: Connection)
        ensures
            r.wf(),
            r@ == fresh_connection(),
    {
        Connection {
            phase: Phase::AwaitingGreeting,
            inbound: ByteCursor::new(),
            replies: Vec::new(),
            target: None,
            upstream: Pump::new(),
            downstream: Pump::new(),
        }
    }

    pub fn phase(&self) -> (r: Phase)
        ensures
            r == self@.phase,
    {
        self.phase
    }

    /// The destination to connect to, while connecting.
    pub fn target(&self) -> (r: Option<&TargetAddr>)
        requires
            self.wf(),
        ensures
            r matches Some(t) ==> self@.target == Some(t@) && t.wf(),
            r is None ==> self@.target is None,
    {
        match &self.target {
            Some(t) => Some(t),
            None => None,
        }
    }

    fn advance_request(&mut self)
        requires
            old(self).wf(),
            old(self)@.phase == Phase::AwaitingRequest,
        ensures
            final(self).wf(),
            final(self)@.applies(old(self)@, request_progress(old(self)@.pending_input)),
    {
        match parse_request(self.inbound.unread()) {
            Decode::Incomplete => {},
            Decode::Done(addr, k) => {
                let _ = self.inbound.try_take(k);
                self.target = Some(addr);
                self.phase = Phase::Connecting;
            },
            Decode::Failed(e) => {
                self.phase = Phase::Closing;
                let rep: u8 = match e {
                    HandshakeError::UnsupportedVersion => 0,
                    HandshakeError::UnsupportedCommand => REP_COMMAND_NOT_SUPPORTED,
                    HandshakeError::UnsupportedAddressType => REP_ADDRESS_TYPE_NOT_SUPPORTED,
                    HandshakeError::NoAcceptableMethod => REP_GENERAL_FAILURE,
                };
                if e != HandshakeError::UnsupportedVersion {
                    Server::write_reply(&mut self.replies, rep, &unspecified());
                } else {
                    assert(self.replies@ =~= old(self).replies@ + Seq::<u8>::empty());
                }
            },
        }
    }

    fn advance_greeting(&mut self)
        requires
            old(self).wf(),
            old(self)@.phase == Phase::AwaitingGreeting,
        ensures
            final(self).wf(),
            final(self)@.applies(old(self)@, greeting_progress(old(self)@.pending_input)),
    {
        match parse_greeting(self.inbound.unread()) {
            Decode::Incomplete => {},
            Decode::Done(m, k) => {
                let _ = self.inbound.try_take(k);
                Server::write_ack(&mut self.replies, m);
                self.phase = Phase::AwaitingRequest;
                self.advance_request();
                assert(self.replies@ =~= old(self).replies@ + greeting_progress(
                    old(self)@.pending_input,
                ).reply);
            },
            Decode::Failed(e) => {
                self.phase = Phase::Closing;
                if e == HandshakeError::NoAcceptableMethod {
                    Server::write_ack(&mut self.replies, METHOD_NONE_ACCEPTABLE);
                } else {
                    assert(self.replies@ =~= old(self).replies@ + Seq::<u8>::empty());
                }
            },
        }
    }

    /// How many bytes the next read from the client may take.
    pub fn client_read_budget(&self) -> (r: usize)
        requires
            self.wf(),
        ensures
            r == self@.client_budget(),
    {
        match self.phase {
            Phase::AwaitingGreeting | Phase::AwaitingRequest => MAX_READ_CHUNK,
            Phase::Relaying => self.upstream.read_budget(),
            _ => 0,
        }
    }

    /// How many bytes the next read from the destination may take.
    pub fn dest_read_budget(&self) -> (r: usize)
        requires
            self.wf(),
        ensures
            r == self@.dest_budget(),
    {
        if self.phase == Phase::Relaying {
            self.downstream.read_budget()
        } else {
            0
        }
    }

    /// Bytes read from the client. During the handshake they are decoded as
    /// far as they go; while relaying they are queued for the destination.
    pub fn on_client_data(&mut self, data: &[u8])
        requires
            old(self).wf(),
            data@.len() <= old(self)@.client_budget(),
        ensures
            final(self).wf(),
            old(self)@.phase == Phase::AwaitingGreeting ==> final(self)@.applies(
                old(self)@,
                greeting_progress(old(self)@.pending_input + data@),
            ),
            old(self)@.phase == Phase::AwaitingRequest ==> final(self)@.applies(
                old(self)@,
                request_progress(old(self)@.pending_input + data@),
            ),
            old(self)@.phase == Phase::Relaying ==> final(self)@ == (ConnView {
                upstream: PumpView {
                    buffered: old(self)@.upstream.buffered + data@,
                    received: old(self)@.upstream.received + data@,
                    ..old(self)@.upstream
                },
                ..old(self)@
            }),
            old(self)@.phase == Phase::Connecting || old(self)@.phase == Phase::Closing
                ==> final(self)@ == old(self)@,
    {
        match self.phase {
            Phase::AwaitingGreeting => {
                self.inbound.feed(data);
                self.advance_greeting();
            },
            Phase::AwaitingRequest => {
                self.inbound.feed(data);
                self.advance_request();
            },
            Phase::Relaying => {
                self.upstream.accept(data);
            },
            _ => {},
        }
    }

    /// Bytes read from the destination, queued for the client.
    pub fn on_dest_data(&mut self, data: &[u8])
        requires
            old(self).wf(),
            data@.len() <= old(self)@.dest_budget(),
        ensures
            final(self).wf(),
            old(self)@.phase == Phase::Relaying ==> final(self)@ == (ConnView {
                downstream: PumpView {
                    buffered: old(self)@.downstream.buffered + data@,
                    received: old(self)@.downstream.received + data@,
                    ..old(self)@.downstream
                },
                ..old(self)@
            }),
            old(self)@.phase != Phase::Relaying ==> final(self)@ == old(self)@,
    {
        if self.phase == Phase::Relaying {
            self.downstream.accept(data);
        }
    }

    /// The client reported end of stream. During the handshake the
    /// connection is given up with no reply; while relaying only the
    /// client-to-destination direction ends.
    pub fn on_client_eof(&mut self)
        requires
            old(self).wf(),
        ensures
            final(self).wf(),
            old(self)@.phase == Phase::Relaying ==> final(self)@ == (ConnView {
                upstream: PumpView { read_closed: true, ..old(self)@.upstream },
                ..old(self)@
            }),
            old(self)@.phase == Phase::Closing ==> final(self)@ == old(self)@,
            old(self)@.phase != Phase::Relaying && old(self)@.phase != Phase::Closing ==> (
            final(self)@.phase == Phase::Closing && final(self)@.replies.len() == 0),
    {
        match self.phase {
            Phase::Relaying => self.upstream.close_read(),
            Phase::Closing => {},
            _ => self.abort(),
        }
    }

    /// The destination reported end of stream. Only the destination-to-client
    /// direction ends: what the client sent is still delivered, and the
    /// client is still read.
    pub fn on_dest_eof(&mut self)
        requires
            old(self).wf(),
        ensures
            final(self).wf(),
            old(self)@.phase == Phase::Relaying ==> final(self)@ == (ConnView {
                downstream: PumpView { read_closed: true, ..old(self)@.downstream },
                ..old(self)@
            }),
            old(self)@.phase != Phase::Relaying ==> final(self)@ == old(self)@,
    {
        if self.phase == Phase::Relaying {
            self.downstream.close_read();
        }
    }

    /// The connection to the destination was made and its socket is bound
    /// at `bound`: the success reply is queued and relaying starts, with any
    /// bytes the client sent after its request queued for the destination.
    pub fn on_connected(&mut self, bound: &TargetAddr)
        requires
            old(self).wf(),
            old(self)@.phase == Phase::Connecting,
            bound.wf(),
        ensures
            final(self).wf(),
            final(self)@.phase == Phase::Relaying,
            final(self)@.replies == old(self)@.replies + reply_bytes(REP_SUCCEEDED, bound@),
            final(self)@.pending_input == Seq::<u8>::empty(),
            final(self)@.target is None,
            final(self)@.upstream == (PumpView {
                buffered: old(self)@.upstream.buffered + old(self)@.pending_input,
                received: old(self)@.upstream.received + old(self)@.pending_input,
                ..old(self)@.upstream
            }),
            final(self)@.downstream == old(self)@.downstream,
    {
        Server::write_reply(&mut self.replies, REP_SUCCEEDED, bound);
        let early = self.inbound.take_all();
        self.upstream.preload(early.as_slice());
        self.target = None;
        self.phase = Phase::Relaying;
    }

    /// The connection to the destination failed: a reply with the matching
    /// code is queued, and the client is closed once it is written.
    pub fn on_connect_failed(&mut self, failure: ConnectFailure)
        requires
            old(self).wf(),
            old(self)@.phase == Phase::Connecting,
        ensures
            final(self).wf(),
            final(self)@.phase == Phase::Closing,
            final(self)@.replies == old(self)@.replies + reply_bytes(
                failure.reply_code(),
                unspecified_addr(),
            ),
            final(self)@.target is None,
    {
        Server::write_reply(&mut self.replies, failure.code(), &unspecified());
        self.target = None;
        self.phase = Phase::Closing;
    }

    /// An unrecoverable error: the connection is closed at once and
    /// whatever was still owed to either side is dropped.
    pub fn abort(&mut self)
        requires
            old(self).wf(),
        ensures
            final(self).wf(),
            final(self)@.phase == Phase::Closing,
            final(self)@.replies.len() == 0,
            final(self)@.finished(),
    {
        self.replies = Vec::new();
        self.target = None;
        self.phase = Phase::Closing;
    }

    /// The bytes to write to the client next.
    pub fn client_outbound(&self) -> (r: &[u8])
        requires
            self.wf(),
        ensures
            r@ == self@.client_outbound(),
    {
        if self.replies.len() > 0 {
            self.replies.as_slice()
        } else if self.phase == Phase::Relaying {
            self.downstream.pending()
        } else {
            &[]
        }
    }

    /// The client took the first `n` bytes of `client_outbound`.
    pub fn on_client_written(&mut self, n: usize)
        requires
            old(self).wf(),
            n <= old(self)@.client_outbound().len(),
        ensures
            final(self).wf(),
            old(self)@.replies.len() > 0 ==> final(self)@ == (ConnView {
                replies: old(self)@.replies.subrange(n as int, old(self)@.replies.len() as int),
                ..old(self)@
            }),
            old(self)@.replies.len() == 0 && old(self)@.phase == Phase::Relaying
                ==> final(self)@ == (ConnView {
                downstream: PumpView {
                    buffered: old(self)@.downstream.buffered.subrange(
                        n as int,
                        old(self)@.downstream.buffered.len() as int,
                    ),
                    delivered: old(self)@.downstream.delivered
                        + old(self)@.downstream.buffered.subrange(0, n as int),
                    ..old(self)@.downstream
                },
                ..old(self)@
            }),
            old(self)@.replies.len() == 0 && old(self)@.phase != Phase::Relaying ==> final(self)@
                == old(self)@,
    {
        if self.replies.len() > 0 {
            let rest = self.replies.split_off(n);
            self.replies = rest;
        } else if self.phase == Phase::Relaying {
            self.downstream.consume(n);
        }
    }

    /// The bytes to write to the destination next.
    pub fn dest_outbound(&self) -> (r: &[u8])
        requires
            self.wf(),
        ensures
            r@ == self@.dest_outbound(),
    {
        if self.phase == Phase::Relaying {
            self.upstream.pending()
        } else {
            &[]
        }
    }

    /// The destination took the first `n` bytes of `dest_outbound`.
    pub fn on_dest_written(&mut self, n: usize)
        requires
            old(self).wf(),
            n <= old(self)@.dest_outbound().len(),
        ensures
            final(self).wf(),
            old(self)@.phase == Phase::Relaying ==> final(self)@ == (ConnView {
                upstream: PumpView {
                    buffered: old(self)@.upstream.buffered.subrange(
                        n as int,
                        old(self)@.upstream.buffered.len() as int,
                    ),
                    delivered: old(self)@.upstream.delivered + old(self)@.upstream.buffered.subrange(
                        0,
                        n as int,
                    ),
                    ..old(self)@.upstream
                },
                ..old(self)@
            }),
            old(self)@.phase != Phase::Relaying ==> final(self)@ == old(self)@,
    {
        if self.phase == Phase::Relaying {
            self.upstream.consume(n);
        }
    }

    /// Nothing is owed to either side any more.
    pub fn is_finished(&self) -> (r: bool)
        requires
            self.wf(),
        ensures
            r == self@.finished(),
    {
        self.replies.len() == 0 && (self.phase == Phase::Closing || (self.phase == Phase::Relaying
            && self.upstream.is_drained() && self.downstream.is_drained()))
    }
}

/// A greeting whose version byte is not 5 closes the connection with no
/// reply owed.
pub proof fn lemma_bad_version_closes(s: Seq<u8>)
    requires
        s.len() >= 1,
        s[0] != SOCKS_VERSION,
    ensures
        greeting_progress(s).phase == Phase::Closing,
        greeting_progress(s).reply.len() == 0,
        greeting_progress(s).target is None,
{
}

/// A request whose command is not CONNECT closes the connection after a
/// "command not supported" reply, and never starts a connect.
pub proof fn lemma_bad_command_replies(s: Seq<u8>)
    requires
        s.len() >= 2,
        s[0] == SOCKS_VERSION,
        s[1] != CMD_CONNECT,
    ensures
        request_progress(s).phase == Phase::Closing,
        request_progress(s).reply == reply_bytes(REP_COMMAND_NOT_SUPPORTED, unspecified_addr()),
        request_progress(s).target is None,
{
}

/// The destination ending its stream does not touch the client-to-
/// destination direction: bytes buffered for the destination are still
/// offered to it, the client is read as before, and the connection does not
/// finish while the client has not ended its own stream.
pub proof fn lemma_half_close(before: ConnView, after: ConnView)
    requires
        before.phase == Phase::Relaying,
        after == (ConnView {
            downstream: PumpView { read_closed: true, ..before.downstream },
            ..before
        }),
    ensures
        after.dest_outbound() == before.dest_outbound(),
        after.upstream == before.upstream,
        after.client_budget() == before.client_budget(),
        !before.upstream.read_closed ==> !after.finished(),
{
}

} // verus!
