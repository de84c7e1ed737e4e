//! The proxy server: its table of live connections and the field readers
//! of the handshake.

use vstd::prelude::*;
use crate::connection::{Connection, ConnView, fresh_connection};
use crate::handshake::{
    HandshakeError, TargetAddr, Decode, decode_address, same_address_outcome, offers_no_auth,
    reply_bytes, port_bytes, SOCKS_VERSION, METHOD_NO_AUTH, CMD_CONNECT, ATYP_IPV4, ATYP_DOMAIN,
    ATYP_IPV6,
};

verus! {

/// The most connections served at once; further clients wait in the
/// listener's backlog.
pub const MAX_CONNECTIONS: usize = 4096;

/// The table of live connections, keyed by dispatch token. Token 0 is the
/// listener's; the connection of token `t` sits in slot `t - 1`.
pub struct Server {
    slots: Vec<Option<Connection>>,
}

/// The state of a slot.
pub open spec fn slot_view(o: Option<Connection>) -> Option<ConnView> {
    match o {
        Some(c) => Some(c@),
        None => None,
    }
}

impl View for Server {
    type V = Seq<Option<ConnView>>;

    closed spec fn view(&self) -> Seq<Option<ConnView>> {
        self.slots@.map_values(|o: Option<Connection>| slot_view(o))
    }
}

/// The slot that holds the connection of `token`.
pub open spec fn slot_of(token: usize) -> int {
    token - 1
}

impl Server {
    /// The table is within its limit and every connection in it is well formed.
    pub open spec fn wf(&self) -> bool {
        &&& self@.len() <= MAX_CONNECTIONS
        &&& forall|i: int| 0 <= i < self@.len() ==> (#[trigger] self@[i] matches Some(c) ==> c.wf())
    }

    /// A server with no connection.
    pub fn new() -> (r: Server)
        ensures
            r.wf(),
            r@ == Seq::<Option<ConnView>>::empty(),
    {
        let r = Server { slots: Vec::new() };
        assert(r@ =~= Seq::<Option<ConnView>>::empty());
        r
    }

    /// Admits a new connection in a free slot and returns its token, or
    /// refuses it when the table is full.
    pub fn open_connection(&mut self) -> (r: Option<usize>)
        requires
            old(self).wf(),
        ensures
            final(self).wf(),
            r matches Some(t) ==> {
                &&& 1 <= t <= final(self)@.len()
                &&& (slot_of(t) < old(self)@.len() ==> old(self)@[slot_of(t)] is None
                    && final(self)@ == old(self)@.update(slot_of(t), Some(fresh_connection())))
                &&& (slot_of(t) == old(self)@.len() ==> final(self)@ == old(self)@.push(
                    Some(fresh_connection()),
                ))
                &&& slot_of(t) <= old(self)@.len()
                &&& (forall|i: int| 0 <= i < slot_of(t) ==> old(self)@[i] is Some)
            },
            r is None ==> final(self)@ == old(self)@ && old(self)@.len() == MAX_CONNECTIONS
                && forall|i: int| 0 <= i < old(self)@.len() ==> #[trigger] old(self)@[i] is Some,
    {
        let fresh = Connection::new();
        let mut i: usize = 0;
        while i < self.slots.len()
            invariant
                fresh.wf(),
                fresh@ == fresh_connection(),
                i <= self@.len(),
                self@ == old(self)@,
                self.wf(),
                forall|j: int| 0 <= j < i ==> #[trigger] self@[j] is Some,
            decreases self@.len() - i,
        {
            if self.slots[i].is_none() {
                let ghost before = self@;
                self.slots.set(i, Some(fresh));
                assert(self@ =~= before.update(i as int, Some(fresh_connection())));
                assert forall|j: int| 0 <= j < self@.len() implies (#[trigger] self@[j] matches Some(
                    c,
                ) ==> c.wf()) by {
                    if j != i {
                        assert(self@[j] == before[j]);
                    }
                }
                return Some(i + 1);
            }
            i = i + 1;
        }
        if self.slots.len() >= MAX_CONNECTIONS {
            return None;
        }
        let ghost before = self@;
        self.slots.push(Some(fresh));
        assert(self@ =~= before.push(Some(fresh_connection())));
        assert(self.wf());
        Some(i + 1)
    }

    /// No connection can be admitted until one leaves.
    pub fn is_full(&self) -> (r: bool)
        requires
            self.wf(),
        ensures
            r == (self@.len() == MAX_CONNECTIONS && forall|i: int|
                0 <= i < self@.len() ==> #[trigger] self@[i] is Some),
    {
        if self.slots.len() < MAX_CONNECTIONS {
            return false;
        }
        let mut i: usize = 0;
        while i < self.slots.len()
            invariant
                i <= self@.len(),
                self@.len() == MAX_CONNECTIONS,
                forall|j: int| 0 <= j < i ==> #[trigger] self@[j] is Some,
            decreases self@.len() - i,
        {
            if self.slots[i].is_none() {
                assert(self@[i as int] is None);
                return false;
            }
            i = i + 1;
        }
        true
    }

    /// Takes the connection of `token` out of the table, leaving its slot
    /// reserved and empty until it is put back.
    pub fn take(&mut self, token: usize) -> (r: Option<Connection>)
        requires
            old(self).wf(),
        ensures
            final(self).wf(),
            1 <= token <= old(self)@.len() && old(self)@[slot_of(token)] is Some ==> (r matches Some(
                c,
            ) && old(self)@[slot_of(token)] == Some(c@) && c.wf() && final(self)@ == old(
                self,
            )@.update(slot_of(token), None)),
            !(1 <= token <= old(self)@.len() && old(self)@[slot_of(token)] is Some) ==> (r is None
                && final(self)@ == old(self)@),
    {
        if token == 0 || token > self.slots.len() {
            return None;
        }
        let k = token - 1;
        if self.slots[k].is_none() {
            return None;
        }
        let ghost before = self@;
        let out = self.slots.remove(k);
        self.slots.insert(k, None);
        assert(self.slots@ =~= old(self).slots@.update(k as int, None));
        assert(self@ =~= before.update(k as int, None));
        assert(slot_view(out) == before[k as int]);
        out
    }

    /// Puts a connection back into the slot of `token`.
    pub fn put(&mut self, token: usize, conn: Connection)
        requires
            old(self).wf(),
            conn.wf(),
            1 <= token <= old(self)@.len(),
            old(self)@[slot_of(token)] is None,
        ensures
            final(self).wf(),
            final(self)@ == old(self)@.update(slot_of(token), Some(conn@)),
    {
        let ghost before = self@;
        let ghost v = conn@;
        self.slots.set(token - 1, Some(conn));
        assert(self@ =~= before.update(slot_of(token), Some(v)));
    }

    /// Checks a version byte.
    pub fn read_version(b: u8) -> (r: Result<(), HandshakeError>)
        ensures
            b == SOCKS_VERSION ==> r is Ok,
            b != SOCKS_VERSION ==> r == Err::<(), HandshakeError>(HandshakeError::UnsupportedVersion),
    {
        if b != SOCKS_VERSION {
            return Err(HandshakeError::UnsupportedVersion);
        }
        Ok(())
    }

    /// Selects an authentication method among those the client offers:
    /// only "no authentication required" is accepted.
    pub fn read_methods(methods: &[u8]) -> (r: Result<u8, HandshakeError>)
        ensures
            offers_no_auth(methods@) ==> r == Ok::<u8, HandshakeError>(METHOD_NO_AUTH),
            !offers_no_auth(methods@) ==> r == Err::<u8, HandshakeError>(
                HandshakeError::NoAcceptableMethod,
            ),
    {
        let mut i: usize = 0;
        while i < methods.len()
            invariant
                i <= methods@.len(),
                forall|j: int| 0 <= j < i ==> methods@[j] != METHOD_NO_AUTH,
            decreases methods@.len() - i,
        {
            if methods[i] == METHOD_NO_AUTH {
                return Ok(METHOD_NO_AUTH);
            }
            i = i + 1;
        }
        Err(HandshakeError::NoAcceptableMethod)
    }

    /// Checks a command byte: only CONNECT is supported.
    pub fn read_command(b: u8) -> (r: Result<(), HandshakeError>)
        ensures
            b == CMD_CONNECT ==> r is Ok,
            b != CMD_CONNECT ==> r == Err::<(), HandshakeError>(HandshakeError::UnsupportedCommand),
    {
        if b != CMD_CONNECT {
            return Err(HandshakeError::UnsupportedCommand);
        }
        Ok(())
    }

    /// Reads the reserved byte of a request. Its value is ignored.
    pub fn read_reserved(b: u8) -> (r: Result<(), HandshakeError>)
        ensures
            r is Ok,
    {
        Ok(())
    }

    /// Decodes an address (ATYP, DST.ADDR, DST.PORT) from the front of `input`.
    pub fn read_address(input: &[u8]) -> (r: Decode<TargetAddr>)
        ensures
            same_address_outcome(r, decode_address(input@)),
    {
        if input.len() < 1 {
            return Decode::Incomplete;
        }
        let atyp = input[0];
        let (start, end): (usize, usize) = if atyp == ATYP_IPV4 {
            (1, 5)
        } else if atyp == ATYP_IPV6 {
            (1, 17)
        } else if atyp == ATYP_DOMAIN {
            if input.len() < 2 {
                return Decode::Incomplete;
            }
            (2, 2 + input[1] as usize)
        } else {
            return Decode::Failed(HandshakeError::UnsupportedAddressType);
        };
        if input.len() < end + 2 {
            return Decode::Incomplete;
        }
        let bytes = vstd::slice::slice_to_vec(vstd::slice::slice_subrange(input, start, end));
        let port = read_port(input[end], input[end + 1]);
        let addr = if atyp == ATYP_IPV4 {
            TargetAddr::Ipv4 { octets: bytes, port }
        } else if atyp == ATYP_IPV6 {
            TargetAddr::Ipv6 { octets: bytes, port }
        } else {
            TargetAddr::Domain { name: bytes, port }
        };
        Decode::Done(addr, end + 2)
    }

    /// Queues the method-selection reply `VER | METHOD`.
    pub fn write_ack(out: &mut Vec<u8>, method: u8)
        ensures
            final(out)@ == old(out)@ + seq![SOCKS_VERSION, method],
    {
        out.push(SOCKS_VERSION);
        out.push(method);
    }

    /// Queues the request reply `VER | REP | RSV | ATYP | BND.ADDR | BND.PORT`.
    pub fn write_reply(out: &mut Vec<u8>, rep: u8, bound: &TargetAddr)
        requires
            bound.wf(),
        ensures
            final(out)@ == old(out)@ + reply_bytes(rep, bound@),
    {
        out.push(SOCKS_VERSION);
        out.push(rep);
        out.push(0);
        let (atyp, bytes, port): (u8, &Vec<u8>, u16) = match bound {
            TargetAddr::Ipv4 { octets, port } => (ATYP_IPV4, octets, *port),
            TargetAddr::Ipv6 { octets, port } => (ATYP_IPV6, octets, *port),
            TargetAddr::Domain { name, port } => (ATYP_DOMAIN, name, *port),
        };
        out.push(atyp);
        if atyp == ATYP_DOMAIN {
            out.push(bytes.len() as u8);
        }
        push_all(out, bytes.as_slice());
        out.push((port / 256) as u8);
        out.push((port % 256) as u8);
        assert(out@ =~= old(out)@ + reply_bytes(rep, bound@)) by {
            assert(port_bytes(port) == seq![(port / 256) as u8, (port % 256) as u8]);
        }
    }
}

/// A big-endian 16-bit port from its two bytes.
fn read_port(hi: u8, lo: u8) -> (r: u16)
    ensures
        r == hi as int * 256 + lo as int,
{
    (hi as u16) * 256 + lo as u16
}

/// Appends every byte of `bytes` to `out`.
fn push_all(out: &mut Vec<u8>, bytes: &[u8])
    ensures
        final(out)@ == old(out)@ + bytes@,
{
    let mut i: usize = 0;
    while i < bytes.len()
        invariant
            i <= bytes@.len(),
            out@ == old(out)@ + bytes@.subrange(0, i as int),
        decreases bytes@.len() - i,
    {
        out.push(bytes[i]);
        i = i + 1;
        assert(out@ =~= old(out)@ + bytes@.subrange(0, i as int));
    }
    assert(bytes@.subrange(0, bytes@.len() as int) =~= bytes@);
}

} // verus!
