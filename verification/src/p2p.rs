use vstd::prelude::*;
use vstd::string::StrSliceExecFns;

verus! {

/// Largest frame accepted on a negotiated stream.
pub const MAX_FRAME_LEN: usize = 4 * 1024 * 1024;

/// Longest service name a negotiation frame carries, in characters. A
/// character encodes to at most four bytes, so a name within this bound
/// stays within the frame limit and, critically, below what the wire
/// format's 32-bit string-length field can carry.
pub const MAX_SERVICE_NAME_LEN: usize = 0x10_0000;

/// What can go wrong between asking for a stream and having one negotiated.
#[derive(Clone, Copy, Debug, PartialEq, Eq, Structural)]
pub enum P2pError {
    /// Dialing or the handshake with the remote endpoint failed.
    Connect,
    /// The registry lost the peer between dial and use — the race indicator.
    NoPeer,
    /// The transport refused to open a stream on the connection.
    StreamOpen,
    /// The negotiation message could not be encoded.
    Encode,
    /// A first frame that does not decode as a negotiation message.
    Decode,
    /// No handler is registered under the negotiated name.
    NoHandler,
}

/// Opaque, value-equal service identifier; the key of the service table.
#[derive(Debug, Clone)]
pub struct ServiceName(pub String);

impl View for ServiceName {
    type V = Seq<char>;

    open spec fn view(&self) -> Seq<char> {
        self.0@
    }
}

impl ServiceName {
    pub fn new(name: String) -> (r: Self)
        ensures
            r@ == name@,
    {
        ServiceName(name)
    }
}

/// The one-message handshake: the first frame sent on every newly opened
/// stream names the service the opener wants.
#[derive(Debug, Clone)]
pub struct Negotiate {
    pub service_name: ServiceName,
}

/// The frame bytes that announce a service name: the compact binary encoding
/// of the one-field negotiation message, a function of the name alone.
pub uninterp spec fn negotiate_bytes(name: Seq<char>) -> Seq<u8>;

/// What decoding a first frame yields: the service name asked for, or
/// nothing where the bytes are not a negotiation message. A function of the
/// bytes alone.
pub uninterp spec fn negotiate_parse(bytes: Seq<u8>) -> Option<Seq<char>>;

/// Relies on rmp_serde::to_vec over rmp's write_str: the compact
/// MessagePack encoding is a function of the encoded value alone, and
/// rmp_serde::from_slice decodes it back to that value. The wire format
/// carries the string length in 32 bits and the writer would silently
/// truncate a longer one, so the name is bounded here; within the bound the
/// encoder cannot refuse — its only failure is a failed allocation, treated
/// as fatal just as the standard collections treat it.
#[verifier::external_body]
fn encode_negotiate_raw(name: &String) -> (r: Vec<u8>)
    requires
        name@.len() <= MAX_SERVICE_NAME_LEN,
    ensures
        r@ == negotiate_bytes(name@),
        negotiate_parse(r@) == Some(name@),
{
    rmp_serde::to_vec(&(name,)).expect("allocation failed while encoding")
}

/// Relies on rmp_serde::from_slice: decoding is deterministic in the input
/// bytes and fails exactly where they are not a well-formed message.
#[verifier::external_body]
fn decode_negotiate_raw(bytes: &[u8]) -> (r: Result<String, ()>)
    ensures
        r matches Ok(s) ==> negotiate_parse(bytes@) == Some(s@),
        r is Err ==> negotiate_parse(bytes@) is None,
{
    match rmp_serde::from_slice::<(String,)>(bytes) {
        Ok((s,)) => Ok(s),
        Err(_) => Err(()),
    }
}

impl Negotiate {
    pub fn new(service_name: ServiceName) -> (r: Self)
        ensures
            r.service_name@ == service_name@,
    {
        Negotiate { service_name }
    }

    /// The first frame for this message; `Encode` exactly where the name is
    /// too long for a frame.
    pub fn encode(&self) -> (r: Result<Vec<u8>, P2pError>)
        ensures
            r is Ok <==> self.service_name@.len() <= MAX_SERVICE_NAME_LEN,
            r matches Ok(b) ==> b@ == negotiate_bytes(self.service_name@) && negotiate_parse(b@)
                == Some(self.service_name@),
            r matches Err(e) ==> e == P2pError::Encode,
    {
        encode_negotiate(&self.service_name)
    }
}

/// The negotiation frame announcing `name`: its exact bytes, which decode
/// back to the name. `Encode` exactly where the name is too long for a
/// frame; within the bound the frame is owed.
pub fn encode_negotiate(name: &ServiceName) -> (r: Result<Vec<u8>, P2pError>)
    ensures
        r is Ok <==> name@.len() <= MAX_SERVICE_NAME_LEN,
        r matches Ok(b) ==> b@ == negotiate_bytes(name@) && negotiate_parse(b@) == Some(name@),
        r matches Err(e) ==> e == P2pError::Encode,
{
    if name.0.as_str().unicode_len() <= MAX_SERVICE_NAME_LEN {
        Ok(encode_negotiate_raw(&name.0))
    } else {
        Err(P2pError::Encode)
    }
}

/// Decode a first frame; `Decode` exactly where the frame is not a
/// negotiation message.
pub fn parse_negotiate(bytes: &[u8]) -> (r: Result<ServiceName, P2pError>)
    ensures
        r matches Ok(n) ==> negotiate_parse(bytes@) == Some(n@),
        r matches Err(e) ==> e == P2pError::Decode,
        r is Ok <==> negotiate_parse(bytes@) is Some,
{
    match decode_negotiate_raw(bytes) {
        Ok(s) => Ok(ServiceName(s)),
        Err(()) => Err(P2pError::Decode),
    }
}

/// First-match lookup through the registration list.
pub open spec fn lookup_spec<H>(s: Seq<(ServiceName, H)>, name: Seq<char>) -> Option<H>
    decreases s.len(),
{
    if s.len() == 0 {
        None
    } else if s[0].0@ == name {
        Some(s[0].1)
    } else {
        lookup_spec(s.skip(1), name)
    }
}

/// Immutable-after-construction mapping from service name to handler.
///
/// `H` is whatever the runtime invokes for an inbound stream; the table only
/// chooses. Registrations go to the front of the list and lookup takes the
/// first match, so registering a name again replaces what it maps to.
pub struct Service<H> {
    pub handlers: Vec<(ServiceName, H)>,
}

impl<H> Service<H> {
    /// The handler registered under `name`, if any.
    pub open spec fn spec_lookup(self, name: Seq<char>) -> Option<H> {
        lookup_spec(self.handlers@, name)
    }

    /// An empty table: every name misses.
    pub fn new() -> (r: Self)
        ensures
            r.handlers@.len() == 0,
            forall|n: Seq<char>| r.spec_lookup(n) is None,
    {
        Service { handlers: Vec::new() }
    }

    /// Register `handler` under `name`; the previous registration of that
    /// name, if any, is shadowed, and every other name is untouched.
    pub fn add_service(self, name: ServiceName, handler: H) -> (r: Self)
        ensures
            r.spec_lookup(name@) == Some(handler),
            forall|n: Seq<char>| n != name@ ==> r.spec_lookup(n) == self.spec_lookup(n),
    {
        let ghost name_view = name@;
        let ghost old_handlers = self.handlers@;
        let mut handlers = self.handlers;
        handlers.insert(0, (name, handler));
        let r = Service { handlers };
        proof {
            assert(r.handlers@.skip(1) =~= old_handlers);
        }
        r
    }

    /// Look the name up; `Some` exactly where a handler is registered.
    pub fn get<'a>(&'a self, name: &ServiceName) -> (r: Option<&'a H>)
        ensures
            r matches Some(h) ==> self.spec_lookup(name@) == Some(*h),
            r is Some <==> self.spec_lookup(name@) is Some,
    {
        let ghost all = self.handlers@;
        proof {
            assert(all.skip(0) =~= all);
        }
        let mut i: usize = 0;
        while i < self.handlers.len()
            invariant
                i <= self.handlers@.len(),
                all == self.handlers@,
                lookup_spec(all, name@) == lookup_spec(all.skip(i as int), name@),
            decreases self.handlers@.len() - i,
        {
            let entry = &self.handlers[i];
            if entry.0.0 == name.0 {
                return Some(&entry.1);
            }
            proof {
                assert(all.skip(i as int).skip(1) =~= all.skip(i as int + 1));
            }
            i = i + 1;
        }
        proof {
            assert(all.skip(i as int) =~= Seq::<(ServiceName, H)>::empty());
        }
        None
    }
}

/// The responder's per-stream decision: read the first frame as a
/// negotiation message and choose the handler registered under that name.
/// Either error — a frame that does not decode, or a service nobody
/// registered — aborts only this stream, which is dropped with nothing sent
/// back to the opener.
pub fn dispatch<'a, H>(table: &'a Service<H>, first_frame: &[u8]) -> (r: Result<&'a H, P2pError>)
    ensures
        r matches Ok(h) ==> (negotiate_parse(first_frame@) matches Some(n) && table.spec_lookup(n)
            == Some(*h)),
        r is Ok <==> (negotiate_parse(first_frame@) matches Some(n) && table.spec_lookup(
            n,
        ) is Some),
        (r matches Err(e) && e == P2pError::Decode) <==> negotiate_parse(first_frame@) is None,
        (r matches Err(e) && e == P2pError::NoHandler) <==> (negotiate_parse(first_frame@)
            matches Some(n) && table.spec_lookup(n) is None),
{
    match parse_negotiate(first_frame) {
        Ok(name) => match table.get(&name) {
            Some(handler) => Ok(handler),
            None => Err(P2pError::NoHandler),
        },
        Err(e) => Err(e),
    }
}

/// A remote endpoint's address as plain values: sixteen bytes of host
/// address held as two words, a port, and the address family — a four-byte
/// address (held in the low word) and a sixteen-byte one with the same bits
/// are distinct endpoints. Identity of a peer is its address.
#[derive(Clone, Copy, Debug, PartialEq, Eq, Hash, Structural)]
pub struct PeerAddr {
    pub ip_hi: u64,
    pub ip_lo: u64,
    pub port: u16,
    pub v4: bool,
}

/// One known remote endpoint: its address and the cheaply-cloned capability
/// with which every stream on its connection is opened. `H` is the
/// transport's stream-opening handle.
#[derive(Debug, Clone)]
pub struct Peer<H> {
    pub addr: PeerAddr,
    pub openner: H,
}

impl<H> Peer<H> {
    pub fn new(addr: PeerAddr, openner: H) -> (r: Self)
        ensures
            r.addr == addr,
            r.openner == openner,
    {
        Peer { addr, openner }
    }
}

/// First match in registration order.
pub open spec fn find_peer_spec<H>(s: Seq<Peer<H>>, addr: PeerAddr) -> Option<Peer<H>>
    decreases s.len(),
{
    if s.len() == 0 {
        None
    } else if s[0].addr == addr {
        Some(s[0])
    } else {
        find_peer_spec(s.skip(1), addr)
    }
}

/// The registration order with every entry for `addr` taken out.
pub open spec fn without_addr<H>(s: Seq<Peer<H>>, addr: PeerAddr) -> Seq<Peer<H>>
    decreases s.len(),
{
    if s.len() == 0 {
        s
    } else if s[0].addr == addr {
        without_addr(s.skip(1), addr)
    } else {
        seq![s[0]] + without_addr(s.skip(1), addr)
    }
}

/// No two entries share an address.
pub open spec fn distinct_addrs<H>(s: Seq<Peer<H>>) -> bool
    decreases s.len(),
{
    s.len() == 0 || (find_peer_spec(s.skip(1), s[0].addr) is None && distinct_addrs(s.skip(1)))
}

/// Is `addr` among the claims?
pub open spec fn claimed_spec(s: Seq<PeerAddr>, addr: PeerAddr) -> bool
    decreases s.len(),
{
    s.len() != 0 && (s[0] == addr || claimed_spec(s.skip(1), addr))
}

/// The claims with every entry for `addr` taken out.
pub open spec fn without_claim(s: Seq<PeerAddr>, addr: PeerAddr) -> Seq<PeerAddr>
    decreases s.len(),
{
    if s.len() == 0 {
        s
    } else if s[0] == addr {
        without_claim(s.skip(1), addr)
    } else {
        seq![s[0]] + without_claim(s.skip(1), addr)
    }
}

/// Known peers, keyed by remote address, beside the dial claims in flight:
/// an address is claimed from the moment an opener decides to dial it until
/// that dial registers a peer or is abandoned, so racing openers take one
/// claim between them. Connect, accept and teardown contend on one mutex
/// around this value — the caller's, never the data path's; the operations
/// here are the whole of its critical sections.
pub struct PeerRegistry<H> {
    pub peers: Vec<Peer<H>>,
    pub pending: Vec<PeerAddr>,
}

impl<H> PeerRegistry<H> {
    /// The entry registered for `addr`, if any.
    pub open spec fn spec_find(self, addr: PeerAddr) -> Option<Peer<H>> {
        find_peer_spec(self.peers@, addr)
    }

    pub open spec fn has_peer(self, addr: PeerAddr) -> bool {
        self.spec_find(addr) is Some
    }

    /// Is a dial for `addr` in flight?
    pub open spec fn is_pending(self, addr: PeerAddr) -> bool {
        claimed_spec(self.pending@, addr)
    }

    /// Must an opener dial `addr`? Only while the address has neither a
    /// registered peer nor a dial already in flight.
    pub open spec fn spec_must_dial(self, addr: PeerAddr) -> bool {
        !self.has_peer(addr) && !self.is_pending(addr)
    }

    /// The registry's invariant: one entry per address.
    pub open spec fn wf(self) -> bool {
        distinct_addrs(self.peers@)
    }

    /// An empty registry: every address is unknown and unclaimed.
    pub fn new() -> (r: Self)
        ensures
            r.wf(),
            r.peers@.len() == 0,
            r.pending@.len() == 0,
            forall|addr: PeerAddr| r.spec_must_dial(addr),
    {
        PeerRegistry { peers: Vec::new(), pending: Vec::new() }
    }

    /// Where the entry for `addr` stands, if anywhere.
    fn position_of(&self, addr: PeerAddr) -> (r: Option<usize>)
        ensures
            r matches Some(i) ==> i < self.peers@.len() && self.spec_find(addr) == Some(
                self.peers@[i as int],
            ),
            r is Some <==> self.has_peer(addr),
    {
        let ghost all = self.peers@;
        proof {
            assert(all.skip(0) =~= all);
        }
        let mut i: usize = 0;
        while i < self.peers.len()
            invariant
                i <= self.peers@.len(),
                all == self.peers@,
                find_peer_spec(all, addr) == find_peer_spec(all.skip(i as int), addr),
            decreases self.peers@.len() - i,
        {
            if self.peers[i].addr == addr {
                return Some(i);
            }
            proof {
                assert(all.skip(i as int).skip(1) =~= all.skip(i as int + 1));
            }
            i = i + 1;
        }
        proof {
            assert(all.skip(i as int) =~= Seq::<Peer<H>>::empty());
        }
        None
    }

    /// A query without a claim: is there no peer for `addr` yet? The
    /// opener's atomic decision is [`Self::claim_dial`].
    pub fn needs_dial(&self, addr: PeerAddr) -> (r: bool)
        ensures
            r <==> !self.has_peer(addr),
    {
        self.position_of(addr).is_none()
    }

    /// Is a dial for `addr` already in flight?
    pub fn dial_in_flight(&self, addr: PeerAddr) -> (r: bool)
        ensures
            r <==> self.is_pending(addr),
    {
        let ghost all = self.pending@;
        proof {
            assert(all.skip(0) =~= all);
        }
        let mut i: usize = 0;
        while i < self.pending.len()
            invariant
                i <= self.pending@.len(),
                all == self.pending@,
                claimed_spec(all, addr) == claimed_spec(all.skip(i as int), addr),
            decreases self.pending@.len() - i,
        {
            if self.pending[i] == addr {
                return true;
            }
            proof {
                assert(all.skip(i as int).skip(1) =~= all.skip(i as int + 1));
            }
            i = i + 1;
        }
        proof {
            assert(all.skip(i as int) =~= Seq::<PeerAddr>::empty());
        }
        false
    }

    /// The opener's first decision, taken atomically under the registry's
    /// lock: dial only an address with neither a peer nor a dial in flight,
    /// and record the claim — of racing openers, exactly one dials. The
    /// winner settles the claim through [`Self::register`] when the dial
    /// succeeds, or gives it back through [`Self::abandon_dial`].
    pub fn claim_dial(&mut self, addr: PeerAddr) -> (r: bool)
        requires
            old(self).wf(),
        ensures
            final(self).wf(),
            final(self).peers@ == old(self).peers@,
            r <==> old(self).spec_must_dial(addr),
            r ==> final(self).pending@ == old(self).pending@.insert(0, addr),
            !r ==> final(self).pending@ == old(self).pending@,
            !final(self).spec_must_dial(addr),
            forall|a: PeerAddr| a != addr ==> final(self).is_pending(a) == old(self).is_pending(a),
    {
        if self.position_of(addr).is_some() {
            return false;
        }
        if self.dial_in_flight(addr) {
            return false;
        }
        let ghost pending0 = self.pending@;
        self.pending.insert(0, addr);
        proof {
            assert(self.pending@.skip(1) =~= pending0);
        }
        true
    }

    /// Give a claimed dial back after it failed, so a later attempt may dial
    /// again. The registered peers are untouched.
    pub fn abandon_dial(&mut self, addr: PeerAddr)
        ensures
            final(self).peers@ == old(self).peers@,
            final(self).pending@ == without_claim(old(self).pending@, addr),
            !final(self).is_pending(addr),
            forall|a: PeerAddr| a != addr ==> final(self).is_pending(a) == old(self).is_pending(a),
    {
        self.clear_claim(addr);
    }

    /// Take every claim for `addr` out of the pending list.
    fn clear_claim(&mut self, addr: PeerAddr)
        ensures
            final(self).peers@ == old(self).peers@,
            final(self).pending@ == without_claim(old(self).pending@, addr),
            !final(self).is_pending(addr),
            forall|a: PeerAddr| a != addr ==> final(self).is_pending(a) == old(self).is_pending(a),
    {
        let ghost all = self.pending@;
        let mut rest: Vec<PeerAddr> = Vec::new();
        core::mem::swap(&mut rest, &mut self.pending);
        let mut kept: Vec<PeerAddr> = Vec::new();
        while rest.len() > 0
            invariant
                without_claim(all, addr) == kept@ + without_claim(rest@, addr),
            decreases rest@.len(),
        {
            let ghost rest0 = rest@;
            let ghost kept0 = kept@;
            let a = rest.remove(0);
            proof {
                assert(rest@ =~= rest0.skip(1));
            }
            if !(a == addr) {
                kept.push(a);
                proof {
                    assert(kept0 + without_claim(rest0, addr) =~= kept@ + without_claim(
                        rest0.skip(1),
                        addr,
                    ));
                }
            }
        }
        proof {
            assert(rest@ =~= Seq::<PeerAddr>::empty());
            assert(kept@ + without_claim(rest@, addr) =~= kept@);
        }
        self.pending = kept;
        proof {
            lemma_without_claim_spec(all, addr);
        }
    }

    /// The stream-opening capability registered for `addr`.
    pub fn lookup_openner<'a>(&'a self, addr: PeerAddr) -> (r: Option<&'a H>)
        ensures
            r matches Some(h) ==> (self.spec_find(addr) matches Some(p) && p.openner == *h),
            r is Some <==> self.has_peer(addr),
    {
        match self.position_of(addr) {
            Some(i) => Some(&self.peers[i].openner),
            None => None,
        }
    }

    /// Register a peer unless its address is already known: the
    /// deduplication point for racing connect and accept paths. Afterwards
    /// the address is known either way, and any dial claim for it is
    /// settled.
    pub fn register(&mut self, peer: Peer<H>) -> (r: bool)
        requires
            old(self).wf(),
        ensures
            final(self).wf(),
            r <==> !old(self).has_peer(peer.addr),
            r ==> final(self).peers@ == old(self).peers@.insert(0, peer),
            !r ==> final(self).peers@ == old(self).peers@,
            final(self).has_peer(peer.addr),
            final(self).pending@ == without_claim(old(self).pending@, peer.addr),
            !final(self).is_pending(peer.addr),
            forall|other: PeerAddr|
                other != peer.addr ==> final(self).spec_find(other) == old(self).spec_find(other),
            forall|a: PeerAddr|
                a != peer.addr ==> final(self).is_pending(a) == old(self).is_pending(a),
    {
        self.clear_claim(peer.addr);
        let ghost old_peers = self.peers@;
        if self.position_of(peer.addr).is_some() {
            return false;
        }
        self.peers.insert(0, peer);
        proof {
            assert(self.peers@.skip(1) =~= old_peers);
        }
        true
    }

    /// Drop the entry for `addr` — the teardown step when its connection
    /// closes. Every other peer's entry is untouched, and so are the dial
    /// claims: a re-dial already claimed may proceed.
    pub fn remove(&mut self, addr: PeerAddr)
        requires
            old(self).wf(),
        ensures
            final(self).wf(),
            final(self).peers@ == without_addr(old(self).peers@, addr),
            final(self).pending@ == old(self).pending@,
            !final(self).has_peer(addr),
            forall|other: PeerAddr|
                other != addr ==> final(self).spec_find(other) == old(self).spec_find(other),
    {
        let ghost all = self.peers@;
        let mut rest: Vec<Peer<H>> = Vec::new();
        core::mem::swap(&mut rest, &mut self.peers);
        let mut kept: Vec<Peer<H>> = Vec::new();
        while rest.len() > 0
            invariant
                without_addr(all, addr) == kept@ + without_addr(rest@, addr),
            decreases rest@.len(),
        {
            let ghost rest0 = rest@;
            let ghost kept0 = kept@;
            let p = rest.remove(0);
            proof {
                assert(rest@ =~= rest0.skip(1));
            }
            if !(p.addr == addr) {
                kept.push(p);
                proof {
                    assert(kept0 + without_addr(rest0, addr) =~= kept@ + without_addr(
                        rest0.skip(1),
                        addr,
                    ));
                }
            }
        }
        proof {
            assert(rest@ =~= Seq::<Peer<H>>::empty());
            assert(kept@ + without_addr(rest@, addr) =~= kept@);
        }
        self.peers = kept;
        proof {
            lemma_without_addr_spec(all, addr);
            lemma_without_addr_distinct(all, addr);
        }
    }
}

/// Taking an address out really removes it, and changes what is found for
/// no other address.
proof fn lemma_without_addr_spec<H>(s: Seq<Peer<H>>, addr: PeerAddr)
    ensures
        find_peer_spec(without_addr(s, addr), addr) is None,
        forall|other: PeerAddr|
            other != addr ==> find_peer_spec(without_addr(s, addr), other) == find_peer_spec(
                s,
                other,
            ),
    decreases s.len(),
{
    if s.len() > 0 {
        lemma_without_addr_spec(s.skip(1), addr);
        if s[0].addr != addr {
            assert((seq![s[0]] + without_addr(s.skip(1), addr)).skip(1) =~= without_addr(
                s.skip(1),
                addr,
            ));
        }
        assert forall|other: PeerAddr|
            other != addr implies find_peer_spec(without_addr(s, addr), other) == find_peer_spec(
            s,
            other,
        ) by {
            assert(find_peer_spec(without_addr(s.skip(1), addr), other) == find_peer_spec(
                s.skip(1),
                other,
            ));
            if s[0].addr != addr {
                let joined = seq![s[0]] + without_addr(s.skip(1), addr);
                assert(joined[0] == s[0]);
                assert(joined.skip(1) == without_addr(s.skip(1), addr));
                if s[0].addr == other {
                    assert(find_peer_spec(joined, other) == Some(s[0]));
                } else {
                    assert(find_peer_spec(joined, other) == find_peer_spec(joined.skip(1), other));
                }
            }
        }
    }
}

/// Taking an address out keeps the remaining addresses distinct.
proof fn lemma_without_addr_distinct<H>(s: Seq<Peer<H>>, addr: PeerAddr)
    requires
        distinct_addrs(s),
    ensures
        distinct_addrs(without_addr(s, addr)),
    decreases s.len(),
{
    if s.len() > 0 {
        lemma_without_addr_distinct(s.skip(1), addr);
        if s[0].addr != addr {
            lemma_without_addr_spec(s.skip(1), addr);
            assert((seq![s[0]] + without_addr(s.skip(1), addr)).skip(1) =~= without_addr(
                s.skip(1),
                addr,
            ));
        }
    }
}

/// Taking an address's claims out really removes them, and touches the
/// claims of no other address.
proof fn lemma_without_claim_spec(s: Seq<PeerAddr>, addr: PeerAddr)
    ensures
        !claimed_spec(without_claim(s, addr), addr),
        forall|a: PeerAddr|
            a != addr ==> claimed_spec(without_claim(s, addr), a) == claimed_spec(s, a),
    decreases s.len(),
{
    if s.len() > 0 {
        lemma_without_claim_spec(s.skip(1), addr);
        if s[0] != addr {
            assert((seq![s[0]] + without_claim(s.skip(1), addr)).skip(1) =~= without_claim(
                s.skip(1),
                addr,
            ));
        }
        assert forall|a: PeerAddr|
            a != addr implies claimed_spec(without_claim(s, addr), a) == claimed_spec(s, a) by {
            assert(claimed_spec(without_claim(s.skip(1), addr), a) == claimed_spec(s.skip(1), a));
            if s[0] != addr {
                let joined = seq![s[0]] + without_claim(s.skip(1), addr);
                assert(joined[0] == s[0]);
                assert(joined.skip(1) == without_claim(s.skip(1), addr));
                assert(claimed_spec(joined, a) == (joined[0] == a || claimed_spec(
                    joined.skip(1),
                    a,
                )));
            }
        }
    }
}

/// One dial per address: while a claim stands or a peer is registered, the
/// dial decision for that address answers no. Of openers racing for a
/// previously unknown address, only the first takes the claim (`claim_dial`
/// refuses the rest), it alone dials, and from its claim through
/// registration the address never again calls for a dial.
pub proof fn lemma_single_dial<H>(reg: PeerRegistry<H>, addr: PeerAddr)
    requires
        reg.is_pending(addr) || reg.has_peer(addr),
    ensures
        !reg.spec_must_dial(addr),
{
}

/// Everything the stream opener computes away from the transport: whether
/// the address still has a peer — losing it between dial and use is the
/// `NoPeer` race — together with that peer's opening capability and the
/// negotiation frame to send first. Success is owed whenever the peer is
/// there and the name fits a frame.
pub fn prepare_open<'a, H>(
    reg: &'a PeerRegistry<H>,
    addr: PeerAddr,
    service_name: &ServiceName,
) -> (r: Result<(&'a H, Vec<u8>), P2pError>)
    ensures
        r is Ok <==> (reg.has_peer(addr) && service_name@.len() <= MAX_SERVICE_NAME_LEN),
        r matches Ok(p) ==> (reg.spec_find(addr) matches Some(peer) && peer.openner == *p.0
            && p.1@ == negotiate_bytes(service_name@) && negotiate_parse(p.1@) == Some(
            service_name@,
        )),
        (r matches Err(e) && e == P2pError::NoPeer) <==> !reg.has_peer(addr),
        (r matches Err(e) && e == P2pError::Encode) <==> (reg.has_peer(addr) && service_name@.len()
            > MAX_SERVICE_NAME_LEN),
{
    let openner = match reg.lookup_openner(addr) {
        Some(h) => h,
        None => {
            return Err(P2pError::NoPeer);
        },
    };
    match encode_negotiate(service_name) {
        Ok(b) => Ok((openner, b)),
        Err(e) => Err(e),
    }
}

} // verus!
