//! The addresses of the nodes of the network, and their byte format.

use vstd::prelude::*;

use crate::bytes_utils::{append_bytes_raw, boxed_bytes, BytesConversion};
use crate::text::{count_message, count_message_text, decimal, text_with_number};
use crate::encoding::{
    be_u128, be_u128_value, be_u16, be_u16_value, be_u32, be_u32_value, be_u64, be_u64_value,
    lemma_be_u128_roundtrip, lemma_be_u16_roundtrip, lemma_be_u32_roundtrip,
    lemma_be_u64_roundtrip, u128_from_be_bytes, u128_to_be_bytes, u16_from_be_bytes,
    u16_to_be_bytes, u32_from_be_bytes, u32_to_be_bytes, u64_from_be_bytes, u64_to_be_bytes,
};

verus! {

/// The IP address of a peer: IPv4 by its bits; IPv6 by its bits, its flow label and its scope
/// id, as an IPv6 socket address holds them.
#[derive(Clone, Copy, PartialEq, Eq, Structural, Hash, Debug)]
pub enum PeerIp {
    V4(u32),
    V6(u128, u32, u32),
}

/// The socket address of a node: IP address and port.
#[derive(Clone, Copy, PartialEq, Eq, Structural, Hash, Debug)]
pub struct Peer {
    ip: PeerIp,
    port: u16,
}

/// The IP address of a peer.
pub closed spec fn peer_ip(p: Peer) -> PeerIp {
    p.ip
}

/// The port of a peer.
pub closed spec fn peer_port(p: Peer) -> u16 {
    p.port
}

/// The length of the bytes of a peer: tag, IP address, port.
pub open spec fn peer_size(p: Peer) -> nat {
    match peer_ip(p) {
        PeerIp::V4(_) => 8,
        PeerIp::V6(..) => 20,
    }
}

/// The bytes of a peer: the length of its IP address as a big-endian `u16` tag (4 or 16), the
/// bits of the IP address, the port, all big-endian. An IPv6 flow label and scope id are left
/// out.
pub open spec fn peer_encoding(p: Peer) -> Seq<u8> {
    match peer_ip(p) {
        PeerIp::V4(bits) => be_u16(4) + be_u32(bits) + be_u16(peer_port(p)),
        PeerIp::V6(bits, _, _) => be_u16(16) + be_u128(bits) + be_u16(peer_port(p)),
    }
}

/// The peer that the bytes at the start of `bytes` encode, if any: none where the tag is
/// neither 4 nor 16, or the bytes end too early.
pub open spec fn peer_decoding(bytes: Seq<u8>) -> Option<Peer> {
    if bytes.len() < 2 {
        None
    } else if be_u16_value(bytes) == 4 {
        if bytes.len() < 8 {
            None
        } else {
            Some(
                peer_of(
                    PeerIp::V4(be_u32_value(bytes.subrange(2, 6))),
                    be_u16_value(bytes.subrange(6, 8)),
                ),
            )
        }
    } else if be_u16_value(bytes) == 16 {
        if bytes.len() < 20 {
            None
        } else {
            Some(
                peer_of(
                    PeerIp::V6(be_u128_value(bytes.subrange(2, 18)), 0, 0),
                    be_u16_value(bytes.subrange(18, 20)),
                ),
            )
        }
    } else {
        None
    }
}

/// The message with which decoding the bytes of a peer fails.
pub open spec fn peer_error(bytes: Seq<u8>) -> Seq<char> {
    if bytes.len() < 2 {
        count_message("Peer::from_raw_bytes(): not enough bytes for 'tag'"@, 2, bytes.len())
    } else if be_u16_value(bytes) == 4 {
        if bytes.len() < 6 {
            count_message("Peer::from_raw_bytes(): not enough bytes for 'IPv4'"@, 6, bytes.len())
        } else {
            count_message("Peer::from_raw_bytes(): not enough bytes for 'port'"@, 8, bytes.len())
        }
    } else if be_u16_value(bytes) == 16 {
        if bytes.len() < 18 {
            count_message("Peer::from_raw_bytes(): not enough bytes for 'IPv6'"@, 18, bytes.len())
        } else {
            count_message("Peer::from_raw_bytes(): not enough bytes for 'port'"@, 20, bytes.len())
        }
    } else {
        "Peer::from_raw_bytes(): unmatched 'tag': "@ + decimal(be_u16_value(bytes) as nat)
    }
}

/// The peer with the given IP address and port.
pub closed spec fn peer_of(ip: PeerIp, port: u16) -> Peer {
    Peer { ip, port }
}

/// A peer is the peer of its IP address and port.
pub broadcast proof fn lemma_peer_of_parts(ip: PeerIp, port: u16)
    ensures
        #[trigger] peer_ip(peer_of(ip, port)) == ip,
        peer_port(peer_of(ip, port)) == port,
{
}

/// Two peers with the same IP address and port are the same peer.
pub proof fn lemma_peer_parts_injective(a: Peer, b: Peer)
    requires
        peer_ip(a) == peer_ip(b),
        peer_port(a) == peer_port(b),
    ensures
        a == b,
{
}

/// The peer as its bytes keep it: without an IPv6 flow label or scope id.
pub open spec fn peer_without_scope(p: Peer) -> Peer {
    match peer_ip(p) {
        PeerIp::V4(_) => p,
        PeerIp::V6(bits, _, _) => peer_of(PeerIp::V6(bits, 0, 0), peer_port(p)),
    }
}

/// Decoding the bytes of a peer gives the peer back, whatever follows them, but for an IPv6
/// flow label and scope id, which come back as zero.
pub proof fn lemma_peer_bytes_roundtrip(p: Peer, rest: Seq<u8>)
    ensures
        peer_encoding(p).len() == peer_size(p),
        peer_decoding(peer_encoding(p) + rest) == Some(peer_without_scope(p)),
{
    lemma_be_u16_roundtrip(4);
    lemma_be_u16_roundtrip(16);
    lemma_be_u16_roundtrip(p.port);
    let e = peer_encoding(p) + rest;
    match p.ip {
        PeerIp::V4(bits) => {
            lemma_be_u32_roundtrip(bits);
            assert(e.subrange(2, 6) =~= be_u32(bits));
            assert(e.subrange(6, 8) =~= be_u16(p.port));
            assert(be_u16_value(e) == 4);
        },
        PeerIp::V6(bits, _, _) => {
            lemma_be_u128_roundtrip(bits);
            assert(e.subrange(2, 18) =~= be_u128(bits));
            assert(e.subrange(18, 20) =~= be_u16(p.port));
            assert(be_u16_value(e) == 16);
        },
    }
}

impl Peer {
    /// The peer with the given IP address and port.
    pub fn new(ip: PeerIp, port: u16) -> (r: Self)
        ensures
            r == peer_of(ip, port),
    {
        Self { ip, port }
    }

    /// The IP address.
    pub fn ip(&self) -> (r: PeerIp)
        ensures
            r == peer_ip(*self),
    {
        self.ip
    }

    /// The port.
    pub fn port(&self) -> (r: u16)
        ensures
            r == peer_port(*self),
    {
        self.port
    }

    /// Whether the IP address is an IPv4 address.
    pub fn is_ipv4(&self) -> (r: bool)
        ensures
            r == (peer_ip(*self) is V4),
    {
        match self.ip {
            PeerIp::V4(_) => true,
            PeerIp::V6(..) => false,
        }
    }

    /// The length of the bytes of the peer.
    pub fn size_of_self(&self) -> (r: usize)
        ensures
            r == peer_size(*self),
    {
        if self.is_ipv4() {
            Self::size_of_tag() + Self::size_of_ipv4() + Self::size_of_port()
        } else {
            Self::size_of_tag() + Self::size_of_ipv6() + Self::size_of_port()
        }
    }

    /// The length of the tag.
    pub fn size_of_tag() -> (r: usize)
        ensures
            r == 2,
    {
        2
    }

    /// Where the tag starts.
    pub fn offset_of_tag() -> (r: usize)
        ensures
            r == 0,
    {
        0
    }

    /// Whether a tag announces an IPv4 address.
    pub fn is_ipv4_tag(tag: u16) -> (r: bool)
        ensures
            r == (tag == 4),
    {
        tag as usize == Self::size_of_ipv4()
    }

    /// Whether a tag announces an IPv6 address.
    pub fn is_ipv6_tag(tag: u16) -> (r: bool)
        ensures
            r == (tag == 16),
    {
        tag as usize == Self::size_of_ipv6()
    }

    /// The length of an IPv4 address.
    pub fn size_of_ipv4() -> (r: usize)
        ensures
            r == 4,
    {
        4
    }

    /// The length of an IPv6 address.
    pub fn size_of_ipv6() -> (r: usize)
        ensures
            r == 16,
    {
        16
    }

    /// Where the IP address starts.
    pub fn offset_of_ip() -> (r: usize)
        ensures
            r == 2,
    {
        Self::offset_of_tag() + Self::size_of_tag()
    }

    /// The length of the port.
    pub fn size_of_port() -> (r: usize)
        ensures
            r == 2,
    {
        2
    }

    /// Where the port starts.
    pub fn offset_of_port(is_ipv4: bool) -> (r: usize)
        ensures
            r == (if is_ipv4 {
                6usize
            } else {
                18usize
            }),
    {
        if is_ipv4 {
            Self::offset_of_ip() + Self::size_of_ipv4()
        } else {
            Self::offset_of_ip() + Self::size_of_ipv6()
        }
    }
}

impl BytesConversion for Peer {
    type Error = String;

    open spec fn encodable(&self) -> bool {
        true
    }

    open spec fn encoding(&self) -> Seq<u8> {
        peer_encoding(*self)
    }

    open spec fn decodable(bytes: Seq<u8>) -> bool {
        true
    }

    open spec fn decodes_to(bytes: Seq<u8>, r: Result<Self, Self::Error>) -> bool {
        match peer_decoding(bytes) {
            None => r matches Err(e) && e@ == peer_error(bytes),
            Some(p) => r == Ok::<Peer, String>(p),
        }
    }

    fn as_boxed_bytes(&self) -> (r: Result<Box<[u8]>, Self::Error>) {
        let mut bytes = boxed_bytes(self.size_of_self());
        let mut bytes_index: usize = 0;
        match self.ip {
            PeerIp::V4(bits) => {
                let tag = u16_to_be_bytes(Self::size_of_ipv4() as u16);
                append_bytes_raw(&tag, &mut bytes, &mut bytes_index)?;
                let ip_bytes = u32_to_be_bytes(bits);
                append_bytes_raw(&ip_bytes, &mut bytes, &mut bytes_index)?;
            },
            PeerIp::V6(bits, _, _) => {
                let tag = u16_to_be_bytes(Self::size_of_ipv6() as u16);
                append_bytes_raw(&tag, &mut bytes, &mut bytes_index)?;
                let ip_bytes = u128_to_be_bytes(bits);
                append_bytes_raw(&ip_bytes, &mut bytes, &mut bytes_index)?;
            },
        }
        let port = u16_to_be_bytes(self.port);
        append_bytes_raw(&port, &mut bytes, &mut bytes_index)?;
        assert(bytes@ =~= peer_encoding(*self));
        Ok(bytes)
    }

    fn from_raw_bytes(bytes: &[u8]) -> (r: Result<Self, Self::Error>) {
        if bytes.len() < Self::size_of_tag() {
            return Err(
                count_message_text(
                    "Peer::from_raw_bytes(): not enough bytes for 'tag'",
                    Self::size_of_tag(),
                    bytes.len(),
                ),
            );
        }
        let tag = u16_from_be_bytes(bytes);
        let beg = Self::offset_of_ip();
        let ip = if Self::is_ipv4_tag(tag) {
            let end = beg + Self::size_of_ipv4();
            if bytes.len() < end {
                return Err(
                    count_message_text(
                        "Peer::from_raw_bytes(): not enough bytes for 'IPv4'",
                        end,
                        bytes.len(),
                    ),
                );
            }
            let ip_bytes = &bytes[beg..end];
            PeerIp::V4(u32_from_be_bytes(ip_bytes))
        } else if Self::is_ipv6_tag(tag) {
            let end = beg + Self::size_of_ipv6();
            if bytes.len() < end {
                return Err(
                    count_message_text(
                        "Peer::from_raw_bytes(): not enough bytes for 'IPv6'",
                        end,
                        bytes.len(),
                    ),
                );
            }
            let ip_bytes = &bytes[beg..end];
            PeerIp::V6(u128_from_be_bytes(ip_bytes), 0, 0)
        } else {
            return Err(text_with_number("Peer::from_raw_bytes(): unmatched 'tag': ", tag as u128));
        };
        let is_ipv4 = match ip {
            PeerIp::V4(_) => true,
            PeerIp::V6(..) => false,
        };
        let port_beg = Self::offset_of_port(is_ipv4);
        let port_end = port_beg + Self::size_of_port();
        if bytes.len() < port_end {
            return Err(
                count_message_text(
                    "Peer::from_raw_bytes(): not enough bytes for 'port'",
                    port_end,
                    bytes.len(),
                ),
            );
        }
        let port_bytes = &bytes[port_beg..port_end];
        let port = u16_from_be_bytes(port_bytes);
        Ok(Self { ip, port })
    }
}

/// A set of peers, each held once, in the order they were first inserted.
pub struct Peers {
    peers: Vec<Peer>,
}

impl View for Peers {
    type V = Seq<Peer>;

    closed spec fn view(&self) -> Seq<Peer> {
        self.peers@
    }
}

/// The bytes of a list of peers, one after the other.
pub open spec fn peers_list_encoding(s: Seq<Peer>) -> Seq<u8>
    decreases s.len(),
{
    if s.len() == 0 {
        Seq::empty()
    } else {
        peer_encoding(s[0]) + peers_list_encoding(s.drop_first())
    }
}

/// The bytes of a set of peers: their number as a big-endian `u64`, then the peers.
pub open spec fn peers_encoding(s: Seq<Peer>) -> Seq<u8> {
    be_u64(s.len() as u64) + peers_list_encoding(s)
}

/// The `count` peers that `bytes` encode from position `pos` on, if they all decode.
pub open spec fn peers_list_decoding(bytes: Seq<u8>, pos: int, count: nat) -> Option<Seq<Peer>>
    decreases count,
{
    if count == 0 {
        Some(Seq::empty())
    } else if pos > bytes.len() || pos < 0 {
        None
    } else {
        match peer_decoding(bytes.subrange(pos, bytes.len() as int)) {
            None => None,
            Some(p) => match peers_list_decoding(bytes, pos + peer_size(p), (count - 1) as nat) {
                None => None,
                Some(rest) => Some(seq![p] + rest),
            },
        }
    }
}

/// The message with which decoding `count` peers from position `pos` on fails: that of the
/// first peer that does not decode.
pub open spec fn peers_list_error(bytes: Seq<u8>, pos: int, count: nat) -> Seq<char>
    decreases count,
{
    if count == 0 {
        Seq::empty()
    } else if pos > bytes.len() || pos < 0 {
        count_message(
            "Peers::from_raw_bytes(): not enough bytes for next peer"@,
            pos as nat,
            bytes.len(),
        )
    } else {
        match peer_decoding(bytes.subrange(pos, bytes.len() as int)) {
            None => peer_error(bytes.subrange(pos, bytes.len() as int)),
            Some(p) => peers_list_error(bytes, pos + peer_size(p), (count - 1) as nat),
        }
    }
}

/// The list without its repetitions: each peer where it first occurs.
pub open spec fn dedup(s: Seq<Peer>) -> Seq<Peer>
    decreases s.len(),
{
    if s.len() == 0 {
        Seq::empty()
    } else {
        let d = dedup(s.drop_last());
        if d.contains(s.last()) {
            d
        } else {
            d.push(s.last())
        }
    }
}

/// `prefix` put before the list that `rest` holds, if any.
pub open spec fn prepend(prefix: Seq<Peer>, rest: Option<Seq<Peer>>) -> Option<Seq<Peer>> {
    match rest {
        None => None,
        Some(r) => Some(prefix + r),
    }
}

/// The encoding of two lists one after the other is the encoding of their concatenation.
proof fn lemma_peers_list_encoding_append(a: Seq<Peer>, b: Seq<Peer>)
    ensures
        peers_list_encoding(a + b) == peers_list_encoding(a) + peers_list_encoding(b),
    decreases a.len(),
{
    if a.len() == 0 {
        assert(a + b =~= b);
    } else {
        lemma_peers_list_encoding_append(a.drop_first(), b);
        assert((a + b).drop_first() =~= a.drop_first() + b);
        assert(peers_list_encoding(a + b) =~= peers_list_encoding(a) + peers_list_encoding(b));
    }
}

/// The peers as their bytes keep them.
pub open spec fn peers_without_scope(s: Seq<Peer>) -> Seq<Peer> {
    s.map_values(|p: Peer| peer_without_scope(p))
}

/// Decoding the encoding of a list of peers, wherever it stands, gives the list back as the
/// bytes keep it.
proof fn lemma_peers_list_roundtrip(pre: Seq<u8>, s: Seq<Peer>, tail: Seq<u8>)
    ensures
        peers_list_decoding(pre + peers_list_encoding(s) + tail, pre.len() as int, s.len())
            == Some(peers_without_scope(s)),
    decreases s.len(),
{
    let bytes = pre + peers_list_encoding(s) + tail;
    if s.len() > 0 {
        let p = s[0];
        let rest_bytes = peers_list_encoding(s.drop_first()) + tail;
        lemma_peer_bytes_roundtrip(p, rest_bytes);
        assert(bytes.subrange(pre.len() as int, bytes.len() as int) =~= peer_encoding(p)
            + rest_bytes);
        let pre2 = pre + peer_encoding(p);
        assert(bytes =~= pre2 + peers_list_encoding(s.drop_first()) + tail);
        lemma_peers_list_roundtrip(pre2, s.drop_first(), tail);
        assert(seq![peer_without_scope(p)] + peers_without_scope(s.drop_first())
            =~= peers_without_scope(s));
    } else {
        assert(peers_without_scope(s) =~= Seq::<Peer>::empty());
    }
}

/// A list without repetitions is its own list without repetitions.
proof fn lemma_dedup_no_duplicates(s: Seq<Peer>)
    requires
        s.no_duplicates(),
    ensures
        dedup(s) == s,
    decreases s.len(),
{
    if s.len() > 0 {
        let t = s.drop_last();
        assert(t.no_duplicates());
        lemma_dedup_no_duplicates(t);
        assert(!t.contains(s.last())) by {
            if t.contains(s.last()) {
                let k = choose|k: int| 0 <= k < t.len() && t[k] == s.last();
                assert(s[k] == s[s.len() - 1]);
            }
        }
        assert(t.push(s.last()) =~= s);
    }
}

/// The list without repetitions holds no peer twice.
proof fn lemma_dedup_is_set(s: Seq<Peer>)
    ensures
        dedup(s).no_duplicates(),
    decreases s.len(),
{
    if s.len() > 0 {
        lemma_dedup_is_set(s.drop_last());
    }
}

/// Decoding the bytes of a set of peers gives the set back, in the same order, with the IPv6
/// flow labels and scope ids as zero; a set without them comes back as it was.
pub proof fn lemma_peers_bytes_roundtrip(s: Seq<Peer>)
    requires
        s.no_duplicates(),
        s.len() <= u64::MAX,
    ensures
        peers_list_decoding(peers_encoding(s), 8, be_u64_value(peers_encoding(s)) as nat) == Some(
            peers_without_scope(s),
        ),
        (forall|k: int| 0 <= k < s.len() ==> #[trigger] peer_without_scope(s[k]) == s[k])
            ==> peers_without_scope(s) == s,
        dedup(s) == s,
{
    lemma_be_u64_roundtrip(s.len() as u64);
    let e = peers_encoding(s);
    assert(be_u64_value(e) == be_u64_value(be_u64(s.len() as u64)));
    lemma_peers_list_roundtrip(be_u64(s.len() as u64), s, Seq::empty());
    assert(e =~= be_u64(s.len() as u64) + peers_list_encoding(s) + Seq::<u8>::empty());
    lemma_dedup_no_duplicates(s);
    if forall|k: int| 0 <= k < s.len() ==> #[trigger] peer_without_scope(s[k]) == s[k] {
        assert(peers_without_scope(s) =~= s);
    }
}

impl Peers {
    #[verifier::type_invariant]
    spec fn no_peer_twice(self) -> bool {
        self.peers@.no_duplicates()
    }

    /// An empty set of peers, with room for `capacity` of them.
    pub fn with_capacity(capacity: usize) -> (r: Self)
        ensures
            r@ == Seq::<Peer>::empty(),
    {
        Self { peers: Vec::new() }
    }

    /// The number of peers.
    pub fn len(&self) -> (r: usize)
        ensures
            r == self@.len(),
            self@.no_duplicates(),
    {
        proof {
            use_type_invariant(self);
        }
        self.peers.len()
    }

    /// The peers, in the order they were first inserted; none occurs twice.
    pub fn as_slice(&self) -> (r: &[Peer])
        ensures
            r@ == self@,
            self@.no_duplicates(),
    {
        proof {
            use_type_invariant(self);
        }
        self.peers.as_slice()
    }

    /// Whether `peer` is in the set.
    pub fn contains(&self, peer: &Peer) -> (r: bool)
        ensures
            r == self@.contains(*peer),
    {
        let mut i: usize = 0;
        while i < self.peers.len()
            invariant
                i <= self@.len(),
                forall|k: int| 0 <= k < i ==> self@[k] != *peer,
            decreases self@.len() - i,
        {
            if self.peers[i] == *peer {
                assert(self@[i as int] == *peer);
                return true;
            }
            i = i + 1;
        }
        false
    }

    /// Adds `peer` where it is not in the set yet; returns whether it was added.
    pub fn insert(&mut self, peer: Peer) -> (r: bool)
        ensures
            r == !old(self)@.contains(peer),
            final(self)@ == if r {
                old(self)@.push(peer)
            } else {
                old(self)@
            },
            final(self)@.no_duplicates(),
    {
        proof {
            use_type_invariant(&*self);
        }
        if self.contains(&peer) {
            return false;
        }
        let mut peers: Vec<Peer> = Vec::new();
        std::mem::swap(&mut peers, &mut self.peers);
        peers.push(peer);
        proof {
            assert forall|a: int, b: int| 0 <= a < b < peers@.len() implies peers@[a] != peers@[b] by {
                if b == peers@.len() - 1 {
                    assert(old(self)@[a] == peers@[a]);
                }
            }
        }
        self.peers = peers;
        true
    }

    /// Takes `peer` out of the set; returns whether it was there.
    pub fn remove(&mut self, peer: &Peer) -> (r: bool)
        ensures
            r == old(self)@.contains(*peer),
            !final(self)@.contains(*peer),
            final(self)@.to_set() == old(self)@.to_set().remove(*peer),
            r ==> exists|i: int|
                0 <= i < old(self)@.len() && old(self)@[i] == *peer && final(self)@ == old(
                    self,
                )@.remove(i),
            !r ==> final(self)@ == old(self)@,
            final(self)@.no_duplicates(),
    {
        proof {
            use_type_invariant(&*self);
        }
        let mut i: usize = 0;
        while i < self.peers.len()
            invariant
                self@ == old(self)@,
                self@.no_duplicates(),
                i <= self@.len(),
                forall|k: int| 0 <= k < i ==> self@[k] != *peer,
            decreases self@.len() - i,
        {
            if self.peers[i] == *peer {
                let mut peers: Vec<Peer> = Vec::new();
                std::mem::swap(&mut peers, &mut self.peers);
                peers.remove(i);
                proof {
                    lemma_remove_unique(old(self)@, i as int, *peer);
                }
                self.peers = peers;
                return true;
            }
            i = i + 1;
        }
        assert(old(self)@.to_set().remove(*peer) =~= old(self)@.to_set());
        false
    }
}

/// A decoded peer takes no more bytes than there are.
proof fn lemma_peer_decoding_size(bytes: Seq<u8>)
    ensures
        peer_decoding(bytes) matches Some(p) ==> peer_size(p) <= bytes.len(),
{
    broadcast use lemma_peer_of_parts;

}

/// The encoding of a prefix of a list, followed by the next peer, is the encoding of the
/// prefix one longer.
proof fn lemma_peers_list_encoding_take(s: Seq<Peer>, i: int)
    requires
        0 <= i < s.len(),
    ensures
        peers_list_encoding(s.take(i + 1)) == peers_list_encoding(s.take(i)) + peer_encoding(s[i]),
        peers_list_encoding(s.take(i + 1)).len() <= peers_list_encoding(s).len(),
{
    lemma_peers_list_encoding_append(s.take(i), seq![s[i]]);
    assert(s.take(i) + seq![s[i]] =~= s.take(i + 1));
    let single = seq![s[i]];
    assert(single.drop_first() =~= Seq::<Peer>::empty());
    assert(peers_list_encoding(Seq::<Peer>::empty()) == Seq::<u8>::empty());
    assert(single[0] == s[i]);
    assert(peers_list_encoding(single) == peer_encoding(s[i]) + peers_list_encoding(single.drop_first()));
    assert(peers_list_encoding(single) =~= peer_encoding(s[i]));
    lemma_peers_list_encoding_append(s.take(i + 1), s.skip(i + 1));
    assert(s.take(i + 1) + s.skip(i + 1) =~= s);
}

impl BytesConversion for Peers {
    type Error = String;

    open spec fn encodable(&self) -> bool {
        8 + peers_list_encoding(self@).len() <= usize::MAX
    }

    open spec fn encoding(&self) -> Seq<u8> {
        peers_encoding(self@)
    }

    open spec fn decodable(bytes: Seq<u8>) -> bool {
        true
    }

    open spec fn decodes_to(bytes: Seq<u8>, r: Result<Self, Self::Error>) -> bool {
        if bytes.len() < 8 {
            r matches Err(e) && e@ == count_message(
                "Peers::from_raw_bytes(): not enough bytes for 'len'"@,
                8,
                bytes.len(),
            )
        } else {
            match peers_list_decoding(bytes, 8, be_u64_value(bytes) as nat) {
                None => r matches Err(e) && e@ == peers_list_error(
                    bytes,
                    8,
                    be_u64_value(bytes) as nat,
                ),
                Some(list) => r matches Ok(peers) && peers@ == dedup(list),
            }
        }
    }

    fn as_boxed_bytes(&self) -> (r: Result<Box<[u8]>, Self::Error>) {
        proof {
            use_type_invariant(self);
        }
        let n = self.peers.len();
        let mut total: usize = 0;
        let mut i: usize = 0;
        while i < n
            invariant
                n == self@.len(),
                i <= n,
                8 + peers_list_encoding(self@).len() <= usize::MAX,
                total == peers_list_encoding(self@.take(i as int)).len(),
            decreases n - i,
        {
            proof {
                lemma_peers_list_encoding_take(self@, i as int);
                lemma_peer_bytes_roundtrip(self@[i as int], Seq::empty());
            }
            total = total + self.peers[i].size_of_self();
            i = i + 1;
        }
        assert(self@.take(n as int) =~= self@);
        let n_bytes = 8 + total;
        let mut bytes = boxed_bytes(n_bytes);
        let mut bytes_index: usize = 0;
        let len_bytes = u64_to_be_bytes(n as u64);
        append_bytes_raw(&len_bytes, &mut bytes, &mut bytes_index)?;
        assert(self@.take(0) =~= Seq::<Peer>::empty());
        assert(bytes@.subrange(0, 8) =~= be_u64(n as u64) + peers_list_encoding(self@.take(0)));
        let mut j: usize = 0;
        while j < n
            invariant
                n == self@.len(),
                j <= n,
                bytes@.len() == n_bytes,
                n_bytes == 8 + peers_list_encoding(self@).len(),
                bytes_index == 8 + peers_list_encoding(self@.take(j as int)).len(),
                bytes@.subrange(0, bytes_index as int) == be_u64(n as u64) + peers_list_encoding(
                    self@.take(j as int),
                ),
            decreases n - j,
        {
            proof {
                lemma_peers_list_encoding_take(self@, j as int);
            }
            let peer_bytes = self.peers[j].as_boxed_bytes()?;
            let ghost before = bytes@;
            append_bytes_raw(&peer_bytes, &mut bytes, &mut bytes_index)?;
            assert(bytes@.subrange(0, bytes_index as int) =~= before.subrange(
                0,
                bytes_index - peer_bytes@.len(),
            ) + peer_encoding(self@[j as int]));
            j = j + 1;
        }
        assert(self@.take(n as int) =~= self@);
        assert(bytes@.subrange(0, bytes_index as int) =~= bytes@);
        Ok(bytes)
    }

    fn from_raw_bytes(bytes: &[u8]) -> (r: Result<Self, Self::Error>) {
        if bytes.len() < 8 {
            return Err(
                count_message_text("Peers::from_raw_bytes(): not enough bytes for 'len'", 8, bytes.len()),
            );
        }
        let len = u64_from_be_bytes(bytes);
        let mut peers = Self::with_capacity(0);
        let mut end: usize = 8;
        let mut i: u64 = 0;
        let ghost mut prefix: Seq<Peer> = Seq::empty();
        assert(dedup(prefix) =~= peers@);
        assert(prefix + Seq::<Peer>::empty() =~= prefix);
        while i < len
            invariant
                len == be_u64_value(bytes@),
                i <= len,
                8 <= end <= bytes@.len(),
                peers_list_decoding(bytes@, 8, len as nat) == prepend(
                    prefix,
                    peers_list_decoding(bytes@, end as int, (len - i) as nat),
                ),
                peers@ == dedup(prefix),
                peers_list_error(bytes@, 8, len as nat) == peers_list_error(
                    bytes@,
                    end as int,
                    (len - i) as nat,
                ),
            decreases len - i,
        {
            let beg = end;
            if bytes.len() < beg {
                return Err(
                    count_message_text(
                        "Peers::from_raw_bytes(): not enough bytes for next peer",
                        beg,
                        bytes.len(),
                    ),
                );
            }
            let rest = &bytes[beg..bytes.len()];
            let peer = match Peer::from_raw_bytes(rest) {
                Ok(peer) => peer,
                Err(e) => {
                    proof {
                        let m = (len - i) as nat;
                        assert(rest@ == bytes@.subrange(beg as int, bytes@.len() as int));
                        assert(peers_list_decoding(bytes@, beg as int, m) is None);
                        assert(peers_list_error(bytes@, beg as int, m) == peer_error(rest@));
                    }
                    return Err(e);
                },
            };
            proof {
                lemma_peer_decoding_size(rest@);
                let m = (len - i) as nat;
                let tail = peers_list_decoding(bytes@, beg + peer_size(peer), (m - 1) as nat);
                assert(peers_list_decoding(bytes@, beg as int, m) == prepend(seq![peer], tail));
                match tail {
                    None => {},
                    Some(t) => {
                        assert(prefix + (seq![peer] + t) =~= prefix.push(peer) + t);
                    },
                }
                assert(prefix.push(peer).drop_last() =~= prefix);
            }
            end = end + peer.size_of_self();
            peers.insert(peer);
            proof {
                prefix = prefix.push(peer);
            }
            i = i + 1;
        }
        Ok(peers)
    }
}

/// Removing the only occurrence of a peer leaves a list without it, nor any repetition, that
/// holds every other peer of the list.
proof fn lemma_remove_unique(s: Seq<Peer>, i: int, peer: Peer)
    requires
        s.no_duplicates(),
        0 <= i < s.len(),
        s[i] == peer,
    ensures
        s.remove(i).no_duplicates(),
        !s.remove(i).contains(peer),
        s.remove(i).to_set() == s.to_set().remove(peer),
{
    let r = s.remove(i);
    assert forall|k: int| 0 <= k < r.len() implies r[k] != peer by {
        if k < i {
            assert(r[k] == s[k]);
        } else {
            assert(r[k] == s[k + 1]);
        }
    }
    assert forall|a: int, b: int| 0 <= a < b < r.len() implies r[a] != r[b] by {
        let sa = if a < i { a } else { a + 1 };
        let sb = if b < i { b } else { b + 1 };
        assert(r[a] == s[sa] && r[b] == s[sb]);
    }
    assert forall|q: Peer| #[trigger] r.to_set().contains(q) <==> s.to_set().remove(peer).contains(q) by {
        if r.contains(q) {
            let k = choose|k: int| 0 <= k < r.len() && r[k] == q;
            if k < i {
                assert(s[k] == q);
            } else {
                assert(s[k + 1] == q);
            }
        }
        if s.contains(q) && q != peer {
            let k = choose|k: int| 0 <= k < s.len() && s[k] == q;
            if k < i {
                assert(r[k] == q);
            } else {
                assert(r[k - 1] == q);
            }
        }
    }
    assert(r.to_set() =~= s.to_set().remove(peer));
}

} // verus!
