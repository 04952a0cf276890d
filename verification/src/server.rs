//! The decisions of the server node: which peers are connected, how many echoes each has
//! missed, and whether the list of peers changed since the peers were last told.

use vstd::prelude::*;

use crate::bytes_utils::{actix_bytes_from_boxed, actix_bytes_view, boxed_bytes, bytes_equal, BytesConversion};
use crate::peers::{peers_encoding, peers_list_encoding, Peer, Peers};

verus! {

/// The number of echoes in a row that a peer may miss before it is dropped.
pub const MAX_MISSED_ECHOES: usize = 3;

/// For each connected peer, the number of echoes in a row it has missed.
pub struct EchoCounts {
    entries: Vec<(Peer, usize)>,
}

/// Whether no peer has two entries.
pub open spec fn keys_unique(s: Seq<(Peer, usize)>) -> bool {
    forall|a: int, b: int| 0 <= a < b < s.len() ==> s[a].0 != s[b].0
}

/// Whether `peer` has an entry.
pub open spec fn has_key(s: Seq<(Peer, usize)>, peer: Peer) -> bool {
    exists|i: int| 0 <= i < s.len() && s[i].0 == peer
}

/// The entries as a map from peer to count.
pub open spec fn entries_map(s: Seq<(Peer, usize)>) -> Map<Peer, usize> {
    Map::new(
        |p: Peer| has_key(s, p),
        |p: Peer| s[choose|i: int| 0 <= i < s.len() && s[i].0 == p].1,
    )
}

impl View for EchoCounts {
    type V = Map<Peer, usize>;

    closed spec fn view(&self) -> Map<Peer, usize> {
        entries_map(self.entries@)
    }
}

/// With unique keys, the entry of a peer is the one at the index where it stands.
proof fn lemma_entries_map_at(s: Seq<(Peer, usize)>, i: int)
    requires
        keys_unique(s),
        0 <= i < s.len(),
    ensures
        entries_map(s).contains_key(s[i].0),
        entries_map(s)[s[i].0] == s[i].1,
{
    assert(has_key(s, s[i].0));
    let j = choose|j: int| 0 <= j < s.len() && s[j].0 == s[i].0;
    assert(j == i);
}

impl EchoCounts {
    #[verifier::type_invariant]
    spec fn unique_entries(self) -> bool {
        keys_unique(self.entries@)
    }

    /// No counts, with room for `capacity` of them.
    pub fn with_capacity(capacity: usize) -> (r: Self)
        ensures
            r@ == Map::<Peer, usize>::empty(),
    {
        let r = Self { entries: Vec::with_capacity(capacity) };
        assert(r@ =~= Map::<Peer, usize>::empty());
        r
    }

    /// Where the entry of `peer` stands, if it has one.
    fn find(&self, peer: &Peer) -> (r: Option<usize>)
        ensures
            r matches Some(i) ==> i < self.entries@.len() && self.entries@[i as int].0 == *peer,
            r is None ==> !has_key(self.entries@, *peer),
    {
        let mut i: usize = 0;
        while i < self.entries.len()
            invariant
                i <= self.entries@.len(),
                forall|k: int| 0 <= k < i ==> self.entries@[k].0 != *peer,
            decreases self.entries@.len() - i,
        {
            if self.entries[i].0 == *peer {
                return Some(i);
            }
            i = i + 1;
        }
        None
    }

    /// The count of `peer`, if it has one.
    pub fn get(&self, peer: &Peer) -> (r: Option<usize>)
        ensures
            r == (if self@.contains_key(*peer) {
                Some(self@[*peer])
            } else {
                None::<usize>
            }),
    {
        proof {
            use_type_invariant(self);
        }
        match self.find(peer) {
            Some(i) => {
                proof {
                    lemma_entries_map_at(self.entries@, i as int);
                }
                Some(self.entries[i].1)
            },
            None => None,
        }
    }

    /// Sets the count of `peer` to `count`.
    pub fn set(&mut self, peer: Peer, count: usize)
        ensures
            final(self)@ == old(self)@.insert(peer, count),
    {
        proof {
            use_type_invariant(&*self);
        }
        let found = self.find(&peer);
        let mut entries: Vec<(Peer, usize)> = Vec::new();
        std::mem::swap(&mut entries, &mut self.entries);
        let ghost old_entries = entries@;
        match found {
            Some(i) => {
                entries.set(i, (peer, count));
            },
            None => {
                entries.push((peer, count));
            },
        }
        let ghost new_entries = entries@;
        proof {
            assert(keys_unique(new_entries)) by {
                assert forall|a: int, b: int| 0 <= a < b < new_entries.len() implies new_entries[a].0
                    != new_entries[b].0 by {
                    if found is None && b == new_entries.len() - 1 {
                        assert(old_entries[a].0 == new_entries[a].0);
                    }
                }
            }
            assert forall|q: Peer| #[trigger] entries_map(new_entries).contains_key(q)
                <==> (entries_map(old_entries).contains_key(q) || q == peer) by {
                if has_key(new_entries, q) && q != peer {
                    let k = choose|k: int| 0 <= k < new_entries.len() && new_entries[k].0 == q;
                    assert(old_entries[k].0 == q);
                }
                if has_key(old_entries, q) {
                    let k = choose|k: int| 0 <= k < old_entries.len() && old_entries[k].0 == q;
                    if q != peer {
                        assert(new_entries[k].0 == q);
                    }
                }
                if q == peer {
                    let k = match found { Some(i) => i as int, None => old_entries.len() as int };
                    assert(new_entries[k].0 == q);
                }
            }
            assert forall|q: Peer| #[trigger] entries_map(new_entries).contains_key(q) implies
                entries_map(new_entries)[q] == (if q == peer {
                    count
                } else {
                    entries_map(old_entries)[q]
                }) by {
                let k = choose|k: int| 0 <= k < new_entries.len() && new_entries[k].0 == q;
                lemma_entries_map_at(new_entries, k);
                if q != peer {
                    assert(old_entries[k] == new_entries[k]);
                    lemma_entries_map_at(old_entries, k);
                }
            }
            assert(entries_map(new_entries) =~= entries_map(old_entries).insert(peer, count));
        }
        self.entries = entries;
    }

    /// Takes the count of `peer` out.
    pub fn remove(&mut self, peer: &Peer)
        ensures
            final(self)@ == old(self)@.remove(*peer),
    {
        proof {
            use_type_invariant(&*self);
        }
        match self.find(peer) {
            Some(i) => {
                let mut entries: Vec<(Peer, usize)> = Vec::new();
                std::mem::swap(&mut entries, &mut self.entries);
                let ghost old_entries = entries@;
                entries.remove(i);
                let ghost new_entries = entries@;
                proof {
                    assert(keys_unique(new_entries)) by {
                        assert forall|a: int, b: int| 0 <= a < b < new_entries.len() implies new_entries[
                            a].0 != new_entries[b].0 by {
                            let oa = if a < i { a } else { a + 1 };
                            let ob = if b < i { b } else { b + 1 };
                            assert(new_entries[a] == old_entries[oa]);
                            assert(new_entries[b] == old_entries[ob]);
                        }
                    }
                    assert forall|q: Peer| #[trigger] entries_map(new_entries).contains_key(q) <==> (
                    entries_map(old_entries).contains_key(q) && q != *peer) by {
                        if has_key(new_entries, q) {
                            let k = choose|k: int| 0 <= k < new_entries.len() && new_entries[k].0 == q;
                            let ok = if k < i { k } else { k + 1 };
                            assert(old_entries[ok].0 == q);
                        }
                        if has_key(old_entries, q) && q != *peer {
                            let k = choose|k: int| 0 <= k < old_entries.len() && old_entries[k].0 == q;
                            if k < i {
                                assert(new_entries[k].0 == q);
                            } else {
                                assert(k != i);
                                assert(new_entries[k - 1].0 == q);
                            }
                        }
                    }
                    assert forall|q: Peer| #[trigger] entries_map(new_entries).contains_key(q) implies
                        entries_map(new_entries)[q] == entries_map(old_entries)[q] by {
                        let k = choose|k: int| 0 <= k < new_entries.len() && new_entries[k].0 == q;
                        let ok = if k < i { k } else { k + 1 };
                        assert(old_entries[ok] == new_entries[k]);
                        lemma_entries_map_at(new_entries, k);
                        lemma_entries_map_at(old_entries, ok);
                    }
                    assert(entries_map(new_entries) =~= entries_map(old_entries).remove(*peer));
                }
                self.entries = entries;
            },
            None => {
                assert(old(self)@.remove(*peer) =~= old(self)@);
            },
        }
    }
}

/// What a request to the server asks for.
pub enum ServerRequest {
    Connect,
    Disconnect,
    SendPeers,
    Unknown,
}

/// The kind of a request to the server, by the bytes of its body and the bodies that the
/// protocol gives each kind.
pub fn classify_server_request(
    request_bytes: &[u8],
    connect: &[u8],
    disconnect: &[u8],
    send_peers: &[u8],
) -> (r: ServerRequest)
    ensures
        r == (if request_bytes@ == connect@ {
            ServerRequest::Connect
        } else if request_bytes@ == disconnect@ {
            ServerRequest::Disconnect
        } else if request_bytes@ == send_peers@ {
            ServerRequest::SendPeers
        } else {
            ServerRequest::Unknown
        }),
{
    if bytes_equal(request_bytes, connect) {
        ServerRequest::Connect
    } else if bytes_equal(request_bytes, disconnect) {
        ServerRequest::Disconnect
    } else if bytes_equal(request_bytes, send_peers) {
        ServerRequest::SendPeers
    } else {
        ServerRequest::Unknown
    }
}

/// The state of the server: the connected peers, the echoes each has missed, and whether the
/// peers changed since they were last told.
pub struct ServerState {
    peers: Peers,
    echoes: EchoCounts,
    peers_changed: bool,
}

/// The value of a [`ServerState`].
pub ghost struct ServerModel {
    pub peers: Seq<Peer>,
    pub echoes: Map<Peer, usize>,
    pub peers_changed: bool,
}

/// Whether the connected peers are exactly the peers that have a count of missed echoes.
pub open spec fn peers_counted(m: ServerModel) -> bool {
    forall|p: Peer|
        #![trigger m.peers.contains(p)]
        #![trigger m.echoes.contains_key(p)]
        m.peers.contains(p) <==> m.echoes.contains_key(p)
}

/// Whether a value is the value of a server state: each connected peer once, and the
/// connected peers exactly the peers with a count of missed echoes.
pub open spec fn server_model_valid(m: ServerModel) -> bool {
    peers_counted(m) && m.peers.no_duplicates()
}

/// The state after a new peer connects: it comes last, with no missed echo, and the peers
/// changed.
pub open spec fn add_peer_model(m: ServerModel, peer: Peer) -> ServerModel {
    ServerModel {
        peers: m.peers.push(peer),
        echoes: m.echoes.insert(peer, 0),
        peers_changed: true,
    }
}

/// The state after a connected peer disconnects: it leaves the peers with its count, and the
/// peers changed.
pub open spec fn remove_peer_model(m: ServerModel, peer: Peer) -> ServerModel {
    ServerModel {
        peers: m.peers.remove_value(peer),
        echoes: m.echoes.remove(peer),
        peers_changed: true,
    }
}

/// A peer that connects and then disconnects leaves the peers and the counts of missed echoes
/// as they were.
pub proof fn lemma_add_then_remove_restores(m: ServerModel, peer: Peer)
    requires
        server_model_valid(m),
        !m.peers.contains(peer),
    ensures
        remove_peer_model(add_peer_model(m, peer), peer).peers == m.peers,
        remove_peer_model(add_peer_model(m, peer), peer).echoes == m.echoes,
{
    let pushed = m.peers.push(peer);
    pushed.index_of_first_ensures(peer);
    assert(pushed[m.peers.len() as int] == peer);
    match pushed.index_of_first(peer) {
        Some(i) => {
            if i < m.peers.len() {
                assert(m.peers[i] == peer);
            }
            assert(pushed.remove(i) =~= m.peers);
        },
        None => {},
    }
    assert(!m.echoes.contains_key(peer));
    assert(m.echoes.insert(peer, 0).remove(peer) =~= m.echoes);
}

/// Removing the only occurrence of a value is removing the value.
proof fn lemma_remove_unique_is_remove_value(s: Seq<Peer>, i: int, peer: Peer)
    requires
        s.no_duplicates(),
        0 <= i < s.len(),
        s[i] == peer,
    ensures
        s.remove(i) == s.remove_value(peer),
{
    s.index_of_first_ensures(peer);
    match s.index_of_first(peer) {
        Some(j) => {
            assert(j == i);
        },
        None => {},
    }
}

impl View for ServerState {
    type V = ServerModel;

    closed spec fn view(&self) -> ServerModel {
        ServerModel { peers: self.peers@, echoes: self.echoes@, peers_changed: self.peers_changed }
    }
}

impl ServerState {
    #[verifier::type_invariant]
    spec fn counted(self) -> bool {
        peers_counted(self@)
    }

    /// No peers, no echoes, no change.
    pub fn new() -> (r: Self)
        ensures
            r@.peers == Seq::<Peer>::empty(),
            r@.echoes == Map::<Peer, usize>::empty(),
            !r@.peers_changed,
            server_model_valid(r@),
    {
        Self { peers: Peers::with_capacity(64), echoes: EchoCounts::with_capacity(64), peers_changed: false }
    }

    /// Takes the state out, leaving one with no peers in its place.
    fn take(&mut self) -> (r: Self)
        ensures
            r@ == old(self)@,
    {
        let mut r = Self {
            peers: Peers::with_capacity(0),
            echoes: EchoCounts::with_capacity(0),
            peers_changed: false,
        };
        std::mem::swap(self, &mut r);
        r
    }

    /// The connected peers, in the order they connected.
    pub fn peers(&self) -> (r: &Peers)
        ensures
            r@ == self@.peers,
            server_model_valid(self@),
    {
        proof {
            use_type_invariant(self);
        }
        let r = &self.peers;
        let _ = r.len();
        r
    }

    /// The echoes in a row that `peer` has missed, if it is counted.
    pub fn missed_echoes(&self, peer: &Peer) -> (r: Option<usize>)
        ensures
            r == (if self@.echoes.contains_key(*peer) {
                Some(self@.echoes[*peer])
            } else {
                None::<usize>
            }),
    {
        self.echoes.get(peer)
    }

    /// A peer asks to connect: where it is not connected yet, it is added with no missed
    /// echo, and the peers changed. Returns whether it was added.
    pub fn add_peer(&mut self, peer: Peer) -> (r: bool)
        ensures
            r == !old(self)@.peers.contains(peer),
            r ==> final(self)@ == add_peer_model(old(self)@, peer),
            !r ==> final(self)@ == old(self)@,
            server_model_valid(final(self)@),
    {
        proof {
            use_type_invariant(&*self);
        }
        let _ = self.peers.len();
        if self.peers.contains(&peer) {
            return false;
        }
        let state = self.take();
        let ServerState { mut peers, mut echoes, peers_changed: _ } = state;
        let ghost old_peers = peers@;
        let ghost old_echoes = echoes@;
        assert forall|p: Peer| #[trigger] old_peers.contains(p) <==> old_echoes.contains_key(p) by {
            assert(old(self)@.peers.contains(p) <==> old(self)@.echoes.contains_key(p));
        }
        peers.insert(peer);
        echoes.set(peer, 0);
        proof {
            assert forall|p: Peer| #[trigger] peers@.contains(p) <==> echoes@.contains_key(p) by {
                assert(old_peers.contains(p) <==> old_echoes.contains_key(p));
                if old_peers.contains(p) {
                    let k = choose|k: int| 0 <= k < old_peers.len() && old_peers[k] == p;
                    assert(peers@[k] == p);
                }
                if p == peer {
                    assert(peers@[old_peers.len() as int] == p);
                }
                if peers@.contains(p) && p != peer {
                    let k = choose|k: int| 0 <= k < peers@.len() && peers@[k] == p;
                    assert(old_peers[k] == p);
                }
            }
        }
        *self = ServerState { peers, echoes, peers_changed: true };
        true
    }

    /// A peer asks to disconnect: where it is connected, it is dropped with its echo count,
    /// and the peers changed. Returns whether it was dropped.
    pub fn remove_peer(&mut self, peer: &Peer) -> (r: bool)
        ensures
            r == old(self)@.peers.contains(*peer),
            r ==> final(self)@ == remove_peer_model(old(self)@, *peer),
            !r ==> final(self)@ == old(self)@,
            server_model_valid(final(self)@),
    {
        proof {
            use_type_invariant(&*self);
        }
        let _ = self.peers.len();
        if !self.peers.contains(peer) {
            return false;
        }
        let state = self.take();
        let ServerState { mut peers, mut echoes, peers_changed: _ } = state;
        let ghost old_peers = peers@;
        let ghost old_echoes = echoes@;
        assert forall|p: Peer| #[trigger] old_peers.contains(p) <==> old_echoes.contains_key(p) by {
            assert(old(self)@.peers.contains(p) <==> old(self)@.echoes.contains_key(p));
        }
        peers.remove(peer);
        echoes.remove(peer);
        proof {
            let i = choose|i: int|
                0 <= i < old_peers.len() && old_peers[i] == *peer && peers@ == old_peers.remove(i);
            lemma_remove_unique_is_remove_value(old_peers, i, *peer);
            assert forall|p: Peer| #[trigger] peers@.contains(p) <==> echoes@.contains_key(p) by {
                assert(peers@.to_set().contains(p) == old_peers.to_set().remove(*peer).contains(p));
                assert(old_peers.contains(p) <==> old_echoes.contains_key(p));
            }
        }
        *self = ServerState { peers, echoes, peers_changed: true };
        true
    }

    /// The body of the answer to a peer that asks for the peers: their bytes where the peer is
    /// connected, nothing otherwise.
    pub fn send_peers(&self, peer: &Peer) -> (r: actix_web::web::Bytes)
        requires
            8 + peers_list_encoding(self@.peers).len() <= usize::MAX,
        ensures
            actix_bytes_view(r) == (if self@.peers.contains(*peer) {
                peers_encoding(self@.peers)
            } else {
                Seq::<u8>::empty()
            }),
    {
        if self.peers.contains(peer) {
            match self.peers.as_actix_bytes() {
                Ok(bytes) => bytes,
                Err(_) => actix_bytes_from_boxed(boxed_bytes(0)),
            }
        } else {
            let empty = boxed_bytes(0);
            assert(empty@ =~= Seq::<u8>::empty());
            actix_bytes_from_boxed(empty)
        }
    }

    /// Whether the peers changed since this was last asked; clears the mark.
    pub fn take_peers_changed(&mut self) -> (r: bool)
        ensures
            r == old(self)@.peers_changed,
            final(self)@ == (ServerModel { peers_changed: false, ..old(self)@ }),
            server_model_valid(final(self)@),
    {
        proof {
            use_type_invariant(&*self);
        }
        let _ = self.peers.len();
        let changed = self.peers_changed;
        self.peers_changed = false;
        changed
    }

    /// Records the answer of `peer` to an echo: an alive answer clears its count of missed
    /// echoes, another answer adds one. Returns whether the peer has now missed more than
    /// [`MAX_MISSED_ECHOES`] echoes in a row; a peer without a count is left as it is.
    pub fn record_echo(&mut self, peer: &Peer, alive: bool) -> (r: bool)
        requires
            old(self)@.echoes.contains_key(*peer) && !alive ==> old(self)@.echoes[*peer] < usize::MAX,
        ensures
            !old(self)@.echoes.contains_key(*peer) ==> !r && final(self)@ == old(self)@,
            old(self)@.echoes.contains_key(*peer) && alive ==> !r && final(self)@ == (ServerModel {
                echoes: old(self)@.echoes.insert(*peer, 0),
                ..old(self)@
            }),
            old(self)@.echoes.contains_key(*peer) && !alive ==> {
                &&& final(self)@ == (ServerModel {
                    echoes: old(self)@.echoes.insert(*peer, (old(self)@.echoes[*peer] + 1) as usize),
                    ..old(self)@
                })
                &&& r == (old(self)@.echoes[*peer] + 1 > MAX_MISSED_ECHOES)
            },
            server_model_valid(final(self)@),
    {
        proof {
            use_type_invariant(&*self);
        }
        let _ = self.peers.len();
        let count = match self.echoes.get(peer) {
            Some(count) => count,
            None => {
                return false;
            },
        };
        let state = self.take();
        let ServerState { peers, mut echoes, peers_changed } = state;
        let ghost old_echoes = echoes@;
        let r = if alive {
            echoes.set(*peer, 0);
            false
        } else {
            let missed = count + 1;
            echoes.set(*peer, missed);
            missed > MAX_MISSED_ECHOES
        };
        assert(echoes@.dom() =~= old_echoes.dom());
        *self = ServerState { peers, echoes, peers_changed };
        r
    }

    /// Drops each of `peers` with its echo count; the change mark stays as it is.
    pub fn remove_peers(&mut self, peers: &[Peer])
        ensures
            final(self)@.peers.to_set() == old(self)@.peers.to_set().difference(peers@.to_set()),
            final(self)@.echoes == old(self)@.echoes.remove_keys(peers@.to_set()),
            final(self)@.peers_changed == old(self)@.peers_changed,
            server_model_valid(final(self)@),
    {
        proof {
            use_type_invariant(&*self);
        }
        let state = self.take();
        let ServerState { peers: mut connected, mut echoes, peers_changed } = state;
        let ghost start_peers = connected@;
        let ghost start_echoes = echoes@;
        assert forall|p: Peer| #[trigger] start_peers.contains(p) <==> start_echoes.contains_key(p) by {
            assert(old(self)@.peers.contains(p) <==> old(self)@.echoes.contains_key(p));
        }
        let mut i: usize = 0;
        while i < peers.len()
            invariant
                i <= peers@.len(),
                connected@.to_set() == start_peers.to_set().difference(peers@.take(i as int).to_set()),
                echoes@ == start_echoes.remove_keys(peers@.take(i as int).to_set()),
                forall|p: Peer| #[trigger] start_peers.contains(p) <==> start_echoes.contains_key(p),
            decreases peers@.len() - i,
        {
            let peer = peers[i];
            connected.remove(&peer);
            echoes.remove(&peer);
            proof {
                assert(peers@.take(i + 1).to_set() =~= peers@.take(i as int).to_set().insert(peer)) by {
                    assert(peers@.take(i + 1) =~= peers@.take(i as int).push(peer));
                    peers@.take(i as int).lemma_push_to_set_commute(peer);
                }
                assert(connected@.to_set() =~= start_peers.to_set().difference(peers@.take(i + 1).to_set()));
                assert(echoes@ =~= start_echoes.remove_keys(peers@.take(i + 1).to_set()));
            }
            i = i + 1;
        }
        assert(peers@.take(peers@.len() as int) =~= peers@);
        let _ = connected.len();
        proof {
            assert forall|p: Peer| #[trigger] connected@.contains(p) <==> echoes@.contains_key(p) by {
                assert(connected@.to_set().contains(p) == start_peers.to_set().difference(peers@.to_set()).contains(p));
                assert(start_peers.contains(p) <==> start_echoes.contains_key(p));
            }
        }
        *self = ServerState { peers: connected, echoes, peers_changed };
    }
}

} // verus!
