//! The decisions of a client node: what a request asks for, what answers a received block
//! gets, and when the answers of the peers make a consensus.

use vstd::prelude::*;

use crate::block::{
    block_decoding, block_encoding, validate_block_spec, Block, BlockModel, BLOCK_BYTES_LEN,
};
use crate::blockchain::{validate_blockchain_spec, validation_defined, Blockchain, ValidationResponse};
use crate::bytes_utils::{actix_bytes_from_boxed, actix_bytes_view, append_bytes, bytes_equal, BytesConversion};
use crate::peers::{Peer, Peers};
use crate::text::count_message;

verus! {

/// The length of the tag that starts a request about a block.
pub const REQUEST_TAG_LEN: usize = 64;

/// What a request to a client asks for.
pub enum ClientRequest {
    AliveEcho,
    PeersChanged,
    SendBlockchain,
    ValidateBlock,
    AddBlock,
    Unknown,
}

/// What [`classify_client_request`] answers.
pub open spec fn client_request_kind(
    request: Seq<u8>,
    alive_echo: Seq<u8>,
    peers_changed: Seq<u8>,
    send_blockchain: Seq<u8>,
    validate_block: Seq<u8>,
    add_block: Seq<u8>,
) -> ClientRequest {
    if request == alive_echo {
        ClientRequest::AliveEcho
    } else if request == peers_changed {
        ClientRequest::PeersChanged
    } else if request == send_blockchain {
        ClientRequest::SendBlockchain
    } else if request.subrange(0, REQUEST_TAG_LEN as int) == validate_block {
        ClientRequest::ValidateBlock
    } else if request.subrange(0, REQUEST_TAG_LEN as int) == add_block {
        ClientRequest::AddBlock
    } else {
        ClientRequest::Unknown
    }
}

/// The kind of a request to a client, by the bytes of its body and the bodies (or, for the
/// requests about a block, the first [`REQUEST_TAG_LEN`] bytes) that the protocol gives each
/// kind.
pub fn classify_client_request(
    request_bytes: &[u8],
    alive_echo: &[u8],
    peers_changed: &[u8],
    send_blockchain: &[u8],
    validate_block: &[u8],
    add_block: &[u8],
) -> (r: ClientRequest)
    requires
        request_bytes@ != alive_echo@ && request_bytes@ != peers_changed@ && request_bytes@
            != send_blockchain@ ==> request_bytes@.len() >= REQUEST_TAG_LEN,
    ensures
        r == client_request_kind(
            request_bytes@,
            alive_echo@,
            peers_changed@,
            send_blockchain@,
            validate_block@,
            add_block@,
        ),
{
    if bytes_equal(request_bytes, alive_echo) {
        ClientRequest::AliveEcho
    } else if bytes_equal(request_bytes, peers_changed) {
        ClientRequest::PeersChanged
    } else if bytes_equal(request_bytes, send_blockchain) {
        ClientRequest::SendBlockchain
    } else {
        let tag = &request_bytes[0..REQUEST_TAG_LEN];
        if bytes_equal(tag, validate_block) {
            ClientRequest::ValidateBlock
        } else if bytes_equal(tag, add_block) {
            ClientRequest::AddBlock
        } else {
            ClientRequest::Unknown
        }
    }
}

/// What a peer's reply about a block says: `Some(true)` where it is the reply that the block
/// is valid, `Some(false)` where it is the reply that it is invalid, nothing for any other
/// reply.
pub fn classify_block_reply(reply: &[u8], block_valid: &[u8], block_invalid: &[u8]) -> (r: Option<
    bool,
>)
    ensures
        r == (if reply@ == block_valid@ {
            Some(true)
        } else if reply@ == block_invalid@ {
            Some(false)
        } else {
            None::<bool>
        }),
{
    if bytes_equal(reply, block_valid) {
        Some(true)
    } else if bytes_equal(reply, block_invalid) {
        Some(false)
    } else {
        None
    }
}

/// The body of a request about `block`: the tag, then the bytes of the block.
pub fn block_request(tag: &[u8], block: &Block) -> (r: actix_web::web::Bytes)
    ensures
        actix_bytes_view(r) == tag@ + block_encoding(block@),
{
    let tag_bytes = actix_bytes_from_boxed(crate::bytes_utils::vec_into_boxed_slice(
        vstd::slice::slice_to_vec(tag),
    ));
    let block_bytes = block.as_actix_bytes();
    match block_bytes {
        Ok(block_bytes) => append_bytes(tag_bytes, block_bytes),
        Err(_) => vstd::pervasive::unreached(),
    }
}

/// Whether a received block is the last block of the client's blockchain; fails where the
/// bytes do not hold a block.
pub fn check_received_block(chain: &Blockchain, block_bytes: &[u8]) -> (r: Result<bool, String>)
    requires
        chain@.len() > 0,
    ensures
        r is Err <==> block_bytes@.len() < BLOCK_BYTES_LEN,
        r matches Err(e) ==> e@ == count_message(
            "Block::from_raw_bytes(): not enough bytes"@,
            BLOCK_BYTES_LEN as nat,
            block_bytes@.len(),
        ),
        r matches Ok(valid) ==> valid == validate_block_spec(chain@.last(), block_decoding(
            block_bytes@,
        )) is Ok,
{
    let block = match Block::from_raw_bytes(block_bytes) {
        Ok(block) => block,
        Err(e) => {
            return Err(e);
        },
    };
    Ok(crate::validate_last_block(chain, &block).is_ok())
}

/// Adds a received block to the client's blockchain; fails, changing nothing, where the bytes
/// do not hold a block.
pub fn add_received_block(chain: &mut Blockchain, block_bytes: &[u8]) -> (r: Result<(), String>)
    ensures
        r is Err <==> block_bytes@.len() < BLOCK_BYTES_LEN,
        r is Ok ==> final(chain)@ == old(chain)@.push(block_decoding(block_bytes@)),
        r matches Err(e) ==> final(chain)@ == old(chain)@ && e@ == count_message(
            "Block::from_raw_bytes(): not enough bytes"@,
            BLOCK_BYTES_LEN as nat,
            block_bytes@.len(),
        ),
{
    let block = match Block::from_raw_bytes(block_bytes) {
        Ok(block) => block,
        Err(e) => {
            return Err(e);
        },
    };
    crate::add_block(chain, block);
    Ok(())
}

/// The number of known peers.
pub fn number_of_peers(peers: &Peers) -> (r: usize)
    ensures
        r == peers@.len(),
{
    peers.len()
}

/// Half the number of known peers, rounded down.
pub fn half_of_peers(peers: &Peers) -> (r: usize)
    ensures
        r == peers@.len() / 2,
{
    number_of_peers(peers) / 2
}

/// Whether the answers make a consensus: more valid than invalid ones, and more valid ones
/// than half the known peers.
pub fn has_consensum(valid_responses: usize, invalid_responses: usize, peers: &Peers) -> (r: bool)
    ensures
        r == (valid_responses > invalid_responses && valid_responses > peers@.len() / 2),
{
    valid_responses > invalid_responses && valid_responses > half_of_peers(peers)
}

/// The number of answers in `responses` of each kind.
pub open spec fn count_of(responses: Seq<Option<bool>>, answer: bool) -> nat
    decreases responses.len(),
{
    if responses.len() == 0 {
        0
    } else {
        count_of(responses.drop_last(), answer) + if responses.last() == Some(answer) {
            1nat
        } else {
            0nat
        }
    }
}

/// The number of valid and of invalid answers among `responses`; the peers that gave no
/// answer count for neither.
pub fn count_responses(responses: &[Option<bool>]) -> (r: (usize, usize))
    ensures
        r.0 == count_of(responses@, true),
        r.1 == count_of(responses@, false),
{
    let mut valid: usize = 0;
    let mut invalid: usize = 0;
    let mut i: usize = 0;
    while i < responses.len()
        invariant
            i <= responses@.len(),
            valid == count_of(responses@.take(i as int), true),
            invalid == count_of(responses@.take(i as int), false),
            valid + invalid <= i,
        decreases responses@.len() - i,
    {
        assert(responses@.take(i + 1).drop_last() =~= responses@.take(i as int));
        match responses[i] {
            Some(true) => valid = valid + 1,
            Some(false) => invalid = invalid + 1,
            None => {},
        }
        i = i + 1;
    }
    assert(responses@.take(responses@.len() as int) =~= responses@);
    (valid, invalid)
}


/// The number of `answer`s among the answers of the peers.
pub open spec fn answer_count(answers: Seq<bool>, answer: bool) -> nat
    decreases answers.len(),
{
    if answers.len() == 0 {
        0
    } else {
        answer_count(answers.drop_last(), answer) + if answers.last() == answer {
            1nat
        } else {
            0nat
        }
    }
}

/// Whether answers make a consensus among `n_peers` known peers: more valid than invalid ones,
/// and more valid ones than half the known peers.
pub open spec fn consensus(valid: nat, invalid: nat, n_peers: nat) -> bool {
    valid > invalid && valid > n_peers / 2
}

/// A consensus is a strict majority twice over: more valid answers than invalid ones, and
/// valid answers from more than half the known peers. A tie is never one.
pub proof fn lemma_consensus_is_strict_majority(valid: nat, invalid: nat, n_peers: nat)
    ensures
        consensus(valid, invalid, n_peers) <==> (valid > invalid && 2 * valid > n_peers),
        !consensus(valid, valid, n_peers),
{
    assert(valid > n_peers / 2 <==> 2 * valid > n_peers) by (nonlinear_arith);
}

/// What the client does next while it looks among its peers for a blockchain to adopt.
pub enum SyncAction {
    /// Ask this peer for its blockchain, and hand the answer to
    /// [`BlockchainSync::on_blockchain`].
    RequestBlockchain(Peer),
    /// Ask each peer of the search whether the block in this request body is its last block,
    /// and hand the answers to [`BlockchainSync::on_validations`].
    RequestValidations(actix_web::web::Bytes),
    /// The search is over: whether the node's blockchain was updated.
    Finished(bool),
}

/// A search among the peers, asked in turn, for a blockchain that validates against the
/// node's own and that a consensus of the peers holds valid; the first such blockchain
/// replaces the node's.
pub struct BlockchainSync {
    peers: Vec<Peer>,
    current: usize,
    candidate: Option<Blockchain>,
}

/// The value of a [`BlockchainSync`]: the peers asked in turn, the index of the one asked now,
/// and the blockchain it sent while the peers are asked about it.
pub ghost struct BlockchainSyncModel {
    pub peers: Seq<Peer>,
    pub current: nat,
    pub candidate: Option<Seq<BlockModel>>,
}

impl View for BlockchainSync {
    type V = BlockchainSyncModel;

    closed spec fn view(&self) -> BlockchainSyncModel {
        BlockchainSyncModel {
            peers: self.peers@,
            current: self.current as nat,
            candidate: match self.candidate {
                Some(c) => Some(c@),
                None => None,
            },
        }
    }
}

/// What the search asks for when it turns to the peer at `index`.
pub open spec fn request_at(peers: Seq<Peer>, index: nat) -> SyncAction {
    if index < peers.len() {
        SyncAction::RequestBlockchain(peers[index as int])
    } else {
        SyncAction::Finished(false)
    }
}

/// Whether the search waits for the blockchain of the peer it asks now.
pub open spec fn awaits_blockchain(m: BlockchainSyncModel) -> bool {
    m.candidate is None && m.current < m.peers.len()
}

/// Whether the search waits for the answers of the peers about a candidate blockchain.
pub open spec fn awaits_validations(m: BlockchainSyncModel) -> bool {
    m.candidate is Some && m.current < m.peers.len()
}

/// Whether a received blockchain becomes the candidate: it validates against the node's.
pub open spec fn takes_candidate(chain: Seq<BlockModel>, received: Option<Blockchain>) -> bool {
    received matches Some(b) && validate_blockchain_spec(chain, b@) is Ok
}

/// The search moved on to the next peer, having dropped its candidate.
pub open spec fn moved_on(old_m: BlockchainSyncModel, new_m: BlockchainSyncModel) -> bool {
    new_m == BlockchainSyncModel { current: old_m.current + 1, candidate: None, ..old_m }
}

impl BlockchainSync {
    #[verifier::type_invariant]
    spec fn within_peers(self) -> bool {
        &&& self.current <= self.peers@.len()
        &&& self.candidate is Some ==> self.current < self.peers@.len()
    }

    /// A search among `peers`, in their order, and what it asks for first.
    pub fn new(peers: &Peers) -> (r: (Self, SyncAction))
        ensures
            r.0@ == (BlockchainSyncModel { peers: peers@, current: 0, candidate: None }),
            r.1 == request_at(peers@, 0),
    {
        let snapshot = vstd::slice::slice_to_vec(peers.as_slice());
        let action = if snapshot.len() > 0 {
            SyncAction::RequestBlockchain(snapshot[0])
        } else {
            SyncAction::Finished(false)
        };
        (Self { peers: snapshot, current: 0, candidate: None }, action)
    }

    /// Whether the search waits for a blockchain.
    pub fn is_awaiting_blockchain(&self) -> (r: bool)
        ensures
            r == awaits_blockchain(self@),
    {
        self.candidate.is_none() && self.current < self.peers.len()
    }

    /// Whether the search waits for the answers about a candidate blockchain.
    pub fn is_awaiting_validations(&self) -> (r: bool)
        ensures
            r == awaits_validations(self@),
    {
        self.candidate.is_some() && self.current < self.peers.len()
    }

    /// The peers of the search, the ones whose answers [`BlockchainSync::on_validations`] takes.
    pub fn peers(&self) -> (r: &[Peer])
        ensures
            r@ == self@.peers,
    {
        self.peers.as_slice()
    }

    /// The candidate blockchain, while the peers are asked about it.
    pub fn candidate(&self) -> (r: Option<&Blockchain>)
        ensures
            match r {
                Some(c) => self@.candidate == Some(c@),
                None => self@.candidate is None,
            },
    {
        match &self.candidate {
            Some(c) => Some(c),
            None => None,
        }
    }

    /// The peer asked now answered with `received` (nothing where it gave no usable
    /// blockchain). A blockchain that validates against the node's becomes the candidate, and
    /// the peers are asked about its last block with a request that starts with `tag`;
    /// otherwise the search turns to the next peer.
    pub fn on_blockchain(&mut self, chain: &Blockchain, received: Option<Blockchain>, tag: &[u8]) -> (r:
        SyncAction)
        requires
            awaits_blockchain(old(self)@),
            received matches Some(b) ==> validation_defined(chain@, b@),
        ensures
            takes_candidate(chain@, received) ==> {
                &&& final(self)@ == (BlockchainSyncModel {
                    candidate: Some(received->0@),
                    ..old(self)@
                })
                &&& received->0@.len() > 0
                &&& r matches SyncAction::RequestValidations(body) && actix_bytes_view(body) == tag@
                    + block_encoding(received->0@.last())
            },
            !takes_candidate(chain@, received) ==> {
                &&& moved_on(old(self)@, final(self)@)
                &&& r == request_at(old(self)@.peers, old(self)@.current + 1)
            },
    {
        proof {
            use_type_invariant(&*self);
        }
        match received {
            Some(b) => {
                if crate::blockchain::validate_blockchain(chain, &b).is_ok() {
                    let body = block_request(tag, b.last_block());
                    self.candidate = Some(b);
                    return SyncAction::RequestValidations(body);
                }
            },
            None => {},
        }
        self.next_peer()
    }

    /// The peers answered about the candidate, each answer in `answers` telling whether that
    /// peer holds the candidate's last block valid (a peer that gave no usable answer counts as
    /// holding it invalid); `peers` are the peers the node knows now. Where the answers make a
    /// consensus and the node's blockchain takes the candidate, the search is over and
    /// succeeded; otherwise it turns to the next peer.
    pub fn on_validations(&mut self, chain: &mut Blockchain, answers: &[bool], peers: &Peers) -> (r:
        SyncAction)
        requires
            awaits_validations(old(self)@),
            validation_defined(old(chain)@, old(self)@.candidate->0),
        ensures
            ({
                let candidate = old(self)@.candidate->0;
                let valid = answer_count(answers@, true);
                let invalid = answer_count(answers@, false);
                let adopted = valid > invalid && valid > peers@.len() / 2 && validate_blockchain_spec(
                    old(chain)@,
                    candidate,
                ) is Ok;
                &&& adopted ==> r == SyncAction::Finished(true) && final(self)@ == (
                BlockchainSyncModel { candidate: None, ..old(self)@ }) && final(chain)@ == (
                if validate_blockchain_spec(old(chain)@, candidate) == Ok::<
                    ValidationResponse,
                    crate::blockchain::ValidationError,
                >(ValidationResponse::EqualBlockchain) {
                    old(chain)@
                } else {
                    candidate
                })
                &&& !adopted ==> final(chain)@ == old(chain)@ && moved_on(old(self)@, final(self)@)
                    && r == request_at(old(self)@.peers, old(self)@.current + 1)
            }),
    {
        proof {
            use_type_invariant(&*self);
        }
        let (valid, invalid) = count_answers(answers);
        let mut candidate: Option<Blockchain> = None;
        std::mem::swap(&mut candidate, &mut self.candidate);
        match candidate {
            Some(c) => {
                if has_consensum(valid, invalid, peers) {
                    if crate::update(chain, c).is_ok() {
                        return SyncAction::Finished(true);
                    }
                }
            },
            None => {},
        }
        self.next_peer()
    }

    /// Turns to the next peer, dropping the candidate.
    fn next_peer(&mut self) -> (r: SyncAction)
        requires
            old(self)@.current < old(self)@.peers.len(),
        ensures
            moved_on(old(self)@, final(self)@),
            r == request_at(old(self)@.peers, old(self)@.current + 1),
    {
        let n = self.peers.len();
        self.candidate = None;
        self.current = self.current + 1;
        if self.current < n {
            SyncAction::RequestBlockchain(self.peers[self.current])
        } else {
            SyncAction::Finished(false)
        }
    }
}

/// The number of valid and of invalid answers.
pub fn count_answers(answers: &[bool]) -> (r: (usize, usize))
    ensures
        r.0 == answer_count(answers@, true),
        r.1 == answer_count(answers@, false),
{
    let mut valid: usize = 0;
    let mut invalid: usize = 0;
    let mut i: usize = 0;
    while i < answers.len()
        invariant
            i <= answers@.len(),
            valid == answer_count(answers@.take(i as int), true),
            invalid == answer_count(answers@.take(i as int), false),
            valid + invalid == i,
        decreases answers@.len() - i,
    {
        assert(answers@.take(i + 1).drop_last() =~= answers@.take(i as int));
        if answers[i] {
            valid = valid + 1;
        } else {
            invalid = invalid + 1;
        }
        i = i + 1;
    }
    assert(answers@.take(answers@.len() as int) =~= answers@);
    (valid, invalid)
}

} // verus!
