use blockchain::block::{Block, BLOCK_DATA_LEN};
use blockchain::blockchain::Blockchain;
use blockchain::bytes_utils::BytesConversion;
use blockchain::client::{
    add_received_block, block_request, check_received_block, classify_client_request, count_responses,
    count_answers, half_of_peers, has_consensum, number_of_peers, BlockchainSync, ClientRequest, SyncAction,
};
use blockchain::peers::{Peer, PeerIp, Peers};
use blockchain::server::{classify_server_request, ServerRequest, ServerState, MAX_MISSED_ECHOES};

fn peers_of(n: u32) -> Peers {
    let mut peers = Peers::with_capacity(8);
    for i in 0..n {
        peers.insert(Peer::new(PeerIp::V4(i), 1000));
    }
    peers
}

#[test]
fn consensus_needs_a_majority_of_answers_and_of_peers() {
    let peers = peers_of(5);
    assert_eq!(number_of_peers(&peers), 5);
    assert_eq!(half_of_peers(&peers), 2);
    assert!(has_consensum(3, 0, &peers));
    assert!(!has_consensum(2, 0, &peers));
    assert!(!has_consensum(3, 3, &peers));
    assert!(!has_consensum(0, 0, &peers_of(0)));
    assert!(has_consensum(1, 0, &peers_of(0)));
}

#[test]
fn responses_are_counted_by_kind() {
    assert_eq!(count_responses(&[Some(true), None, Some(false), Some(true)]), (2, 1));
    assert_eq!(count_responses(&[]), (0, 0));
}

#[test]
fn client_requests_are_told_apart() {
    let echo = b"echo".as_slice();
    let changed = b"changed".as_slice();
    let send = b"send".as_slice();
    let validate = [1u8; 64];
    let add = [2u8; 64];
    let classify = |request: &[u8]| classify_client_request(request, echo, changed, send, &validate, &add);
    assert!(matches!(classify(b"echo"), ClientRequest::AliveEcho));
    assert!(matches!(classify(b"changed"), ClientRequest::PeersChanged));
    assert!(matches!(classify(b"send"), ClientRequest::SendBlockchain));
    let mut request = validate.to_vec();
    request.extend_from_slice(&[9; 10]);
    assert!(matches!(classify(&request), ClientRequest::ValidateBlock));
    let mut request = add.to_vec();
    request.extend_from_slice(&[9; 10]);
    assert!(matches!(classify(&request), ClientRequest::AddBlock));
    assert!(matches!(classify(&[3u8; 64]), ClientRequest::Unknown));
}

#[test]
fn block_requests_carry_the_block() {
    let block = Block::genesis();
    let request = block_request(&[7u8; 64], &block);
    assert_eq!(request.len(), 64 + 1160);
    assert_eq!(&request[..64], &[7u8; 64][..]);
    assert_eq!(Block::from_raw_bytes(&request[64..]).unwrap(), block);
}

#[test]
fn received_blocks_are_checked_and_added() {
    let mut chain = Blockchain::new();
    let genesis_bytes = Block::genesis().as_boxed_bytes().unwrap();
    assert_eq!(check_received_block(&chain, &genesis_bytes), Ok(true));
    let other = Block::new(1, [0; 64], [0; BLOCK_DATA_LEN]).as_boxed_bytes().unwrap();
    assert_eq!(check_received_block(&chain, &other), Ok(false));
    assert!(check_received_block(&chain, &other[..100]).is_err());
    assert!(add_received_block(&mut chain, &other[..100]).is_err());
    assert_eq!(chain.blocks_count(), 1);
    assert!(add_received_block(&mut chain, &other).is_ok());
    assert_eq!(chain.blocks_count(), 2);
}

#[test]
fn server_requests_are_told_apart() {
    let classify = |request: &[u8]| classify_server_request(request, b"connect", b"disconnect", b"peers");
    assert!(matches!(classify(b"connect"), ServerRequest::Connect));
    assert!(matches!(classify(b"disconnect"), ServerRequest::Disconnect));
    assert!(matches!(classify(b"peers"), ServerRequest::SendPeers));
    assert!(matches!(classify(b"other"), ServerRequest::Unknown));
}

#[test]
fn server_connects_and_disconnects_peers() {
    let mut state = ServerState::new();
    let a = Peer::new(PeerIp::V4(1), 1);
    let b = Peer::new(PeerIp::V4(2), 2);
    assert!(!state.take_peers_changed());
    assert!(state.add_peer(a));
    assert!(!state.add_peer(a));
    assert!(state.add_peer(b));
    assert!(state.take_peers_changed());
    assert!(!state.take_peers_changed());
    assert_eq!(state.missed_echoes(&a), Some(0));
    assert!(state.send_peers(&Peer::new(PeerIp::V4(3), 3)).is_empty());
    let body = state.send_peers(&a);
    let peers = Peers::from_actix_bytes(body).unwrap();
    assert_eq!(peers.as_slice(), &[a, b]);
    assert!(state.remove_peer(&a));
    assert!(!state.remove_peer(&a));
    assert_eq!(state.missed_echoes(&a), None);
    assert!(state.take_peers_changed());
    assert_eq!(state.peers().as_slice(), &[b]);
}

#[test]
fn server_drops_peers_that_miss_echoes() {
    let mut state = ServerState::new();
    let a = Peer::new(PeerIp::V6(7, 0, 0), 7);
    state.add_peer(a);
    state.take_peers_changed();
    for _ in 0..MAX_MISSED_ECHOES {
        assert!(!state.record_echo(&a, false));
    }
    assert!(!state.record_echo(&a, true));
    assert_eq!(state.missed_echoes(&a), Some(0));
    for _ in 0..MAX_MISSED_ECHOES {
        assert!(!state.record_echo(&a, false));
    }
    assert!(state.record_echo(&a, false));
    state.remove_peers(&[a]);
    assert_eq!(state.peers().len(), 0);
    assert_eq!(state.missed_echoes(&a), None);
    assert!(!state.take_peers_changed());
    assert!(!state.record_echo(&a, false));
}

#[test]
fn connected_peers_are_the_counted_peers() {
    let mut state = ServerState::new();
    let a = Peer::new(PeerIp::V4(10), 10);
    let b = Peer::new(PeerIp::V6(11, 0, 0), 11);
    let c = Peer::new(PeerIp::V4(12), 12);
    let all = [a, b, c];
    let check = |state: &ServerState| {
        for p in all.iter() {
            let connected = state.peers().contains(p);
            assert_eq!(connected, state.missed_echoes(p).is_some());
        }
    };
    check(&state);
    state.add_peer(a);
    state.add_peer(b);
    check(&state);
    state.record_echo(&b, false);
    state.record_echo(&c, false);
    check(&state);
    state.remove_peer(&a);
    check(&state);
    state.add_peer(c);
    state.remove_peers(&[b, a]);
    check(&state);
    assert_eq!(state.peers().as_slice(), &[c]);
}

fn longer_chain() -> Blockchain {
    let mut chain = Blockchain::new();
    chain.mine_block([5; BLOCK_DATA_LEN]);
    chain
}

#[test]
fn answers_are_counted_by_kind() {
    assert_eq!(count_answers(&[true, false, true, true]), (3, 1));
    assert_eq!(count_answers(&[]), (0, 0));
}

#[test]
fn search_among_no_peers_finds_nothing() {
    let (_, action) = BlockchainSync::new(&peers_of(0));
    assert!(matches!(action, SyncAction::Finished(false)));
}

#[test]
fn search_adopts_a_longer_blockchain_that_the_peers_hold_valid() {
    let peers = peers_of(2);
    let tag = [4u8; 64];
    let mut chain = Blockchain::new();
    let (mut sync, action) = BlockchainSync::new(&peers);
    assert!(matches!(action, SyncAction::RequestBlockchain(p) if p == peers.as_slice()[0]));
    assert!(sync.is_awaiting_blockchain());
    let action = sync.on_blockchain(&chain, None, &tag);
    assert!(matches!(action, SyncAction::RequestBlockchain(p) if p == peers.as_slice()[1]));
    let received = longer_chain();
    let last = *received.last_block();
    let action = sync.on_blockchain(&chain, Some(received), &tag);
    let SyncAction::RequestValidations(body) = action else {
        panic!("the peers are not asked about the candidate");
    };
    assert_eq!(&body[..64], &tag[..]);
    assert_eq!(Block::from_raw_bytes(&body[64..]).unwrap(), last);
    assert!(sync.is_awaiting_validations());
    assert_eq!(sync.candidate().unwrap().blocks_count(), 2);
    let action = sync.on_validations(&mut chain, &[true, true], &peers);
    assert!(matches!(action, SyncAction::Finished(true)));
    assert_eq!(chain.blocks_count(), 2);
    assert_eq!(*chain.last_block(), last);
}

#[test]
fn search_moves_on_without_a_consensus() {
    let peers = peers_of(3);
    let tag = [4u8; 64];
    let mut chain = Blockchain::new();
    let (mut sync, _) = BlockchainSync::new(&peers);
    let action = sync.on_blockchain(&chain, Some(longer_chain()), &tag);
    assert!(matches!(action, SyncAction::RequestValidations(_)));
    let action = sync.on_validations(&mut chain, &[true, false, false], &peers);
    assert!(matches!(action, SyncAction::RequestBlockchain(p) if p == peers.as_slice()[1]));
    assert_eq!(chain.blocks_count(), 1);
    let mut shorter = Blockchain::new();
    shorter.mine_block([1; BLOCK_DATA_LEN]);
    chain.add_block(*shorter.last_block());
    chain.mine_block([2; BLOCK_DATA_LEN]);
    let action = sync.on_blockchain(&chain, Some(shorter), &tag);
    assert!(matches!(action, SyncAction::RequestBlockchain(p) if p == peers.as_slice()[2]));
    let action = sync.on_blockchain(&chain, Some(Blockchain::new()), &tag);
    assert!(matches!(action, SyncAction::Finished(false)));
    assert_eq!(chain.blocks_count(), 3);
}
