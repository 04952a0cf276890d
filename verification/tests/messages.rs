use blockchain::block::{Block, BLOCK_DATA_LEN};
use blockchain::blockchain::{chain_bytes_decodable, validation_is_defined, Blockchain};
use blockchain::bytes_utils::{append_bytes_raw, BytesConversion};
use blockchain::client::classify_block_reply;
use blockchain::peers::{Peer, PeerIp, Peers};
use blockchain::server::ServerState;
use blockchain::wallet::{PrivateWallet, PublicWallet, SignedTransaction, Transaction, Wallet};

#[test]
fn short_block_bytes_report_both_counts() {
    let err = Block::from_raw_bytes(&[0u8; 100]).unwrap_err();
    assert_eq!(err, "Block::from_raw_bytes(): not enough bytes: expected 1160, got 100");
    let err = Block::from_raw_bytes(&[]).unwrap_err();
    assert_eq!(err, "Block::from_raw_bytes(): not enough bytes: expected 1160, got 0");
}

#[test]
fn full_array_reports_no_space() {
    let mut array = [0u8; 4];
    let mut index: usize = 2;
    let err = append_bytes_raw(&[1, 2, 3], &mut array, &mut index).unwrap_err();
    assert_eq!(err, "utils::append_bytes_raw(): not enough space in the array");
    assert_eq!(index, 2);
    assert_eq!(array, [0u8; 4]);
}

#[test]
fn peer_decoding_errors_name_the_missing_part() {
    assert_eq!(
        Peer::from_raw_bytes(&[0]).unwrap_err(),
        "Peer::from_raw_bytes(): not enough bytes for 'tag': expected 2, got 1"
    );
    assert_eq!(
        Peer::from_raw_bytes(&[0, 4, 1, 2]).unwrap_err(),
        "Peer::from_raw_bytes(): not enough bytes for 'IPv4': expected 6, got 4"
    );
    assert_eq!(
        Peer::from_raw_bytes(&[0, 4, 1, 2, 3, 4, 5]).unwrap_err(),
        "Peer::from_raw_bytes(): not enough bytes for 'port': expected 8, got 7"
    );
    assert_eq!(
        Peer::from_raw_bytes(&[0, 16, 1, 2]).unwrap_err(),
        "Peer::from_raw_bytes(): not enough bytes for 'IPv6': expected 18, got 4"
    );
    let mut v6 = vec![0u8, 16];
    v6.extend_from_slice(&[9; 16]);
    v6.push(1);
    assert_eq!(
        Peer::from_raw_bytes(&v6).unwrap_err(),
        "Peer::from_raw_bytes(): not enough bytes for 'port': expected 20, got 19"
    );
    assert_eq!(
        Peer::from_raw_bytes(&[1, 7, 0, 0, 0, 0, 0, 0]).unwrap_err(),
        "Peer::from_raw_bytes(): unmatched 'tag': 263"
    );
}

#[test]
fn peers_decoding_errors_report_the_failing_part() {
    assert_eq!(
        Peers::from_raw_bytes(&[0, 0, 0]).err().unwrap(),
        "Peers::from_raw_bytes(): not enough bytes for 'len': expected 8, got 3"
    );
    let mut bytes = vec![0u8, 0, 0, 0, 0, 0, 0, 2];
    bytes.extend_from_slice(&Peer::new(PeerIp::V4(7), 80).as_boxed_bytes().unwrap());
    bytes.extend_from_slice(&[0, 5]);
    assert_eq!(
        Peers::from_raw_bytes(&bytes).err().unwrap(),
        "Peer::from_raw_bytes(): unmatched 'tag': 5"
    );
}

#[test]
fn wallet_and_transaction_decoding_errors_report_counts() {
    assert_eq!(
        PublicWallet::from_raw_bytes(&[0u8; 47]).unwrap_err(),
        "PublicWallet::from_raw_bytes(): not enough bytes: expected 48, got 47"
    );
    assert_eq!(
        Transaction::from_raw_bytes(&[0u8; 10]).unwrap_err(),
        "Transaction::from_raw_bytes(): not enough bytes: expected 192, got 10"
    );
    assert_eq!(
        SignedTransaction::from_raw_bytes(&[0u8; 255]).unwrap_err(),
        "SignedTransaction::from_raw_bytes(): not enough bytes: expected 256, got 255"
    );
}

#[test]
fn tampered_signed_transaction_reports_the_inner_error() {
    let sender = PrivateWallet::generate().with_balance(10);
    let receiver = PrivateWallet::generate().to_public();
    let transaction = Transaction::new(3, sender.to_public(), receiver);
    let signed = transaction.into_signed(sender.keys_pair()).unwrap();
    let mut bytes = signed.as_boxed_bytes().unwrap().to_vec();
    bytes[0] ^= 1;
    assert_eq!(
        SignedTransaction::from_raw_bytes(&bytes).unwrap_err(),
        "Transaction::from_bytes(): transaction hash does not match\nSignedTransaction::from_raw_bytes(): failed to convert transaction"
    );
    let mut bytes = signed.as_boxed_bytes().unwrap().to_vec();
    bytes[200] ^= 1;
    assert_eq!(
        SignedTransaction::from_raw_bytes(&bytes).unwrap_err(),
        "SignedTransaction::from_raw_bytes(): failed to verify"
    );
}

#[test]
fn refused_transactions_say_why() {
    let mut sender = PrivateWallet::generate().with_balance(10);
    let mut receiver = PrivateWallet::generate().to_public();
    assert_eq!(
        sender.make_transaction(0, &mut receiver).err().unwrap(),
        "PrivateWallet::make_transaction(): invalid amount: amount is zero"
    );
    assert_eq!(
        sender.make_transaction(11, &mut receiver).err().unwrap(),
        "PrivateWallet::make_transaction(): invalid amount: amount is higher than balance"
    );
    let mut itself = sender.to_public();
    assert_eq!(
        sender.make_transaction(5, &mut itself).err().unwrap(),
        "PrivateWallet::make_transaction(): invalid transaction: receiver is same as sender"
    );
    assert_eq!(sender.balance(), 10);
}

#[test]
fn empty_blockchain_is_not_valid() {
    assert!(!Blockchain::invalid().validate());
    assert!(Blockchain::new().validate());
}

#[test]
fn mining_wrong_data_fails_whatever_the_chain() {
    let mut chain = Blockchain::invalid();
    let err = blockchain::mine_block(&mut chain, &[0u8; 10]).unwrap_err();
    assert_eq!(err, "blockchain::mine_block(): invalid block data");
    assert_eq!(chain.blocks_count(), 0);
    let mut chain = Blockchain::new();
    assert!(blockchain::mine_block(&mut chain, &[0u8; BLOCK_DATA_LEN]).is_ok());
    assert_eq!(chain.blocks_count(), 2);
}

#[test]
fn failed_updates_name_the_validation_error() {
    let mut chain = Blockchain::new();
    chain.mine_block([1; BLOCK_DATA_LEN]);
    let err = blockchain::update(&mut chain, Blockchain::new()).unwrap_err();
    assert_eq!(err, "blockchain::update(): failed to validate: ShorterBlockchain");
    let bytes = Blockchain::new().as_actix_bytes().unwrap();
    let err = blockchain::update_from_bytes(&mut chain, bytes).unwrap_err();
    assert_eq!(err, "blockchain::update_from_bytes(): failed to validate: ShorterBlockchain");
    assert_eq!(chain.blocks_count(), 2);
}

#[test]
fn preconditions_are_checked_by_the_library() {
    assert!(validation_is_defined(&Blockchain::new(), &Blockchain::new()));
    assert!(validation_is_defined(&Blockchain::new(), &Blockchain::invalid()));
    assert!(!validation_is_defined(&Blockchain::invalid(), &Blockchain::invalid()));
    assert!(!validation_is_defined(&Blockchain::invalid(), &Blockchain::new()));
    let bytes = Blockchain::new().as_boxed_bytes().unwrap();
    assert!(chain_bytes_decodable(&bytes));
    assert!(!chain_bytes_decodable(&bytes[..bytes.len() - 1]));
    assert!(!chain_bytes_decodable(&bytes[..7]));
    assert!(chain_bytes_decodable(&[0u8; 8]));
    assert!(!chain_bytes_decodable(&[255u8; 8]));
}

#[test]
fn block_replies_are_told_apart() {
    assert_eq!(classify_block_reply(b"yes", b"yes", b"no"), Some(true));
    assert_eq!(classify_block_reply(b"no", b"yes", b"no"), Some(false));
    assert_eq!(classify_block_reply(b"maybe", b"yes", b"no"), None);
}

#[test]
fn connecting_then_disconnecting_restores_the_server() {
    let mut state = ServerState::new();
    let a = Peer::new(PeerIp::V4(1), 1);
    let b = Peer::new(PeerIp::V6(2, 0, 0), 2);
    state.add_peer(a);
    state.record_echo(&a, false);
    let before_peers = state.peers().as_slice().to_vec();
    assert!(state.add_peer(b));
    assert!(state.remove_peer(&b));
    assert_eq!(state.peers().as_slice(), &before_peers[..]);
    assert_eq!(state.missed_echoes(&a), Some(1));
    assert_eq!(state.missed_echoes(&b), None);
}

#[test]
fn checked_update_refuses_bytes_it_cannot_use() {
    let mut chain = Blockchain::new();
    let short = Blockchain::new().as_actix_bytes().unwrap().slice(0..100);
    assert!(blockchain::checked_update_from_bytes(&mut chain, short).is_none());
    let mut empty = Blockchain::invalid();
    let bytes = Blockchain::new().as_actix_bytes().unwrap();
    assert!(blockchain::checked_update_from_bytes(&mut empty, bytes).is_none());
    assert_eq!(empty.blocks_count(), 0);
    let mut longer = Blockchain::new();
    longer.mine_block([3; BLOCK_DATA_LEN]);
    let bytes = longer.as_actix_bytes().unwrap();
    assert_eq!(blockchain::checked_update_from_bytes(&mut chain, bytes), Some(Ok(())));
    assert_eq!(chain.blocks_count(), 2);
}
