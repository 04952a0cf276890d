use blockchain::block::{mine_block, Block, BLOCK_DATA_LEN, BLOCK_HASH_LEN};
use blockchain::blockchain::Blockchain;
use blockchain::bytes_utils::BytesConversion;
use blockchain::validate_blockchain;
use rand::Rng;

fn random_timestamp() -> i64 {
    rand::rng().random::<i64>()
}

fn random_bytes<const N: usize>() -> [u8; N] {
    let mut bytes: [u8; N] = [0; N];
    rand::rng().fill(&mut bytes[..]);
    bytes
}

fn random_block(last_block: &Block) -> Block {
    mine_block(last_block, random_bytes::<BLOCK_DATA_LEN>())
}

fn fully_random_block() -> Block {
    Block::new(random_timestamp(), random_bytes::<BLOCK_HASH_LEN>(), random_bytes::<BLOCK_DATA_LEN>())
}

/// A blockchain that holds exactly `blocks`.
fn chain_of(blocks: &[Block]) -> Blockchain {
    let mut bc = Blockchain::invalid();
    for block in blocks {
        bc.add_block(*block);
    }
    bc
}

#[test]
fn first_block_is_genesis() {
    assert_eq!(Blockchain::new().blocks()[0], Block::genesis());
}

#[test]
fn new_blockchain_is_valid() {
    assert!(Blockchain::new().validate());
}

#[test]
fn blockchain_with_blocks_is_valid() {
    let mut bc = Blockchain::new();
    bc.add_block(random_block(bc.last_block()));
    bc.add_block(random_block(bc.last_block()));
    bc.add_block(random_block(bc.last_block()));
    assert!(bc.validate());
}

#[test]
fn blockchain_with_tampered_blocks_is_not_valid() {
    let mut bc = Blockchain::new();
    bc.add_block(random_block(bc.last_block()));
    bc.add_block(random_block(bc.last_block()));
    let mut blocks = bc.blocks().to_vec();
    blocks[1] = fully_random_block();
    let bc = chain_of(&blocks);
    assert!(!bc.validate());
}

#[test]
fn new_blockchain_vs_new_blockchain_is_valid() {
    assert!(validate_blockchain(&Blockchain::new(), &Blockchain::new()).is_ok());
}

#[test]
fn blockchain_with_blocks_vs_new_blockchain_is_not_valid() {
    let mut this_bc = Blockchain::new();
    this_bc.add_block(random_block(this_bc.last_block()));
    this_bc.add_block(random_block(this_bc.last_block()));
    this_bc.add_block(random_block(this_bc.last_block()));
    let other_bc = Blockchain::new();
    assert!(validate_blockchain(&this_bc, &other_bc).is_err());
}

#[test]
fn new_blockchain_vs_blockchain_with_blocks_is_valid() {
    let this_bc = Blockchain::new();
    let mut other_bc = Blockchain::new();
    other_bc.add_block(random_block(other_bc.last_block()));
    other_bc.add_block(random_block(other_bc.last_block()));
    other_bc.add_block(random_block(other_bc.last_block()));
    assert!(validate_blockchain(&this_bc, &other_bc).is_ok());
}

#[test]
fn blockchain_with_blocks_vs_blockchain_with_same_blocks_is_valid() {
    let mut this_bc = Blockchain::new();
    this_bc.add_block(random_block(this_bc.last_block()));
    this_bc.add_block(random_block(this_bc.last_block()));
    this_bc.add_block(random_block(this_bc.last_block()));
    let other_bc = chain_of(this_bc.blocks());
    assert!(validate_blockchain(&this_bc, &other_bc).is_ok());
}

#[test]
fn blockchain_with_blocks_vs_blockchain_with_different_blocks_is_not_valid() {
    let mut this_bc = Blockchain::new();
    this_bc.add_block(random_block(this_bc.last_block()));
    this_bc.add_block(random_block(this_bc.last_block()));
    let mut other_bc = chain_of(this_bc.blocks());
    this_bc.add_block(random_block(this_bc.last_block()));
    other_bc.add_block(random_block(other_bc.last_block()));
    assert!(validate_blockchain(&this_bc, &other_bc).is_err());
}

#[test]
fn update_with_equal_blockchain_is_ok() {
    let mut this_bc = Blockchain::new();
    this_bc.add_block(random_block(this_bc.last_block()));
    this_bc.add_block(random_block(this_bc.last_block()));
    this_bc.add_block(random_block(this_bc.last_block()));
    let other_bc = chain_of(this_bc.blocks());
    assert!(this_bc.update(other_bc).is_ok());
}

#[test]
fn update_with_longer_blockchain_is_ok() {
    let mut this_bc = Blockchain::new();
    this_bc.add_block(random_block(this_bc.last_block()));
    this_bc.add_block(random_block(this_bc.last_block()));
    this_bc.add_block(random_block(this_bc.last_block()));
    let mut other_bc = chain_of(this_bc.blocks());
    other_bc.add_block(random_block(other_bc.last_block()));
    assert!(this_bc.update(other_bc).is_ok());
}

#[test]
fn update_with_shorter_blockchain_is_not_ok() {
    let mut this_bc = Blockchain::new();
    this_bc.add_block(random_block(this_bc.last_block()));
    this_bc.add_block(random_block(this_bc.last_block()));
    this_bc.add_block(random_block(this_bc.last_block()));
    let blocks = this_bc.blocks();
    let other_bc = chain_of(&blocks[..blocks.len() - 1]);
    assert!(this_bc.update(other_bc).is_err());
}

#[test]
fn update_with_different_blockchain_is_not_ok() {
    let mut this_bc = Blockchain::new();
    this_bc.add_block(random_block(this_bc.last_block()));
    this_bc.add_block(random_block(this_bc.last_block()));
    this_bc.add_block(random_block(this_bc.last_block()));
    {
        let mut blocks = this_bc.blocks().to_vec();
        blocks[0] = Block::new(
            random_timestamp(),
            random_bytes::<{ BLOCK_HASH_LEN }>(),
            random_bytes::<{ BLOCK_DATA_LEN }>(),
        );
        let other_bc = chain_of(&blocks);
        assert!(this_bc.update(other_bc).is_err());
    }
    {
        let mut other_bc = chain_of(this_bc.blocks());
        this_bc.add_block(random_block(this_bc.last_block()));
        other_bc.add_block(random_block(other_bc.last_block()));
        assert!(this_bc.update(other_bc).is_err());
    }
}

#[test]
fn blockchain_bytes_conversion() {
    let mut original_bc = Blockchain::new();
    original_bc.add_block(random_block(original_bc.last_block()));
    original_bc.add_block(random_block(original_bc.last_block()));
    original_bc.add_block(random_block(original_bc.last_block()));
    let bc_bytes = original_bc.as_actix_bytes().unwrap();
    let converted_bc = Blockchain::from_actix_bytes(bc_bytes).unwrap();
    assert_eq!(original_bc.blocks(), converted_bc.blocks());
}

#[test]
fn blockchain_bytes_start_with_the_number_of_blocks() {
    let mut bc = Blockchain::new();
    bc.add_block(random_block(bc.last_block()));
    let bytes = bc.as_boxed_bytes().unwrap();
    assert_eq!(bytes.len(), 8 + 2 * 1160);
    assert_eq!(&bytes[0..8], &2u64.to_be_bytes());
    let empty = Blockchain::invalid().as_boxed_bytes().unwrap();
    assert_eq!(&empty[..], &0u64.to_be_bytes());
}

#[test]
fn update_with_longer_blockchain_replaces_blocks() {
    let mut this_bc = Blockchain::new();
    this_bc.add_block(random_block(this_bc.last_block()));
    let mut other_bc = chain_of(this_bc.blocks());
    other_bc.add_block(random_block(other_bc.last_block()));
    other_bc.add_block(random_block(other_bc.last_block()));
    let expected = other_bc.blocks().to_vec();
    assert!(this_bc.update(other_bc).is_ok());
    assert_eq!(this_bc.blocks(), &expected[..]);
    assert!(this_bc.validate());
}

#[test]
fn failed_update_changes_nothing() {
    let mut this_bc = Blockchain::new();
    this_bc.add_block(random_block(this_bc.last_block()));
    let before = this_bc.blocks().to_vec();
    let mut blocks = before.clone();
    blocks[1] = fully_random_block();
    assert!(this_bc.update(chain_of(&blocks)).is_err());
    assert_eq!(this_bc.blocks(), &before[..]);
}

#[test]
fn mined_blockchain_stays_valid() {
    let mut bc = Blockchain::new();
    bc.mine_block(random_bytes::<BLOCK_DATA_LEN>());
    bc.mine_block(random_bytes::<BLOCK_DATA_LEN>());
    assert_eq!(bc.blocks_count(), 3);
    assert!(bc.validate());
}

#[test]
fn root_functions_act_on_the_given_chain() {
    let mut chain = Blockchain::invalid();
    blockchain::init(&mut chain);
    assert_eq!(chain.blocks_count(), 1);
    assert!(blockchain::mine_block(&mut chain, &[0u8; 10]).is_err());
    assert_eq!(chain.blocks_count(), 1);
    let mined = blockchain::mine_block(&mut chain, &[3u8; BLOCK_DATA_LEN]).unwrap();
    assert_eq!(chain.blocks_count(), 2);
    assert!(blockchain::validate_last_block(&chain, &mined).is_ok());
    assert!(blockchain::validate_new_block(&chain, &mined).is_err());
    let next = random_block(&mined);
    assert!(blockchain::validate_new_block(&chain, &next).is_ok());
    blockchain::add_block(&mut chain, next);
    assert!(chain.validate());
    let bytes = blockchain::as_actix_bytes(&chain).unwrap();
    let mut other = Blockchain::new();
    assert!(blockchain::update_from_bytes(&mut other, bytes).is_ok());
    assert_eq!(other.blocks(), chain.blocks());
    assert!(blockchain::update(&mut other, Blockchain::new()).is_err());
}
