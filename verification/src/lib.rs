//! A blockchain of fixed-size blocks chained by SHA-512 hashes, a wallet of Ed25519-signed
//! transactions, and the peer bookkeeping and consensus rules of the nodes that share them.
//!
//! The functions at the root act on the node's own blockchain, which the caller holds and
//! hands in.

pub mod block;
pub mod blockchain;
pub mod bytes_utils;
pub mod client;
pub mod encoding;
pub mod peers;
pub mod primitives;
pub mod server;
pub mod text;
pub mod wallet;

use vstd::prelude::*;

use crate::block::{Block, BlockData, BlockModel, BLOCK_DATA_LEN};
use crate::blockchain::{validation_defined, validate_blockchain_spec, Blockchain};
use crate::bytes_utils::{actix_bytes_view, BytesConversion};

verus! {

/// Resets the node's blockchain to the blockchain with only the genesis block.
pub fn init(chain: &mut Blockchain)
    ensures
        final(chain)@ == seq![crate::block::genesis_model()],
{
    *chain = Blockchain::new();
}

/// The bytes of the node's blockchain, as an `actix_web` buffer.
pub fn as_actix_bytes(chain: &Blockchain) -> (r: Result<actix_web::web::Bytes, String>)
    requires
        chain.encodable(),
    ensures
        r matches Ok(b) && actix_bytes_view(b) == chain.encoding(),
{
    chain.as_actix_bytes()
}

/// The text of the message that a failed update reports for a validation error, the update
/// coming from bytes or from a decoded blockchain.
pub open spec fn update_error_text(e: blockchain::ValidationError, from_bytes: bool) -> Seq<char> {
    match (from_bytes, e) {
        (true, blockchain::ValidationError::DifferentGenesis) =>
            "blockchain::update_from_bytes(): failed to validate: DifferentGenesis"@,
        (true, blockchain::ValidationError::DifferentBlocks) =>
            "blockchain::update_from_bytes(): failed to validate: DifferentBlocks"@,
        (true, blockchain::ValidationError::TamperedBlocks) =>
            "blockchain::update_from_bytes(): failed to validate: TamperedBlocks"@,
        (true, blockchain::ValidationError::ShorterBlockchain) =>
            "blockchain::update_from_bytes(): failed to validate: ShorterBlockchain"@,
        (false, blockchain::ValidationError::DifferentGenesis) =>
            "blockchain::update(): failed to validate: DifferentGenesis"@,
        (false, blockchain::ValidationError::DifferentBlocks) =>
            "blockchain::update(): failed to validate: DifferentBlocks"@,
        (false, blockchain::ValidationError::TamperedBlocks) =>
            "blockchain::update(): failed to validate: TamperedBlocks"@,
        (false, blockchain::ValidationError::ShorterBlockchain) =>
            "blockchain::update(): failed to validate: ShorterBlockchain"@,
    }
}

/// The message that a failed update reports for a validation error.
fn update_error_message(e: &blockchain::ValidationError, from_bytes: bool) -> (r: String)
    ensures
        r@ == update_error_text(*e, from_bytes),
{
    match (from_bytes, e) {
        (true, blockchain::ValidationError::DifferentGenesis) =>
            "blockchain::update_from_bytes(): failed to validate: DifferentGenesis".to_string(),
        (true, blockchain::ValidationError::DifferentBlocks) =>
            "blockchain::update_from_bytes(): failed to validate: DifferentBlocks".to_string(),
        (true, blockchain::ValidationError::TamperedBlocks) =>
            "blockchain::update_from_bytes(): failed to validate: TamperedBlocks".to_string(),
        (true, blockchain::ValidationError::ShorterBlockchain) =>
            "blockchain::update_from_bytes(): failed to validate: ShorterBlockchain".to_string(),
        (false, blockchain::ValidationError::DifferentGenesis) =>
            "blockchain::update(): failed to validate: DifferentGenesis".to_string(),
        (false, blockchain::ValidationError::DifferentBlocks) =>
            "blockchain::update(): failed to validate: DifferentBlocks".to_string(),
        (false, blockchain::ValidationError::TamperedBlocks) =>
            "blockchain::update(): failed to validate: TamperedBlocks".to_string(),
        (false, blockchain::ValidationError::ShorterBlockchain) =>
            "blockchain::update(): failed to validate: ShorterBlockchain".to_string(),
    }
}

/// What updating the blockchain `before` with `received` gives: the blockchain after and the
/// result, the messages naming the update from bytes or from a decoded blockchain.
pub open spec fn update_outcome(
    before: Seq<BlockModel>,
    after: Seq<BlockModel>,
    received: Seq<BlockModel>,
    r: Result<(), String>,
    from_bytes: bool,
) -> bool {
    match validate_blockchain_spec(before, received) {
        Ok(blockchain::ValidationResponse::EqualBlockchain) => r is Ok && after == before,
        Ok(blockchain::ValidationResponse::LongerBlockchain) => r is Ok && after == received,
        Err(e) => r matches Err(m) && m@ == update_error_text(e, from_bytes) && after == before,
    }
}

/// Decodes a blockchain from `bytes` and updates the node's blockchain with it.
pub fn update_from_bytes(chain: &mut Blockchain, bytes: actix_web::web::Bytes) -> (r: Result<(), String>)
    requires
        <Blockchain as BytesConversion>::decodable(actix_bytes_view(bytes)),
        validation_defined(old(chain)@, blockchain::chain_decoding(actix_bytes_view(bytes))),
    ensures
        update_outcome(
            old(chain)@,
            final(chain)@,
            blockchain::chain_decoding(actix_bytes_view(bytes)),
            r,
            true,
        ),
{
    let bc = Blockchain::from_actix_bytes(bytes)?;
    match chain.update(bc) {
        Ok(()) => Ok(()),
        Err(e) => Err(update_error_message(&e, true)),
    }
}

/// Decodes a blockchain from `bytes` and updates the node's blockchain with it where the
/// bytes hold the blocks they announce and the validation can run to its end; returns `None`,
/// changing nothing, otherwise.
pub fn checked_update_from_bytes(chain: &mut Blockchain, bytes: actix_web::web::Bytes) -> (r: Option<
    Result<(), String>,
>)
    ensures
        ({
            let view = actix_bytes_view(bytes);
            let runs = <Blockchain as BytesConversion>::decodable(view) && validation_defined(
                old(chain)@,
                blockchain::chain_decoding(view),
            );
            &&& r is None <==> !runs
            &&& r is None ==> final(chain)@ == old(chain)@
            &&& r matches Some(res) ==> update_outcome(
                old(chain)@,
                final(chain)@,
                blockchain::chain_decoding(view),
                res,
                true,
            )
        }),
{
    let runs = {
        let slice = bytes_utils::actix_bytes_as_slice(&bytes);
        if blockchain::chain_bytes_decodable(slice) {
            match Blockchain::from_raw_bytes(slice) {
                Ok(received) => blockchain::validation_is_defined(chain, &received),
                Err(_) => false,
            }
        } else {
            false
        }
    };
    if runs {
        Some(update_from_bytes(chain, bytes))
    } else {
        None
    }
}

/// Updates the node's blockchain with `bc` (see [`Blockchain::update`]).
pub fn update(chain: &mut Blockchain, bc: Blockchain) -> (r: Result<(), String>)
    requires
        validation_defined(old(chain)@, bc@),
    ensures
        update_outcome(old(chain)@, final(chain)@, bc@, r, false),
{
    match chain.update(bc) {
        Ok(()) => Ok(()),
        Err(e) => Err(update_error_message(&e, false)),
    }
}

/// Validates `bc` with the node's blockchain as model.
pub fn validate_blockchain(chain: &Blockchain, bc: &Blockchain) -> (r: blockchain::ValidationResult)
    requires
        validation_defined(chain@, bc@),
    ensures
        r == validate_blockchain_spec(chain@, bc@),
{
    blockchain::validate_blockchain(chain, bc)
}

/// Whether `b` is the last block of the node's blockchain.
pub fn validate_last_block(chain: &Blockchain, b: &Block) -> (r: block::ValidationResult)
    requires
        chain@.len() > 0,
    ensures
        r == block::validate_block_spec(chain@.last(), b@),
{
    block::validate_block(chain.last_block(), b)
}

/// Whether `b` can follow the last block of the node's blockchain.
pub fn validate_new_block(chain: &Blockchain, b: &Block) -> (r: block::ValidationResult)
    requires
        chain@.len() > 0,
    ensures
        r == block::validate_new_block_spec(chain@.last(), b@),
{
    block::validate_new_block(chain.last_block(), b)
}

/// Appends `b` to the node's blockchain.
pub fn add_block(chain: &mut Blockchain, b: Block)
    ensures
        final(chain)@ == old(chain)@.push(b@),
{
    chain.add_block(b);
}

/// Mines a block with `data_ref` as its data on top of the node's blockchain, appends it, and
/// returns it; fails, changing nothing, where `data_ref` is not [`BLOCK_DATA_LEN`] bytes long.
pub fn mine_block(chain: &mut Blockchain, data_ref: &[u8]) -> (r: Result<Block, String>)
    requires
        data_ref@.len() == BLOCK_DATA_LEN ==> old(chain)@.len() > 0,
    ensures
        r is Ok <==> data_ref@.len() == BLOCK_DATA_LEN,
        r matches Err(e) ==> e@ == "blockchain::mine_block(): invalid block data"@ && final(chain)@
            == old(chain)@,
        r matches Ok(b) ==> {
            &&& final(chain)@ == old(chain)@.push(b@)
            &&& b@ == block::block_model(b@.timestamp, old(chain)@.last().this_hash, data_ref@)
        },
{
    if data_ref.len() != BLOCK_DATA_LEN {
        return Err("blockchain::mine_block(): invalid block data".to_string());
    }
    let data: BlockData = bytes_utils::copy_bytes_array(data_ref, 0);
    assert(data@ =~= data_ref@);
    chain.mine_block(data);
    let last = *chain.last_block();
    assert(chain@ =~= chain@.subrange(0, old(chain)@.len() as int).push(chain@.last()));
    Ok(last)
}

} // verus!
