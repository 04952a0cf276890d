//! Blocks: a timestamp, the hash of the previous block, the block's own hash and its data.

use vstd::prelude::*;

use crate::bytes_utils::{
    append_bytes_raw, boxed_bytes, bytes_equal, copy_bytes_array, extend_bytes, BytesConversion,
};
use crate::encoding::{be_i64, be_i64_value, i64_from_be_bytes, i64_to_be_bytes, lemma_be_i64_roundtrip, lemma_be_i64_value_roundtrip};
use crate::primitives::{now_timestamp_micros, sha512, sha512_digest};
use crate::text::{count_message, count_message_text};

verus! {

/// The length of a block hash in bytes.
pub const BLOCK_HASH_LEN: usize = 64;

/// The length of a block's data in bytes.
pub const BLOCK_DATA_LEN: usize = 1024;

/// The length of a block's byte encoding: timestamp, previous hash, hash and data.
pub const BLOCK_BYTES_LEN: usize = 1160;

/// Microseconds since the UNIX epoch.
pub type Timestamp = i64;

/// The hash of a block.
pub type BlockHash = [u8; BLOCK_HASH_LEN];

/// The data that a block stores.
pub type BlockData = [u8; BLOCK_DATA_LEN];

/// What the validation of a block returns.
pub type ValidationResult = Result<ValidationResponse, ValidationError>;

/// The `Ok` value of a [`ValidationResult`].
pub enum ValidationResponse {
    ValidBlock,
}

/// The `Err` value of a [`ValidationResult`].
#[derive(Debug)]
pub enum ValidationError {
    DifferentTimestamp,
    DifferentData,
    DifferentHash,
    DifferentPreviousHash,
    EarlierTimestamp,
    TamperedHash,
}

/// A block of the blockchain.
#[derive(Clone, Copy, PartialEq, Debug)]
pub struct Block {
    /// Time of creation, in microseconds since the UNIX epoch.
    timestamp: Timestamp,
    /// The hash of the previous block in the chain.
    prev_hash: BlockHash,
    /// The hash of this block.
    this_hash: BlockHash,
    /// The data stored in the block.
    data: BlockData,
}

/// The mathematical value of a [`Block`].
pub ghost struct BlockModel {
    pub timestamp: i64,
    pub prev_hash: Seq<u8>,
    pub this_hash: Seq<u8>,
    pub data: Seq<u8>,
}

impl View for Block {
    type V = BlockModel;

    closed spec fn view(&self) -> BlockModel {
        BlockModel {
            timestamp: self.timestamp,
            prev_hash: self.prev_hash@,
            this_hash: self.this_hash@,
            data: self.data@,
        }
    }
}

/// `n` zero bytes.
pub open spec fn zeros(n: nat) -> Seq<u8> {
    Seq::new(n, |i: int| 0u8)
}

/// Whether the fields of a block model have the lengths of a block's fields.
pub open spec fn well_sized(m: BlockModel) -> bool {
    &&& m.prev_hash.len() == BLOCK_HASH_LEN
    &&& m.this_hash.len() == BLOCK_HASH_LEN
    &&& m.data.len() == BLOCK_DATA_LEN
}

/// The bytes whose SHA-512 digest is the hash of a block.
pub open spec fn hash_input(timestamp: i64, prev_hash: Seq<u8>, data: Seq<u8>) -> Seq<u8> {
    be_i64(timestamp) + prev_hash + data
}

/// The hash of a block with the given timestamp, previous hash and data.
pub open spec fn block_hash(timestamp: i64, prev_hash: Seq<u8>, data: Seq<u8>) -> Seq<u8> {
    sha512(hash_input(timestamp, prev_hash, data))
}

/// Whether the hash that a block holds is the hash of its contents.
pub open spec fn hash_is_valid(m: BlockModel) -> bool {
    m.this_hash == block_hash(m.timestamp, m.prev_hash, m.data)
}

/// The block that a block with these contents is.
pub open spec fn block_model(timestamp: i64, prev_hash: Seq<u8>, data: Seq<u8>) -> BlockModel {
    BlockModel {
        timestamp,
        prev_hash,
        this_hash: block_hash(timestamp, prev_hash, data),
        data,
    }
}

/// The genesis block: timestamp 0, zero previous hash, zero data.
pub open spec fn genesis_model() -> BlockModel {
    block_model(0, zeros(BLOCK_HASH_LEN as nat), zeros(BLOCK_DATA_LEN as nat))
}

/// The bytes that encode a block: big-endian timestamp, previous hash, hash, data.
pub open spec fn block_encoding(m: BlockModel) -> Seq<u8> {
    be_i64(m.timestamp) + m.prev_hash + m.this_hash + m.data
}

/// The block that the first [`BLOCK_BYTES_LEN`] bytes of `bytes` encode.
pub open spec fn block_decoding(bytes: Seq<u8>) -> BlockModel {
    BlockModel {
        timestamp: be_i64_value(bytes),
        prev_hash: bytes.subrange(8, 72),
        this_hash: bytes.subrange(72, 136),
        data: bytes.subrange(136, 1160),
    }
}

/// What [`validate_block`] answers: whether `other` is the same block as `this`, and the first
/// field in which it differs.
pub open spec fn validate_block_spec(this: BlockModel, other: BlockModel) -> ValidationResult {
    if this.timestamp != other.timestamp {
        Err(ValidationError::DifferentTimestamp)
    } else if this.data != other.data {
        Err(ValidationError::DifferentData)
    } else if this.prev_hash != other.prev_hash {
        Err(ValidationError::DifferentPreviousHash)
    } else if this.this_hash != other.this_hash {
        Err(ValidationError::DifferentHash)
    } else {
        Ok(ValidationResponse::ValidBlock)
    }
}

/// What [`validate_new_block`] answers: whether `new` can follow `last` in a chain, and the
/// first check that it fails.
pub open spec fn validate_new_block_spec(last: BlockModel, new: BlockModel) -> ValidationResult {
    if new.timestamp <= last.timestamp {
        Err(ValidationError::EarlierTimestamp)
    } else if new.prev_hash != last.this_hash {
        Err(ValidationError::DifferentPreviousHash)
    } else if block_hash(new.timestamp, last.this_hash, new.data) != new.this_hash {
        Err(ValidationError::TamperedHash)
    } else {
        Ok(ValidationResponse::ValidBlock)
    }
}

/// Whether `new` can follow `last` in a chain.
pub open spec fn follows(last: BlockModel, new: BlockModel) -> bool {
    validate_new_block_spec(last, new) is Ok
}

/// The bytes that a block hash covers hold the timestamp, the previous hash and the data, each
/// recoverable: blocks that differ in any of them are hashed from different bytes.
pub proof fn lemma_hash_input_injective(
    t1: i64,
    p1: Seq<u8>,
    d1: Seq<u8>,
    t2: i64,
    p2: Seq<u8>,
    d2: Seq<u8>,
)
    requires
        p1.len() == BLOCK_HASH_LEN,
        p2.len() == BLOCK_HASH_LEN,
        d1.len() == BLOCK_DATA_LEN,
        d2.len() == BLOCK_DATA_LEN,
        hash_input(t1, p1, d1) == hash_input(t2, p2, d2),
    ensures
        t1 == t2,
        p1 == p2,
        d1 == d2,
{
    let a = hash_input(t1, p1, d1);
    let b = hash_input(t2, p2, d2);
    lemma_be_i64_roundtrip(t1);
    lemma_be_i64_roundtrip(t2);
    assert(a.subrange(0, 8) =~= be_i64(t1));
    assert(b.subrange(0, 8) =~= be_i64(t2));
    assert(be_i64_value(be_i64(t1)) == be_i64_value(be_i64(t2)));
    assert(a.subrange(8, 72) =~= p1);
    assert(b.subrange(8, 72) =~= p2);
    assert(a.subrange(72, 1096) =~= d1);
    assert(b.subrange(72, 1096) =~= d2);
}

/// The fields of every block have the lengths of their types.
pub broadcast proof fn lemma_block_well_sized(b: Block)
    ensures
        #[trigger] well_sized(b@),
{
}

/// Two blocks with the same value are the same block.
pub proof fn lemma_block_view_injective(a: Block, b: Block)
    requires
        a@ == b@,
    ensures
        a == b,
{
    assert(a.prev_hash =~= b.prev_hash);
    assert(a.this_hash =~= b.this_hash);
    assert(a.data =~= b.data);
}

impl Block {
    /// The genesis block.
    pub fn genesis() -> (r: Self)
        ensures
            r@ == genesis_model(),
    {
        let prev_hash: BlockHash = [0u8; BLOCK_HASH_LEN];
        let data: BlockData = [0u8; BLOCK_DATA_LEN];
        assert(prev_hash@ =~= zeros(BLOCK_HASH_LEN as nat));
        assert(data@ =~= zeros(BLOCK_DATA_LEN as nat));
        Self::new(0, prev_hash, data)
    }

    /// A block with the given contents; its hash is computed from them.
    pub fn new(timestamp: Timestamp, prev_hash: BlockHash, data: BlockData) -> (r: Self)
        ensures
            r@ == block_model(timestamp, prev_hash@, data@),
            r@.this_hash == sha512(be_i64(timestamp) + prev_hash@ + data@),
    {
        let this_hash = hash_block(timestamp, &prev_hash, &data);
        Self { timestamp, prev_hash, this_hash, data }
    }

    /// The hash of the block.
    pub(crate) fn hash(&self) -> (r: &BlockHash)
        ensures
            r@ == self@.this_hash,
    {
        &self.this_hash
    }

    /// Whether the hash that the block holds is the hash of its contents.
    pub fn validate(&self) -> (r: bool)
        ensures
            r == hash_is_valid(self@),
            r == (self@.this_hash == sha512(be_i64(self@.timestamp) + self@.prev_hash + self@.data)),
    {
        let computed = hash_block(self.timestamp, &self.prev_hash, &self.data);
        bytes_equal(&computed, &self.this_hash)
    }

    /// Whether two blocks are the same block.
    pub fn equals(&self, other: &Block) -> (r: bool)
        ensures
            r == (self@ == other@),
    {
        self.timestamp == other.timestamp && bytes_equal(&self.prev_hash, &other.prev_hash)
            && bytes_equal(&self.this_hash, &other.this_hash) && bytes_equal(
            &self.data,
            &other.data,
        )
    }

    /// The length of a block's byte encoding.
    pub fn size_of_self() -> (r: usize)
        ensures
            r == BLOCK_BYTES_LEN,
    {
        BLOCK_BYTES_LEN
    }

    /// Where the timestamp starts in the encoding.
    pub fn offset_of_timestamp() -> (r: usize)
        ensures
            r == 0,
    {
        0
    }

    /// The length of the encoded timestamp.
    pub fn size_of_timestamp() -> (r: usize)
        ensures
            r == 8,
    {
        8
    }

    /// Where the previous hash starts in the encoding.
    pub fn offset_of_prev_hash() -> (r: usize)
        ensures
            r == 8,
    {
        Self::offset_of_timestamp() + Self::size_of_timestamp()
    }

    /// The length of the previous hash.
    pub fn size_of_prev_hash() -> (r: usize)
        ensures
            r == BLOCK_HASH_LEN,
    {
        BLOCK_HASH_LEN
    }

    /// Where the hash starts in the encoding.
    pub fn offset_of_this_hash() -> (r: usize)
        ensures
            r == 72,
    {
        Self::offset_of_prev_hash() + Self::size_of_prev_hash()
    }

    /// The length of the hash.
    pub fn size_of_this_hash() -> (r: usize)
        ensures
            r == BLOCK_HASH_LEN,
    {
        BLOCK_HASH_LEN
    }

    /// Where the data starts in the encoding.
    pub fn offset_of_data() -> (r: usize)
        ensures
            r == 136,
    {
        Self::offset_of_this_hash() + Self::size_of_this_hash()
    }

    /// The length of the data.
    pub fn size_of_data() -> (r: usize)
        ensures
            r == BLOCK_DATA_LEN,
    {
        BLOCK_DATA_LEN
    }
}

impl BytesConversion for Block {
    type Error = String;

    open spec fn encodable(&self) -> bool {
        true
    }

    open spec fn encoding(&self) -> Seq<u8> {
        block_encoding(self@)
    }

    open spec fn decodable(bytes: Seq<u8>) -> bool {
        true
    }

    open spec fn decodes_to(bytes: Seq<u8>, r: Result<Self, Self::Error>) -> bool {
        if bytes.len() < BLOCK_BYTES_LEN {
            r matches Err(e) && e@ == count_message(
                "Block::from_raw_bytes(): not enough bytes"@,
                BLOCK_BYTES_LEN as nat,
                bytes.len(),
            )
        } else {
            r matches Ok(b) && b@ == block_decoding(bytes)
        }
    }

    fn as_boxed_bytes(&self) -> (r: Result<Box<[u8]>, Self::Error>) {
        let n_bytes = Self::size_of_self();
        let mut bytes = boxed_bytes(n_bytes);
        let mut bytes_index: usize = 0;
        let timestamp_bytes = i64_to_be_bytes(self.timestamp);
        let ghost empty = bytes@;
        append_bytes_raw(&timestamp_bytes, &mut bytes, &mut bytes_index)?;
        append_bytes_raw(&self.prev_hash, &mut bytes, &mut bytes_index)?;
        append_bytes_raw(&self.this_hash, &mut bytes, &mut bytes_index)?;
        append_bytes_raw(&self.data, &mut bytes, &mut bytes_index)?;
        assert(bytes@ =~= block_encoding(self@));
        Ok(bytes)
    }

    fn from_raw_bytes(bytes: &[u8]) -> (r: Result<Self, Self::Error>) {
        if bytes.len() < Self::size_of_self() {
            return Err(
                count_message_text(
                    "Block::from_raw_bytes(): not enough bytes",
                    Self::size_of_self(),
                    bytes.len(),
                ),
            );
        }
        let timestamp = i64_from_be_bytes(bytes);
        let prev_hash: BlockHash = copy_bytes_array(bytes, Self::offset_of_prev_hash());
        let this_hash: BlockHash = copy_bytes_array(bytes, Self::offset_of_this_hash());
        let data: BlockData = copy_bytes_array(bytes, Self::offset_of_data());
        Ok(Self { timestamp, prev_hash, this_hash, data })
    }
}

/// Decoding the bytes of a block gives the block back.
pub proof fn lemma_block_bytes_roundtrip(m: BlockModel)
    requires
        well_sized(m),
    ensures
        block_encoding(m).len() == BLOCK_BYTES_LEN,
        block_decoding(block_encoding(m)) == m,
{
    lemma_be_i64_roundtrip(m.timestamp);
    let e = block_encoding(m);
    assert(e.subrange(0, 8) =~= be_i64(m.timestamp));
    assert(be_i64_value(e) == be_i64_value(e.subrange(0, 8)));
    assert(e.subrange(8, 72) =~= m.prev_hash);
    assert(e.subrange(72, 136) =~= m.this_hash);
    assert(e.subrange(136, 1160) =~= m.data);
}

/// Every string of [`BLOCK_BYTES_LEN`] bytes is the encoding of the block it decodes to.
pub proof fn lemma_block_bytes_canonical(bytes: Seq<u8>)
    requires
        bytes.len() == BLOCK_BYTES_LEN,
    ensures
        block_encoding(block_decoding(bytes)) == bytes,
{
    assert(be_i64_value(bytes) == be_i64_value(bytes.subrange(0, 8)));
    lemma_be_i64_value_roundtrip(bytes.subrange(0, 8));
    assert(block_encoding(block_decoding(bytes)) =~= bytes);
}

/// A new block that follows `last_block`, stamped with the current time.
pub fn mine_block(last_block: &Block, data: BlockData) -> (r: Block)
    ensures
        r@ == block_model(r@.timestamp, last_block@.this_hash, data@),
{
    let timestamp = now_timestamp_micros();
    let last_hash = *last_block.hash();
    Block::new(timestamp, last_hash, data)
}

/// The hash of a block with the given contents.
fn hash_block(timestamp: Timestamp, last_hash: &BlockHash, data: &BlockData) -> (r: BlockHash)
    ensures
        r@ == block_hash(timestamp, last_hash@, data@),
{
    let mut input: Vec<u8> = Vec::with_capacity(BLOCK_BYTES_LEN);
    let timestamp_bytes = i64_to_be_bytes(timestamp);
    extend_bytes(&mut input, &timestamp_bytes);
    extend_bytes(&mut input, last_hash);
    extend_bytes(&mut input, data);
    sha512_digest(input.as_slice())
}

/// Whether `other_block` is the same block as `this_block`; the error names the first field in
/// which they differ.
pub fn validate_block(this_block: &Block, other_block: &Block) -> (r: ValidationResult)
    ensures
        r == validate_block_spec(this_block@, other_block@),
{
    if this_block.timestamp != other_block.timestamp {
        return Err(ValidationError::DifferentTimestamp);
    }
    if !bytes_equal(&this_block.data, &other_block.data) {
        return Err(ValidationError::DifferentData);
    }
    if !bytes_equal(&this_block.prev_hash, &other_block.prev_hash) {
        return Err(ValidationError::DifferentPreviousHash);
    }
    if !bytes_equal(&this_block.this_hash, &other_block.this_hash) {
        return Err(ValidationError::DifferentHash);
    }
    Ok(ValidationResponse::ValidBlock)
}

/// Whether `new_block` can follow `last_block` in a chain: a later timestamp, the previous
/// hash equal to the hash of `last_block`, and a hash that is the hash of its contents.
pub fn validate_new_block(last_block: &Block, new_block: &Block) -> (r: ValidationResult)
    ensures
        r == validate_new_block_spec(last_block@, new_block@),
{
    if new_block.timestamp <= last_block.timestamp {
        return Err(ValidationError::EarlierTimestamp);
    }
    if !bytes_equal(&new_block.prev_hash, &last_block.this_hash) {
        return Err(ValidationError::DifferentPreviousHash);
    }
    let computed_hash = hash_block(new_block.timestamp, &last_block.this_hash, &new_block.data);
    if !bytes_equal(&computed_hash, &new_block.this_hash) {
        return Err(ValidationError::TamperedHash);
    }
    Ok(ValidationResponse::ValidBlock)
}

/// A block is valid exactly when it matches the block that its contents make.
pub proof fn lemma_valid_block_is_made_block(b: Block)
    ensures
        hash_is_valid(b@) <==> b@ == block_model(b@.timestamp, b@.prev_hash, b@.data),
{
}

/// `validate_block` accepts exactly the blocks equal to the model block.
pub proof fn lemma_validate_block_is_equality(this_block: Block, other_block: Block)
    ensures
        validate_block_spec(this_block@, other_block@) is Ok <==> this_block == other_block,
{
    if this_block@ == other_block@ {
        lemma_block_view_injective(this_block, other_block);
    }
}

/// A block made on top of `last` follows it exactly when its timestamp is later.
pub proof fn lemma_made_block_follows(last: Block, timestamp: i64, data: Seq<u8>)
    ensures
        follows(last@, block_model(timestamp, last@.this_hash, data)) <==> timestamp
            > last@.timestamp,
{
}

} // verus!
