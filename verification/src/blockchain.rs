//! Blockchains: sequences of blocks that start with the genesis block, each block following the
//! one before it.

use vstd::prelude::*;

use crate::block::{
    block_decoding, block_encoding, genesis_model, lemma_block_bytes_roundtrip,
    lemma_block_well_sized, mine_block, validate_new_block, well_sized, Block, BlockData,
    BlockModel, BLOCK_BYTES_LEN, follows,
};
use crate::bytes_utils::{append_bytes_raw, boxed_bytes, BytesConversion};
use crate::encoding::{be_u64, be_u64_value, lemma_be_u64_roundtrip, u64_from_be_bytes, u64_to_be_bytes};

verus! {

broadcast use lemma_block_well_sized;

/// What the validation of a blockchain against another returns.
pub type ValidationResult = Result<ValidationResponse, ValidationError>;

/// The `Ok` value of a [`ValidationResult`].
pub enum ValidationResponse {
    EqualBlockchain,
    LongerBlockchain,
}

/// The `Err` value of a [`ValidationResult`].
#[derive(Debug)]
pub enum ValidationError {
    DifferentGenesis,
    DifferentBlocks,
    TamperedBlocks,
    ShorterBlockchain,
}

/// A blockchain.
pub struct Blockchain {
    /// The blocks, the genesis block first.
    blocks: Vec<Block>,
}

impl View for Blockchain {
    type V = Seq<BlockModel>;

    closed spec fn view(&self) -> Seq<BlockModel> {
        self.blocks@.map_values(|b: Block| b@)
    }
}

/// Whether a sequence of blocks is a valid chain: it starts with the genesis block and each
/// block follows the one before it.
pub open spec fn chain_valid(c: Seq<BlockModel>) -> bool {
    &&& c.len() > 0
    &&& c[0] == genesis_model()
    &&& forall|k: int| 1 <= k < c.len() ==> #[trigger] follows(c[k - 1], c[k])
}

/// The inputs on which validating `other` against `this` runs to its end (where `this` is
/// empty, it has no last block to compare with).
pub open spec fn validation_defined(this: Seq<BlockModel>, other: Seq<BlockModel>) -> bool {
    this.len() > other.len() || (other.len() > 0 && (other[0] != genesis_model() || this.len()
        > 0))
}

/// Whether `other` holds, from index `from` on, a block that does not follow the one before it.
pub open spec fn has_break_from(other: Seq<BlockModel>, from: int) -> bool {
    exists|k: int| from <= k < other.len() && !#[trigger] follows(other[k - 1], other[k])
}

/// What [`validate_blockchain`] answers for `other` measured against `this`.
pub open spec fn validate_blockchain_spec(
    this: Seq<BlockModel>,
    other: Seq<BlockModel>,
) -> ValidationResult {
    if this.len() > other.len() {
        Err(ValidationError::ShorterBlockchain)
    } else if other[0] != genesis_model() {
        Err(ValidationError::DifferentGenesis)
    } else if this.len() >= 2 && this != other.subrange(0, this.len() as int) {
        Err(ValidationError::DifferentBlocks)
    } else if this.len() == other.len() {
        Ok(ValidationResponse::EqualBlockchain)
    } else if !follows(this.last(), other[this.len() as int]) || has_break_from(
        other,
        this.len() + 1int,
    ) {
        Err(ValidationError::TamperedBlocks)
    } else {
        Ok(ValidationResponse::LongerBlockchain)
    }
}

/// The bytes that encode a sequence of blocks, one after the other.
pub open spec fn blocks_encoding(s: Seq<BlockModel>) -> Seq<u8>
    decreases s.len(),
{
    if s.len() == 0 {
        Seq::empty()
    } else {
        blocks_encoding(s.drop_last()) + block_encoding(s.last())
    }
}

/// The bytes that encode a blockchain: the number of blocks as a big-endian `u64`, then the
/// blocks.
pub open spec fn chain_encoding(c: Seq<BlockModel>) -> Seq<u8> {
    be_u64(c.len() as u64) + blocks_encoding(c)
}

/// The number of blocks that the bytes of a blockchain announce.
pub open spec fn announced_len(bytes: Seq<u8>) -> nat {
    be_u64_value(bytes) as nat
}

/// The blockchain that `bytes` encode.
pub open spec fn chain_decoding(bytes: Seq<u8>) -> Seq<BlockModel> {
    Seq::new(
        announced_len(bytes),
        |i: int|
            block_decoding(
                bytes.subrange(8 + BLOCK_BYTES_LEN * i, 8 + BLOCK_BYTES_LEN * (i + 1)),
            ),
    )
}

impl Blockchain {
    /// A blockchain with no blocks, which is not valid.
    pub fn invalid() -> (r: Self)
        ensures
            r@ == Seq::<BlockModel>::empty(),
    {
        let r = Self { blocks: Vec::new() };
        assert(r@ =~= Seq::<BlockModel>::empty());
        r
    }

    /// A blockchain with only the genesis block.
    pub fn new() -> (r: Self)
        ensures
            r@ == seq![genesis_model()],
            chain_valid(r@),
    {
        let mut blocks: Vec<Block> = Vec::new();
        blocks.push(Block::genesis());
        let r = Self { blocks };
        assert(r@ =~= seq![genesis_model()]);
        r
    }

    /// Appends an existing block.
    pub fn add_block(&mut self, block: Block)
        ensures
            final(self)@ == old(self)@.push(block@),
    {
        self.blocks.push(block);
        assert(self@ =~= old(self)@.push(block@));
    }

    /// Mines a new block with the given data on top of the last block, and appends it.
    pub fn mine_block(&mut self, data: BlockData)
        requires
            old(self)@.len() > 0,
        ensures
            final(self)@.len() == old(self)@.len() + 1,
            final(self)@.subrange(0, old(self)@.len() as int) == old(self)@,
            final(self)@.last().prev_hash == old(self)@.last().this_hash,
            final(self)@.last().data == data@,
            final(self)@.last() == crate::block::block_model(
                final(self)@.last().timestamp,
                old(self)@.last().this_hash,
                data@,
            ),
    {
        let block = mine_block(self.last_block(), data);
        self.add_block(block);
        assert(self@.subrange(0, old(self)@.len() as int) =~= old(self)@);
    }

    /// Whether the length of the blockchain's encoding fits in a `usize`.
    pub fn is_encodable(&self) -> (r: bool)
        ensures
            r == self.encodable(),
    {
        let n = self.blocks.len();
        n <= (usize::MAX - 8) / BLOCK_BYTES_LEN
    }

    /// The genesis block.
    fn genesis_block(&self) -> (r: &Block)
        requires
            self@.len() > 0,
        ensures
            r@ == self@[0],
    {
        &self.blocks[0]
    }

    /// The last block of the chain.
    pub fn last_block(&self) -> (r: &Block)
        requires
            self@.len() > 0,
        ensures
            r@ == self@.last(),
    {
        &self.blocks[self.blocks.len() - 1]
    }

    /// The number of blocks.
    pub fn blocks_count(&self) -> (r: usize)
        ensures
            r == self@.len(),
    {
        self.blocks.len()
    }

    /// The blocks, the genesis block first.
    pub fn blocks(&self) -> (r: &[Block])
        ensures
            r@.map_values(|b: Block| b@) == self@,
    {
        self.blocks.as_slice()
    }

    /// Whether the blockchain is valid: it starts with the genesis block and each block follows
    /// the one before it.
    pub fn validate(&self) -> (r: bool)
        ensures
            r == chain_valid(self@),
    {
        if self.blocks.len() == 0 {
            return false;
        }
        if !self.genesis_block().equals(&Block::genesis()) {
            return false;
        }
        let n = self.blocks.len();
        let mut i: usize = 1;
        while i < n
            invariant
                n == self@.len(),
                1 <= i <= n,
                self@[0] == genesis_model(),
                forall|k: int| 1 <= k < i ==> #[trigger] follows(self@[k - 1], self@[k]),
            decreases n - i,
        {
            if validate_new_block(&self.blocks[i - 1], &self.blocks[i]).is_err() {
                assert(!follows(self@[i - 1], self@[i as int]));
                return false;
            }
            i = i + 1;
        }
        true
    }

    /// Replaces the blockchain with `new_blockchain` where that one is longer and valid
    /// measured against it; leaves it as it is where both are equal; fails, changing nothing,
    /// otherwise.
    pub fn update(&mut self, new_blockchain: Blockchain) -> (r: Result<(), ValidationError>)
        requires
            validation_defined(old(self)@, new_blockchain@),
        ensures
            r is Ok <==> validate_blockchain_spec(old(self)@, new_blockchain@) is Ok,
            r matches Err(e) ==> validate_blockchain_spec(old(self)@, new_blockchain@) == Err::<
                ValidationResponse,
                ValidationError,
            >(e) && final(self)@ == old(self)@,
            validate_blockchain_spec(old(self)@, new_blockchain@) == Ok::<
                ValidationResponse,
                ValidationError,
            >(ValidationResponse::EqualBlockchain) ==> final(self)@ == old(self)@,
            validate_blockchain_spec(old(self)@, new_blockchain@) == Ok::<
                ValidationResponse,
                ValidationError,
            >(ValidationResponse::LongerBlockchain) ==> final(self)@ == new_blockchain@,
    {
        match validate_blockchain(self, &new_blockchain) {
            Ok(ValidationResponse::EqualBlockchain) => {},
            Ok(ValidationResponse::LongerBlockchain) => {
                self.blocks = new_blockchain.blocks;
            },
            Err(e) => {
                return Err(e);
            },
        }
        Ok(())
    }
}

impl BytesConversion for Blockchain {
    type Error = String;

    open spec fn encodable(&self) -> bool {
        8 + self@.len() * BLOCK_BYTES_LEN <= usize::MAX
    }

    open spec fn encoding(&self) -> Seq<u8> {
        chain_encoding(self@)
    }

    open spec fn decodable(bytes: Seq<u8>) -> bool {
        &&& bytes.len() >= 8
        &&& 8 + announced_len(bytes) * BLOCK_BYTES_LEN <= bytes.len()
    }

    open spec fn decodes_to(bytes: Seq<u8>, r: Result<Self, Self::Error>) -> bool {
        r matches Ok(c) && c@ == chain_decoding(bytes)
    }

    fn as_boxed_bytes(&self) -> (r: Result<Box<[u8]>, Self::Error>) {
        let n = self.blocks.len();
        let n_bytes = 8 + n * BLOCK_BYTES_LEN;
        let mut bytes = boxed_bytes(n_bytes);
        let mut bytes_index: usize = 0;
        let len_bytes = u64_to_be_bytes(n as u64);
        append_bytes_raw(&len_bytes, &mut bytes, &mut bytes_index)?;
        assert(bytes@.subrange(0, 8) =~= be_u64(n as u64) + blocks_encoding(self@.take(0)));
        let mut i: usize = 0;
        while i < n
            invariant
                n == self@.len(),
                n == self.blocks@.len(),
                n_bytes == 8 + n * BLOCK_BYTES_LEN,
                i <= n,
                bytes@.len() == n_bytes,
                bytes_index == 8 + i * BLOCK_BYTES_LEN,
                bytes@.subrange(0, bytes_index as int) == be_u64(n as u64) + blocks_encoding(
                    self@.take(i as int),
                ),
            decreases n - i,
        {
            assert(bytes_index + BLOCK_BYTES_LEN <= n_bytes) by (nonlinear_arith)
                requires
                    bytes_index == 8 + i * BLOCK_BYTES_LEN,
                    i < n,
                    n_bytes == 8 + n * BLOCK_BYTES_LEN,
            ;
            let block_bytes = self.blocks[i].as_boxed_bytes()?;
            proof {
                lemma_block_well_sized(self.blocks@[i as int]);
                lemma_block_bytes_roundtrip(self@[i as int]);
            }
            let ghost before = bytes@;
            append_bytes_raw(&block_bytes, &mut bytes, &mut bytes_index)?;
            assert(self@.take(i + 1).drop_last() =~= self@.take(i as int));
            assert(bytes@.subrange(0, bytes_index as int) =~= before.subrange(
                0,
                bytes_index - BLOCK_BYTES_LEN,
            ) + block_encoding(self@[i as int]));
            i = i + 1;
        }
        assert(self@.take(n as int) =~= self@);
        assert(bytes@.subrange(0, bytes_index as int) =~= bytes@);
        Ok(bytes)
    }

    fn from_raw_bytes(bytes: &[u8]) -> (r: Result<Self, Self::Error>) {
        let mut blockchain = Self::invalid();
        proof {
            vstd::slice::axiom_spec_len(bytes);
        }
        let vec_len_value = u64_from_be_bytes(bytes);
        assert(vec_len_value <= usize::MAX) by (nonlinear_arith)
            requires
                8 + vec_len_value * BLOCK_BYTES_LEN <= bytes@.len(),
                bytes@.len() <= usize::MAX,
        ;
        let vec_len = vec_len_value as usize;
        let mut end: usize = 8;
        let mut i: usize = 0;
        while i < vec_len
            invariant
                vec_len == announced_len(bytes@),
                bytes@.len() <= usize::MAX,
                8 + vec_len * BLOCK_BYTES_LEN <= bytes@.len(),
                i <= vec_len,
                end == 8 + i * BLOCK_BYTES_LEN,
                blockchain@ == chain_decoding(bytes@).take(i as int),
            decreases vec_len - i,
        {
            assert(end + BLOCK_BYTES_LEN <= bytes@.len()) by (nonlinear_arith)
                requires
                    end == 8 + i * BLOCK_BYTES_LEN,
                    i < vec_len,
                    8 + vec_len * BLOCK_BYTES_LEN <= bytes@.len(),
            ;
            let beg = end;
            end = end + BLOCK_BYTES_LEN;
            let block_bytes = &bytes[beg..end];
            let block = Block::from_raw_bytes(block_bytes)?;
            let ghost prev = blockchain@;
            blockchain.add_block(block);
            assert(8 + BLOCK_BYTES_LEN * (i + 1) == end) by (nonlinear_arith)
                requires
                    end == 8 + i * BLOCK_BYTES_LEN + BLOCK_BYTES_LEN,
            ;
            assert(blockchain@ =~= chain_decoding(bytes@).take(i + 1));
            i = i + 1;
        }
        assert(blockchain@ =~= chain_decoding(bytes@));
        Ok(blockchain)
    }
}

/// Whether validating `other` against `this` runs to its end (see [`validation_defined`]).
pub fn validation_is_defined(this: &Blockchain, other: &Blockchain) -> (r: bool)
    ensures
        r == validation_defined(this@, other@),
{
    let this_len = this.blocks.len();
    let other_len = other.blocks.len();
    if this_len > other_len {
        return true;
    }
    if other_len == 0 {
        return false;
    }
    !other.blocks[0].equals(&Block::genesis()) || this_len > 0
}

/// Whether `bytes` hold the blocks that their first eight bytes announce (see
/// [`BytesConversion::decodable`] for [`Blockchain`]).
pub fn chain_bytes_decodable(bytes: &[u8]) -> (r: bool)
    ensures
        r == <Blockchain as BytesConversion>::decodable(bytes@),
{
    if bytes.len() < 8 {
        return false;
    }
    let announced = u64_from_be_bytes(bytes);
    let room = ((bytes.len() - 8) / BLOCK_BYTES_LEN) as u64;
    proof {
        let l = bytes@.len() - 8;
        assert(announced <= room <==> 8 + announced * BLOCK_BYTES_LEN <= bytes@.len()) by (nonlinear_arith)
            requires
                room == l / (BLOCK_BYTES_LEN as int),
                l >= 0,
                l == bytes@.len() - 8,
        ;
    }
    announced <= room
}

/// The length of the encoding of well-sized blocks.
proof fn lemma_blocks_encoding_len(s: Seq<BlockModel>)
    requires
        forall|k: int| 0 <= k < s.len() ==> well_sized(#[trigger] s[k]),
    ensures
        blocks_encoding(s).len() == s.len() * BLOCK_BYTES_LEN,
    decreases s.len(),
{
    if s.len() > 0 {
        lemma_blocks_encoding_len(s.drop_last());
        lemma_block_bytes_roundtrip(s.last());
    }
}

/// The encoding of the block at index `i` stands at `i * BLOCK_BYTES_LEN` in the encoding of
/// the blocks.
proof fn lemma_blocks_encoding_at(s: Seq<BlockModel>, i: int)
    requires
        forall|k: int| 0 <= k < s.len() ==> well_sized(#[trigger] s[k]),
        0 <= i < s.len(),
    ensures
        blocks_encoding(s).subrange(i * BLOCK_BYTES_LEN, (i + 1) * BLOCK_BYTES_LEN)
            == block_encoding(s[i]),
    decreases s.len(),
{
    let p = s.drop_last();
    lemma_blocks_encoding_len(p);
    lemma_block_bytes_roundtrip(s.last());
    if i == s.len() - 1 {
        assert(blocks_encoding(s).subrange(i * BLOCK_BYTES_LEN, (i + 1) * BLOCK_BYTES_LEN)
            =~= block_encoding(s.last()));
    } else {
        lemma_blocks_encoding_at(p, i);
        assert(blocks_encoding(s).subrange(i * BLOCK_BYTES_LEN, (i + 1) * BLOCK_BYTES_LEN)
            =~= blocks_encoding(p).subrange(i * BLOCK_BYTES_LEN, (i + 1) * BLOCK_BYTES_LEN));
    }
}

/// Decoding the bytes of a blockchain gives the blockchain back.
pub proof fn lemma_chain_bytes_roundtrip(c: Blockchain)
    requires
        c@.len() <= u64::MAX,
    ensures
        chain_encoding(c@).len() == 8 + c@.len() * BLOCK_BYTES_LEN,
        <Blockchain as BytesConversion>::decodable(chain_encoding(c@)),
        chain_decoding(chain_encoding(c@)) == c@,
{
    let s = c@;
    assert forall|k: int| 0 <= k < s.len() implies well_sized(#[trigger] s[k]) by {
        lemma_block_well_sized(c.blocks@[k]);
    }
    let e = chain_encoding(s);
    lemma_blocks_encoding_len(s);
    lemma_be_u64_roundtrip(s.len() as u64);
    assert(e.subrange(0, 8) =~= be_u64(s.len() as u64));
    assert(be_u64_value(e) == be_u64_value(e.subrange(0, 8)));
    assert(announced_len(e) == s.len());
    assert forall|i: int| 0 <= i < s.len() implies #[trigger] chain_decoding(e)[i] == s[i] by {
        lemma_blocks_encoding_at(s, i);
        lemma_block_bytes_roundtrip(s[i]);
        assert(e.subrange(8 + BLOCK_BYTES_LEN * i, 8 + BLOCK_BYTES_LEN * (i + 1))
            =~= blocks_encoding(s).subrange(i * BLOCK_BYTES_LEN, (i + 1) * BLOCK_BYTES_LEN));
    }
    assert(chain_decoding(e) =~= s);
}

/// Validates the blockchain `other` with `this` as model: `other` must start with the genesis
/// block, hold the blocks of `this` first, and each of its further blocks must follow the one
/// before it.
#[verifier::loop_isolation(false)]
pub(crate) fn validate_blockchain(this: &Blockchain, other: &Blockchain) -> (r: ValidationResult)
    requires
        validation_defined(this@, other@),
    ensures
        r == validate_blockchain_spec(this@, other@),
{
    let this_len = this.blocks_count();
    let other_len = other.blocks_count();
    if this_len > other_len {
        return Err(ValidationError::ShorterBlockchain);
    }
    if !other.genesis_block().equals(&Block::genesis()) {
        return Err(ValidationError::DifferentGenesis);
    }
    if this_len >= 2 {
        let mut i: usize = 0;
        while i < this_len
            invariant
                this_len == this@.len(),
                this_len <= other@.len(),
                i <= this_len,
                forall|k: int| 0 <= k < i ==> this@[k] == other@[k],
            decreases this_len - i,
        {
            if !this.blocks[i].equals(&other.blocks[i]) {
                assert(this@[i as int] != other@.subrange(0, this_len as int)[i as int]);
                return Err(ValidationError::DifferentBlocks);
            }
            i = i + 1;
        }
        assert(this@ =~= other@.subrange(0, this_len as int));
    }
    if this_len == other_len {
        return Ok(ValidationResponse::EqualBlockchain);
    }
    if validate_new_block(this.last_block(), &other.blocks[this_len]).is_err() {
        return Err(ValidationError::TamperedBlocks);
    }
    let mut i: usize = this_len + 1;
    while i < other_len
        invariant
            other_len == other@.len(),
            this_len < other_len,
            this_len + 1 <= i <= other_len,
            forall|k: int| this_len + 1 <= k < i ==> #[trigger] follows(other@[k - 1], other@[k]),
        decreases other_len - i,
    {
        if validate_new_block(&other.blocks[i - 1], &other.blocks[i]).is_err() {
            assert(!follows(other@[i - 1], other@[i as int]));
            assert(has_break_from(other@, this_len + 1int));
            return Err(ValidationError::TamperedBlocks);
        }
        i = i + 1;
    }
    Ok(ValidationResponse::LongerBlockchain)
}

/// A chain that validates against a valid chain is valid, and holds that chain as its prefix.
pub proof fn lemma_validated_chain_is_valid(this: Seq<BlockModel>, other: Seq<BlockModel>)
    requires
        chain_valid(this),
        validate_blockchain_spec(this, other) is Ok,
    ensures
        chain_valid(other),
        other.subrange(0, this.len() as int) == this,
{
    let n = this.len();
    if n >= 2 {
        assert(this =~= other.subrange(0, n as int));
    } else {
        assert(this =~= other.subrange(0, n as int)) by {
            assert(this[0] == other[0]);
        }
    }
    assert forall|k: int| 1 <= k < other.len() implies #[trigger] follows(other[k - 1], other[k]) by {
        if k < n {
            assert(other[k - 1] == this[k - 1] && other[k] == this[k]);
            assert(follows(this[k - 1], this[k]));
        } else if k == n {
            assert(other[k - 1] == this.last());
        } else {
            assert(!has_break_from(other, n + 1int));
        }
    }
}

/// A valid chain that holds `this` as its prefix validates against `this`.
pub proof fn lemma_valid_extension_validates(this: Seq<BlockModel>, other: Seq<BlockModel>)
    requires
        this.len() > 0,
        this.len() <= other.len(),
        chain_valid(other),
        other.subrange(0, this.len() as int) == this,
    ensures
        validate_blockchain_spec(this, other) is Ok,
{
    let n = this.len() as int;
    assert(this.last() == other[n - 1]);
    if n < other.len() {
        assert(follows(other[n - 1], other[n]));
    }
}

/// Adding a block that follows the last one keeps a chain valid.
pub proof fn lemma_add_following_block_keeps_valid(c: Seq<BlockModel>, b: BlockModel)
    requires
        chain_valid(c),
        follows(c.last(), b),
    ensures
        chain_valid(c.push(b)),
{
    let d = c.push(b);
    assert forall|k: int| 1 <= k < d.len() implies #[trigger] follows(d[k - 1], d[k]) by {
        if k < c.len() {
            assert(d[k - 1] == c[k - 1] && d[k] == c[k]);
        }
    }
}

/// A successful update keeps a valid blockchain valid, and the old blocks stay first.
pub proof fn lemma_update_keeps_valid(this: Seq<BlockModel>, other: Seq<BlockModel>)
    requires
        chain_valid(this),
        validate_blockchain_spec(this, other) is Ok,
    ensures
        chain_valid(if validate_blockchain_spec(this, other) == Ok::<
            ValidationResponse,
            ValidationError,
        >(ValidationResponse::EqualBlockchain) {
            this
        } else {
            other
        }),
        other.subrange(0, this.len() as int) == this,
{
    lemma_validated_chain_is_valid(this, other);
}

} // verus!
