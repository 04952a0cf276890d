//! Transactions between wallets, their byte format, and their signatures.

use vstd::prelude::*;

use crate::block::zeros;
use crate::bytes_utils::{
    append_bytes_raw, boxed_bytes, bytes_equal, copy_bytes_array, extend_bytes, BytesConversion,
};
use crate::encoding::{
    be_i64, be_i64_value, be_u128, be_u128_value, i64_from_be_bytes, i64_to_be_bytes,
    lemma_be_i64_roundtrip, lemma_be_u128_roundtrip, u128_from_be_bytes, u128_to_be_bytes,
};
use crate::primitives::{
    ed25519_key_decodes, ed25519_public_key, ed25519_signature, ed25519_verifies,
    now_timestamp_micros, sha512, sha512_digest,
};
use crate::text::{count_message, count_message_text};
use crate::wallet::keys::{public_key_is_valid, sign, verify_public, SignatureBytes};
use crate::wallet::wallet::{
    lemma_public_wallet_address_len, public_view_of, public_wallet_bytes, PrivateWallet,
    PrivateWalletModel, PublicWallet, PublicWalletModel, Wallet, WalletAddress, WalletBalance,
    WalletKeys,
};

verus! {

broadcast use lemma_public_wallet_address_len;

/// Microseconds since the UNIX epoch.
pub type Timestamp = i64;

/// An amount of currency.
pub type Amount = u128;

/// The bytes of the signature of a transaction.
pub type Signature = SignatureBytes;

type TransactionHash = [u8; TRANSACTION_HASH_BYTES_LENGTH];

type TransactionId = [u8; TRANSACTION_ID_BYTES_LENGTH];

/// The length of the hash of a transaction.
pub const TRANSACTION_HASH_BYTES_LENGTH: usize = 64;

/// The length of the identifier that ends the bytes of a transaction.
pub const TRANSACTION_ID_BYTES_LENGTH: usize = 8;

/// The length of the bytes of a transaction: hash, timestamp, amount, sender address and new
/// balance, receiver address and new balance, identifier.
pub const TRANSACTION_BYTES_LENGTH: usize = 192;

/// The length of the bytes of a transaction before its identifier.
pub const TRANSACTION_BODY_BYTES_LENGTH: usize = 184;

/// The length of a signature.
pub const SIGNATURE_BYTES_LENGTH: usize = 64;

/// The length of the bytes of a signed transaction: transaction, then signature.
pub const SIGNED_TRANSACTION_BYTES_LENGTH: usize = 256;

/// The value of a [`Transaction`].
pub ghost struct TransactionModel {
    pub timestamp: i64,
    pub amount: u128,
    pub sender: PublicWalletModel,
    pub receiver: PublicWalletModel,
}

/// The value of a [`SignedTransaction`].
pub ghost struct SignedTransactionModel {
    pub transaction: TransactionModel,
    pub signature: Seq<u8>,
}

/// Whether the new balances of a transaction compute without overflow.
pub open spec fn transaction_encodable(t: TransactionModel) -> bool {
    &&& t.amount <= t.sender.balance
    &&& t.receiver.balance + t.amount <= u128::MAX
}

/// The hash of a transaction: SHA-512 of amount, sender, receiver and timestamp.
pub open spec fn transaction_hash(t: TransactionModel) -> Seq<u8> {
    sha512(be_u128(t.amount) + public_wallet_bytes(t.sender) + public_wallet_bytes(t.receiver)
        + be_i64(t.timestamp))
}

/// The bytes of a transaction before its identifier.
pub open spec fn transaction_body(t: TransactionModel) -> Seq<u8> {
    transaction_hash(t) + be_i64(t.timestamp) + be_u128(t.amount) + t.sender.address + be_u128(
        (t.sender.balance - t.amount) as u128,
    ) + t.receiver.address + be_u128((t.receiver.balance + t.amount) as u128)
}

/// The identifier of a transaction: the first 8 bytes of the SHA-512 of its body followed by
/// 8 zero bytes.
pub open spec fn transaction_id(body: Seq<u8>) -> Seq<u8> {
    sha512(body + zeros(8)).subrange(0, 8)
}

/// The bytes of a transaction.
pub open spec fn transaction_encoding(t: TransactionModel) -> Seq<u8> {
    transaction_body(t) + transaction_id(transaction_body(t))
}

/// The amount that the bytes of a transaction hold.
pub open spec fn decoded_amount(bytes: Seq<u8>) -> u128 {
    be_u128_value(bytes.subrange(72, 88))
}

/// The new sender balance that the bytes of a transaction hold.
pub open spec fn decoded_sender_balance(bytes: Seq<u8>) -> u128 {
    be_u128_value(bytes.subrange(120, 136))
}

/// The new receiver balance that the bytes of a transaction hold.
pub open spec fn decoded_receiver_balance(bytes: Seq<u8>) -> u128 {
    be_u128_value(bytes.subrange(168, 184))
}

/// The transaction that the bytes of a transaction describe: the old balances are the new ones
/// with the amount given back.
pub open spec fn transaction_decoding(bytes: Seq<u8>) -> TransactionModel {
    TransactionModel {
        timestamp: be_i64_value(bytes.subrange(64, 72)),
        amount: decoded_amount(bytes),
        sender: PublicWalletModel {
            balance: (decoded_sender_balance(bytes) + decoded_amount(bytes)) as u128,
            address: bytes.subrange(88, 120),
        },
        receiver: PublicWalletModel {
            balance: (decoded_receiver_balance(bytes) - decoded_amount(bytes)) as u128,
            address: bytes.subrange(136, 168),
        },
    }
}

/// Whether the bytes of a transaction hold the hash of the transaction they describe, and the
/// identifier of their body.
pub open spec fn transaction_bytes_check(bytes: Seq<u8>) -> bool {
    &&& transaction_hash(transaction_decoding(bytes)) == bytes.subrange(0, 64)
    &&& transaction_id(bytes.subrange(0, 184)) == bytes.subrange(184, 192)
}

/// The message with which decoding the bytes of a transaction fails.
pub open spec fn transaction_error(bytes: Seq<u8>) -> Seq<char> {
    if bytes.len() < TRANSACTION_BYTES_LENGTH {
        count_message(
            "Transaction::from_raw_bytes(): not enough bytes"@,
            TRANSACTION_BYTES_LENGTH as nat,
            bytes.len(),
        )
    } else if transaction_hash(transaction_decoding(bytes)) != bytes.subrange(0, 64) {
        "Transaction::from_bytes(): transaction hash does not match"@
    } else {
        "Transaction::from_bytes(): transaction ID does not match"@
    }
}

/// The message with which the verification of a signed transaction fails, where the sender's
/// address is not a public key.
pub open spec fn verify_error() -> Seq<char> {
    "SignedTransaction::verify(): failed to convert public key"@
}

/// The message with which decoding the bytes of a signed transaction fails.
pub open spec fn signed_transaction_error(bytes: Seq<u8>) -> Seq<char> {
    let t = transaction_decoding(bytes.subrange(0, 192));
    if bytes.len() < SIGNED_TRANSACTION_BYTES_LENGTH {
        count_message(
            "SignedTransaction::from_raw_bytes(): not enough bytes"@,
            SIGNED_TRANSACTION_BYTES_LENGTH as nat,
            bytes.len(),
        )
    } else if !transaction_bytes_check(bytes.subrange(0, 192)) {
        transaction_error(bytes.subrange(0, 192))
            + "\nSignedTransaction::from_raw_bytes(): failed to convert transaction"@
    } else if !ed25519_key_decodes(t.sender.address) {
        verify_error() + "\nSignedTransaction::from_raw_bytes(): failed to verify"@
    } else {
        "SignedTransaction::from_raw_bytes(): failed to verify"@
    }
}

/// Whether giving the amount back to the balances that the bytes hold computes without
/// overflow.
pub open spec fn transaction_bytes_decodable(bytes: Seq<u8>) -> bool {
    bytes.len() < TRANSACTION_BYTES_LENGTH || (decoded_sender_balance(bytes) + decoded_amount(bytes)
        <= u128::MAX && decoded_receiver_balance(bytes) >= decoded_amount(bytes))
}

/// A transaction that a private wallet prepares, with the wallets it acts on.
pub struct UncommittedTransaction<'a> {
    /// The amount to transfer.
    pub amount: Amount,
    /// The wallet that sends the amount.
    pub sender: &'a mut PrivateWallet,
    /// The wallet that receives the amount.
    pub receiver: &'a mut PublicWallet,
}

impl<'a> UncommittedTransaction<'a> {
    /// A transaction of `amount` from `sender` to `receiver`.
    pub(crate) fn new(amount: Amount, sender: &'a mut PrivateWallet, receiver: &'a mut PublicWallet) -> (r:
        Self)
        ensures
            r.amount == amount,
            *r.sender == *old(sender),
            *final(r.sender) == *final(sender),
            *r.receiver == *old(receiver),
            *final(r.receiver) == *final(receiver),
    {
        Self { amount, sender, receiver }
    }

    /// The amount to transfer.
    pub fn amount(&self) -> (r: Amount)
        ensures
            r == self.amount,
    {
        self.amount
    }

    /// The address of the sender.
    pub fn sender_address(&self) -> (r: WalletAddress)
        ensures
            r@ == ed25519_public_key(old(self.sender)@.keys),
    {
        self.sender.address()
    }

    /// The balance of the sender.
    pub fn sender_balance(&self) -> (r: WalletBalance)
        ensures
            r == old(self.sender)@.balance,
    {
        self.sender.balance()
    }

    /// The balance of the sender once the transaction is committed.
    pub fn final_sender_balance(&self) -> (r: WalletBalance)
        requires
            self.amount <= old(self.sender)@.balance,
        ensures
            r == old(self.sender)@.balance - self.amount,
    {
        self.sender.balance() - self.amount
    }

    /// The address of the receiver.
    pub fn receiver_address(&self) -> (r: WalletAddress)
        ensures
            r@ == old(self.receiver)@.address,
    {
        self.receiver.address()
    }

    /// The balance of the receiver.
    pub fn receiver_balance(&self) -> (r: WalletBalance)
        ensures
            r == old(self.receiver)@.balance,
    {
        self.receiver.balance()
    }

    /// The balance of the receiver once the transaction is committed.
    pub fn final_receiver_balance(&self) -> (r: WalletBalance)
        requires
            old(self.receiver)@.balance + self.amount <= u128::MAX,
        ensures
            r == old(self.receiver)@.balance + self.amount,
    {
        self.receiver.balance() + self.amount
    }

    /// Commits the transaction: the sender signs it and pays the amount, the receiver gets it.
    /// Fails, changing nothing, where the amount is above the sender's balance.
    pub fn finalize(self) -> (r: Result<SignedTransaction, String>)
        requires
            old(self.receiver)@.balance + self.amount <= u128::MAX,
        ensures
            r is Ok <==> self.amount <= old(self.sender)@.balance,
            r matches Ok(signed) ==> {
                &&& signed@.transaction.amount == self.amount
                &&& signed@.transaction.sender == public_view_of(old(self.sender)@)
                &&& signed@.transaction.receiver == old(self.receiver)@
                &&& signed@.signature == ed25519_signature(
                    old(self.sender)@.keys,
                    transaction_encoding(signed@.transaction),
                )
                &&& final(self.sender)@ == (PrivateWalletModel {
                    balance: (old(self.sender)@.balance - self.amount) as u128,
                    keys: old(self.sender)@.keys,
                })
                &&& final(self.receiver)@ == (PublicWalletModel {
                    balance: (old(self.receiver)@.balance + self.amount) as u128,
                    address: old(self.receiver)@.address,
                })
                &&& final(self.sender)@.balance + final(self.receiver)@.balance == old(
                    self.sender,
                )@.balance + old(self.receiver)@.balance
            },
            r is Err ==> *final(self.sender) == *old(self.sender) && *final(self.receiver) == *old(
                self.receiver,
            ),
            r matches Err(e) ==> e@
                == "PrivateWallet::check_transaction(): invalid transaction: transaction amount is higher than wallet balance"@,
    {
        let transaction = Transaction::new(self.amount(), self.sender.to_public(), *self.receiver);
        match self.sender.check_transaction(&transaction) {
            Ok(()) => {},
            Err(e) => {
                return Err(e);
            },
        }
        self.receiver.check_transaction(&transaction)?;
        let signed_transaction = self.sender.commit_transaction(transaction)?;
        self.receiver.commit_transaction(self.amount);
        Ok(signed_transaction)
    }
}

/// A transfer of an amount from a sender to a receiver, at a time.
#[derive(PartialEq, Debug)]
pub struct Transaction {
    timestamp: Timestamp,
    amount: Amount,
    sender: PublicWallet,
    receiver: PublicWallet,
}

impl View for Transaction {
    type V = TransactionModel;

    closed spec fn view(&self) -> TransactionModel {
        TransactionModel {
            timestamp: self.timestamp,
            amount: self.amount,
            sender: self.sender@,
            receiver: self.receiver@,
        }
    }
}

impl Transaction {
    /// A transaction of `amount` from `sender` to `receiver`, stamped with the current time.
    pub fn new(amount: Amount, sender: PublicWallet, receiver: PublicWallet) -> (r: Self)
        ensures
            r@.amount == amount,
            r@.sender == sender@,
            r@.receiver == receiver@,
    {
        let timestamp = now_timestamp_micros();
        Self { timestamp, amount, sender, receiver }
    }

    /// The amount.
    pub fn amount(&self) -> (r: Amount)
        ensures
            r == self@.amount,
    {
        self.amount
    }

    /// The address of the sender.
    pub fn sender_address(&self) -> (r: WalletAddress)
        ensures
            r@ == self@.sender.address,
    {
        self.sender.address()
    }

    /// The balance of the sender before the transaction.
    pub fn sender_balance(&self) -> (r: WalletBalance)
        ensures
            r == self@.sender.balance,
    {
        self.sender.balance()
    }

    /// The address of the receiver.
    pub fn receiver_address(&self) -> (r: WalletAddress)
        ensures
            r@ == self@.receiver.address,
    {
        self.receiver.address()
    }

    /// The balance of the receiver before the transaction.
    pub fn receiver_balance(&self) -> (r: WalletBalance)
        ensures
            r == self@.receiver.balance,
    {
        self.receiver.balance()
    }

    /// The hash of the transaction.
    fn hash(&self) -> (r: TransactionHash)
        ensures
            r@ == transaction_hash(self@),
    {
        let mut input: Vec<u8> = Vec::new();
        let amount_bytes = u128_to_be_bytes(self.amount);
        extend_bytes(&mut input, &amount_bytes);
        let sender_bytes = self.sender.to_bytes_array();
        extend_bytes(&mut input, &sender_bytes);
        let receiver_bytes = self.receiver.to_bytes_array();
        extend_bytes(&mut input, &receiver_bytes);
        let timestamp_bytes = i64_to_be_bytes(self.timestamp);
        extend_bytes(&mut input, &timestamp_bytes);
        sha512_digest(input.as_slice())
    }

    /// The balance of the sender after the transaction.
    fn updated_sender_balance(&self) -> (r: WalletBalance)
        requires
            self@.amount <= self@.sender.balance,
        ensures
            r == self@.sender.balance - self@.amount,
    {
        self.sender.balance() - self.amount
    }

    /// The balance of the receiver after the transaction.
    fn updated_receiver_balance(&self) -> (r: WalletBalance)
        requires
            self@.receiver.balance + self@.amount <= u128::MAX,
        ensures
            r == self@.receiver.balance + self@.amount,
    {
        self.receiver.balance() + self.amount
    }

    /// The first 8 bytes of the SHA-512 of `bytes`.
    fn final_id(bytes: &[u8]) -> (r: TransactionId)
        ensures
            r@ == sha512(bytes@).subrange(0, 8),
            sha512(bytes@).len() == TRANSACTION_HASH_BYTES_LENGTH,
    {
        let full_hash = sha512_digest(bytes);
        let id: TransactionId = copy_bytes_array(&full_hash, 0);
        id
    }

    /// The transaction signed with `keys_pair`.
    pub fn into_signed(self, keys_pair: &WalletKeys) -> (r: Result<SignedTransaction, String>)
        requires
            transaction_encodable(self@),
        ensures
            r matches Ok(signed) && signed@ == (SignedTransactionModel {
                transaction: self@,
                signature: ed25519_signature(keys_pair@, transaction_encoding(self@)),
            }),
    {
        let bytes = self.as_boxed_bytes()?;
        let signature = sign(keys_pair, &bytes);
        Ok(SignedTransaction::new(self, signature))
    }
}

impl BytesConversion for Transaction {
    type Error = String;

    open spec fn encodable(&self) -> bool {
        transaction_encodable(self@)
    }

    open spec fn encoding(&self) -> Seq<u8> {
        transaction_encoding(self@)
    }

    open spec fn decodable(bytes: Seq<u8>) -> bool {
        transaction_bytes_decodable(bytes)
    }

    open spec fn decodes_to(bytes: Seq<u8>, r: Result<Self, Self::Error>) -> bool {
        if bytes.len() < TRANSACTION_BYTES_LENGTH || !transaction_bytes_check(bytes) {
            r matches Err(e) && e@ == transaction_error(bytes)
        } else {
            r matches Ok(t) && t@ == transaction_decoding(bytes)
        }
    }

    fn as_boxed_bytes(&self) -> (r: Result<Box<[u8]>, Self::Error>)
        ensures
            r matches Ok(b) && b@.len() == TRANSACTION_BYTES_LENGTH,
            transaction_bytes_decodable(self.encoding()),
            transaction_bytes_check(self.encoding()),
            transaction_decoding(self.encoding()) == self@,
    {
        let mut bytes = boxed_bytes(TRANSACTION_BYTES_LENGTH);
        let mut bytes_index: usize = 0;
        let hash = self.hash();
        append_bytes_raw(&hash, &mut bytes, &mut bytes_index)?;
        let timestamp_bytes = i64_to_be_bytes(self.timestamp);
        append_bytes_raw(&timestamp_bytes, &mut bytes, &mut bytes_index)?;
        let amount_bytes = u128_to_be_bytes(self.amount);
        append_bytes_raw(&amount_bytes, &mut bytes, &mut bytes_index)?;
        let sender_address = self.sender.address();
        append_bytes_raw(&sender_address, &mut bytes, &mut bytes_index)?;
        let sender_balance_bytes = u128_to_be_bytes(self.updated_sender_balance());
        append_bytes_raw(&sender_balance_bytes, &mut bytes, &mut bytes_index)?;
        let receiver_address = self.receiver.address();
        append_bytes_raw(&receiver_address, &mut bytes, &mut bytes_index)?;
        let receiver_balance_bytes = u128_to_be_bytes(self.updated_receiver_balance());
        append_bytes_raw(&receiver_balance_bytes, &mut bytes, &mut bytes_index)?;
        assert(bytes@ =~= transaction_body(self@) + zeros(8));
        let transaction_id = Self::final_id(&bytes);
        append_bytes_raw(&transaction_id, &mut bytes, &mut bytes_index)?;
        assert(bytes@ =~= transaction_encoding(self@));
        proof {
            lemma_transaction_bytes_roundtrip(self@);
        }
        Ok(bytes)
    }

    fn from_raw_bytes(bytes: &[u8]) -> (r: Result<Self, Self::Error>) {
        if bytes.len() < TRANSACTION_BYTES_LENGTH {
            return Err(
                count_message_text(
                    "Transaction::from_raw_bytes(): not enough bytes",
                    TRANSACTION_BYTES_LENGTH,
                    bytes.len(),
                ),
            );
        }
        let transaction_hash = &bytes[0..64];
        let timestamp = i64_from_be_bytes(&bytes[64..72]);
        let amount = u128_from_be_bytes(&bytes[72..88]);
        let sender_address: WalletAddress = copy_bytes_array(bytes, 88);
        let sender_balance_before = u128_from_be_bytes(&bytes[120..136]) + amount;
        let receiver_address: WalletAddress = copy_bytes_array(bytes, 136);
        let receiver_balance_before = u128_from_be_bytes(&bytes[168..184]) - amount;
        let transaction_id = &bytes[184..192];
        let sender = PublicWallet::new(sender_balance_before, sender_address);
        let receiver = PublicWallet::new(receiver_balance_before, receiver_address);
        let transaction = Self { timestamp, amount, sender, receiver };
        assert(transaction@ == transaction_decoding(bytes@));
        let computed_hash = transaction.hash();
        if !bytes_equal(&computed_hash, transaction_hash) {
            return Err("Transaction::from_bytes(): transaction hash does not match".to_string());
        }
        let mut bytes_without_id: Vec<u8> = Vec::with_capacity(TRANSACTION_BYTES_LENGTH);
        extend_bytes(&mut bytes_without_id, &bytes[0..184]);
        let zero_id: [u8; 8] = [0, 0, 0, 0, 0, 0, 0, 0];
        assert(zero_id@ =~= zeros(8));
        extend_bytes(&mut bytes_without_id, &zero_id);
        let computed_id = Self::final_id(bytes_without_id.as_slice());
        if !bytes_equal(&computed_id, transaction_id) {
            return Err("Transaction::from_bytes(): transaction ID does not match".to_string());
        }
        Ok(transaction)
    }
}

/// Decoding the bytes of a transaction gives it back, where the digests in them are 64 bytes
/// long.
proof fn lemma_transaction_bytes_roundtrip(t: TransactionModel)
    requires
        transaction_encodable(t),
        t.sender.address.len() == 32,
        t.receiver.address.len() == 32,
        transaction_hash(t).len() == TRANSACTION_HASH_BYTES_LENGTH,
        sha512(transaction_body(t) + zeros(8)).len() == TRANSACTION_HASH_BYTES_LENGTH,
    ensures
        transaction_encoding(t).len() == TRANSACTION_BYTES_LENGTH,
        transaction_bytes_decodable(transaction_encoding(t)),
        transaction_bytes_check(transaction_encoding(t)),
        transaction_decoding(transaction_encoding(t)) == t,
{
    let e = transaction_encoding(t);
    let sender_balance = (t.sender.balance - t.amount) as u128;
    let receiver_balance = (t.receiver.balance + t.amount) as u128;
    lemma_be_i64_roundtrip(t.timestamp);
    lemma_be_u128_roundtrip(t.amount);
    lemma_be_u128_roundtrip(sender_balance);
    lemma_be_u128_roundtrip(receiver_balance);
    assert(e.subrange(0, 64) =~= transaction_hash(t));
    assert(e.subrange(64, 72) =~= be_i64(t.timestamp));
    assert(e.subrange(72, 88) =~= be_u128(t.amount));
    assert(e.subrange(88, 120) =~= t.sender.address);
    assert(e.subrange(120, 136) =~= be_u128(sender_balance));
    assert(e.subrange(136, 168) =~= t.receiver.address);
    assert(e.subrange(168, 184) =~= be_u128(receiver_balance));
    assert(e.subrange(0, 184) =~= transaction_body(t));
    assert(e.subrange(184, 192) =~= transaction_id(transaction_body(t)));
    assert(transaction_decoding(e) == t);
}

/// A transaction and the sender's signature of its bytes.
#[derive(PartialEq, Debug)]
pub struct SignedTransaction {
    transaction: Transaction,
    signature: Signature,
}

impl View for SignedTransaction {
    type V = SignedTransactionModel;

    closed spec fn view(&self) -> SignedTransactionModel {
        SignedTransactionModel { transaction: self.transaction@, signature: self.signature@ }
    }
}

/// The bytes of a signed transaction: the transaction, then the signature.
pub open spec fn signed_transaction_encoding(s: SignedTransactionModel) -> Seq<u8> {
    transaction_encoding(s.transaction) + s.signature
}

/// Whether the signature of a signed transaction verifies under the sender's address.
pub open spec fn signature_verifies(s: SignedTransactionModel) -> bool {
    ed25519_verifies(s.transaction.sender.address, s.signature, transaction_encoding(s.transaction))
}

/// A signed transaction is accepted exactly when its signature verifies under the sender's
/// address: a signature that does not verify there is refused, whoever made it.
pub proof fn lemma_only_the_sender_signs(s: SignedTransactionModel)
    ensures
        signature_verifies(s) == ed25519_verifies(
            s.transaction.sender.address,
            s.signature,
            transaction_encoding(s.transaction),
        ),
{
}

impl SignedTransaction {
    /// A transaction with its signature.
    pub(crate) fn new(transaction: Transaction, signature: Signature) -> (r: Self)
        ensures
            r@ == (SignedTransactionModel { transaction: transaction@, signature: signature@ }),
    {
        Self { transaction, signature }
    }

    /// The amount.
    pub fn amount(&self) -> (r: Amount)
        ensures
            r == self@.transaction.amount,
    {
        self.transaction.amount()
    }

    /// The address of the sender.
    pub fn sender_address(&self) -> (r: WalletAddress)
        ensures
            r@ == self@.transaction.sender.address,
    {
        self.transaction.sender_address()
    }

    /// The balance of the sender before the transaction.
    pub fn sender_balance(&self) -> (r: WalletBalance)
        ensures
            r == self@.transaction.sender.balance,
    {
        self.transaction.sender_balance()
    }

    /// The address of the receiver.
    pub fn receiver_address(&self) -> (r: WalletAddress)
        ensures
            r@ == self@.transaction.receiver.address,
    {
        self.transaction.receiver_address()
    }

    /// The balance of the receiver before the transaction.
    pub fn receiver_balance(&self) -> (r: WalletBalance)
        ensures
            r == self@.transaction.receiver.balance,
    {
        self.transaction.receiver_balance()
    }

    /// Whether the signature verifies under the sender's address; fails where the address is
    /// not a public key. A transaction signed with the sender's key pair verifies.
    pub fn verify(&self) -> (r: Result<bool, String>)
        requires
            transaction_encodable(self@.transaction),
        ensures
            r is Err <==> !ed25519_key_decodes(self@.transaction.sender.address),
            r matches Err(e) ==> e@ == verify_error(),
            r matches Ok(valid) ==> valid == signature_verifies(self@),
            r matches Ok(valid) ==> valid == ed25519_verifies(
                self@.transaction.sender.address,
                self@.signature,
                transaction_encoding(self@.transaction),
            ),
            forall|secret: Seq<u8>|
                #![trigger ed25519_signature(secret, transaction_encoding(self@.transaction))]
                secret.len() == 32 && ed25519_public_key(secret) == self@.transaction.sender.address
                    && ed25519_signature(secret, transaction_encoding(self@.transaction))
                    == self@.signature ==> r == Ok::<bool, String>(true),
    {
        let public_key = self.transaction.sender.address();
        if !public_key_is_valid(&public_key) {
            return Err("SignedTransaction::verify(): failed to convert public key".to_string());
        }
        let transaction_bytes = self.transaction.as_boxed_bytes()?;
        Ok(verify_public(&public_key, &self.signature, &transaction_bytes))
    }
}

impl BytesConversion for SignedTransaction {
    type Error = String;

    open spec fn encodable(&self) -> bool {
        transaction_encodable(self@.transaction)
    }

    open spec fn encoding(&self) -> Seq<u8> {
        signed_transaction_encoding(self@)
    }

    open spec fn decodable(bytes: Seq<u8>) -> bool {
        bytes.len() < SIGNED_TRANSACTION_BYTES_LENGTH || transaction_bytes_decodable(
            bytes.subrange(0, 192),
        )
    }

    open spec fn decodes_to(bytes: Seq<u8>, r: Result<Self, Self::Error>) -> bool {
        let t = transaction_decoding(bytes.subrange(0, 192));
        let signed = SignedTransactionModel { transaction: t, signature: bytes.subrange(192, 256) };
        if bytes.len() < SIGNED_TRANSACTION_BYTES_LENGTH || !transaction_bytes_check(
            bytes.subrange(0, 192),
        ) || !ed25519_key_decodes(t.sender.address) || !signature_verifies(signed) {
            r matches Err(e) && e@ == signed_transaction_error(bytes)
        } else {
            r matches Ok(s) && s@ == signed
        }
    }

    fn as_boxed_bytes(&self) -> (r: Result<Box<[u8]>, Self::Error>)
        ensures
            r matches Ok(b) && b@.len() == SIGNED_TRANSACTION_BYTES_LENGTH,
            transaction_bytes_decodable(self.encoding().subrange(0, 192)),
            transaction_bytes_check(self.encoding().subrange(0, 192)),
            (SignedTransactionModel {
                transaction: transaction_decoding(self.encoding().subrange(0, 192)),
                signature: self.encoding().subrange(192, 256),
            }) == self@,
    {
        let mut bytes = boxed_bytes(SIGNED_TRANSACTION_BYTES_LENGTH);
        let mut bytes_index: usize = 0;
        let transaction_bytes = self.transaction.as_boxed_bytes()?;
        append_bytes_raw(&transaction_bytes, &mut bytes, &mut bytes_index)?;
        append_bytes_raw(&self.signature, &mut bytes, &mut bytes_index)?;
        assert(bytes@ =~= signed_transaction_encoding(self@));
        assert(bytes@.subrange(0, 192) =~= transaction_encoding(self@.transaction));
        assert(bytes@.subrange(192, 256) =~= self@.signature);
        Ok(bytes)
    }

    fn from_raw_bytes(bytes: &[u8]) -> (r: Result<Self, Self::Error>)
        ensures
            bytes@.len() >= SIGNED_TRANSACTION_BYTES_LENGTH && transaction_bytes_check(
                bytes@.subrange(0, 192),
            ) ==> forall|secret: Seq<u8>|
                #![trigger ed25519_signature(secret, transaction_encoding(transaction_decoding(bytes@.subrange(0, 192))))]
                secret.len() == 32 && ed25519_public_key(secret) == transaction_decoding(
                    bytes@.subrange(0, 192),
                ).sender.address && ed25519_signature(
                    secret,
                    transaction_encoding(transaction_decoding(bytes@.subrange(0, 192))),
                ) == bytes@.subrange(192, 256) ==> r is Ok,
            r matches Ok(signed) ==> ed25519_verifies(
                signed@.transaction.sender.address,
                signed@.signature,
                transaction_encoding(signed@.transaction),
            ),
    {
        if bytes.len() < SIGNED_TRANSACTION_BYTES_LENGTH {
            return Err(
                count_message_text(
                    "SignedTransaction::from_raw_bytes(): not enough bytes",
                    SIGNED_TRANSACTION_BYTES_LENGTH,
                    bytes.len(),
                ),
            );
        }
        let transaction_bytes = &bytes[0..TRANSACTION_BYTES_LENGTH];
        let transaction = match Transaction::from_raw_bytes(transaction_bytes) {
            Ok(transaction) => transaction,
            Err(e) => {
                return Err(
                    e.concat("\nSignedTransaction::from_raw_bytes(): failed to convert transaction"),
                );
            },
        };
        let signature: Signature = copy_bytes_array(bytes, TRANSACTION_BYTES_LENGTH);
        let signed_transaction = Self { transaction, signature };
        match signed_transaction.verify() {
            Ok(true) => {},
            Ok(false) => {
                return Err("SignedTransaction::from_raw_bytes(): failed to verify".to_string());
            },
            Err(e) => {
                return Err(e.concat("\nSignedTransaction::from_raw_bytes(): failed to verify"));
            },
        }
        Ok(signed_transaction)
    }
}

} // verus!
