//! Private wallets, which hold a key pair and sign transactions, and public wallets, which
//! stand for a wallet by its address.

use vstd::prelude::*;

use crate::bytes_utils::{append_bytes_raw, boxed_bytes, bytes_equal, copy_bytes_array, BytesConversion};
use crate::encoding::{
    be_u128, be_u128_value, lemma_be_u128_roundtrip,
    u128_from_be_bytes, u128_to_be_bytes,
};
use crate::primitives::{ed25519_public_key, ed25519_signature};
use crate::text::{count_message, count_message_text};
use crate::wallet::keys::{generate_keys_pair, public_key, sign, KeysPair, PUBLIC_KEY_LENGTH, SECRET_KEY_LENGTH};
use crate::wallet::transaction::{
    transaction_encodable, transaction_encoding, Amount, SignedTransaction, Transaction,
    UncommittedTransaction,
};

verus! {

/// The key pair of a private wallet.
pub type WalletKeys = KeysPair;

/// The public key of a wallet, which is its address.
pub type WalletPublicKey = [u8; PUBLIC_KEY_LENGTH];

/// The balance of a wallet.
pub type WalletBalance = Amount;

/// The address of a wallet: its public key.
pub type WalletAddress = [u8; PUBLIC_KEY_LENGTH];

/// The length of an encoded balance.
pub const WALLET_BALANCE_BYTES_LENGTH: usize = 16;

/// The length of an encoded public wallet: balance, then address.
pub const PUBLIC_WALLET_BYTES_LENGTH: usize = 48;

/// The value of a [`PublicWallet`].
pub ghost struct PublicWalletModel {
    pub balance: u128,
    pub address: Seq<u8>,
}

/// The value of a [`PrivateWallet`].
pub ghost struct PrivateWalletModel {
    pub balance: u128,
    pub keys: Seq<u8>,
}

/// The address of a private wallet: the public key of its key pair.
pub open spec fn private_address(w: PrivateWalletModel) -> Seq<u8> {
    ed25519_public_key(w.keys)
}

/// The public wallet that stands for a private wallet.
pub open spec fn public_view_of(w: PrivateWalletModel) -> PublicWalletModel {
    PublicWalletModel { balance: w.balance, address: private_address(w) }
}

/// The bytes of a public wallet: big-endian balance, then address.
pub open spec fn public_wallet_bytes(w: PublicWalletModel) -> Seq<u8> {
    be_u128(w.balance) + w.address
}

/// The public wallet that the first [`PUBLIC_WALLET_BYTES_LENGTH`] bytes encode.
pub open spec fn public_wallet_decoding(bytes: Seq<u8>) -> PublicWalletModel {
    PublicWalletModel { balance: be_u128_value(bytes), address: bytes.subrange(16, 48) }
}

/// A wallet: a balance and an address.
pub trait Wallet {
    /// The balance of the wallet.
    spec fn balance_spec(&self) -> WalletBalance;

    /// The address of the wallet.
    spec fn address_spec(&self) -> Seq<u8>;

    /// The balance of the wallet.
    fn balance(&self) -> (r: WalletBalance)
        ensures
            r == self.balance_spec(),
    ;

    /// The address of the wallet.
    fn address(&self) -> (r: WalletAddress)
        ensures
            r@ == self.address_spec(),
    ;
}

/// A wallet that holds its key pair, and so can sign.
pub struct PrivateWallet {
    balance: WalletBalance,
    keys_pair: WalletKeys,
}

impl View for PrivateWallet {
    type V = PrivateWalletModel;

    closed spec fn view(&self) -> PrivateWalletModel {
        PrivateWalletModel { balance: self.balance, keys: self.keys_pair@ }
    }
}

/// The key pair of every private wallet is its 32-byte secret key.
pub broadcast proof fn lemma_private_wallet_keys_len(w: PrivateWallet)
    ensures
        #[trigger] w@.keys.len() == SECRET_KEY_LENGTH,
{
}

impl PrivateWallet {
    /// A wallet with a new random key pair and no balance.
    pub fn generate() -> (r: Self)
        ensures
            r@.balance == 0,
            r@.keys.len() == 32,
    {
        Self { balance: 0, keys_pair: generate_keys_pair() }
    }

    /// A new wallet, with no balance, and the transaction of 0 from the wallet to itself that
    /// it signs.
    pub fn new() -> (r: (Self, SignedTransaction))
        ensures
            r.0@.balance == 0,
            r.1@.transaction.amount == 0,
            r.1@.transaction.sender == public_view_of(r.0@),
            r.1@.transaction.receiver == public_view_of(r.0@),
            r.1@.signature == ed25519_signature(r.0@.keys, transaction_encoding(r.1@.transaction)),
    {
        let wallet = Self::generate();
        let transaction = Transaction::new(0, wallet.to_public(), wallet.to_public());
        let signed = match transaction.into_signed(&wallet.keys_pair) {
            Ok(signed) => signed,
            Err(_) => vstd::pervasive::unreached(),
        };
        (wallet, signed)
    }

    /// The key pair of the wallet.
    pub fn keys_pair(&self) -> (r: &WalletKeys)
        ensures
            r@ == self@.keys,
    {
        &self.keys_pair
    }

    /// Prepares a transaction of `amount` from this wallet to `receiver`; fails where the
    /// amount is zero or above the balance, or the receiver is this wallet.
    pub fn make_transaction<'a>(&'a mut self, amount: Amount, receiver: &'a mut PublicWallet) -> (r:
        Result<UncommittedTransaction<'a>, String>)
        ensures
            r is Ok <==> (amount != 0 && amount <= old(self)@.balance && public_view_of(old(self)@)
                != old(receiver)@),
            r matches Ok(u) ==> {
                &&& u.amount == amount
                &&& *u.sender == *old(self)
                &&& *final(u.sender) == *final(self)
                &&& *u.receiver == *old(receiver)
                &&& *final(u.receiver) == *final(receiver)
            },
            r is Err ==> *final(self) == *old(self) && *final(receiver) == *old(receiver),
            r matches Err(e) ==> e@ == (if amount == 0 {
                "PrivateWallet::make_transaction(): invalid amount: amount is zero"@
            } else if amount > old(self)@.balance {
                "PrivateWallet::make_transaction(): invalid amount: amount is higher than balance"@
            } else {
                "PrivateWallet::make_transaction(): invalid transaction: receiver is same as sender"@
            }),
    {
        if amount == 0 {
            return Err(
                "PrivateWallet::make_transaction(): invalid amount: amount is zero".to_string(),
            );
        } else if amount > self.balance {
            return Err(
                "PrivateWallet::make_transaction(): invalid amount: amount is higher than balance".to_string(),
            );
        }
        if self.to_public().equals(receiver) {
            return Err(
                "PrivateWallet::make_transaction(): invalid transaction: receiver is same as sender".to_string(),
            );
        }
        Ok(UncommittedTransaction::new(amount, self, receiver))
    }

    /// Checks that a transaction can be sent from this wallet: its amount is within the
    /// balance, and its sender is this wallet.
    pub(crate) fn check_transaction(&self, transaction: &Transaction) -> (r: Result<(), String>)
        ensures
            r is Ok <==> (transaction@.amount <= self@.balance && transaction@.sender
                == public_view_of(self@)),
            r matches Err(e) ==> e@ == (if transaction@.amount > self@.balance {
                "PrivateWallet::check_transaction(): invalid transaction: transaction amount is higher than wallet balance"@
            } else if transaction@.sender.balance != self@.balance {
                "PrivateWallet::check_transaction(): invalid transaction: sender balance does not match wallet balance"@
            } else {
                "PrivateWallet::check_transaction(): invalid transaction: sender address does not match wallet address"@
            }),
    {
        let transaction_amount = transaction.amount();
        if self.balance < transaction_amount {
            return Err(
                "PrivateWallet::check_transaction(): invalid transaction: transaction amount is higher than wallet balance".to_string(),
            );
        } else if transaction.sender_balance() != self.balance {
            return Err(
                "PrivateWallet::check_transaction(): invalid transaction: sender balance does not match wallet balance".to_string(),
            );
        }
        let sender_address = transaction.sender_address();
        let address = self.address();
        if !bytes_equal(&sender_address, &address) {
            return Err(
                "PrivateWallet::check_transaction(): invalid transaction: sender address does not match wallet address".to_string(),
            );
        }
        Ok(())
    }

    /// Signs the transaction and takes its amount from the balance.
    pub(crate) fn commit_transaction(&mut self, transaction: Transaction) -> (r: Result<SignedTransaction, String>)
        requires
            transaction_encodable(transaction@),
            transaction@.amount <= old(self)@.balance,
        ensures
            r matches Ok(signed) && signed@.transaction == transaction@ && signed@.signature
                == ed25519_signature(old(self)@.keys, transaction_encoding(transaction@)),
            final(self)@ == (PrivateWalletModel {
                balance: (old(self)@.balance - transaction@.amount) as u128,
                keys: old(self)@.keys,
            }),
    {
        let transaction_amount = transaction.amount();
        let transaction_bytes = transaction.as_boxed_bytes()?;
        let signature = sign(&self.keys_pair, &transaction_bytes);
        let signed_transaction = SignedTransaction::new(transaction, signature);
        self.balance = self.balance - transaction_amount;
        Ok(signed_transaction)
    }

    /// The public wallet that stands for this wallet.
    pub fn to_public(&self) -> (r: PublicWallet)
        ensures
            r@ == public_view_of(self@),
    {
        PublicWallet::new(self.balance, self.address())
    }

    /// The wallet with its balance set to `balance`.
    pub fn with_balance(self, balance: WalletBalance) -> (r: Self)
        ensures
            r@ == (PrivateWalletModel { balance, keys: self@.keys }),
    {
        Self { balance, keys_pair: self.keys_pair }
    }

    /// The wallet with its key pair replaced by `keys_pair`.
    pub fn with_keys(self, keys_pair: WalletKeys) -> (r: Self)
        ensures
            r@ == (PrivateWalletModel { balance: self@.balance, keys: keys_pair@ }),
    {
        Self { balance: self.balance, keys_pair }
    }
}

impl Wallet for PrivateWallet {
    open spec fn balance_spec(&self) -> WalletBalance {
        self@.balance
    }

    open spec fn address_spec(&self) -> Seq<u8> {
        private_address(self@)
    }

    fn balance(&self) -> (r: WalletBalance) {
        self.balance
    }

    fn address(&self) -> (r: WalletAddress) {
        public_key(&self.keys_pair)
    }
}

/// A wallet seen from outside: its balance and its address.
#[derive(Clone, Copy, PartialEq, Debug)]
pub struct PublicWallet {
    balance: WalletBalance,
    address: WalletAddress,
}

impl View for PublicWallet {
    type V = PublicWalletModel;

    closed spec fn view(&self) -> PublicWalletModel {
        PublicWalletModel { balance: self.balance, address: self.address@ }
    }
}

/// The address of every public wallet is 32 bytes long.
pub broadcast proof fn lemma_public_wallet_address_len(w: PublicWallet)
    ensures
        #[trigger] w@.address.len() == PUBLIC_KEY_LENGTH,
{
}

impl PublicWallet {
    /// A public wallet with the given balance and address.
    pub fn new(balance: WalletBalance, address: WalletAddress) -> (r: Self)
        ensures
            r@ == (PublicWalletModel { balance, address: address@ }),
    {
        Self { balance, address }
    }

    /// Checks that a transaction can be received by this wallet: its receiver is this wallet.
    pub(crate) fn check_transaction(&self, transaction: &Transaction) -> (r: Result<(), String>)
        ensures
            r is Ok <==> transaction@.receiver == self@,
            r matches Err(e) ==> e@ == (if transaction@.receiver.balance != self@.balance {
                "PublicWallet::commit_transaction(): invalid transaction: receiver balance does not match wallet balance"@
            } else {
                "PublicWallet::commit_transaction(): invalid transaction: receiver address does not match wallet address"@
            }),
    {
        if transaction.receiver_balance() != self.balance {
            return Err(
                "PublicWallet::commit_transaction(): invalid transaction: receiver balance does not match wallet balance".to_string(),
            );
        }
        let receiver_address = transaction.receiver_address();
        if !bytes_equal(&receiver_address, &self.address) {
            return Err(
                "PublicWallet::commit_transaction(): invalid transaction: receiver address does not match wallet address".to_string(),
            );
        }
        Ok(())
    }

    /// Adds the amount of a received transaction to the balance.
    pub(crate) fn commit_transaction(&mut self, transaction_amount: Amount)
        requires
            old(self)@.balance + transaction_amount <= u128::MAX,
        ensures
            final(self)@ == (PublicWalletModel {
                balance: (old(self)@.balance + transaction_amount) as u128,
                address: old(self)@.address,
            }),
    {
        self.balance = self.balance + transaction_amount;
    }

    /// The bytes of the wallet: big-endian balance, then address.
    pub(crate) fn to_bytes_array(&self) -> (r: [u8; PUBLIC_WALLET_BYTES_LENGTH])
        ensures
            r@ == public_wallet_bytes(self@),
    {
        let mut bytes: [u8; PUBLIC_WALLET_BYTES_LENGTH] = [0u8; PUBLIC_WALLET_BYTES_LENGTH];
        let balance_bytes = u128_to_be_bytes(self.balance);
        let mut i: usize = 0;
        while i < WALLET_BALANCE_BYTES_LENGTH
            invariant
                i <= WALLET_BALANCE_BYTES_LENGTH,
                bytes@.len() == PUBLIC_WALLET_BYTES_LENGTH,
                balance_bytes@ == be_u128(self.balance),
                forall|k: int| 0 <= k < i ==> bytes@[k] == balance_bytes@[k],
            decreases WALLET_BALANCE_BYTES_LENGTH - i,
        {
            bytes[i] = balance_bytes[i];
            i = i + 1;
        }
        let address = self.address();
        let mut j: usize = 0;
        while j < PUBLIC_KEY_LENGTH
            invariant
                j <= PUBLIC_KEY_LENGTH,
                bytes@.len() == PUBLIC_WALLET_BYTES_LENGTH,
                address@ == self@.address,
                balance_bytes@ == be_u128(self.balance),
                forall|k: int| 0 <= k < WALLET_BALANCE_BYTES_LENGTH ==> bytes@[k] == balance_bytes@[k],
                forall|k: int| 0 <= k < j ==> bytes@[WALLET_BALANCE_BYTES_LENGTH + k] == address@[k],
            decreases PUBLIC_KEY_LENGTH - j,
        {
            bytes[WALLET_BALANCE_BYTES_LENGTH + j] = address[j];
            j = j + 1;
        }
        assert(bytes@ =~= public_wallet_bytes(self@));
        bytes
    }

    /// Whether two public wallets are the same wallet.
    pub fn equals(&self, other: &PublicWallet) -> (r: bool)
        ensures
            r == (self@ == other@),
    {
        self.balance == other.balance && bytes_equal(&self.address, &other.address)
    }
}

impl Wallet for PublicWallet {
    open spec fn balance_spec(&self) -> WalletBalance {
        self@.balance
    }

    open spec fn address_spec(&self) -> Seq<u8> {
        self@.address
    }

    fn balance(&self) -> (r: WalletBalance) {
        self.balance
    }

    fn address(&self) -> (r: WalletAddress) {
        let r = self.address;
        assert(r@ == self@.address);
        assert(r@ == self.address_spec());
        r
    }
}

impl BytesConversion for PublicWallet {
    type Error = String;

    open spec fn encodable(&self) -> bool {
        true
    }

    open spec fn encoding(&self) -> Seq<u8> {
        public_wallet_bytes(self@)
    }

    open spec fn decodable(bytes: Seq<u8>) -> bool {
        true
    }

    open spec fn decodes_to(bytes: Seq<u8>, r: Result<Self, Self::Error>) -> bool {
        if bytes.len() < PUBLIC_WALLET_BYTES_LENGTH {
            r matches Err(e) && e@ == count_message(
                "PublicWallet::from_raw_bytes(): not enough bytes"@,
                PUBLIC_WALLET_BYTES_LENGTH as nat,
                bytes.len(),
            )
        } else {
            r matches Ok(w) && w@ == public_wallet_decoding(bytes)
        }
    }

    fn as_boxed_bytes(&self) -> (r: Result<Box<[u8]>, Self::Error>) {
        let mut bytes = boxed_bytes(PUBLIC_WALLET_BYTES_LENGTH);
        let mut bytes_index: usize = 0;
        let balance_bytes = u128_to_be_bytes(self.balance);
        append_bytes_raw(&balance_bytes, &mut bytes, &mut bytes_index)?;
        let address = self.address();
        append_bytes_raw(&address, &mut bytes, &mut bytes_index)?;
        assert(bytes@ =~= public_wallet_bytes(self@));
        Ok(bytes)
    }

    fn from_raw_bytes(bytes: &[u8]) -> (r: Result<Self, Self::Error>) {
        if bytes.len() < PUBLIC_WALLET_BYTES_LENGTH {
            return Err(
                count_message_text(
                    "PublicWallet::from_raw_bytes(): not enough bytes",
                    PUBLIC_WALLET_BYTES_LENGTH,
                    bytes.len(),
                ),
            );
        }
        let balance = u128_from_be_bytes(bytes);
        let address: WalletAddress = copy_bytes_array(bytes, WALLET_BALANCE_BYTES_LENGTH);
        Ok(Self::new(balance, address))
    }
}

/// Decoding the bytes of a public wallet gives the wallet back.
pub proof fn lemma_public_wallet_bytes_roundtrip(w: PublicWallet)
    ensures
        public_wallet_bytes(w@).len() == PUBLIC_WALLET_BYTES_LENGTH,
        public_wallet_decoding(public_wallet_bytes(w@)) == w@,
{
    lemma_be_u128_roundtrip(w@.balance);
    let e = public_wallet_bytes(w@);
    assert(be_u128_value(e) == be_u128_value(e.subrange(0, 16))) by {
        assert(e.subrange(0, 16) =~= be_u128(w@.balance));
        assert(e.subrange(0, 16).subrange(8, 16) =~= e.subrange(8, 16));
    }
    assert(e.subrange(16, 48) =~= w@.address);
}

} // verus!
