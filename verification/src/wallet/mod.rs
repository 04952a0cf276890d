//! Wallets and the signed transactions between them.

pub mod keys;
pub mod transaction;
pub mod wallet;

pub use transaction::{SignedTransaction, Transaction, UncommittedTransaction};
pub use wallet::{
    PrivateWallet, PublicWallet, Wallet, WalletAddress, WalletBalance, WalletKeys, WalletPublicKey,
};
