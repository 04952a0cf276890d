use blockchain::bytes_utils::BytesConversion;
use blockchain::wallet::keys::generate_keys_pair;
use blockchain::wallet::{PrivateWallet, PublicWallet, SignedTransaction, Transaction, Wallet, WalletBalance, WalletKeys};

fn new_private_wallet(balance: WalletBalance) -> PrivateWallet {
    let (wallet, _) = PrivateWallet::new();
    wallet.with_balance(balance)
}

fn custom_private_wallet(balance: WalletBalance, keys_pair: WalletKeys) -> PrivateWallet {
    let (wallet, _) = PrivateWallet::new();
    wallet.with_balance(balance).with_keys(keys_pair)
}

fn new_public_wallet(balance: WalletBalance) -> PublicWallet {
    new_private_wallet(balance).to_public()
}

fn custom_public_wallet(balance: WalletBalance, keys_pair: WalletKeys) -> PublicWallet {
    custom_private_wallet(balance, keys_pair).to_public()
}

#[test]
fn transaction_to_bytes() {
    let amount = 50;
    let sender = new_public_wallet(100);
    let receiver = new_public_wallet(100);
    let transaction = Transaction::new(amount, sender, receiver);

    assert!(transaction.as_boxed_bytes().is_ok());
}

#[test]
fn transaction_from_bytes() {
    let amount = 50;
    let sender = new_public_wallet(100);
    let receiver = new_public_wallet(100);
    let transaction = Transaction::new(amount, sender, receiver);
    let bytes = transaction.as_boxed_bytes().unwrap();

    let recovered_transaction = Transaction::from_raw_bytes(&bytes).unwrap();
    assert!(recovered_transaction == transaction);
}

#[test]
fn create_signed_transaction() {
    let keys_pair = generate_keys_pair();
    let sender = custom_public_wallet(100, keys_pair.clone());
    let receiver = new_public_wallet(100);
    let transaction = Transaction::new(50, sender, receiver);

    assert!(transaction.into_signed(&keys_pair).is_ok());
}

#[test]
fn verify_signed_transaction() {
    let keys_pair = generate_keys_pair();
    let sender = custom_public_wallet(100, keys_pair.clone());
    let receiver = new_public_wallet(100);
    let transaction = Transaction::new(50, sender, receiver);
    let signed_transaction = transaction.into_signed(&keys_pair).unwrap();

    assert!(signed_transaction.verify().is_ok());
    assert!(signed_transaction.verify().unwrap());
}

#[test]
fn signed_transaction_to_bytes() {
    let keys_pair = generate_keys_pair();
    let sender = custom_public_wallet(100, keys_pair.clone());
    let receiver = new_public_wallet(100);
    let transaction = Transaction::new(50, sender, receiver);
    let signed_transaction = transaction.into_signed(&keys_pair).unwrap();

    assert!(signed_transaction.as_boxed_bytes().is_ok());
}

#[test]
fn signed_transaction_from_bytes() {
    let keys_pair = generate_keys_pair();
    let sender = custom_public_wallet(100, keys_pair.clone());
    let receiver = new_public_wallet(100);
    let transaction = Transaction::new(50, sender, receiver);
    let signed_transaction = transaction.into_signed(&keys_pair).unwrap();
    let bytes = signed_transaction.as_boxed_bytes().unwrap();

    let recovered_signed_transaction = SignedTransaction::from_raw_bytes(&bytes).unwrap();
    assert!(recovered_signed_transaction == signed_transaction);
}

#[test]
fn transaction_bytes_hold_new_balances() {
    let sender = new_public_wallet(100);
    let receiver = new_public_wallet(7);
    let transaction = Transaction::new(30, sender, receiver);
    let bytes = transaction.as_boxed_bytes().unwrap();
    assert_eq!(bytes.len(), 192);
    assert_eq!(&bytes[72..88], &30u128.to_be_bytes());
    assert_eq!(&bytes[88..120], &sender.address()[..]);
    assert_eq!(&bytes[120..136], &70u128.to_be_bytes());
    assert_eq!(&bytes[168..184], &37u128.to_be_bytes());
}

#[test]
fn tampered_transaction_bytes_are_refused() {
    let transaction = Transaction::new(50, new_public_wallet(100), new_public_wallet(100));
    let bytes = transaction.as_boxed_bytes().unwrap().into_vec();
    let mut tampered_amount = bytes.clone();
    tampered_amount[87] ^= 1;
    assert!(Transaction::from_raw_bytes(&tampered_amount).is_err());
    let mut tampered_id = bytes.clone();
    tampered_id[191] ^= 1;
    assert!(Transaction::from_raw_bytes(&tampered_id).is_err());
    assert!(Transaction::from_raw_bytes(&bytes[..191]).is_err());
}

#[test]
fn transaction_signed_by_another_key_is_refused() {
    let sender = new_public_wallet(100);
    let transaction = Transaction::new(50, sender, new_public_wallet(100));
    let signed = transaction.into_signed(&generate_keys_pair()).unwrap();
    assert_eq!(signed.verify(), Ok(false));
    let bytes = signed.as_boxed_bytes().unwrap();
    assert!(SignedTransaction::from_raw_bytes(&bytes).is_err());
}
