use blockchain::bytes_utils::BytesConversion;
use blockchain::wallet::{PrivateWallet, PublicWallet, Wallet, WalletBalance};

fn new_private_wallet(balance: WalletBalance) -> PrivateWallet {
    let (wallet, _) = PrivateWallet::new();
    wallet.with_balance(balance)
}

fn new_public_wallet(balance: WalletBalance) -> PublicWallet {
    new_private_wallet(balance).to_public()
}

#[test]
fn create_private_wallet() {
    let _ = PrivateWallet::generate();
    let (_, _) = PrivateWallet::new();
}

#[test]
fn create_public_wallet() {
    let _ = PublicWallet::new(0, [0; 32]);
    let _ = PrivateWallet::generate().to_public();
}

#[test]
fn make_valid_transaction() {
    let mut sender_private_wallet = new_private_wallet(100);
    let mut receiver_public_wallet = new_public_wallet(100);

    assert!(sender_private_wallet.make_transaction(1, &mut receiver_public_wallet).is_ok());
    assert!(sender_private_wallet.make_transaction(100, &mut receiver_public_wallet).is_ok());
}

#[test]
fn make_invalid_transactions() {
    let mut sender_private_wallet = new_private_wallet(100);
    let mut receiver_public_wallet = new_public_wallet(100);

    assert!(sender_private_wallet.make_transaction(0, &mut receiver_public_wallet).is_err());
    assert!(sender_private_wallet.make_transaction(101, &mut receiver_public_wallet).is_err());
}

#[test]
fn transaction_to_self_is_refused() {
    let mut wallet = new_private_wallet(100);
    let mut own = wallet.to_public();
    assert!(wallet.make_transaction(10, &mut own).is_err());
}

#[test]
fn finalized_transaction_moves_the_amount() {
    let mut sender = new_private_wallet(100);
    let mut receiver = new_public_wallet(5);
    let signed = sender.make_transaction(40, &mut receiver).unwrap().finalize().unwrap();
    assert_eq!(sender.balance(), 60);
    assert_eq!(receiver.balance(), 45);
    assert_eq!(signed.amount(), 40);
    assert_eq!(signed.sender_balance(), 100);
    assert_eq!(signed.receiver_balance(), 5);
    assert_eq!(signed.sender_address(), sender.address());
    assert_eq!(signed.receiver_address(), receiver.address());
    assert_eq!(signed.verify(), Ok(true));
}

#[test]
fn uncommitted_transaction_reports_final_balances() {
    let mut sender = new_private_wallet(100);
    let mut receiver = new_public_wallet(5);
    let uncommitted = sender.make_transaction(40, &mut receiver).unwrap();
    assert_eq!(uncommitted.amount(), 40);
    assert_eq!(uncommitted.sender_balance(), 100);
    assert_eq!(uncommitted.final_sender_balance(), 60);
    assert_eq!(uncommitted.receiver_balance(), 5);
    assert_eq!(uncommitted.final_receiver_balance(), 45);
}

#[test]
fn new_wallet_signs_its_opening_transaction() {
    let (wallet, transaction) = PrivateWallet::new();
    assert_eq!(wallet.balance(), 0);
    assert_eq!(transaction.amount(), 0);
    assert_eq!(transaction.sender_address(), wallet.address());
    assert_eq!(transaction.receiver_address(), wallet.address());
    assert_eq!(transaction.verify(), Ok(true));
}

#[test]
fn public_wallet_bytes_conversion() {
    let wallet = PublicWallet::new(0x0102, [5; 32]);
    let bytes = wallet.as_boxed_bytes().unwrap();
    assert_eq!(bytes.len(), 48);
    assert_eq!(&bytes[14..16], &[1, 2]);
    let converted = PublicWallet::from_raw_bytes(&bytes).unwrap();
    assert!(converted == wallet);
    assert!(PublicWallet::from_raw_bytes(&bytes[..47]).is_err());
}
