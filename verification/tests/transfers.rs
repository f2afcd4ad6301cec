use wallet_ledger::keys::AccountId;
use wallet_ledger::ledger::Ledger;
use wallet_ledger::services::wallets::error::Error;
use wallet_ledger::services::wallets::repo::Wallet;
use wallet_ledger::services::wallets::repo::WalletsRepo;
use wallet_ledger::services::wallets::Settlement;
use wallet_ledger::services::wallets::TxTransfer;
use wallet_ledger::services::wallets::WalletsService;
use wallet_ledger::services::wallets::INITIAL_SUPPLY;
use wallet_ledger::services::WALLETS_SERVICE_ID;
use wallet_ledger::services::WALLETS_SERVICE_NAME;

fn key(byte: u8) -> AccountId {
    AccountId::new([byte; 32])
}

fn held(ledger: &Ledger<Wallet>, id: &AccountId) -> Option<Wallet> {
    ledger.get(id).copied()
}

fn supply(ledger: &Ledger<Wallet>) -> u128 {
    ledger.values().iter().map(|w| w.balance as u128).sum()
}

#[test]
fn it_works() {
    assert_eq!(2 + 2, 4);
}

#[test]
fn transfer_to_new_account_creates_it() {
    let a = key(1);
    let b = key(2);
    let mut ledger = Ledger::new();
    ledger.put(&a, Wallet::new(0, 100));
    let tx = TxTransfer::new(a, b, 30, 0);
    assert!(tx.verify(true));
    assert!(tx.can_execute(&ledger));
    assert_eq!(tx.execute(&mut ledger), Ok(()));
    assert_eq!(held(&ledger, &a), Some(Wallet::new(1, 70)));
    assert_eq!(held(&ledger, &b), Some(Wallet::new(1, 30)));
    assert_eq!(ledger.len(), 2);
}

#[test]
fn transfer_beyond_balance_is_refused() {
    let a = key(1);
    let b = key(2);
    let mut ledger = Ledger::new();
    ledger.put(&a, Wallet::new(0, 10));
    ledger.put(&b, Wallet::new(4, 7));
    let tx = TxTransfer::new(a, b, 50, 0);
    assert!(tx.can_execute(&ledger));
    assert_eq!(tx.execute(&mut ledger), Err(Error::InsufficientCurrencyAmount));
    assert_eq!(held(&ledger, &a), Some(Wallet::new(0, 10)));
    assert_eq!(held(&ledger, &b), Some(Wallet::new(4, 7)));
}

#[test]
fn transfer_to_oneself_is_not_verified() {
    let a = key(1);
    let tx = TxTransfer::new(a, a, 5, 0);
    assert!(!tx.verify(true));
    assert!(!tx.verify(false));
}

#[test]
fn transfer_with_bad_signature_is_not_verified() {
    let tx = TxTransfer::new(key(1), key(2), 5, 0);
    assert!(!tx.verify(false));
    assert!(tx.verify(true));
}

#[test]
fn keys_that_differ_in_the_last_byte_are_two_accounts() {
    let mut bytes = [9u8; 32];
    let a = AccountId::new(bytes);
    bytes[31] = 10;
    let b = AccountId::new(bytes);
    assert!(TxTransfer::new(a, b, 1, 0).verify(true));
}

#[test]
fn transfer_with_stale_nonce_is_refused() {
    let a = key(1);
    let b = key(2);
    let mut ledger = Ledger::new();
    ledger.put(&a, Wallet::new(5, 100));
    let tx = TxTransfer::new(a, b, 1, 3);
    assert!(tx.can_execute(&ledger));
    assert_eq!(tx.execute(&mut ledger), Err(Error::InvalidNonce));
    assert_eq!(held(&ledger, &a), Some(Wallet::new(5, 100)));
    assert_eq!(held(&ledger, &b), None);
    assert_eq!(ledger.len(), 1);
}

#[test]
fn transfer_with_future_nonce_is_refused() {
    let a = key(1);
    let b = key(2);
    let mut ledger = Ledger::new();
    ledger.put(&a, Wallet::new(5, 100));
    let tx = TxTransfer::new(a, b, 1, 6);
    assert_eq!(tx.execute(&mut ledger), Err(Error::InvalidNonce));
    assert_eq!(held(&ledger, &a), Some(Wallet::new(5, 100)));
}

#[test]
fn transfer_from_unknown_sender_is_refused() {
    let a = key(1);
    let b = key(2);
    let mut ledger = Ledger::new();
    ledger.put(&b, Wallet::new(0, 9));
    let tx = TxTransfer::new(a, b, 0, 0);
    assert_eq!(tx.execute(&mut ledger), Err(Error::InsufficientCurrencyAmount));
    assert_eq!(held(&ledger, &a), None);
    assert_eq!(held(&ledger, &b), Some(Wallet::new(0, 9)));
}

#[test]
fn nonce_is_checked_before_balance() {
    let a = key(1);
    let b = key(2);
    let mut ledger = Ledger::new();
    ledger.put(&a, Wallet::new(2, 1));
    let tx = TxTransfer::new(a, b, 50, 1);
    assert_eq!(tx.execute(&mut ledger), Err(Error::InvalidNonce));
}

#[test]
fn transfer_of_whole_balance_leaves_zero() {
    let a = key(1);
    let b = key(2);
    let mut ledger = Ledger::new();
    ledger.put(&a, Wallet::new(0, 100));
    ledger.put(&b, Wallet::new(7, 1));
    assert_eq!(TxTransfer::new(a, b, 100, 0).execute(&mut ledger), Ok(()));
    assert_eq!(held(&ledger, &a), Some(Wallet::new(1, 0)));
    assert_eq!(held(&ledger, &b), Some(Wallet::new(8, 101)));
}

#[test]
fn replay_is_refused_and_changes_nothing() {
    let a = key(1);
    let b = key(2);
    let c = key(3);
    let mut ledger = Ledger::new();
    ledger.put(&a, Wallet::new(0, 100));
    let tx = TxTransfer::new(a, b, 30, 0);
    assert_eq!(tx.execute(&mut ledger), Ok(()));
    assert_eq!(tx.execute(&mut ledger), Err(Error::InvalidNonce));
    assert_eq!(held(&ledger, &a), Some(Wallet::new(1, 70)));
    assert_eq!(held(&ledger, &b), Some(Wallet::new(1, 30)));
    assert_eq!(TxTransfer::new(b, c, 5, 1).execute(&mut ledger), Ok(()));
    assert_eq!(TxTransfer::new(a, c, 5, 1).execute(&mut ledger), Ok(()));
    assert_eq!(tx.execute(&mut ledger), Err(Error::InvalidNonce));
    assert_eq!(held(&ledger, &a), Some(Wallet::new(2, 65)));
    assert_eq!(held(&ledger, &b), Some(Wallet::new(2, 25)));
    assert_eq!(held(&ledger, &c), Some(Wallet::new(2, 10)));
}

#[test]
fn supply_is_conserved_over_a_history() {
    let a = key(1);
    let b = key(2);
    let c = key(3);
    let mut ledger = Ledger::new();
    WalletsService.initialize(&mut ledger, &a);
    assert_eq!(supply(&ledger), 1_000_000_000);
    let history = [
        TxTransfer::new(a, b, 400, 0),
        TxTransfer::new(b, c, 150, 1),
        TxTransfer::new(c, a, 1000, 1),
        TxTransfer::new(a, c, 1, 0),
        TxTransfer::new(c, b, 150, 1),
        TxTransfer::new(b, a, 400, 3),
    ];
    let expected = [
        Ok(()),
        Ok(()),
        Err(Error::InsufficientCurrencyAmount),
        Err(Error::InvalidNonce),
        Ok(()),
        Ok(()),
    ];
    for (tx, result) in history.iter().zip(expected.iter()) {
        assert!(tx.verify(true));
        assert!(tx.can_execute(&ledger));
        assert_eq!(tx.execute(&mut ledger), *result);
        assert_eq!(supply(&ledger), 1_000_000_000);
    }
    assert_eq!(held(&ledger, &a), Some(Wallet::new(2, 1_000_000_000)));
    assert_eq!(held(&ledger, &b), Some(Wallet::new(4, 0)));
    assert_eq!(held(&ledger, &c), Some(Wallet::new(2, 0)));
}

#[test]
fn same_history_gives_same_table() {
    let a = key(1);
    let b = key(2);
    let c = key(3);
    let history = [
        TxTransfer::new(a, c, 10, 0),
        TxTransfer::new(a, b, 20, 1),
        TxTransfer::new(c, b, 5, 1),
    ];
    let mut first = Ledger::new();
    let mut second = Ledger::new();
    WalletsService.initialize(&mut first, &a);
    WalletsService.initialize(&mut second, &a);
    for tx in history.iter() {
        assert_eq!(tx.execute(&mut first), tx.execute(&mut second));
    }
    assert_eq!(first.accounts(), second.accounts());
    assert_eq!(first.values(), second.values());
    assert_eq!(first.accounts(), vec![a, b, c]);
    let records: Vec<Wallet> = first.values().into_iter().copied().collect();
    assert_eq!(
        records,
        vec![Wallet::new(2, 999_999_970), Wallet::new(2, 25), Wallet::new(2, 5)]
    );
}

#[test]
fn execute_is_not_allowed_where_the_receiver_would_overflow() {
    let a = key(1);
    let b = key(2);
    let mut ledger = Ledger::new();
    ledger.put(&a, Wallet::new(0, 10));
    ledger.put(&b, Wallet::new(0, u64::MAX - 5));
    assert!(!TxTransfer::new(a, b, 6, 0).can_execute(&ledger));
    assert!(TxTransfer::new(a, b, 5, 0).can_execute(&ledger));
    assert!(TxTransfer::new(a, b, 6, 1).can_execute(&ledger));
    assert_eq!(TxTransfer::new(a, b, 5, 0).execute(&mut ledger), Ok(()));
    assert_eq!(held(&ledger, &b), Some(Wallet::new(1, u64::MAX)));
}

#[test]
fn execute_is_not_allowed_where_a_nonce_would_overflow() {
    let a = key(1);
    let b = key(2);
    let mut ledger = Ledger::new();
    ledger.put(&a, Wallet::new(u64::MAX, 10));
    assert!(!TxTransfer::new(a, b, 1, u64::MAX).can_execute(&ledger));
    ledger.put(&a, Wallet::new(3, 10));
    ledger.put(&b, Wallet::new(u64::MAX, 0));
    assert!(!TxTransfer::new(a, b, 1, 3).can_execute(&ledger));
}

#[test]
fn settle_decides_from_the_two_records() {
    let tx = TxTransfer::new(key(1), key(2), 30, 4);
    assert_eq!(
        tx.settle(Some(Wallet::new(4, 100)), None),
        Ok(Settlement { sender: Wallet::new(5, 70), receiver: Wallet::new(1, 30) })
    );
    assert_eq!(
        tx.settle(Some(Wallet::new(4, 30)), Some(Wallet::new(9, 12))),
        Ok(Settlement { sender: Wallet::new(5, 0), receiver: Wallet::new(10, 42) })
    );
    assert_eq!(tx.settle(None, Some(Wallet::new(0, 1))), Err(Error::InsufficientCurrencyAmount));
    assert_eq!(tx.settle(Some(Wallet::new(3, 100)), None), Err(Error::InvalidNonce));
    assert_eq!(tx.settle(Some(Wallet::new(4, 29)), None), Err(Error::InsufficientCurrencyAmount));
    assert!(tx.can_settle(Some(Wallet::new(4, 100)), Some(Wallet::new(0, u64::MAX - 30))));
    assert!(!tx.can_settle(Some(Wallet::new(4, 100)), Some(Wallet::new(0, u64::MAX - 29))));
}

#[test]
fn transfer_getters_give_the_fields() {
    let tx = TxTransfer::new(key(1), key(2), 30, 4);
    assert_eq!(*tx.from(), key(1));
    assert_eq!(*tx.to(), key(2));
    assert_eq!(tx.amount(), 30);
    assert_eq!(tx.nonce(), 4);
}

#[test]
fn service_opens_the_table_with_the_whole_supply() {
    let service = WalletsService;
    assert_eq!(service.service_name(), "wallets");
    assert_eq!(service.service_name(), WALLETS_SERVICE_NAME);
    assert_eq!(service.service_id(), 1);
    assert_eq!(service.service_id(), WALLETS_SERVICE_ID);
    assert_eq!(INITIAL_SUPPLY, 1_000_000_000);
    let a = key(200);
    let mut ledger = Ledger::new();
    service.initialize(&mut ledger, &a);
    assert_eq!(held(&ledger, &a), Some(Wallet::new(0, 1_000_000_000)));
    assert_eq!(ledger.len(), 1);
}

#[test]
fn repo_reaches_the_table_it_was_given() {
    let a = key(1);
    let mut ledger = Ledger::new();
    {
        let mut repo = WalletsRepo::new(&mut ledger);
        repo.as_mut().put(&a, Wallet::new(0, 5));
    }
    let repo = WalletsRepo::new(&ledger);
    assert_eq!(repo.as_read_only().get(&a), Some(&Wallet::new(0, 5)));
    assert_eq!(repo.as_read_only().get(&key(2)), None);
}
