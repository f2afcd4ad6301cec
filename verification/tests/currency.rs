use wallet_ledger::keys::AccountId;
use wallet_ledger::ledger::Ledger;
use wallet_ledger::CryptocurrencyApi;
use wallet_ledger::CurrencySchema;
use wallet_ledger::CurrencyService;
use wallet_ledger::Digest;
use wallet_ledger::TxCreateWallet;
use wallet_ledger::TxTransfer;
use wallet_ledger::Wallet;
use wallet_ledger::WalletReply;
use wallet_ledger::INIT_BALANCE;
use wallet_ledger::SERVICE_ID;
use wallet_ledger::TX_CREATE_WALLET_ID;
use wallet_ledger::TX_TRANSFER_ID;

fn key(byte: u8) -> AccountId {
    AccountId::new([byte; 32])
}

fn table_of(names: &[(u8, &str)]) -> Ledger<Wallet> {
    let mut ledger = Ledger::new();
    for (byte, name) in names {
        TxCreateWallet::new(&key(*byte), name).execute(&mut ledger);
    }
    ledger
}

#[test]
fn named_wallet_moves_its_balance() {
    let wallet = Wallet::new(&key(1), "Alice", 100);
    assert_eq!(*wallet.pub_key(), key(1));
    assert_eq!(wallet.name(), "Alice");
    assert_eq!(wallet.balance(), 100);
    assert_eq!(wallet.clone().increase(5), Wallet::new(&key(1), "Alice", 105));
    assert_eq!(wallet.decrease(100), Wallet::new(&key(1), "Alice", 0));
}

#[test]
fn created_wallet_starts_with_the_initial_balance() {
    assert_eq!(INIT_BALANCE, 100);
    let tx = TxCreateWallet::new(&key(1), "Alice");
    assert_eq!(*tx.pub_key(), key(1));
    assert_eq!(tx.name(), "Alice");
    assert!(tx.verify(true));
    assert!(!tx.verify(false));
    let mut ledger = Ledger::new();
    tx.execute(&mut ledger);
    assert_eq!(ledger.get(&key(1)), Some(&Wallet::new(&key(1), "Alice", 100)));
    assert_eq!(ledger.len(), 1);
}

#[test]
fn wallet_is_not_created_twice() {
    let mut ledger = table_of(&[(1, "Alice"), (2, "Bob")]);
    TxTransfer::new(&key(1), &key(2), 40, 0).execute(&mut ledger);
    TxCreateWallet::new(&key(1), "Mallory").execute(&mut ledger);
    assert_eq!(ledger.get(&key(1)), Some(&Wallet::new(&key(1), "Alice", 60)));
    assert_eq!(ledger.len(), 2);
}

#[test]
fn seed_guarded_transfer_moves_tokens_between_wallets_that_exist() {
    let mut ledger = table_of(&[(1, "Alice"), (2, "Bob")]);
    let tx = TxTransfer::new(&key(1), &key(2), 30, 7);
    assert_eq!(*tx.from(), key(1));
    assert_eq!(*tx.to(), key(2));
    assert_eq!(tx.amount(), 30);
    assert_eq!(tx.seed(), 7);
    assert!(tx.verify(true));
    assert!(tx.can_execute(&ledger));
    tx.execute(&mut ledger);
    assert_eq!(ledger.get(&key(1)), Some(&Wallet::new(&key(1), "Alice", 70)));
    assert_eq!(ledger.get(&key(2)), Some(&Wallet::new(&key(2), "Bob", 130)));
    tx.execute(&mut ledger);
    assert_eq!(ledger.get(&key(1)), Some(&Wallet::new(&key(1), "Alice", 40)));
    assert_eq!(ledger.get(&key(2)), Some(&Wallet::new(&key(2), "Bob", 160)));
}

#[test]
fn seed_guarded_transfer_does_nothing_where_it_cannot_apply() {
    let mut ledger = table_of(&[(1, "Alice"), (2, "Bob")]);
    TxTransfer::new(&key(1), &key(2), 101, 0).execute(&mut ledger);
    TxTransfer::new(&key(1), &key(3), 1, 0).execute(&mut ledger);
    TxTransfer::new(&key(3), &key(1), 1, 0).execute(&mut ledger);
    assert_eq!(ledger.get(&key(1)), Some(&Wallet::new(&key(1), "Alice", 100)));
    assert_eq!(ledger.get(&key(2)), Some(&Wallet::new(&key(2), "Bob", 100)));
    assert_eq!(ledger.get(&key(3)), None);
    assert_eq!(ledger.len(), 2);
    assert!(!TxTransfer::new(&key(1), &key(1), 1, 0).verify(true));
}

#[test]
fn seed_guarded_transfer_is_not_allowed_where_the_receiver_would_overflow() {
    let mut ledger = Ledger::new();
    ledger.put(&key(1), Wallet::new(&key(1), "Alice", 10));
    ledger.put(&key(2), Wallet::new(&key(2), "Bob", u64::MAX - 3));
    assert!(!TxTransfer::new(&key(1), &key(2), 4, 0).can_execute(&ledger));
    assert!(TxTransfer::new(&key(1), &key(2), 3, 0).can_execute(&ledger));
    assert!(TxTransfer::new(&key(1), &key(2), 11, 0).can_execute(&ledger));
}

#[test]
fn schema_reaches_the_table_it_was_given() {
    let mut ledger = table_of(&[(1, "Alice")]);
    {
        let mut schema = CurrencySchema::new(&mut ledger);
        assert_eq!(schema.wallet(&key(1)), Some(Wallet::new(&key(1), "Alice", 100)));
        assert_eq!(schema.wallets().len(), 1);
        schema.wallets_mut().put(&key(2), Wallet::new(&key(2), "Bob", 1));
    }
    let schema = CurrencySchema::new(&ledger);
    assert_eq!(schema.wallet(&key(2)), Some(Wallet::new(&key(2), "Bob", 1)));
    assert_eq!(schema.wallet(&key(3)), None);
    assert_eq!(schema.wallets().len(), 2);
}

#[test]
fn one_wallet_is_asked_for_by_its_hex_key() {
    let ledger = table_of(&[(0x0a, "Alice"), (0xb0, "Bob")]);
    let api = CryptocurrencyApi { snapshot: &ledger };
    assert_eq!(
        api.get_wallet(&"0a".repeat(32)),
        WalletReply::Found(Wallet::new(&key(0x0a), "Alice", 100))
    );
    assert_eq!(
        api.get_wallet(&"B0".repeat(32)),
        WalletReply::Found(Wallet::new(&key(0xb0), "Bob", 100))
    );
    assert_eq!(api.get_wallet(&"0b".repeat(32)), WalletReply::NotFound);
    assert_eq!(api.get_wallet("0a"), WalletReply::MalformedKey);
    assert_eq!(api.get_wallet(&"0x".repeat(32)), WalletReply::MalformedKey);
}

#[test]
fn all_wallets_are_listed_in_key_order() {
    let ledger = table_of(&[(9, "Carol"), (1, "Alice"), (5, "Bob")]);
    let api = CryptocurrencyApi { snapshot: &ledger };
    assert_eq!(
        api.get_wallets(),
        vec![
            Wallet::new(&key(1), "Alice", 100),
            Wallet::new(&key(5), "Bob", 100),
            Wallet::new(&key(9), "Carol", 100),
        ]
    );
    let empty = Ledger::new();
    assert!(CryptocurrencyApi { snapshot: &empty }.get_wallets().is_empty());
}

#[test]
fn posted_currency_transaction_is_handed_on_or_refused() {
    let tx = TxTransfer::new(&key(1), &key(2), 3, 4);
    assert_eq!(CryptocurrencyApi::post_transaction(Ok(Some(tx))), Ok(tx));
    assert_eq!(
        CryptocurrencyApi::post_transaction::<TxTransfer>(Ok(None)),
        Err("Empty request body".to_string())
    );
    assert_eq!(
        CryptocurrencyApi::post_transaction::<TxTransfer>(Err("bad json".to_string())),
        Err("bad json".to_string())
    );
}

#[test]
fn currency_service_names_itself() {
    assert_eq!(CurrencyService.service_name(), "cryptocurrency");
    assert_eq!(CurrencyService.service_id(), 1);
    assert_eq!(SERVICE_ID, 1);
    assert_eq!(TX_CREATE_WALLET_ID, 1);
    assert_eq!(TX_TRANSFER_ID, 2);
    assert_eq!(CurrencyService.state_hash(), Vec::<Digest>::new());
}
