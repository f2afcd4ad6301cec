use wallet_ledger::encoding::check_frame;
use wallet_ledger::encoding::message_type;
use wallet_ledger::encoding::read_u16;
use wallet_ledger::encoding::read_u32;
use wallet_ledger::encoding::read_u64;
use wallet_ledger::encoding::service_id;
use wallet_ledger::encoding::write_header;
use wallet_ledger::encoding::DecodeError;
use wallet_ledger::keys::AccountId;
use wallet_ledger::services::wallets::TxTransfer;
use wallet_ledger::services::wallets::WalletsService;
use wallet_ledger::services::wallets::WalletsTransactions;
use wallet_ledger::services::wallets::TX_TRANSFER_ID;
use wallet_ledger::CurrencyService;
use wallet_ledger::CurrencyTransaction;
use wallet_ledger::TxCreateWallet;

fn key(byte: u8) -> AccountId {
    AccountId::new([byte; 32])
}

fn sample() -> TxTransfer {
    TxTransfer::new(key(0xaa), key(0xbb), 0x0102030405060708, 0x1112131415161718)
}

fn sample_raw() -> Vec<u8> {
    let mut raw = vec![0u8, 0, 0, 0, 1, 0, 154, 0, 0, 0];
    raw.extend_from_slice(&[0xaa; 32]);
    raw.extend_from_slice(&[0xbb; 32]);
    raw.extend_from_slice(&[8, 7, 6, 5, 4, 3, 2, 1]);
    raw.extend_from_slice(&[0x18, 0x17, 0x16, 0x15, 0x14, 0x13, 0x12, 0x11]);
    raw.extend_from_slice(&[0x5a; 64]);
    raw
}

fn create_wallet_raw(name: &[u8]) -> Vec<u8> {
    let full = (114 + name.len()) as u32;
    let mut raw = vec![0u8, 0, 1, 0, 1, 0];
    raw.extend_from_slice(&full.to_le_bytes());
    raw.extend_from_slice(&[0xcc; 32]);
    raw.extend_from_slice(&50u32.to_le_bytes());
    raw.extend_from_slice(&(name.len() as u32).to_le_bytes());
    raw.extend_from_slice(name);
    raw.extend_from_slice(&[0x5a; 64]);
    raw
}

#[test]
fn transfer_is_written_field_by_field() {
    let raw = sample().to_raw(&[0x5a; 64]);
    assert_eq!(raw.len(), 154);
    assert_eq!(raw, sample_raw());
    assert_eq!(sample().to_signed_part(), sample_raw()[..90].to_vec());
}

#[test]
fn transfer_is_read_back_from_its_message() {
    let raw = sample().to_raw(&[0x5a; 64]);
    assert_eq!(TxTransfer::from_raw(&raw), Ok(sample()));
    assert_eq!(WalletsTransactions::tx_from_raw(&raw), Ok(WalletsTransactions::TxTransfer(sample())));
    assert_eq!(WalletsService.tx_from_raw(&raw), Ok(WalletsTransactions::TxTransfer(sample())));
    assert_eq!(WalletsTransactions::TxTransfer(sample()).into_transfer(), sample());
    let extremes = TxTransfer::new(key(0), key(255), u64::MAX, 0);
    assert_eq!(TxTransfer::from_raw(&extremes.to_raw(&[0; 64])), Ok(extremes));
}

#[test]
fn transfer_is_read_whatever_the_first_byte_and_the_declared_length() {
    let mut raw = sample_raw();
    raw[0] = 9;
    raw[6] = 1;
    raw[9] = 200;
    assert_eq!(TxTransfer::from_raw(&raw), Ok(sample()));
}

#[test]
fn unknown_message_type_is_reported_with_its_value() {
    let mut raw = sample_raw();
    raw[2] = 7;
    assert_eq!(
        WalletsTransactions::tx_from_raw(&raw),
        Err(DecodeError::IncorrectMessageType { message_type: 7 })
    );
    raw[3] = 2;
    assert_eq!(
        WalletsService.tx_from_raw(&raw),
        Err(DecodeError::IncorrectMessageType { message_type: 0x0207 })
    );
    assert_eq!(
        WalletsTransactions::tx_from_raw(&raw[..4]),
        Err(DecodeError::IncorrectMessageType { message_type: 0x0207 })
    );
    assert_eq!(
        CurrencyService.tx_from_raw(&raw),
        Err(DecodeError::IncorrectMessageType { message_type: 0x0207 })
    );
    raw[2] = 0;
    raw[3] = 0;
    assert_eq!(
        CurrencyService.tx_from_raw(&raw),
        Err(DecodeError::IncorrectMessageType { message_type: 0 })
    );
}

#[test]
fn decoder_of_one_type_reports_its_own_type() {
    let mut raw = sample_raw();
    raw[2] = 7;
    assert_eq!(
        TxTransfer::from_raw(&raw),
        Err(DecodeError::IncorrectMessageType { message_type: TX_TRANSFER_ID })
    );
}

#[test]
fn message_without_a_type_is_too_short() {
    for length in 0..4usize {
        let raw = vec![0u8; length];
        let expected = Err(DecodeError::UnexpectedlyShortPayload {
            actual_size: length as u32,
            minimum_size: 10,
        });
        assert_eq!(WalletsTransactions::tx_from_raw(&raw), expected);
        assert_eq!(
            CurrencyService.tx_from_raw(&raw),
            Err(DecodeError::UnexpectedlyShortPayload {
                actual_size: length as u32,
                minimum_size: 10,
            })
        );
    }
}

#[test]
fn short_transfer_is_refused() {
    let raw = sample_raw();
    assert_eq!(
        WalletsTransactions::tx_from_raw(&raw[..153]),
        Err(DecodeError::UnexpectedlyShortPayload { actual_size: 153, minimum_size: 154 })
    );
    assert_eq!(
        TxTransfer::from_raw(&raw[..10]),
        Err(DecodeError::UnexpectedlyShortPayload { actual_size: 10, minimum_size: 154 })
    );
    assert_eq!(
        TxTransfer::from_raw(&[]),
        Err(DecodeError::UnexpectedlyShortPayload { actual_size: 0, minimum_size: 154 })
    );
}

#[test]
fn long_transfer_is_refused() {
    let mut raw = sample_raw();
    raw.push(0);
    assert_eq!(TxTransfer::from_raw(&raw), Err(DecodeError::IncorrectLength));
}

#[test]
fn other_protocol_version_is_refused() {
    let mut raw = sample_raw();
    raw[1] = 1;
    assert_eq!(
        TxTransfer::from_raw(&raw),
        Err(DecodeError::UnsupportedProtocolVersion { version: 0 })
    );
}

#[test]
fn other_service_is_refused() {
    let mut raw = sample_raw();
    raw[4] = 2;
    assert_eq!(TxTransfer::from_raw(&raw), Err(DecodeError::IncorrectServiceId { service_id: 1 }));
    raw[4] = 1;
    raw[5] = 1;
    assert_eq!(TxTransfer::from_raw(&raw), Err(DecodeError::IncorrectServiceId { service_id: 1 }));
}

#[test]
fn checks_are_made_in_order() {
    let mut raw = sample_raw();
    raw[1] = 3;
    raw[2] = 9;
    raw[4] = 9;
    raw.push(0);
    assert_eq!(
        TxTransfer::from_raw(&raw),
        Err(DecodeError::UnsupportedProtocolVersion { version: 0 })
    );
    assert_eq!(
        TxTransfer::from_raw(&raw[..20]),
        Err(DecodeError::UnexpectedlyShortPayload { actual_size: 20, minimum_size: 154 })
    );
    raw[1] = 0;
    assert_eq!(
        TxTransfer::from_raw(&raw),
        Err(DecodeError::IncorrectMessageType { message_type: 0 })
    );
    raw[2] = 0;
    assert_eq!(TxTransfer::from_raw(&raw), Err(DecodeError::IncorrectServiceId { service_id: 1 }));
    raw[4] = 1;
    assert_eq!(TxTransfer::from_raw(&raw), Err(DecodeError::IncorrectLength));
}

#[test]
fn numbers_are_read_lowest_byte_first() {
    let raw = [0x34u8, 0x12, 0x78, 0x56, 0xbc, 0x9a, 0xf0, 0xde, 0x01];
    assert_eq!(read_u16(&raw, 0), 0x1234);
    assert_eq!(read_u16(&raw, 7), 0x01de);
    assert_eq!(read_u32(&raw, 0), 0x5678_1234);
    assert_eq!(read_u32(&raw, 5), 0x01de_f09a);
    assert_eq!(read_u64(&raw, 0), 0xdef0_9abc_5678_1234);
    assert_eq!(read_u64(&raw, 1), 0x01de_f09a_bc56_7812);
    assert_eq!(read_u64(&[255; 8], 0), u64::MAX);
    assert_eq!(message_type(&raw), 0x5678);
    assert_eq!(service_id(&raw), 0x9abc);
}

#[test]
fn header_names_version_type_service_and_length() {
    assert_eq!(write_header(0x0102, 0x0304, 0x0506_0708), vec![0, 0, 4, 3, 2, 1, 8, 7, 6, 5]);
    assert_eq!(write_header(1, 0, 154), sample_raw()[..10].to_vec());
}

#[test]
fn frame_of_fixed_fields_is_checked() {
    let mut raw = write_header(3, 4, 74);
    raw.extend_from_slice(&[0; 64]);
    assert_eq!(check_frame(&raw, 3, 4, 0), Ok(()));
    assert_eq!(check_frame(&raw, 3, 5, 0), Err(DecodeError::IncorrectMessageType { message_type: 5 }));
    assert_eq!(
        check_frame(&raw, 3, 4, 1),
        Err(DecodeError::UnexpectedlyShortPayload { actual_size: 74, minimum_size: 75 })
    );
}

#[test]
fn currency_transfer_is_read_from_its_message() {
    let mut raw = sample_raw();
    raw[2] = 2;
    let expected = wallet_ledger::TxTransfer::new(
        &key(0xaa),
        &key(0xbb),
        0x0102030405060708,
        0x1112131415161718,
    );
    assert_eq!(wallet_ledger::TxTransfer::from_raw(&raw), Ok(expected));
    assert_eq!(CurrencyService.tx_from_raw(&raw), Ok(CurrencyTransaction::Transfer(expected)));
    raw.push(1);
    assert_eq!(CurrencyService.tx_from_raw(&raw), Err(DecodeError::IncorrectLength));
}

#[test]
fn wallet_creation_is_read_from_its_message() {
    let raw = create_wallet_raw("Alice".as_bytes());
    let expected = TxCreateWallet::new(&key(0xcc), "Alice");
    assert_eq!(TxCreateWallet::from_raw(&raw), Ok(TxCreateWallet::new(&key(0xcc), "Alice")));
    assert_eq!(CurrencyService.tx_from_raw(&raw), Ok(CurrencyTransaction::CreateWallet(expected)));
    let accented = create_wallet_raw("Zoë ☂".as_bytes());
    assert_eq!(TxCreateWallet::from_raw(&accented), Ok(TxCreateWallet::new(&key(0xcc), "Zoë ☂")));
    let unnamed = create_wallet_raw(&[]);
    assert_eq!(unnamed.len(), 114);
    assert_eq!(TxCreateWallet::from_raw(&unnamed), Ok(TxCreateWallet::new(&key(0xcc), "")));
}

#[test]
fn wallet_creation_with_a_name_that_is_not_utf8_is_refused() {
    let raw = create_wallet_raw(&[b'A', 0xff, b'B']);
    assert_eq!(TxCreateWallet::from_raw(&raw), Err(DecodeError::Utf8 { position: 50 }));
    let cut = create_wallet_raw(&[0xe2, 0x98]);
    assert_eq!(CurrencyService.tx_from_raw(&cut), Err(DecodeError::Utf8 { position: 50 }));
}

#[test]
fn wallet_creation_with_a_misplaced_name_is_refused() {
    let mut raw = create_wallet_raw("Alice".as_bytes());
    raw[42] = 49;
    assert_eq!(
        TxCreateWallet::from_raw(&raw),
        Err(DecodeError::OverlappingSegment { last_end: 50, start: 49 })
    );
    raw[42] = 51;
    assert_eq!(
        TxCreateWallet::from_raw(&raw),
        Err(DecodeError::SpaceBetweenSegments { last_end: 50, start: 51 })
    );
    raw[42] = 50;
    raw[43] = 1;
    assert_eq!(
        TxCreateWallet::from_raw(&raw),
        Err(DecodeError::SpaceBetweenSegments { last_end: 50, start: 306 })
    );
}

#[test]
fn wallet_creation_with_a_wrong_name_length_is_refused() {
    let mut raw = create_wallet_raw("Alice".as_bytes());
    raw[46] = 6;
    assert_eq!(
        TxCreateWallet::from_raw(&raw),
        Err(DecodeError::IncorrectSegmentSize { position: 46, value: 6 })
    );
    raw[46] = 4;
    assert_eq!(TxCreateWallet::from_raw(&raw), Err(DecodeError::IncorrectLength));
    raw[46] = 0xff;
    raw[47] = 0xff;
    raw[48] = 0xff;
    raw[49] = 0xff;
    assert_eq!(TxCreateWallet::from_raw(&raw), Err(DecodeError::OffsetOverflow));
    raw[46] = 0xce;
    assert_eq!(TxCreateWallet::from_raw(&raw), Err(DecodeError::OffsetOverflow));
    raw[46] = 0xcd;
    assert_eq!(
        TxCreateWallet::from_raw(&raw),
        Err(DecodeError::IncorrectSegmentSize { position: 46, value: 0xffff_ffcd })
    );
}

#[test]
fn wallet_creation_head_is_checked_first() {
    let raw = create_wallet_raw("Alice".as_bytes());
    assert_eq!(
        TxCreateWallet::from_raw(&raw[..113]),
        Err(DecodeError::UnexpectedlyShortPayload { actual_size: 113, minimum_size: 114 })
    );
    let mut other = raw.clone();
    other[1] = 2;
    assert_eq!(
        TxCreateWallet::from_raw(&other),
        Err(DecodeError::UnsupportedProtocolVersion { version: 0 })
    );
    let mut other = raw.clone();
    other[2] = 2;
    assert_eq!(
        TxCreateWallet::from_raw(&other),
        Err(DecodeError::IncorrectMessageType { message_type: 1 })
    );
    let mut other = raw.clone();
    other[4] = 0;
    assert_eq!(
        TxCreateWallet::from_raw(&other),
        Err(DecodeError::IncorrectServiceId { service_id: 1 })
    );
}
