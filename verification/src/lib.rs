//! Deterministic core of a wallet ledger: account records keyed by public
//! key, and the signed transactions that create wallets and move tokens
//! between them.

pub mod encoding;
pub mod keys;
pub mod ledger;
pub mod services;

pub use keys::AccountId;
pub use keys::Digest;
pub use ledger::Ledger;

use crate::encoding::check_frame;
use crate::encoding::check_head;
use crate::encoding::frame_check;
use crate::encoding::head_check;
use crate::encoding::message_type;
use crate::encoding::message_type_of;
use crate::encoding::read_u32;
use crate::encoding::read_u64;
use crate::encoding::text_of;
use crate::encoding::u32_le;
use crate::encoding::u64_le;
use crate::encoding::DecodeError;
use crate::encoding::HEADER_LENGTH;
use crate::keys::is_hex_of_key;
use crate::keys::key_of_hex;
use vstd::prelude::*;
use vstd::string::*;
use vstd::utf8::decode_utf8;
use vstd::utf8::valid_utf8;

verus! {

/// Service identifier
pub const SERVICE_ID: u16 = 1;

/// Identifier for wallet creation transaction type
pub const TX_CREATE_WALLET_ID: u16 = 1;

/// Identifier for coins transfer transaction type
pub const TX_TRANSFER_ID: u16 = 2;

/// Starting balance of a newly created wallet
pub const INIT_BALANCE: u64 = 100;

/// Name of the currency service.
pub const SERVICE_NAME: &'static str = "cryptocurrency";

/// Number of bytes that the fixed part of a wallet creation takes in a
/// message: the key, and where the name stands.
pub const TX_CREATE_WALLET_FIELDS_SIZE: u32 = 40;

/// Number of bytes that the fields of a transfer take in a message.
pub const TX_TRANSFER_FIELDS_SIZE: u32 = 80;

/// A named wallet of the currency service.
#[derive(Debug, PartialEq, Eq)]
pub struct Wallet {
    /// Public key of the owner.
    pub pub_key: AccountId,
    /// Name of the owner.
    pub name: String,
    /// Current balance.
    pub balance: u64,
}

impl Clone for Wallet {
    fn clone(&self) -> (wallet: Wallet)
        ensures
            wallet == *self,
    {
        Wallet { pub_key: self.pub_key, name: self.name.clone(), balance: self.balance }
    }
}

impl Wallet {
    /// A wallet of the given owner with the given balance.
    pub fn new(pub_key: &AccountId, name: &str, balance: u64) -> (wallet: Wallet)
        ensures
            wallet.pub_key == *pub_key,
            wallet.name@ == name@,
            wallet.balance == balance,
    {
        Wallet { pub_key: *pub_key, name: String::from_str(name), balance }
    }

    /// Public key of the owner.
    pub fn pub_key(&self) -> (pub_key: &AccountId)
        ensures
            *pub_key == self.pub_key,
    {
        &self.pub_key
    }

    /// Name of the owner.
    pub fn name(&self) -> (name: &str)
        ensures
            name@ == self.name@,
    {
        self.name.as_str()
    }

    /// Current balance.
    pub fn balance(&self) -> (balance: u64)
        ensures
            balance == self.balance,
    {
        self.balance
    }

    /// The wallet with `amount` tokens more.
    pub fn increase(self, amount: u64) -> (wallet: Wallet)
        requires
            self.balance + amount <= u64::MAX,
        ensures
            wallet.pub_key == self.pub_key,
            wallet.name == self.name,
            wallet.balance == self.balance + amount,
    {
        let balance = self.balance + amount;
        Wallet { pub_key: self.pub_key, name: self.name, balance }
    }

    /// The wallet with `amount` tokens less.
    pub fn decrease(self, amount: u64) -> (wallet: Wallet)
        requires
            self.balance >= amount,
        ensures
            wallet.pub_key == self.pub_key,
            wallet.name == self.name,
            wallet.balance == self.balance - amount,
    {
        let balance = self.balance - amount;
        Wallet { pub_key: self.pub_key, name: self.name, balance }
    }
}

/// Access to the table of named wallets.
///
/// `T` is the access that the schema was given: `&Ledger<Wallet>` reads,
/// `&mut Ledger<Wallet>` reads and writes.
pub struct CurrencySchema<T> {
    /// The access to the table.
    pub view: T,
}

impl<T> CurrencySchema<T> {
    /// A schema over the given access to the table.
    pub fn new(view: T) -> (schema: CurrencySchema<T>)
        ensures
            schema.view == view,
    {
        CurrencySchema { view }
    }
}

impl<'a> CurrencySchema<&'a Ledger<Wallet>> {
    /// The table of wallets.
    pub fn wallets(&self) -> (table: &Ledger<Wallet>)
        ensures
            table == self.view,
    {
        self.view
    }

    /// Utility method to quickly get a separate wallet from the storage
    pub fn wallet(&self, pub_key: &AccountId) -> (found: Option<Wallet>)
        requires
            self.view.wf(),
        ensures
            found == if self.view@.contains_key(pub_key@) {
                Some(self.view@[pub_key@])
            } else {
                None::<Wallet>
            },
    {
        match self.wallets().get(pub_key) {
            Some(wallet) => Some(wallet.clone()),
            None => None,
        }
    }
}

impl<'a> CurrencySchema<&'a mut Ledger<Wallet>> {
    /// The table of wallets, to read.
    pub fn wallets(&self) -> (table: &Ledger<Wallet>)
        ensures
            *table == *old(self.view),
    {
        &*self.view
    }

    /// Utility method to quickly get a separate wallet from the storage
    pub fn wallet(&self, pub_key: &AccountId) -> (found: Option<Wallet>)
        requires
            old(self.view).wf(),
        ensures
            found == if old(self.view)@.contains_key(pub_key@) {
                Some(old(self.view)@[pub_key@])
            } else {
                None::<Wallet>
            },
    {
        match self.wallets().get(pub_key) {
            Some(wallet) => Some(wallet.clone()),
            None => None,
        }
    }

    /// The table of wallets, to write.
    pub fn wallets_mut(&mut self) -> (table: &mut Ledger<Wallet>)
        ensures
            *table == *old(self).view,
            *final(self).view == *final(table),
            *final(final(self).view) == *final(old(self).view),
    {
        &mut *self.view
    }
}

/// Transaction that creates a wallet with the starting balance.
#[derive(Debug, PartialEq, Eq)]
pub struct TxCreateWallet {
    /// Public key of the owner.
    pub pub_key: AccountId,
    /// Name of the owner.
    pub name: String,
}

impl TxCreateWallet {
    /// The table after the creation was executed on `ledger`: the wallet is
    /// added where the key is free, and nothing changes where it is taken.
    pub open spec fn ledger_after(self, ledger: Map<Seq<u8>, Wallet>) -> Map<Seq<u8>, Wallet> {
        if ledger.contains_key(self.pub_key@) {
            ledger
        } else {
            ledger.insert(
                self.pub_key@,
                Wallet { pub_key: self.pub_key, name: self.name, balance: INIT_BALANCE },
            )
        }
    }

    /// A creation of a wallet for the given owner.
    pub fn new(pub_key: &AccountId, name: &str) -> (tx: TxCreateWallet)
        ensures
            tx.pub_key == *pub_key,
            tx.name@ == name@,
    {
        TxCreateWallet { pub_key: *pub_key, name: String::from_str(name) }
    }

    /// Public key of the owner.
    pub fn pub_key(&self) -> (pub_key: &AccountId)
        ensures
            *pub_key == self.pub_key,
    {
        &self.pub_key
    }

    /// Name of the owner.
    pub fn name(&self) -> (name: &str)
        ensures
            name@ == self.name@,
    {
        self.name.as_str()
    }

    /// Accepts the transaction where the owner's signature over the message
    /// was found correct.
    pub fn verify(&self, signature_is_valid: bool) -> (accepted: bool)
        ensures
            accepted == signature_is_valid,
    {
        signature_is_valid
    }

    /// Creates the wallet with the starting balance, unless the key has a
    /// wallet already.
    pub fn execute(&self, view: &mut Ledger<Wallet>)
        requires
            old(view).wf(),
        ensures
            final(view).wf(),
            final(view)@ == self.ledger_after(old(view)@),
    {
        let mut schema = CurrencySchema::new(view);
        if schema.wallet(&self.pub_key).is_none() {
            let wallet = Wallet { pub_key: self.pub_key, name: self.name.clone(), balance: INIT_BALANCE };
            schema.wallets_mut().put(&self.pub_key, wallet);
        }
    }
}

/// Transaction that moves tokens between two wallets that exist; it is told
/// apart from others of the same content by its seed.
#[derive(Clone, Copy, Debug, PartialEq, Eq)]
pub struct TxTransfer {
    /// Public key of the sender.
    pub from: AccountId,
    /// Public key of the receiver.
    pub to: AccountId,
    /// Number of tokens to move.
    pub amount: u64,
    /// Auxiliary number that tells transactions of equal content apart.
    pub seed: u64,
}

impl TxTransfer {
    /// Whether the transfer is applied to `ledger`: both wallets exist and
    /// the sender holds the amount.
    pub open spec fn applies(self, ledger: Map<Seq<u8>, Wallet>) -> bool {
        ledger.contains_key(self.from@) && ledger.contains_key(self.to@)
            && ledger[self.from@].balance >= self.amount
    }

    /// Whether executing the transfer on `ledger` stays within the range of
    /// a balance.
    pub open spec fn within_limits(self, ledger: Map<Seq<u8>, Wallet>) -> bool {
        self.applies(ledger) ==> ledger[self.to@].balance + self.amount <= u64::MAX
    }

    /// The table after the transfer was executed on `ledger`: where it
    /// applies, the sender's new wallet is written, then the receiver's;
    /// else nothing changes.
    pub open spec fn ledger_after(self, ledger: Map<Seq<u8>, Wallet>) -> Map<Seq<u8>, Wallet> {
        if self.applies(ledger) {
            let sender = ledger[self.from@];
            let receiver = ledger[self.to@];
            ledger.insert(
                self.from@,
                Wallet { balance: (sender.balance - self.amount) as u64, ..sender },
            ).insert(self.to@, Wallet { balance: (receiver.balance + self.amount) as u64, ..receiver })
        } else {
            ledger
        }
    }

    /// Whether the fields of `self` are those that the message `raw` holds
    /// behind its header.
    pub open spec fn is_read_from(self, raw: Seq<u8>) -> bool {
        &&& self.from@ == raw.subrange(10, 42)
        &&& self.to@ == raw.subrange(42, 74)
        &&& self.amount == u64_le(raw.subrange(74, 82))
        &&& self.seed == u64_le(raw.subrange(82, 90))
    }

    /// A transfer of `amount` tokens from `from` to `to`.
    pub fn new(from: &AccountId, to: &AccountId, amount: u64, seed: u64) -> (tx: TxTransfer)
        ensures
            tx.from == *from,
            tx.to == *to,
            tx.amount == amount,
            tx.seed == seed,
    {
        TxTransfer { from: *from, to: *to, amount, seed }
    }

    /// Public key of the sender.
    pub fn from(&self) -> (from: &AccountId)
        ensures
            *from == self.from,
    {
        &self.from
    }

    /// Public key of the receiver.
    pub fn to(&self) -> (to: &AccountId)
        ensures
            *to == self.to,
    {
        &self.to
    }

    /// Number of tokens to move.
    pub fn amount(&self) -> (amount: u64)
        ensures
            amount == self.amount,
    {
        self.amount
    }

    /// The seed of the transaction.
    pub fn seed(&self) -> (seed: u64)
        ensures
            seed == self.seed,
    {
        self.seed
    }

    /// Checks if the sender is not the receiver, and takes into account
    /// whether the sender's signature over the message was found correct.
    pub fn verify(&self, signature_is_valid: bool) -> (accepted: bool)
        ensures
            accepted == (self.from@ != self.to@ && signature_is_valid),
            self.from@ == self.to@ ==> !accepted,
    {
        !self.from.same(&self.to) && signature_is_valid
    }

    /// Whether `execute` may be called on `view`.
    pub fn can_execute(&self, view: &Ledger<Wallet>) -> (ok: bool)
        requires
            view.wf(),
        ensures
            ok == self.within_limits(view@),
    {
        match (view.get(&self.from), view.get(&self.to)) {
            (Some(sender), Some(receiver)) => {
                if sender.balance >= self.amount {
                    receiver.balance <= u64::MAX - self.amount
                } else {
                    true
                }
            },
            _ => true,
        }
    }

    /// Retrieves two wallets to apply the transfer; they should be
    /// previously registered. Checks the sender's balance and applies
    /// changes to the balances of the wallets if the sender's balance is
    /// sufficient. Otherwise, performs no op.
    pub fn execute(&self, view: &mut Ledger<Wallet>)
        requires
            old(view).wf(),
            self.within_limits(old(view)@),
        ensures
            final(view).wf(),
            final(view)@ == self.ledger_after(old(view)@),
    {
        let mut schema = CurrencySchema::new(view);
        let sender = schema.wallet(&self.from);
        let receiver = schema.wallet(&self.to);
        match (sender, receiver) {
            (Some(sender), Some(receiver)) => {
                let amount = self.amount;
                if sender.balance() >= amount {
                    let sender = sender.decrease(amount);
                    let receiver = receiver.increase(amount);
                    let wallets = schema.wallets_mut();
                    wallets.put(&self.from, sender);
                    wallets.put(&self.to, receiver);
                }
            },
            _ => {},
        }
    }

    /// Converts the raw message into a transfer.
    pub fn from_raw(raw: &[u8]) -> (decoded: Result<TxTransfer, DecodeError>)
        ensures
            match decoded {
                Ok(tx) => frame_check(
                    raw@,
                    SERVICE_ID,
                    TX_TRANSFER_ID,
                    TX_TRANSFER_FIELDS_SIZE as int,
                ) is Ok && tx.is_read_from(raw@),
                Err(e) => frame_check(raw@, SERVICE_ID, TX_TRANSFER_ID, TX_TRANSFER_FIELDS_SIZE as int)
                    == Err::<(), DecodeError>(e),
            },
    {
        match check_frame(raw, SERVICE_ID, TX_TRANSFER_ID, TX_TRANSFER_FIELDS_SIZE) {
            Err(e) => Err(e),
            Ok(()) => {
                let from = AccountId::read_at(raw, 10);
                let to = AccountId::read_at(raw, 42);
                let amount = read_u64(raw, 74);
                let seed = read_u64(raw, 82);
                Ok(TxTransfer { from, to, amount, seed })
            },
        }
    }
}

impl TxCreateWallet {
    /// Where the name starts in a message: behind the header and the fixed
    /// part of the fields.
    pub open spec fn name_start() -> int {
        HEADER_LENGTH + TX_CREATE_WALLET_FIELDS_SIZE
    }

    /// Where `raw` says that the name starts.
    pub open spec fn declared_name_start(raw: Seq<u8>) -> int {
        u32_le(raw.subrange(42, 46))
    }

    /// The length in bytes that `raw` gives for the name.
    pub open spec fn declared_name_length(raw: Seq<u8>) -> int {
        u32_le(raw.subrange(46, 50))
    }

    /// The length of `raw` without its signature, as offsets of 32 bits hold
    /// it.
    pub open spec fn body_length(raw: Seq<u8>) -> int {
        (raw.len() - 64) % 0x1_0000_0000
    }

    /// The bytes of the name in `raw`.
    pub open spec fn name_bytes(raw: Seq<u8>) -> Seq<u8> {
        raw.subrange(Self::name_start(), Self::name_start() + Self::declared_name_length(raw))
    }

    /// The checks on the name of a message whose head is in order, in the
    /// order in which they are made: the name starts where the fixed part
    /// ends, its end is within the range of an offset and within the message,
    /// and it is valid UTF-8.
    pub open spec fn name_check(raw: Seq<u8>) -> Result<(), DecodeError> {
        let start = Self::declared_name_start(raw);
        let count = Self::declared_name_length(raw);
        if start < Self::name_start() {
            Err(
                DecodeError::OverlappingSegment {
                    last_end: Self::name_start() as u32,
                    start: start as u32,
                },
            )
        } else if start > Self::name_start() {
            Err(
                DecodeError::SpaceBetweenSegments {
                    last_end: Self::name_start() as u32,
                    start: start as u32,
                },
            )
        } else if start + count > u32::MAX {
            Err(DecodeError::OffsetOverflow)
        } else if start + count > Self::body_length(raw) {
            Err(DecodeError::IncorrectSegmentSize { position: 46, value: count as u32 })
        } else if !valid_utf8(Self::name_bytes(raw)) {
            Err(DecodeError::Utf8 { position: start as u32 })
        } else {
            Ok(())
        }
    }

    /// All checks on a message that is to create a wallet: its head, its
    /// name, and that it ends with the signature behind the name.
    pub open spec fn raw_check(raw: Seq<u8>) -> Result<(), DecodeError> {
        match head_check(raw, SERVICE_ID, TX_CREATE_WALLET_ID, TX_CREATE_WALLET_FIELDS_SIZE as int) {
            Err(e) => Err(e),
            Ok(_) => match Self::name_check(raw) {
                Err(e) => Err(e),
                Ok(_) => if Self::name_start() + Self::declared_name_length(raw) + 64
                    != raw.len() {
                    Err(DecodeError::IncorrectLength)
                } else {
                    Ok(())
                },
            },
        }
    }

    /// Whether the fields of `self` are those that the message `raw` holds.
    pub open spec fn is_read_from(self, raw: Seq<u8>) -> bool {
        &&& self.pub_key@ == raw.subrange(10, 42)
        &&& self.name@ == decode_utf8(Self::name_bytes(raw))
    }

    /// Converts the raw message into a wallet creation.
    pub fn from_raw(raw: &[u8]) -> (decoded: Result<TxCreateWallet, DecodeError>)
        ensures
            match decoded {
                Ok(tx) => Self::raw_check(raw@) is Ok && tx.is_read_from(raw@),
                Err(e) => Self::raw_check(raw@) == Err::<(), DecodeError>(e),
            },
    {
        match check_head(raw, SERVICE_ID, TX_CREATE_WALLET_ID, TX_CREATE_WALLET_FIELDS_SIZE) {
            Err(e) => {
                return Err(e);
            },
            Ok(()) => {},
        }
        let fixed_end: u32 = 50;
        let start = read_u32(raw, 42);
        let count = read_u32(raw, 46);
        if start < fixed_end {
            return Err(DecodeError::OverlappingSegment { last_end: fixed_end, start });
        }
        if start > fixed_end {
            return Err(DecodeError::SpaceBetweenSegments { last_end: fixed_end, start });
        }
        if count > u32::MAX - start {
            return Err(DecodeError::OffsetOverflow);
        }
        let end: u32 = start + count;
        let body_length: u64 = (raw.len() - 64) as u64 % 0x1_0000_0000;
        if end as u64 > body_length {
            return Err(DecodeError::IncorrectSegmentSize { position: 46, value: count });
        }
        let name = match text_of(vstd::slice::slice_subrange(raw, 50, end as usize)) {
            Some(name) => name,
            None => {
                return Err(DecodeError::Utf8 { position: start });
            },
        };
        if end as usize + 64 != raw.len() {
            return Err(DecodeError::IncorrectLength);
        }
        let pub_key = AccountId::read_at(raw, 10);
        proof {
            vstd::utf8::encode_utf8_decode_utf8(name@);
        }
        Ok(TxCreateWallet { pub_key, name: String::from_str(name) })
    }
}

/// The transactions of the currency service.
#[derive(Debug, PartialEq, Eq)]
pub enum CurrencyTransaction {
    /// A transfer of tokens between two wallets.
    Transfer(TxTransfer),
    /// The creation of a wallet.
    CreateWallet(TxCreateWallet),
}

/// The currency service: it creates named wallets and moves tokens between
/// them.
#[derive(Clone, Copy, Debug)]
pub struct CurrencyService;

impl CurrencyService {
    /// What the service makes of `raw`: a message too short to hold its type
    /// is refused for its length, a known type goes to its decoder, and any
    /// other type is refused under the type that was found.
    pub open spec fn dispatch(raw: Seq<u8>) -> Result<(), DecodeError> {
        if raw.len() < 4 {
            Err(
                DecodeError::UnexpectedlyShortPayload {
                    actual_size: raw.len() as u32,
                    minimum_size: HEADER_LENGTH as u32,
                },
            )
        } else if message_type_of(raw) == TX_TRANSFER_ID {
            frame_check(raw, SERVICE_ID, TX_TRANSFER_ID, TX_TRANSFER_FIELDS_SIZE as int)
        } else if message_type_of(raw) == TX_CREATE_WALLET_ID {
            TxCreateWallet::raw_check(raw)
        } else {
            Err(DecodeError::IncorrectMessageType { message_type: message_type_of(raw) as u16 })
        }
    }

    /// Name of the service.
    pub fn service_name(&self) -> (name: &'static str)
        ensures
            name@ == SERVICE_NAME@,
    {
        SERVICE_NAME
    }

    /// Identifier of the service.
    pub fn service_id(&self) -> (id: u16)
        ensures
            id == SERVICE_ID,
    {
        SERVICE_ID
    }

    /// Decodes a transaction coming to the node: picks the decoder by the
    /// message type.
    pub fn tx_from_raw(&self, raw: &[u8]) -> (decoded: Result<CurrencyTransaction, DecodeError>)
        ensures
            match decoded {
                Ok(CurrencyTransaction::Transfer(tx)) => Self::dispatch(raw@) is Ok
                    && message_type_of(raw@) == TX_TRANSFER_ID && tx.is_read_from(raw@),
                Ok(CurrencyTransaction::CreateWallet(tx)) => Self::dispatch(raw@) is Ok
                    && message_type_of(raw@) == TX_CREATE_WALLET_ID && tx.is_read_from(raw@),
                Err(e) => Self::dispatch(raw@) == Err::<(), DecodeError>(e),
            },
    {
        if raw.len() < 4 {
            return Err(
                DecodeError::UnexpectedlyShortPayload {
                    actual_size: raw.len() as u32,
                    minimum_size: HEADER_LENGTH as u32,
                },
            );
        }
        let message_type = message_type(raw);
        if message_type == TX_TRANSFER_ID {
            match TxTransfer::from_raw(raw) {
                Ok(tx) => Ok(CurrencyTransaction::Transfer(tx)),
                Err(e) => Err(e),
            }
        } else if message_type == TX_CREATE_WALLET_ID {
            match TxCreateWallet::from_raw(raw) {
                Ok(tx) => Ok(CurrencyTransaction::CreateWallet(tx)),
                Err(e) => Err(e),
            }
        } else {
            Err(DecodeError::IncorrectMessageType { message_type })
        }
    }

    /// Hashes for the service tables that will be included into the state
    /// hash: this service puts none of its tables there.
    pub fn state_hash(&self) -> (hashes: Vec<Digest>)
        ensures
            hashes@ == Seq::<Digest>::empty(),
    {
        Vec::new()
    }
}

/// What a request for one wallet is told.
#[derive(Debug, PartialEq, Eq)]
pub enum WalletReply {
    /// The wallet that the request names.
    Found(Wallet),
    /// The table holds no wallet under the key; the response says
    /// "Wallet not found".
    NotFound,
    /// The last segment of the path is not the hexadecimal form of a key.
    MalformedKey,
}

/// The read side of the currency service: a snapshot of the table, and what
/// can be asked of it.
#[derive(Clone, Copy, Debug)]
pub struct CryptocurrencyApi<'a> {
    /// The table as of the snapshot that the request is answered from.
    pub snapshot: &'a Ledger<Wallet>,
}

impl<'a> CryptocurrencyApi<'a> {
    /// Endpoint for getting a single wallet: `wallet_key` is the last segment
    /// of the path of the request.
    pub fn get_wallet(&self, wallet_key: &str) -> (reply: WalletReply)
        requires
            self.snapshot.wf(),
        ensures
            reply == if !is_hex_of_key(wallet_key.spec_bytes()) {
                WalletReply::MalformedKey
            } else if self.snapshot@.contains_key(key_of_hex(wallet_key.spec_bytes())) {
                WalletReply::Found(self.snapshot@[key_of_hex(wallet_key.spec_bytes())])
            } else {
                WalletReply::NotFound
            },
    {
        let public_key = match AccountId::from_hex(wallet_key) {
            Some(key) => key,
            None => {
                return WalletReply::MalformedKey;
            },
        };
        let schema = CurrencySchema::new(self.snapshot);
        match schema.wallet(&public_key) {
            Some(wallet) => WalletReply::Found(wallet),
            None => WalletReply::NotFound,
        }
    }

    /// Endpoint for dumping all wallets from the storage, in the order of
    /// their keys.
    pub fn get_wallets(&self) -> (wallets: Vec<Wallet>)
        requires
            self.snapshot.wf(),
        ensures
            wallets@.len() == self.snapshot.keys().len(),
            forall|i: int|
                0 <= i < wallets@.len() ==> #[trigger] wallets@[i]
                    == self.snapshot@[self.snapshot.keys()[i]],
    {
        let schema = CurrencySchema::new(self.snapshot);
        let idx = schema.wallets();
        let values = idx.values();
        let mut wallets: Vec<Wallet> = Vec::new();
        let mut i: usize = 0;
        while i < values.len()
            invariant
                i <= values@.len(),
                wallets@.len() == i,
                forall|j: int| 0 <= j < i ==> #[trigger] wallets@[j] == *values@[j],
            decreases values@.len() - i,
        {
            wallets.push(values[i].clone());
            i += 1;
        }
        wallets
    }

    /// Common processing for transaction-accepting endpoints: what was read
    /// from the body of the request is a transaction to hand on, or the
    /// request is refused as incorrect for the reason given.
    pub fn post_transaction<T>(parsed: Result<Option<T>, String>) -> (accepted: Result<T, String>)
        ensures
            match parsed {
                Ok(Some(tx)) => accepted == Ok::<T, String>(tx),
                Ok(None) => accepted matches Err(reason) && reason@ == "Empty request body"@,
                Err(e) => accepted == Err::<T, String>(e),
            },
    {
        match parsed {
            Ok(Some(transaction)) => Ok(transaction),
            Ok(None) => Err(String::from_str("Empty request body")),
            Err(e) => Err(e),
        }
    }
}

} // verus!
