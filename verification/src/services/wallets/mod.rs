//! Defines service for wallets operations.

pub mod api;
pub mod error;
pub mod repo;
pub mod theorems;
pub mod transactions;

use crate::encoding::check_frame;
use crate::encoding::frame_check;
use crate::encoding::header_bytes;
use crate::encoding::lemma_header_passes;
use crate::encoding::lemma_u64_round_trip;
use crate::encoding::message_type;
use crate::encoding::message_type_of;
use crate::encoding::push_bytes;
use crate::encoding::push_u64;
use crate::encoding::read_u64;
use crate::encoding::u64_bytes;
use crate::encoding::u64_le;
use crate::encoding::write_header;
use crate::encoding::DecodeError;
use crate::encoding::HEADER_LENGTH;
use crate::keys::AccountId;
use crate::keys::Digest;
use crate::ledger::Ledger;
use crate::services::WALLETS_SERVICE_ID;
use crate::services::WALLETS_SERVICE_NAME;
use crate::services::wallets::error::Error;
use crate::services::wallets::repo::Wallet;
use crate::services::wallets::repo::WalletsRepo;
use vstd::prelude::*;

verus! {

/// Message type of a transfer among the transactions of the wallets service.
pub const TX_TRANSFER_ID: u16 = 0;

/// Number of bytes that the fields of a transfer take in a message.
pub const TX_TRANSFER_FIELDS_SIZE: u32 = 80;

/// Number of bytes of a whole transfer message.
pub const TX_TRANSFER_MESSAGE_SIZE: u32 = 154;

/// Number of tokens that the first account starts with.
pub const INITIAL_SUPPLY: u64 = 1000000000;

/// The record that `ledger` holds under `key`, or the default record where
/// it holds none.
pub open spec fn record_or_default(ledger: Map<Seq<u8>, Wallet>, key: Seq<u8>) -> Wallet {
    if ledger.contains_key(key) {
        ledger[key]
    } else {
        Wallet { nonce: 0, balance: 0 }
    }
}

/// The record that a lookup found, by value.
pub fn found(record: Option<&Wallet>) -> (wallet: Option<Wallet>)
    ensures
        wallet == match record {
            Some(stored) => Some(*stored),
            None => None,
        },
{
    match record {
        Some(stored) => Some(*stored),
        None => None,
    }
}

/// Transaction type for transferring tokens between two wallets. If the
/// receiving wallet doesn't exist - it will be created.
#[derive(Clone, Copy, Debug, PartialEq, Eq)]
pub struct TxTransfer {
    /// Public key of the sender.
    pub from: AccountId,
    /// Public key of the receiver.
    pub to: AccountId,
    /// Number of tokens to transfer from sender's account to receiver's account.
    pub amount: u64,
    /// Number of transaction from sender's wallet. Must be equal to sender's account nonce.
    pub nonce: u64,
}

/// The two records that a transfer writes back.
#[derive(Clone, Copy, Debug, PartialEq, Eq, Structural)]
pub struct Settlement {
    /// The sender's record after the transfer.
    pub sender: Wallet,
    /// The receiver's record after the transfer.
    pub receiver: Wallet,
}

impl TxTransfer {
    /// What settling the transfer gives for a sender and a receiver as the
    /// table holds them: the failure, or the two records to write back.
    pub open spec fn spec_settle(self, sender: Option<Wallet>, receiver: Option<Wallet>) -> Result<
        Settlement,
        Error,
    > {
        match sender {
            None => Err(Error::InsufficientCurrencyAmount),
            Some(sender_wallet) => {
                if sender_wallet.nonce != self.nonce {
                    Err(Error::InvalidNonce)
                } else if sender_wallet.balance < self.amount {
                    Err(Error::InsufficientCurrencyAmount)
                } else {
                    let receiver_wallet = match receiver {
                        Some(wallet) => wallet,
                        None => Wallet { nonce: 0, balance: 0 },
                    };
                    Ok(
                        Settlement {
                            sender: sender_wallet.decreased(self.amount),
                            receiver: receiver_wallet.increased(self.amount),
                        },
                    )
                }
            },
        }
    }

    /// Whether settling stays within the range of the counters: where the
    /// transfer would be applied, the sender's nonce can grow and the
    /// receiver's record can take the amount.
    pub open spec fn settles_within_limits(
        self,
        sender: Option<Wallet>,
        receiver: Option<Wallet>,
    ) -> bool {
        match sender {
            Some(sender_wallet) if sender_wallet.nonce == self.nonce && sender_wallet.balance
                >= self.amount => {
                let receiver_wallet = match receiver {
                    Some(wallet) => wallet,
                    None => Wallet { nonce: 0, balance: 0 },
                };
                sender_wallet.nonce < u64::MAX && receiver_wallet.can_increase(self.amount)
            },
            _ => true,
        }
    }

    /// The record under `key` in `ledger`, as a lookup returns it.
    pub open spec fn lookup(ledger: Map<Seq<u8>, Wallet>, key: Seq<u8>) -> Option<Wallet> {
        if ledger.contains_key(key) {
            Some(ledger[key])
        } else {
            None
        }
    }

    /// The outcome of executing the transfer on `ledger`.
    pub open spec fn outcome(self, ledger: Map<Seq<u8>, Wallet>) -> Result<(), Error> {
        match self.spec_settle(Self::lookup(ledger, self.from@), Self::lookup(ledger, self.to@)) {
            Ok(_) => Ok(()),
            Err(e) => Err(e),
        }
    }

    /// The table after executing the transfer on `ledger`: on success the
    /// sender's new record is written, then the receiver's; on failure
    /// nothing is.
    pub open spec fn ledger_after(self, ledger: Map<Seq<u8>, Wallet>) -> Map<Seq<u8>, Wallet> {
        match self.spec_settle(Self::lookup(ledger, self.from@), Self::lookup(ledger, self.to@)) {
            Ok(settlement) => ledger.insert(self.from@, settlement.sender).insert(
                self.to@,
                settlement.receiver,
            ),
            Err(_) => ledger,
        }
    }

    /// Whether executing the transfer on `ledger` stays within the range of
    /// the counters.
    pub open spec fn within_limits(self, ledger: Map<Seq<u8>, Wallet>) -> bool {
        self.settles_within_limits(Self::lookup(ledger, self.from@), Self::lookup(ledger, self.to@))
    }

    /// A transfer of `amount` tokens from `from` to `to`, guarded by `nonce`.
    pub fn new(from: AccountId, to: AccountId, amount: u64, nonce: u64) -> (tx: TxTransfer)
        ensures
            tx.from == from,
            tx.to == to,
            tx.amount == amount,
            tx.nonce == nonce,
    {
        TxTransfer { from, to, amount, nonce }
    }

    /// Public key of the sender.
    pub fn from(&self) -> (from: &AccountId)
        ensures
            *from == self.from,
    {
        &self.from
    }

    /// Public key of the receiver.
    pub fn to(&self) -> (to: &AccountId)
        ensures
            *to == self.to,
    {
        &self.to
    }

    /// Number of tokens to transfer.
    pub fn amount(&self) -> (amount: u64)
        ensures
            amount == self.amount,
    {
        self.amount
    }

    /// The sender's nonce that the transaction was made for.
    pub fn nonce(&self) -> (nonce: u64)
        ensures
            nonce == self.nonce,
    {
        self.nonce
    }

    /// Checks if the sender is not the receiver, and takes into account
    /// whether the sender's signature over the message was found correct.
    pub fn verify(&self, signature_is_valid: bool) -> (accepted: bool)
        ensures
            accepted == (self.from@ != self.to@ && signature_is_valid),
            self.from@ == self.to@ ==> !accepted,
    {
        !self.from.same(&self.to) && signature_is_valid
    }

    /// Whether `settle` may be called on these two records.
    pub fn can_settle(&self, sender: Option<Wallet>, receiver: Option<Wallet>) -> (ok: bool)
        ensures
            ok == self.settles_within_limits(sender, receiver),
    {
        match sender {
            Some(sender_wallet) => {
                if sender_wallet.nonce == self.nonce && sender_wallet.balance >= self.amount {
                    let receiver_wallet = match receiver {
                        Some(wallet) => wallet,
                        None => Wallet::default(),
                    };
                    sender_wallet.nonce < u64::MAX && receiver_wallet.nonce < u64::MAX
                        && receiver_wallet.balance <= u64::MAX - self.amount
                } else {
                    true
                }
            },
            None => true,
        }
    }

    /// Decides the transfer from the sender's and the receiver's records as
    /// the table holds them, and computes the records to write back.
    pub fn settle(&self, sender: Option<Wallet>, receiver: Option<Wallet>) -> (settled: Result<
        Settlement,
        Error,
    >)
        requires
            self.settles_within_limits(sender, receiver),
        ensures
            settled == self.spec_settle(sender, receiver),
    {
        let sender_wallet = match sender {
            Some(val) => val,
            None => {
                return Err(Error::InsufficientCurrencyAmount);
            },
        };
        if sender_wallet.nonce() != self.nonce {
            return Err(Error::InvalidNonce);
        }
        let receiver_wallet = match receiver {
            Some(val) => val,
            None => Wallet::default(),
        };
        let amount = self.amount;
        if sender_wallet.balance() >= amount {
            let sender_wallet = sender_wallet.decrease(amount);
            let receiver_wallet = receiver_wallet.increase(amount);
            Ok(Settlement { sender: sender_wallet, receiver: receiver_wallet })
        } else {
            Err(Error::InsufficientCurrencyAmount)
        }
    }

    /// Whether `execute` may be called on `view`.
    pub fn can_execute(&self, view: &Ledger<Wallet>) -> (ok: bool)
        requires
            view.wf(),
        ensures
            ok == self.within_limits(view@),
    {
        self.can_settle(found(view.get(&self.from)), found(view.get(&self.to)))
    }

    /// Retrieves two wallets to apply the transfer; if receiving wallet doesn't exist
    /// it is created. Checks the sender's nonce and balance and applies changes to
    /// the balances of the wallets if the sender's balance is sufficient.
    /// Otherwise, performs no op.
    pub fn execute(&self, view: &mut Ledger<Wallet>) -> (result: Result<(), Error>)
        requires
            old(view).wf(),
            self.within_limits(old(view)@),
        ensures
            final(view).wf(),
            result == self.outcome(old(view)@),
            final(view)@ == self.ledger_after(old(view)@),
    {
        let mut repo = WalletsRepo::new(view);
        let repo_mut = repo.as_mut();
        let sender = found(repo_mut.get(&self.from));
        let receiver = found(repo_mut.get(&self.to));
        match self.settle(sender, receiver) {
            Ok(settlement) => {
                repo_mut.put(&self.from, settlement.sender);
                repo_mut.put(&self.to, settlement.receiver);
                Ok(())
            },
            Err(e) => Err(e),
        }
    }
}

impl TxTransfer {
    /// Whether the fields of `self` are those that the message `raw` holds
    /// behind its header: the sender's key, the receiver's key, the amount
    /// and the nonce.
    pub open spec fn is_read_from(self, raw: Seq<u8>) -> bool {
        &&& self.from@ == raw.subrange(10, 42)
        &&& self.to@ == raw.subrange(42, 74)
        &&& self.amount == u64_le(raw.subrange(74, 82))
        &&& self.nonce == u64_le(raw.subrange(82, 90))
    }

    /// A message holds the fields of one transfer only.
    pub proof fn lemma_one_reading(self, other: TxTransfer, raw: Seq<u8>)
        requires
            self.is_read_from(raw),
            other.is_read_from(raw),
        ensures
            self == other,
    {
        self.from.lemma_same_bytes_same_id(other.from);
        self.to.lemma_same_bytes_same_id(other.to);
    }

    /// The message that carries `self` with the given signature.
    pub open spec fn raw_with(self, signature: Seq<u8>) -> Seq<u8> {
        header_bytes(WALLETS_SERVICE_ID, TX_TRANSFER_ID, TX_TRANSFER_MESSAGE_SIZE) + self.from@
            + self.to@ + u64_bytes(self.amount) + u64_bytes(self.nonce) + signature
    }

    /// The part of the message that the sender signs: all of it but the
    /// signature.
    pub open spec fn signed_part(self) -> Seq<u8> {
        self.raw_with(Seq::<u8>::empty())
    }

    /// Converts the raw message into a transfer.
    ///
    /// The checks are made in this order: the length is at least that of a
    /// transfer message, the protocol version, the message type, the service,
    /// and that no byte follows the signature.
    pub fn from_raw(raw: &[u8]) -> (decoded: Result<TxTransfer, DecodeError>)
        ensures
            match decoded {
                Ok(tx) => frame_check(
                    raw@,
                    WALLETS_SERVICE_ID,
                    TX_TRANSFER_ID,
                    TX_TRANSFER_FIELDS_SIZE as int,
                ) is Ok && tx.is_read_from(raw@),
                Err(e) => frame_check(
                    raw@,
                    WALLETS_SERVICE_ID,
                    TX_TRANSFER_ID,
                    TX_TRANSFER_FIELDS_SIZE as int,
                ) == Err::<(), DecodeError>(e),
            },
    {
        match check_frame(raw, WALLETS_SERVICE_ID, TX_TRANSFER_ID, TX_TRANSFER_FIELDS_SIZE) {
            Err(e) => Err(e),
            Ok(()) => {
                let from = AccountId::read_at(raw, 10);
                let to = AccountId::read_at(raw, 42);
                let amount = read_u64(raw, 74);
                let nonce = read_u64(raw, 82);
                Ok(TxTransfer { from, to, amount, nonce })
            },
        }
    }

    /// The bytes that the sender signs.
    pub fn to_signed_part(&self) -> (raw: Vec<u8>)
        ensures
            raw@ == self.signed_part(),
            raw@.len() == 90,
    {
        let mut raw = write_header(WALLETS_SERVICE_ID, TX_TRANSFER_ID, TX_TRANSFER_MESSAGE_SIZE);
        push_bytes(&mut raw, self.from.as_bytes().as_slice());
        push_bytes(&mut raw, self.to.as_bytes().as_slice());
        push_u64(&mut raw, self.amount);
        push_u64(&mut raw, self.nonce);
        assert(raw@ =~= self.signed_part());
        raw
    }

    /// The message that carries the transfer with the given signature.
    pub fn to_raw(&self, signature: &[u8; 64]) -> (raw: Vec<u8>)
        ensures
            raw@ == self.raw_with(signature@),
            raw@.len() == TX_TRANSFER_MESSAGE_SIZE,
    {
        let mut raw = self.to_signed_part();
        push_bytes(&mut raw, signature.as_slice());
        assert(raw@ =~= self.raw_with(signature@));
        raw
    }

    /// A transfer is read back from the message that was written for it,
    /// whatever the 64 bytes of its signature.
    pub proof fn theorem_round_trip(self, signature: Seq<u8>)
        requires
            signature.len() == 64,
        ensures
            frame_check(
                self.raw_with(signature),
                WALLETS_SERVICE_ID,
                TX_TRANSFER_ID,
                TX_TRANSFER_FIELDS_SIZE as int,
            ) == Ok::<(), DecodeError>(()),
            self.is_read_from(self.raw_with(signature)),
    {
        let raw = self.raw_with(signature);
        let header = header_bytes(WALLETS_SERVICE_ID, TX_TRANSFER_ID, TX_TRANSFER_MESSAGE_SIZE);
        assert(header.len() == 10);
        assert(self.from@.len() == 32);
        assert(self.to@.len() == 32);
        assert(raw.len() == 154);
        assert(raw.subrange(0, 10) =~= header);
        lemma_header_passes(raw, WALLETS_SERVICE_ID, TX_TRANSFER_ID, TX_TRANSFER_FIELDS_SIZE as int);
        assert(raw.subrange(10, 42) =~= self.from@);
        assert(raw.subrange(42, 74) =~= self.to@);
        assert(raw.subrange(74, 82) =~= u64_bytes(self.amount));
        assert(raw.subrange(82, 90) =~= u64_bytes(self.nonce));
        lemma_u64_round_trip(self.amount);
        lemma_u64_round_trip(self.nonce);
    }
}

/// The transactions of the wallets service.
#[derive(Clone, Copy, Debug, PartialEq, Eq)]
pub enum WalletsTransactions {
    /// A transfer of tokens between two wallets.
    TxTransfer(TxTransfer),
}

impl WalletsTransactions {
    /// What the dispatcher makes of `raw`: a message too short to hold its
    /// type is refused for its length, a known type goes to its decoder, and
    /// any other type is refused under the type that was found.
    pub open spec fn dispatch(raw: Seq<u8>) -> Result<(), DecodeError> {
        if raw.len() < 4 {
            Err(
                DecodeError::UnexpectedlyShortPayload {
                    actual_size: raw.len() as u32,
                    minimum_size: HEADER_LENGTH as u32,
                },
            )
        } else if message_type_of(raw) == TX_TRANSFER_ID {
            frame_check(raw, WALLETS_SERVICE_ID, TX_TRANSFER_ID, TX_TRANSFER_FIELDS_SIZE as int)
        } else {
            Err(DecodeError::IncorrectMessageType { message_type: message_type_of(raw) as u16 })
        }
    }

    /// Picks the decoder for a raw message by its message type, and decodes
    /// it.
    pub fn tx_from_raw(raw: &[u8]) -> (decoded: Result<WalletsTransactions, DecodeError>)
        ensures
            match decoded {
                Ok(WalletsTransactions::TxTransfer(tx)) => Self::dispatch(raw@) is Ok
                    && tx.is_read_from(raw@),
                Err(e) => Self::dispatch(raw@) == Err::<(), DecodeError>(e),
            },
    {
        if raw.len() < 4 {
            return Err(
                DecodeError::UnexpectedlyShortPayload {
                    actual_size: raw.len() as u32,
                    minimum_size: HEADER_LENGTH as u32,
                },
            );
        }
        let message_type = message_type(raw);
        if message_type == TX_TRANSFER_ID {
            match TxTransfer::from_raw(raw) {
                Ok(tx) => Ok(WalletsTransactions::TxTransfer(tx)),
                Err(e) => Err(e),
            }
        } else {
            Err(DecodeError::IncorrectMessageType { message_type })
        }
    }

    /// The transfer that the transaction is.
    pub fn into_transfer(self) -> (tx: TxTransfer)
        ensures
            self == WalletsTransactions::TxTransfer(tx),
    {
        match self {
            WalletsTransactions::TxTransfer(tx) => tx,
        }
    }
}

/// The wallets service: the transfers it takes and the table it keeps.
#[derive(Clone, Copy, Debug)]
pub struct WalletsService;

impl WalletsService {
    /// Name of the service.
    pub fn service_name(&self) -> (name: &'static str)
        ensures
            name@ == WALLETS_SERVICE_NAME@,
    {
        WALLETS_SERVICE_NAME
    }

    /// Identifier of the service.
    pub fn service_id(&self) -> (id: u16)
        ensures
            id == WALLETS_SERVICE_ID,
    {
        WALLETS_SERVICE_ID
    }

    /// Opens the table with one wallet, under the given key, that holds the
    /// whole supply.
    pub fn initialize(&self, fork: &mut Ledger<Wallet>, public_key: &AccountId)
        requires
            old(fork).wf(),
        ensures
            final(fork).wf(),
            final(fork)@ == old(fork)@.insert(
                public_key@,
                Wallet { nonce: 0, balance: INITIAL_SUPPLY },
            ),
    {
        let mut repo = WalletsRepo::new(fork);
        repo.as_mut().put(public_key, Wallet::new(0, INITIAL_SUPPLY));
    }

    /// Decodes a transaction coming to the node.
    pub fn tx_from_raw(&self, raw: &[u8]) -> (decoded: Result<WalletsTransactions, DecodeError>)
        ensures
            match decoded {
                Ok(WalletsTransactions::TxTransfer(tx)) => WalletsTransactions::dispatch(raw@) is Ok
                    && tx.is_read_from(raw@),
                Err(e) => WalletsTransactions::dispatch(raw@) == Err::<(), DecodeError>(e),
            },
    {
        WalletsTransactions::tx_from_raw(raw)
    }

    /// Hashes for the service tables that will be included into the state
    /// hash: the root of the wallets table, and no other.
    pub fn state_hash(&self, wallets_root: Digest) -> (hashes: Vec<Digest>)
        ensures
            hashes@ == seq![wallets_root],
    {
        let mut hashes: Vec<Digest> = Vec::new();
        hashes.push(wallets_root);
        hashes
    }
}

} // verus!
