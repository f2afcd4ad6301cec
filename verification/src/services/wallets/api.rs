//! What the public endpoints of the wallets service decide: which wallet a
//! request names, what it is told, and which requests are refused.

use crate::keys::is_hex_of_key;
use crate::keys::key_of_hex;
use crate::keys::AccountId;
use crate::keys::Digest;
use crate::ledger::Ledger;
use crate::services::wallets::found;
use crate::services::wallets::record_or_default;
use crate::services::wallets::repo::Wallet;
use crate::services::wallets::repo::WalletsRepo;
use vstd::prelude::*;
use vstd::string::*;

verus! {

/// Path of the endpoint that takes transfers.
pub const TRANSFER_PATH: &'static str = "/v1/wallets/transfer";

/// Path of the endpoint that tells the balance of a wallet.
pub const WALLET_PATH: &'static str = "/v1/wallet/:pub_key";

/// The read side of the wallets service: a snapshot of the table, and what
/// can be asked of it.
#[derive(Clone, Copy, Debug)]
pub struct WalletsApi<'a> {
    /// The table as of the snapshot that the request is answered from.
    pub snapshot: &'a Ledger<Wallet>,
}

/// The structure returned by the REST API.
#[derive(Clone, Copy, Debug, PartialEq, Eq)]
pub struct TransactionResponse {
    /// Hash of the transaction.
    pub tx_hash: Digest,
}

/// Error codes for Http server
#[derive(Debug, PartialEq, Eq)]
pub enum ApiError {
    /// Invalid parameter either in path or in query
    InvalidParam(&'static str, String),
    /// The request cannot be processed as it stands.
    UnprocessableEntity(String),
    /// Any other failure.
    Unknown(String),
}

impl ApiError {
    /// The kind of the error in words.
    pub open spec fn spec_description(&self) -> Seq<char> {
        match self {
            ApiError::InvalidParam(_, _) => "Invalid param in path or query"@,
            ApiError::UnprocessableEntity(_) => "Unprocessable entity"@,
            ApiError::Unknown(_) => "Unknown error"@,
        }
    }

    /// The text of the error: its kind, then what was wrong.
    pub open spec fn spec_message(&self) -> Seq<char> {
        match self {
            ApiError::InvalidParam(key, value) => self.spec_description() + ": Path: "@ + key@
                + ", Query: "@ + value@,
            ApiError::UnprocessableEntity(msg) => self.spec_description() + ": "@ + msg@,
            ApiError::Unknown(msg) => self.spec_description() + ": "@ + msg@,
        }
    }

    /// The body of the response that reports the error.
    pub open spec fn spec_body(&self) -> Seq<char> {
        "{\"error\": \""@ + self.spec_message() + "\"}"@
    }

    /// The kind of the error in words.
    pub fn description(&self) -> (text: &'static str)
        ensures
            text@ == self.spec_description(),
    {
        match self {
            ApiError::InvalidParam(_, _) => "Invalid param in path or query",
            ApiError::UnprocessableEntity(_) => "Unprocessable entity",
            ApiError::Unknown(_) => "Unknown error",
        }
    }

    /// The text of the error: its kind, then what was wrong.
    pub fn message(&self) -> (text: String)
        ensures
            text@ == self.spec_message(),
    {
        let mut text = String::from_str(self.description());
        match self {
            ApiError::InvalidParam(key, value) => {
                text.append(": Path: ");
                text.append(key);
                text.append(", Query: ");
                text.append(value.as_str());
            },
            ApiError::UnprocessableEntity(msg) => {
                text.append(": ");
                text.append(msg.as_str());
            },
            ApiError::Unknown(msg) => {
                text.append(": ");
                text.append(msg.as_str());
            },
        }
        text
    }

    /// The body of the response that reports the error; the response has the
    /// status of a bad request.
    pub fn body(&self) -> (text: String)
        ensures
            text@ == self.spec_body(),
    {
        let mut text = String::from_str("{\"error\": \"");
        text.append(self.message().as_str());
        text.append("\"}");
        text
    }
}

/// What a balance request is told.
#[derive(Debug, PartialEq, Eq)]
pub enum BalanceReply {
    /// The balance of the wallet that the request names.
    Balance(u64),
    /// The path of the request names no wallet.
    MissingKey(ApiError),
    /// The last segment of the path is not the hexadecimal form of a key.
    MalformedKey,
}

impl<'a> WalletsApi<'a> {
    /// The body of the response to a request whose key is malformed.
    pub open spec fn spec_malformed_key_body() -> Seq<char> {
        "{\"error\": \"Invalid request param: `public_key`\"}"@
    }

    /// The body of the response to a request whose key is malformed.
    pub fn malformed_key_body() -> (text: &'static str)
        ensures
            text@ == Self::spec_malformed_key_body(),
    {
        "{\"error\": \"Invalid request param: `public_key`\"}"
    }

    /// The balance that a query reports for a record as the table holds it:
    /// that of the record, and zero where there is none.
    pub fn reported_balance(record: Option<Wallet>) -> (balance: u64)
        ensures
            balance == match record {
                Some(wallet) => wallet.balance,
                None => 0,
            },
    {
        match record {
            Some(wallet) => wallet.balance(),
            None => Wallet::default().balance(),
        }
    }

    /// The balance of the wallet under `public_key`; zero for a key that the
    /// table does not hold.
    pub fn balance_of(&self, public_key: &AccountId) -> (balance: u64)
        requires
            self.snapshot.wf(),
        ensures
            balance == record_or_default(self.snapshot@, public_key@).balance,
    {
        let repo = WalletsRepo::new(self.snapshot);
        let repo = repo.as_read_only();
        Self::reported_balance(found(repo.get(public_key)))
    }

    /// Endpoint for getting a single wallet: `hex_wallet_key` is the last
    /// segment of the path of the request, `url` the whole address.
    pub fn get_balance(&self, hex_wallet_key: Option<&str>, url: &str) -> (reply: BalanceReply)
        requires
            self.snapshot.wf(),
        ensures
            match hex_wallet_key {
                None => reply matches BalanceReply::MissingKey(ApiError::InvalidParam(key, value))
                    && key@ == "public_key"@ && value@ == url@,
                Some(hex) => if is_hex_of_key(hex.spec_bytes()) {
                    reply matches BalanceReply::Balance(balance) && balance == record_or_default(
                        self.snapshot@,
                        key_of_hex(hex.spec_bytes()),
                    ).balance
                } else {
                    reply is MalformedKey
                },
            },
    {
        let hex_wallet_key = match hex_wallet_key {
            Some(key) => key,
            None => {
                return BalanceReply::MissingKey(
                    ApiError::InvalidParam("public_key", String::from_str(url)),
                );
            },
        };
        let public_key = match AccountId::from_hex(hex_wallet_key) {
            Some(key) => key,
            None => {
                return BalanceReply::MalformedKey;
            },
        };
        BalanceReply::Balance(self.balance_of(&public_key))
    }

    /// Common processing for transaction-accepting endpoints: what was read
    /// from the body of the request is a transaction to hand on, or the
    /// request is refused.
    pub fn post_transaction<T>(parsed: Result<Option<T>, String>) -> (accepted: Result<T, ApiError>)
        ensures
            match parsed {
                Ok(Some(tx)) => accepted == Ok::<T, ApiError>(tx),
                Ok(None) => accepted matches Err(ApiError::UnprocessableEntity(msg)) && msg@
                    == "Empty request body"@,
                Err(e) => accepted == Err::<T, ApiError>(ApiError::Unknown(e)),
            },
    {
        match parsed {
            Ok(Some(transaction)) => Ok(transaction),
            Ok(None) => Err(ApiError::UnprocessableEntity(String::from_str("Empty request body"))),
            Err(e) => Err(ApiError::Unknown(e)),
        }
    }

    /// The response that tells the sender of a transaction its hash.
    pub fn transaction_response(tx_hash: Digest) -> (response: TransactionResponse)
        ensures
            response.tx_hash == tx_hash,
    {
        TransactionResponse { tx_hash }
    }
}

} // verus!
