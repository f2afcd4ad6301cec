//! Business-rule failures of the wallets service.

use vstd::prelude::*;
use vstd::string::*;

verus! {

/// Why an ordered transfer left the ledger untouched.
#[derive(Clone, Copy, Debug, PartialEq, Eq, Structural)]
pub enum Error {
    /// The sender is unknown or holds fewer tokens than the transfer moves.
    InsufficientCurrencyAmount,
    /// The transaction's nonce differs from the one stored for the sender.
    InvalidNonce,
}

impl Error {
    /// The code under which the failure is recorded in the transaction history.
    pub open spec fn spec_code(self) -> u8 {
        match self {
            Error::InsufficientCurrencyAmount => 0,
            Error::InvalidNonce => 1,
        }
    }

    /// The code under which the failure is recorded in the transaction history.
    #[verifier::when_used_as_spec(spec_code)]
    pub fn code(self) -> (c: u8)
        ensures
            c == self.spec_code(),
    {
        match self {
            Error::InsufficientCurrencyAmount => 0,
            Error::InvalidNonce => 1,
        }
    }

    /// The failure that a recorded code stands for.
    pub fn from_code(code: u8) -> (e: Option<Error>)
        ensures
            e == if code == 0 {
                Some(Error::InsufficientCurrencyAmount)
            } else if code == 1 {
                Some(Error::InvalidNonce)
            } else {
                None
            },
            e matches Some(err) ==> err.spec_code() == code,
    {
        if code == 0 {
            Some(Error::InsufficientCurrencyAmount)
        } else if code == 1 {
            Some(Error::InvalidNonce)
        } else {
            None
        }
    }

    /// What a person is told of the failure.
    pub open spec fn spec_message(self) -> Seq<char> {
        match self {
            Error::InsufficientCurrencyAmount => "Insufficient currency amount"@,
            Error::InvalidNonce => "Invalid nonce"@,
        }
    }

    /// What a person is told of the failure.
    pub fn message(&self) -> (s: String)
        ensures
            s@ == self.spec_message(),
    {
        match self {
            Error::InsufficientCurrencyAmount => String::from_str("Insufficient currency amount"),
            Error::InvalidNonce => String::from_str("Invalid nonce"),
        }
    }
}

} // verus!
