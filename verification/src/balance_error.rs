use vstd::prelude::*;

use crate::encoding::{decimal, decimal_text, decimal_text_wide, joined};

verus! {

/// A read or write that the key-value store itself reported as failed.
#[derive(Debug, Clone, Copy, PartialEq, Eq, Structural)]
pub struct StoreFailure;

/// Why the durable state could not be read or written.
#[derive(Debug, Clone, Copy, PartialEq, Eq, Structural)]
pub enum StorageError {
    /// The store reported a failed read or write.
    Unavailable,
    /// The value under a counter key is not eight bytes long.
    CorruptCounter,
    /// A record does not decode, or sits under a key that is not its own.
    CorruptRecord,
    /// The event counter has reached the largest 64-bit value.
    EventIdExhausted,
}

/// Why a command was refused.
#[derive(Debug)]
pub enum BalanceError {
    /// An account with this id exists already.
    BalanceAlreadyExists(u64),
    /// No account has this id.
    BalanceNotFound(u64),
    /// The account holds less than the amount asked for.
    InsufficientFunds { balance: u128, amount: u128 },
    /// Crediting the amount would exceed the 128-bit range.
    Overflow,
    /// The store failed while the command was being committed.
    Storage(StorageError),
    /// A handler stopped abnormally.
    UnknownError(String),
}

impl StorageError {
    /// The error in words.
    pub open spec fn spec_message(self) -> Seq<char> {
        match self {
            StorageError::Unavailable => "the store failed to read or write"@,
            StorageError::CorruptCounter => "a counter in the store is not eight bytes long"@,
            StorageError::CorruptRecord => "a record in the store is malformed or misplaced"@,
            StorageError::EventIdExhausted => "no event id is left"@,
        }
    }

    /// The error in words.
    pub fn message(&self) -> (r: &'static str)
        ensures
            r@ == self.spec_message(),
    {
        match self {
            StorageError::Unavailable => "the store failed to read or write",
            StorageError::CorruptCounter => "a counter in the store is not eight bytes long",
            StorageError::CorruptRecord => "a record in the store is malformed or misplaced",
            StorageError::EventIdExhausted => "no event id is left",
        }
    }
}

impl BalanceError {
    /// The error in words, for the caller of a command.
    pub open spec fn spec_message(self) -> Seq<char> {
        match self {
            BalanceError::BalanceAlreadyExists(id) => "Balance with id "@ + decimal(id as nat)
                + " already exists"@,
            BalanceError::BalanceNotFound(id) => "Balance with id "@ + decimal(id as nat)
                + " not found"@,
            BalanceError::InsufficientFunds { balance, amount } =>
                "Insufficient funds for withdrawal. Balance: "@ + decimal(balance as nat)
                + ", Requested: "@ + decimal(amount as nat),
            BalanceError::Overflow => "Amount exceeds the range of a balance"@,
            BalanceError::Storage(e) => "Storage error: "@ + e.spec_message(),
            BalanceError::UnknownError(message) => "Unknown error: "@ + message@,
        }
    }

    /// The error in words, for the caller of a command.
    pub fn message(&self) -> (r: String)
        ensures
            r@ == self.spec_message(),
    {
        match self {
            BalanceError::BalanceAlreadyExists(id) => {
                let head = joined("Balance with id ", decimal_text(*id).as_str());
                joined(head.as_str(), " already exists")
            },
            BalanceError::BalanceNotFound(id) => {
                let head = joined("Balance with id ", decimal_text(*id).as_str());
                joined(head.as_str(), " not found")
            },
            BalanceError::InsufficientFunds { balance, amount } => {
                let held = joined(
                    "Insufficient funds for withdrawal. Balance: ",
                    decimal_text_wide(*balance).as_str(),
                );
                let asked = joined(held.as_str(), ", Requested: ");
                joined(asked.as_str(), decimal_text_wide(*amount).as_str())
            },
            BalanceError::Overflow => "Amount exceeds the range of a balance".to_owned(),
            BalanceError::Storage(e) => joined("Storage error: ", e.message()),
            BalanceError::UnknownError(message) => joined("Unknown error: ", message.as_str()),
        }
    }
}

} // verus!
