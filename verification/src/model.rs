//! The values the agent works with: addresses, transactions, readings and the
//! floor they are held against.

use vstd::prelude::*;

verus! {

/// The address of a deployed contract: twenty bytes, fixed once assigned.
#[derive(Clone, Copy, Debug, PartialEq, Eq)]
pub struct ContractAddress {
    pub bytes: [u8; 20],
}

/// The identifier of a submitted transaction: its thirty-two byte hash.
#[derive(Clone, Copy, Debug, PartialEq, Eq)]
pub struct TransactionId {
    pub bytes: [u8; 32],
}

/// The two numbers the contract is registered with.
#[derive(Clone, Copy, Debug, PartialEq, Eq)]
pub struct InitialPosition {
    pub first: u64,
    pub second: u64,
}

/// An intent to call the chain, with what the call carries. Each one is
/// submitted once per logical action.
#[derive(Clone, Debug, PartialEq, Eq)]
pub enum TransactionRequest {
    /// Create the contract from this code.
    Deploy { code: Vec<u8> },
    /// Register the initial position with the deployed contract.
    Register { position: InitialPosition },
    /// Swap to restore the balance; `shortfall` is how far the reading that
    /// asked for it lay below the floor.
    Swap { shortfall: u64 },
}

/// The confirmed outcome of a submitted request.
#[derive(Clone, Copy, Debug, PartialEq, Eq)]
pub struct TransactionReceipt {
    pub transaction: TransactionId,
    /// Whether the chain carried the transaction out; a receipt is also
    /// given for one that it took in and then reverted.
    pub succeeded: bool,
    /// The address of the created contract; only a deployment has one.
    pub contract_address: Option<ContractAddress>,
}

/// One answer of the balance service.
#[derive(Clone, Copy, Debug, PartialEq, Eq)]
pub struct BalanceReading {
    /// The balance, in the smallest unit of the account's currency; below
    /// nothing where the account is overdrawn.
    pub value: i64,
    /// When the reading was taken, in seconds since the Unix epoch.
    pub taken_at: u64,
}

/// The floor below which a swap is warranted.
#[derive(Clone, Copy, Debug, PartialEq, Eq)]
pub struct ThresholdConfig {
    pub floor: i64,
}

impl ThresholdConfig {
    /// A reading warrants a swap when it lies strictly below the floor; a
    /// reading equal to the floor is sufficient.
    pub open spec fn warrants_swap(self, reading: BalanceReading) -> bool {
        reading.value < self.floor
    }

    /// How far a reading lies below the floor; nothing when it does not.
    pub open spec fn shortfall(self, reading: BalanceReading) -> nat {
        if reading.value < self.floor {
            (self.floor - reading.value) as nat
        } else {
            0
        }
    }

    /// The request a reading asks for, if any.
    pub open spec fn request_for(self, reading: BalanceReading) -> Option<TransactionRequest> {
        if self.warrants_swap(reading) {
            Some(TransactionRequest::Swap { shortfall: self.shortfall(reading) as u64 })
        } else {
            None
        }
    }

    /// Whether `reading` lies strictly below the floor.
    pub fn is_below(&self, reading: &BalanceReading) -> (below: bool)
        ensures
            below == self.warrants_swap(*reading),
    {
        reading.value < self.floor
    }

    /// How far `reading` lies below the floor.
    pub fn missing(&self, reading: &BalanceReading) -> (amount: u64)
        ensures
            amount == self.shortfall(*reading),
    {
        if reading.value < self.floor {
            (self.floor as i128 - reading.value as i128) as u64
        } else {
            0
        }
    }

    /// Decides whether `reading` warrants a swap, and with what payload.
    pub fn trigger(&self, reading: &BalanceReading) -> (request: Option<TransactionRequest>)
        ensures
            request == self.request_for(*reading),
    {
        if self.is_below(reading) {
            Some(TransactionRequest::Swap { shortfall: self.missing(reading) })
        } else {
            None
        }
    }
}

} // verus!
