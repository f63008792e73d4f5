use vstd::prelude::*;

use crate::address::AddressError;

verus! {

/// Why the details of a transaction could not be worked out.
#[derive(Debug, Clone, PartialEq, Eq)]
pub enum TransactionDetailError {
    FeeError(String),
    FeeRateError(String),
    AddressError(AddressError),
    FiatAmountError(String),
}

impl From<AddressError> for TransactionDetailError {
    fn from(error: AddressError) -> (r: Self) {
        TransactionDetailError::AddressError(error)
    }
}

impl vstd::std_specs::convert::FromSpecImpl<AddressError> for TransactionDetailError {
    open spec fn obeys_from_spec() -> bool {
        true
    }

    open spec fn from_spec(error: AddressError) -> TransactionDetailError {
        TransactionDetailError::AddressError(error)
    }
}

/// Where the chain places a transaction: seen but unconfirmed at a time, or
/// confirmed in a block at a height and time.
#[derive(Debug, Clone, Copy, PartialEq, Eq, Structural)]
pub enum ChainPosition {
    Unconfirmed(u64),
    Confirmed { height: u32, confirmation_time: u64 },
}

#[derive(Debug, Clone, Hash, PartialEq, Eq, Structural)]
pub struct PendingDetails {
    pub last_seen: u64,
}

#[derive(Debug, Clone, Hash, PartialEq, Eq, Structural)]
pub struct ConfirmedDetails {
    pub block_number: u32,
    pub confirmation_time: u64,
}

/// Whether a transaction is still waiting for a block, with what is known of it.
#[derive(Debug, Clone, Hash, PartialEq, Eq, Structural)]
pub enum PendingOrConfirmed {
    Pending(PendingDetails),
    Confirmed(ConfirmedDetails),
}

impl PendingOrConfirmed {
    pub fn new(chain_position: &ChainPosition) -> (r: Self)
        ensures
            match *chain_position {
                ChainPosition::Unconfirmed(last_seen) => r == PendingOrConfirmed::Pending(
                    PendingDetails { last_seen },
                ),
                ChainPosition::Confirmed { height, confirmation_time } => r
                    == PendingOrConfirmed::Confirmed(
                    ConfirmedDetails { block_number: height, confirmation_time },
                ),
            },
    {
        match chain_position {
            ChainPosition::Unconfirmed(last_seen) => PendingOrConfirmed::Pending(
                PendingDetails { last_seen: *last_seen },
            ),
            ChainPosition::Confirmed { height, confirmation_time } => PendingOrConfirmed::Confirmed(
                ConfirmedDetails { block_number: *height, confirmation_time: *confirmation_time },
            ),
        }
    }

    pub fn is_confirmed(&self) -> (r: bool)
        ensures
            r == (self is Confirmed),
    {
        match self {
            PendingOrConfirmed::Confirmed(_) => true,
            PendingOrConfirmed::Pending(_) => false,
        }
    }
}

} // verus!
