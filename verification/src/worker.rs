use vstd::prelude::*;

use crate::http::HttpError;
use crate::pallet::{BlockNumber, Call, Pallet, PalletState};

verus! {

/// Why a run of the offchain worker ended without a submitted price.
#[derive(Clone, Copy, Debug, PartialEq, Eq)]
pub enum WorkerError {
    /// An unsigned transaction would be rejected as stale anyway.
    TooEarly,
    /// The price could not be fetched.
    FetchFailed,
    /// The transaction could not be submitted to the pool.
    SubmitFailed,
}

impl WorkerError {
    /// The message the worker logs for this error.
    pub fn message(&self) -> (r: &'static str)
        ensures
            r@ == match self {
                WorkerError::TooEarly => "Too early to send unsigned transaction"@,
                WorkerError::FetchFailed => "Failed to fetch price"@,
                WorkerError::SubmitFailed => "Unable to submit unsigned transaction."@,
            },
    {
        match self {
            WorkerError::TooEarly => "Too early to send unsigned transaction",
            WorkerError::FetchFailed => "Failed to fetch price",
            WorkerError::SubmitFailed => "Unable to submit unsigned transaction.",
        }
    }
}

/// What the offchain worker reports back after each action.
#[derive(Clone, Copy, Debug, PartialEq, Eq)]
pub enum WorkerEvent {
    /// The worker was started for block `block_number`.
    Started { block_number: BlockNumber },
    /// The price fetch for block `block_number` ended with `result`.
    PriceFetched { block_number: BlockNumber, result: Result<u32, HttpError> },
    /// Submitting the unsigned transaction ended with `result`.
    Submitted { result: Result<(), ()> },
}

/// What the offchain worker does next.
#[derive(Debug)]
pub enum WorkerAction {
    /// Fetch the current price over HTTP.
    FetchPrice,
    /// Submit `call` as an unsigned transaction.
    SubmitUnsigned(Call),
    /// Stop, with the run's result.
    Finish(Result<(), WorkerError>),
}

/// The worker's next action after `event`, with the pallet in state `s`:
/// no fetch while an unsigned transaction would be stale; a fetched price is
/// wrapped in a `submit_price_unsigned` call for the block it was fetched at.
pub open spec fn worker_action(s: PalletState, event: WorkerEvent) -> WorkerAction {
    match event {
        WorkerEvent::Started { block_number } => if s.next_unsigned_at > block_number {
            WorkerAction::Finish(Err(WorkerError::TooEarly))
        } else {
            WorkerAction::FetchPrice
        },
        WorkerEvent::PriceFetched { block_number, result } => match result {
            Ok(price) => WorkerAction::SubmitUnsigned(
                Call::SubmitPriceUnsigned { block_number, price },
            ),
            Err(_) => WorkerAction::Finish(Err(WorkerError::FetchFailed)),
        },
        WorkerEvent::Submitted { result } => match result {
            Ok(()) => WorkerAction::Finish(Ok(())),
            Err(()) => WorkerAction::Finish(Err(WorkerError::SubmitFailed)),
        },
    }
}

impl Pallet {
    /// The decisions of the offchain worker that fetches the price and sends
    /// it back in an unsigned transaction: given what the last action
    /// reported, the next action.
    pub fn fetch_price_and_send_raw_unsigned(&self, event: WorkerEvent) -> (r: WorkerAction)
        ensures
            r == worker_action(self@, event),
    {
        match event {
            WorkerEvent::Started { block_number } => {
                if self.next_unsigned_at() > block_number {
                    WorkerAction::Finish(Err(WorkerError::TooEarly))
                } else {
                    WorkerAction::FetchPrice
                }
            },
            WorkerEvent::PriceFetched { block_number, result } => match result {
                Ok(price) => WorkerAction::SubmitUnsigned(
                    Call::SubmitPriceUnsigned { block_number, price },
                ),
                Err(_) => WorkerAction::Finish(Err(WorkerError::FetchFailed)),
            },
            WorkerEvent::Submitted { result } => match result {
                Ok(()) => WorkerAction::Finish(Ok(())),
                Err(()) => WorkerAction::Finish(Err(WorkerError::SubmitFailed)),
            },
        }
    }
}

} // verus!
