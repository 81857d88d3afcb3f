//! The errors of the emissions engine and their user-visible text.

use vstd::prelude::*;
use vstd::string::StringExecFns;

verus! {

/// Why an allocation was refused at creation.
#[derive(Clone, Copy, Debug, PartialEq, Eq, Structural)]
pub enum InvalidReason {
    /// The unlock schedule starts later than the vest schedule.
    UnlockStartsAfterVest,
    /// More is recorded as withdrawn than the allocation holds.
    WithdrawnExceedsTotal,
}

/// Every way in which an operation of the engine can fail.
#[derive(Clone, Debug, PartialEq, Eq)]
pub enum ContractError {
    /// Someone other than the owner attempted to terminate an allocation or
    /// to hand on the ownership.
    Unauthorized,
    /// Someone other than the owner sent the funding for a batch of
    /// allocations.
    OnlyOwnerCanCreateAllocations,
    /// The account already has a live allocation.
    AllocationAlreadyExists { account: String },
    /// The allocation offered for the account is malformed.
    InvalidAllocation { account: String, reason: InvalidReason },
    /// The funding transfer was made in another token than the designated one.
    WrongToken,
    /// The funding transfer does not equal the sum of the batch. `expected`
    /// is that sum, capped at `u128::MAX`; `actual` is what was sent.
    AmountMismatch { expected: u128, actual: u128 },
    /// The account has no allocation.
    NotFound,
    /// The withdrawal comes before the end of the vesting cliff.
    TooEarly,
    /// Nothing can be withdrawn at this moment.
    NothingToWithdraw,
    /// Termination finds nothing to pay and nothing to claw back.
    NoTokensToRefund,
}

/// A [`ContractError`] as a mathematical value: account names are sequences
/// of characters.
pub ghost enum ErrorView {
    Unauthorized,
    OnlyOwnerCanCreateAllocations,
    AllocationAlreadyExists { account: Seq<char> },
    InvalidAllocation { account: Seq<char>, reason: InvalidReason },
    WrongToken,
    AmountMismatch { expected: u128, actual: u128 },
    NotFound,
    TooEarly,
    NothingToWithdraw,
    NoTokensToRefund,
}

impl View for ContractError {
    type V = ErrorView;

    open spec fn view(&self) -> ErrorView {
        match *self {
            ContractError::Unauthorized => ErrorView::Unauthorized,
            ContractError::OnlyOwnerCanCreateAllocations => {
                ErrorView::OnlyOwnerCanCreateAllocations
            },
            ContractError::AllocationAlreadyExists { account } => {
                ErrorView::AllocationAlreadyExists { account: account@ }
            },
            ContractError::InvalidAllocation { account, reason } => {
                ErrorView::InvalidAllocation { account: account@, reason }
            },
            ContractError::WrongToken => ErrorView::WrongToken,
            ContractError::AmountMismatch { expected, actual } => {
                ErrorView::AmountMismatch { expected, actual }
            },
            ContractError::NotFound => ErrorView::NotFound,
            ContractError::TooEarly => ErrorView::TooEarly,
            ContractError::NothingToWithdraw => ErrorView::NothingToWithdraw,
            ContractError::NoTokensToRefund => ErrorView::NoTokensToRefund,
        }
    }
}

impl InvalidReason {
    /// What is wrong with the allocation, in words.
    pub open spec fn spec_text(self) -> Seq<char> {
        match self {
            InvalidReason::UnlockStartsAfterVest => {
                "Unlock schedule needs to begin before vest schedule"@
            },
            InvalidReason::WithdrawnExceedsTotal => {
                "Withdrawn amount must not exceed total amount"@
            },
        }
    }

    /// What is wrong with the allocation, in words.
    pub fn text(&self) -> (r: String)
        ensures
            r@ == self.spec_text(),
    {
        match self {
            InvalidReason::UnlockStartsAfterVest => {
                String::from_str("Unlock schedule needs to begin before vest schedule")
            },
            InvalidReason::WithdrawnExceedsTotal => {
                String::from_str("Withdrawn amount must not exceed total amount")
            },
        }
    }
}

impl ErrorView {
    /// The bare reason of the error, naming the account where there is one.
    pub open spec fn reason(self) -> Seq<char> {
        match self {
            ErrorView::Unauthorized => "Unauthorized"@,
            ErrorView::OnlyOwnerCanCreateAllocations => "Only owner can create allocations"@,
            ErrorView::AllocationAlreadyExists { account } => {
                "Allocation already exists for user "@ + account
            },
            ErrorView::InvalidAllocation { account, reason } => {
                "Invalid Allocation for "@ + account + ". "@ + reason.spec_text()
            },
            ErrorView::WrongToken => "Only WHALE token can be deposited"@,
            ErrorView::AmountMismatch { .. } => "WHALE deposit amount mismatch"@,
            ErrorView::NotFound => "white_whale::emissions::AllocationInfo not found"@,
            ErrorView::TooEarly => "Withdrawals not allowed yet"@,
            ErrorView::NothingToWithdraw => "No unlocked WHALE to be withdrawn"@,
            ErrorView::NoTokensToRefund => "No WHALE available to refund."@,
        }
    }

    /// The text shown to the user: a missing allocation is reported as it
    /// is, every other error as a generic error with its reason.
    pub open spec fn text(self) -> Seq<char> {
        if self is NotFound {
            self.reason()
        } else {
            "Generic error: "@ + self.reason()
        }
    }
}

impl ContractError {
    /// The bare reason of the error, naming the account where there is one.
    pub fn reason(&self) -> (r: String)
        ensures
            r@ == self@.reason(),
    {
        match self {
            ContractError::Unauthorized => String::from_str("Unauthorized"),
            ContractError::OnlyOwnerCanCreateAllocations => {
                String::from_str("Only owner can create allocations")
            },
            ContractError::AllocationAlreadyExists { account } => {
                String::from_str("Allocation already exists for user ").concat(account.as_str())
            },
            ContractError::InvalidAllocation { account, reason } => {
                let detail = reason.text();
                String::from_str("Invalid Allocation for ").concat(account.as_str()).concat(
                    ". ",
                ).concat(detail.as_str())
            },
            ContractError::WrongToken => String::from_str("Only WHALE token can be deposited"),
            ContractError::AmountMismatch { .. } => {
                String::from_str("WHALE deposit amount mismatch")
            },
            ContractError::NotFound => {
                String::from_str("white_whale::emissions::AllocationInfo not found")
            },
            ContractError::TooEarly => String::from_str("Withdrawals not allowed yet"),
            ContractError::NothingToWithdraw => {
                String::from_str("No unlocked WHALE to be withdrawn")
            },
            ContractError::NoTokensToRefund => String::from_str("No WHALE available to refund."),
        }
    }

    /// The text shown to the user.
    pub fn to_string(&self) -> (r: String)
        ensures
            r@ == self@.text(),
    {
        let reason = self.reason();
        match self {
            ContractError::NotFound => reason,
            _ => String::from_str("Generic error: ").concat(reason.as_str()),
        }
    }
}

} // verus!
