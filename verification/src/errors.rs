//! The error taxonomy for order execution, quoting and valuation.
//!
//! Every rejection is terminal for the current request and leaves the
//! ledger unchanged; the variants name the reason a request was refused.

use vstd::prelude::*;

verus! {

/// Why a trading, quoting or valuation request was refused.
#[derive(Clone, Copy, Debug, PartialEq, Eq, Structural)]
pub enum TradeError {
    /// No verified identity accompanies the request.
    Unauthorized,
    /// The account key is not present in the ledger.
    AccountNotFound,
    /// The upstream quote fetch failed or returned an invalid price.
    PriceUnavailable,
    /// A buy costs more than the account's current cash.
    InsufficientFunds,
    /// A sell asks for more shares than the account holds.
    InsufficientShares,
    /// A concurrent order changed the account since it was read.
    Conflict,
    /// The store could not apply the write.
    StoreUnavailable,
}

impl TradeError {
    /// The user-facing description of this rejection.
    pub open spec fn message_spec(self) -> Seq<char> {
        match self {
            TradeError::Unauthorized => "Unauthorized access"@,
            TradeError::AccountNotFound => "Account not found"@,
            TradeError::PriceUnavailable => "Could not fetch a valid price for this stock"@,
            TradeError::InsufficientFunds => "You don't have enough cash to complete this trade."@,
            TradeError::InsufficientShares => "You cannot sell more shares than you own."@,
            TradeError::Conflict => "Another order changed this account; please retry"@,
            TradeError::StoreUnavailable => "Error completing trade"@,
        }
    }

    /// Renders the rejection reason for the caller.
    pub fn message(&self) -> (r: String)
        ensures
            r@ == self.message_spec(),
    {
        match self {
            TradeError::Unauthorized => "Unauthorized access".to_owned(),
            TradeError::AccountNotFound => "Account not found".to_owned(),
            TradeError::PriceUnavailable => "Could not fetch a valid price for this stock".to_owned(),
            TradeError::InsufficientFunds => "You don't have enough cash to complete this trade.".to_owned(),
            TradeError::InsufficientShares => "You cannot sell more shares than you own.".to_owned(),
            TradeError::Conflict => "Another order changed this account; please retry".to_owned(),
            TradeError::StoreUnavailable => "Error completing trade".to_owned(),
        }
    }
}

} // verus!
