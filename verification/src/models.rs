//! The data model: accounts, holdings, transactions, trade requests,
//! quote profiles and the session user record, together with their
//! mathematical views.
//!
//! All monetary amounts are integer minor currency units (cents); share
//! quantities are integers. A holding row exists only while its quantity
//! is positive, and a transaction is an immutable record of one executed
//! buy or sell.

use vstd::prelude::*;

verus! {

/// The side of an order.
#[derive(Clone, Copy, Debug, PartialEq, Eq, Structural)]
pub enum TradeSide {
    Buy,
    Sell,
}

/// A user's account: cash balance plus the last computed aggregate value
/// and day change (both advisory, recomputed by portfolio valuation).
#[derive(Debug, Clone, PartialEq, Eq)]
pub struct Account {
    pub id: String,
    pub value: i64,
    pub cash: i64,
    pub change: i64,
}

/// The mathematical view of an [`Account`].
pub struct AccountV {
    pub id: Seq<char>,
    pub value: int,
    pub cash: int,
    pub change: int,
}

impl View for Account {
    type V = AccountV;

    open spec fn view(&self) -> AccountV {
        AccountV {
            id: self.id@,
            value: self.value as int,
            cash: self.cash as int,
            change: self.change as int,
        }
    }
}

impl DeepView for Account {
    type V = AccountV;

    open spec fn deep_view(&self) -> AccountV {
        self@
    }
}

/// The starting endowment for a newly created account.
#[derive(Debug, Clone, PartialEq, Eq)]
pub struct CreateAccount {
    pub value: i64,
    pub cash: i64,
}

/// An account's position in one instrument. `purchase_price` is the
/// weighted-average cost per share over all buy fills; `current_price`
/// and `total_value` are snapshots taken when the row was inserted.
#[derive(Debug, Clone, PartialEq, Eq)]
pub struct Holding {
    pub account_id: String,
    pub stock_symbol: String,
    pub stock_name: String,
    pub quantity: i64,
    pub purchase_price: i64,
    pub total_value: i64,
    pub current_price: i64,
}

/// The mathematical view of a [`Holding`].
pub struct HoldingV {
    pub account_id: Seq<char>,
    pub stock_symbol: Seq<char>,
    pub stock_name: Seq<char>,
    pub quantity: int,
    pub purchase_price: int,
    pub total_value: int,
    pub current_price: int,
}

impl View for Holding {
    type V = HoldingV;

    open spec fn view(&self) -> HoldingV {
        HoldingV {
            account_id: self.account_id@,
            stock_symbol: self.stock_symbol@,
            stock_name: self.stock_name@,
            quantity: self.quantity as int,
            purchase_price: self.purchase_price as int,
            total_value: self.total_value as int,
            current_price: self.current_price as int,
        }
    }
}

impl DeepView for Holding {
    type V = HoldingV;

    open spec fn deep_view(&self) -> HoldingV {
        self@
    }
}

/// An immutable record of one executed buy or sell.
#[derive(Debug, Clone, PartialEq, Eq)]
pub struct Transaction {
    pub id: String,
    pub account_id: String,
    pub stock_symbol: String,
    pub transaction_type: String,
    pub quantity: i64,
    pub price: i64,
    pub timestamp: String,
}

/// The mathematical view of a [`Transaction`].
pub struct TransactionV {
    pub id: Seq<char>,
    pub account_id: Seq<char>,
    pub stock_symbol: Seq<char>,
    pub transaction_type: Seq<char>,
    pub quantity: int,
    pub price: int,
    pub timestamp: Seq<char>,
}

impl View for Transaction {
    type V = TransactionV;

    open spec fn view(&self) -> TransactionV {
        TransactionV {
            id: self.id@,
            account_id: self.account_id@,
            stock_symbol: self.stock_symbol@,
            transaction_type: self.transaction_type@,
            quantity: self.quantity as int,
            price: self.price as int,
            timestamp: self.timestamp@,
        }
    }
}

impl DeepView for Transaction {
    type V = TransactionV;

    open spec fn deep_view(&self) -> TransactionV {
        self@
    }
}

/// An order as submitted by a caller: which symbol, and how many shares.
#[derive(Debug, Clone, PartialEq, Eq)]
pub struct TradeRequest {
    pub stock_symbol: String,
    pub quantity: i64,
}

/// One holding enriched with a fresh quote for the portfolio read path.
#[derive(Debug, Clone, PartialEq, Eq)]
pub struct HoldingResponse {
    pub stock_symbol: String,
    pub stock_name: String,
    pub quantity: i64,
    pub current_price: i64,
    pub total_value: i64,
    pub day_change: i64,
    pub day_change_percent: i64,
    pub purchase_price: i64,
    pub stock_logo_url: String,
    pub overall_change: i64,
    pub category: String,
}

/// The mathematical view of a [`HoldingResponse`].
pub struct HoldingResponseV {
    pub stock_symbol: Seq<char>,
    pub stock_name: Seq<char>,
    pub quantity: int,
    pub current_price: int,
    pub total_value: int,
    pub day_change: int,
    pub day_change_percent: int,
    pub purchase_price: int,
    pub stock_logo_url: Seq<char>,
    pub overall_change: int,
    pub category: Seq<char>,
}

impl View for HoldingResponse {
    type V = HoldingResponseV;

    open spec fn view(&self) -> HoldingResponseV {
        HoldingResponseV {
            stock_symbol: self.stock_symbol@,
            stock_name: self.stock_name@,
            quantity: self.quantity as int,
            current_price: self.current_price as int,
            total_value: self.total_value as int,
            day_change: self.day_change as int,
            day_change_percent: self.day_change_percent as int,
            purchase_price: self.purchase_price as int,
            stock_logo_url: self.stock_logo_url@,
            overall_change: self.overall_change as int,
            category: self.category@,
        }
    }
}

impl DeepView for HoldingResponse {
    type V = HoldingResponseV;

    open spec fn deep_view(&self) -> HoldingResponseV {
        self@
    }
}

/// An account's holdings enriched with fresh quotes.
#[derive(Debug, Clone, PartialEq, Eq)]
pub struct Portfolio {
    pub holdings: Vec<HoldingResponse>,
}

impl View for Portfolio {
    type V = Seq<HoldingResponseV>;

    open spec fn view(&self) -> Seq<HoldingResponseV> {
        self.holdings.deep_view()
    }
}

/// Descriptive data for one instrument: display name, logo, sector.
#[derive(Debug, Clone, PartialEq, Eq)]
pub struct FinnhubProfile {
    pub name: String,
    pub logo: String,
    pub finnhub_industry: String,
}

/// The mathematical view of a [`FinnhubProfile`].
pub struct ProfileV {
    pub name: Seq<char>,
    pub logo: Seq<char>,
    pub finnhub_industry: Seq<char>,
}

impl View for FinnhubProfile {
    type V = ProfileV;

    open spec fn view(&self) -> ProfileV {
        ProfileV {
            name: self.name@,
            logo: self.logo@,
            finnhub_industry: self.finnhub_industry@,
        }
    }
}

impl DeepView for FinnhubProfile {
    type V = ProfileV;

    open spec fn deep_view(&self) -> ProfileV {
        self@
    }
}

/// The verified identity attached to a session.
#[derive(Debug, Clone, PartialEq, Eq)]
pub struct GoogleUserInfo {
    pub email: String,
    pub name: String,
    pub picture: String,
}

impl Default for GoogleUserInfo {
    /// The anonymous user record: every field is the empty string.
    fn default() -> (r: Self)
        ensures
            r.email@ == Seq::<char>::empty(),
            r.name@ == Seq::<char>::empty(),
            r.picture@ == Seq::<char>::empty(),
    {
        GoogleUserInfo { email: String::new(), name: String::new(), picture: String::new() }
    }
}

impl GoogleUserInfo {
    /// A session carries a verified identity exactly when its email key
    /// is non-empty; everything else is `Unauthorized`.
    pub fn validate(&self) -> (r: Result<(), crate::errors::TradeError>)
        ensures
            r is Ok <==> self.email@.len() > 0,
            r is Err ==> r == Err::<(), crate::errors::TradeError>(
                crate::errors::TradeError::Unauthorized,
            ),
    {
        if self.email.as_str().is_empty() {
            Err(crate::errors::TradeError::Unauthorized)
        } else {
            Ok(())
        }
    }
}

} // verus!
