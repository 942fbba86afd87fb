//! Portfolio valuation: the read path that joins an account's holdings
//! with fresh quotes.
//!
//! For each holding it computes the current value, the unrealized
//! change against the average cost, and the day-change figures from the
//! quote; the per-holding values are summed into the portfolio total,
//! and the account's advisory `value` is its cash plus that total.
//! A valuation either completes for every holding or not at all: a
//! value that no longer fits the store's 64-bit fields aborts the whole
//! valuation, exactly as a failed price fetch does — a partial
//! valuation would misrepresent the account.

use vstd::prelude::*;

use crate::errors::TradeError;
use crate::ledger::Ledger;
use crate::ledger::LedgerV;
use crate::ledger::account_index;
use crate::ledger::account_of;
use crate::ledger::has_account;
use crate::ledger::holding_ok;
use crate::ledger::ledger_balanced;
use crate::ledger::ledger_wf;
use crate::models::AccountV;
use crate::models::FinnhubProfile;
use crate::models::Holding;
use crate::models::HoldingResponse;
use crate::models::HoldingResponseV;
use crate::models::HoldingV;
use crate::models::Portfolio;
use crate::quotes::Quote;
use crate::quotes::QuoteV;
use crate::quotes::quote_ok;

verus! {

/// The market value of one holding at a quoted price.
pub open spec fn position_value(h: HoldingV, q: QuoteV) -> int {
    q.price * h.quantity
}

/// What the position cost at its average cost per share.
pub open spec fn cost_basis(h: HoldingV) -> int {
    h.purchase_price * h.quantity
}

/// The day's value change of one holding: price movement since the
/// previous close, times the quantity held.
pub open spec fn change_value(h: HoldingV, q: QuoteV) -> int {
    (q.price - q.prev_close) * h.quantity
}

/// The total market value of a portfolio, holding by holding.
pub open spec fn portfolio_total(hs: Seq<HoldingV>, qs: Seq<QuoteV>) -> int
    decreases hs.len(),
{
    if hs.len() == 0 {
        0
    } else {
        portfolio_total(hs.drop_last(), qs.drop_last()) + position_value(hs.last(), qs.last())
    }
}

/// The total day change of a portfolio, holding by holding.
pub open spec fn change_sum(hs: Seq<HoldingV>, qs: Seq<QuoteV>) -> int
    decreases hs.len(),
{
    if hs.len() == 0 {
        0
    } else {
        change_sum(hs.drop_last(), qs.drop_last()) + change_value(hs.last(), qs.last())
    }
}

/// Every per-holding value and the portfolio total fit the store's
/// 64-bit fields.
pub open spec fn valuation_fits(hs: Seq<HoldingV>, qs: Seq<QuoteV>) -> bool {
    &&& forall|i: int| 0 <= i < hs.len() ==> position_value(#[trigger] hs[i], qs[i]) <= i64::MAX
    &&& forall|i: int| 0 <= i < hs.len() ==> cost_basis(#[trigger] hs[i]) <= i64::MAX
    &&& portfolio_total(hs, qs) <= i64::MAX
}

/// Every per-holding day change and the total day change fit the
/// store's 64-bit fields.
pub open spec fn change_fits(hs: Seq<HoldingV>, qs: Seq<QuoteV>) -> bool {
    &&& forall|i: int|
        0 <= i < hs.len() ==> -(i64::MAX as int) <= change_value(#[trigger] hs[i], qs[i])
            <= i64::MAX
    &&& -(i64::MAX as int) <= change_sum(hs, qs) <= i64::MAX
}

/// The logo a holding is displayed with: from the profile when one was
/// fetched, otherwise empty.
pub open spec fn profile_logo(p: Option<FinnhubProfile>) -> Seq<char> {
    match p {
        Some(x) => x.logo@,
        None => Seq::<char>::empty(),
    }
}

/// The sector a holding is displayed with: from the profile when one
/// was fetched, otherwise empty.
pub open spec fn profile_category(p: Option<FinnhubProfile>) -> Seq<char> {
    match p {
        Some(x) => x.finnhub_industry@,
        None => Seq::<char>::empty(),
    }
}

/// One holding enriched with a fresh quote and its profile data.
pub open spec fn response_for(
    h: HoldingV,
    q: QuoteV,
    logo: Seq<char>,
    category: Seq<char>,
) -> HoldingResponseV {
    HoldingResponseV {
        stock_symbol: h.stock_symbol,
        stock_name: h.stock_name,
        quantity: h.quantity,
        current_price: q.price,
        total_value: position_value(h, q),
        day_change: q.day_change,
        day_change_percent: q.day_change_percent,
        purchase_price: h.purchase_price,
        stock_logo_url: logo,
        overall_change: position_value(h, q) - cost_basis(h),
        category,
    }
}

/// Joins each holding with its quote (and profile, where one was
/// fetched) and sums the portfolio total. Returns the enriched
/// portfolio and the total, or nothing when some value no longer fits
/// the store's 64-bit fields — then the whole valuation is abandoned.
pub fn value_portfolio(
    holdings: &Vec<Holding>,
    quotes: &Vec<Quote>,
    profiles: &Vec<Option<FinnhubProfile>>,
) -> (r: Option<(Portfolio, i64)>)
    requires
        holdings.len() == quotes.len(),
        holdings.len() == profiles.len(),
        forall|i: int|
            0 <= i < holdings.deep_view().len() ==> holding_ok(#[trigger] holdings.deep_view()[i]),
        forall|i: int|
            0 <= i < quotes.deep_view().len() ==> quote_ok(#[trigger] quotes.deep_view()[i]),
    ensures
        r is Some <==> valuation_fits(holdings.deep_view(), quotes.deep_view()),
        r matches Some(pt) ==> {
            &&& pt.1 as int == portfolio_total(holdings.deep_view(), quotes.deep_view())
            &&& pt.0@.len() == holdings@.len()
            &&& forall|i: int|
                0 <= i < holdings@.len() ==> pt.0@[i] == response_for(
                    holdings.deep_view()[i],
                    quotes.deep_view()[i],
                    profile_logo(#[trigger] profiles@[i]),
                    profile_category(profiles@[i]),
                )
        },
{
    let ghost hs = holdings.deep_view();
    let ghost qs = quotes.deep_view();
    let n = holdings.len();
    let mut out: Vec<HoldingResponse> = Vec::new();
    let mut acc: i128 = 0;
    let mut i: usize = 0;
    proof {
        assert(hs.take(0) =~= Seq::<HoldingV>::empty());
        assert(qs.take(0) =~= Seq::<QuoteV>::empty());
    }
    while i < n
        invariant
            n == holdings.len(),
            holdings.len() == quotes.len(),
            holdings.len() == profiles.len(),
            hs == holdings.deep_view(),
            qs == quotes.deep_view(),
            forall|k: int| 0 <= k < hs.len() ==> holding_ok(#[trigger] hs[k]),
            forall|k: int| 0 <= k < qs.len() ==> quote_ok(#[trigger] qs[k]),
            i <= n,
            acc as int == portfolio_total(hs.take(i as int), qs.take(i as int)),
            0 <= acc as int <= (i as int) * (i64::MAX as int),
            forall|k: int| 0 <= k < i ==> position_value(#[trigger] hs[k], qs[k]) <= i64::MAX,
            forall|k: int| 0 <= k < i ==> cost_basis(#[trigger] hs[k]) <= i64::MAX,
            out.deep_view().len() == i as int,
            forall|k: int|
                0 <= k < i ==> out.deep_view()[k] == response_for(
                    hs[k],
                    qs[k],
                    profile_logo(#[trigger] profiles@[k]),
                    profile_category(profiles@[k]),
                ),
        decreases n - i,
    {
        let h = &holdings[i];
        let q = &quotes[i];
        proof {
            assert(hs[i as int] == holdings@[i as int]@);
            assert(qs[i as int] == quotes@[i as int]@);
            assert(q.price * h.quantity <= i64::MAX * i64::MAX) by (nonlinear_arith)
                requires
                    1 <= q.price <= i64::MAX && 1 <= h.quantity <= i64::MAX,
            ;
            assert(q.price * h.quantity >= 1) by (nonlinear_arith)
                requires
                    1 <= q.price && 1 <= h.quantity,
            ;
            assert(h.purchase_price * h.quantity <= i64::MAX * i64::MAX) by (nonlinear_arith)
                requires
                    1 <= h.purchase_price <= i64::MAX && 1 <= h.quantity <= i64::MAX,
            ;
            assert(h.purchase_price * h.quantity >= 1) by (nonlinear_arith)
                requires
                    1 <= h.purchase_price && 1 <= h.quantity,
            ;
        }
        let value_wide: i128 = (q.price as i128) * (h.quantity as i128);
        if value_wide > i64::MAX as i128 {
            proof {
                assert(!valuation_fits(hs, qs));
            }
            return None;
        }
        let basis_wide: i128 = (h.purchase_price as i128) * (h.quantity as i128);
        if basis_wide > i64::MAX as i128 {
            proof {
                assert(!valuation_fits(hs, qs));
            }
            return None;
        }
        let total_value = value_wide as i64;
        let basis = basis_wide as i64;
        let (logo, category) = match &profiles[i] {
            Some(p) => (p.logo.clone(), p.finnhub_industry.clone()),
            None => (String::new(), String::new()),
        };
        let resp = HoldingResponse {
            stock_symbol: h.stock_symbol.clone(),
            stock_name: h.stock_name.clone(),
            quantity: h.quantity,
            current_price: q.price,
            total_value,
            day_change: q.day_change,
            day_change_percent: q.day_change_percent,
            purchase_price: h.purchase_price,
            stock_logo_url: logo,
            overall_change: total_value - basis,
            category,
        };
        let ghost pre_out = out.deep_view();
        out.push(resp);
        acc = acc + value_wide;
        proof {
            assert(hs.take(i + 1).drop_last() =~= hs.take(i as int));
            assert(qs.take(i + 1).drop_last() =~= qs.take(i as int));
            assert(hs.take(i + 1).last() == hs[i as int]);
            assert(qs.take(i + 1).last() == qs[i as int]);
            assert(out.deep_view() =~= pre_out.push(resp@));
        }
        i += 1;
    }
    proof {
        assert(hs.take(n as int) =~= hs);
        assert(qs.take(n as int) =~= qs);
    }
    if acc > i64::MAX as i128 {
        proof {
            assert(!valuation_fits(hs, qs));
        }
        return None;
    }
    Some((Portfolio { holdings: out }, acc as i64))
}

/// Sums the day change over a portfolio: for each holding, the price
/// movement since the previous close times the quantity held. Returns
/// nothing when a value no longer fits the store's 64-bit fields.
pub fn day_change_sum(holdings: &Vec<Holding>, quotes: &Vec<Quote>) -> (r: Option<i64>)
    requires
        holdings.len() == quotes.len(),
        forall|i: int|
            0 <= i < holdings.deep_view().len() ==> holding_ok(#[trigger] holdings.deep_view()[i]),
    ensures
        r is Some <==> change_fits(holdings.deep_view(), quotes.deep_view()),
        r matches Some(s) ==> s as int == change_sum(holdings.deep_view(), quotes.deep_view()),
{
    let ghost hs = holdings.deep_view();
    let ghost qs = quotes.deep_view();
    let n = holdings.len();
    let mut acc: i128 = 0;
    let mut i: usize = 0;
    proof {
        assert(hs.take(0) =~= Seq::<HoldingV>::empty());
        assert(qs.take(0) =~= Seq::<QuoteV>::empty());
    }
    while i < n
        invariant
            n == holdings.len(),
            holdings.len() == quotes.len(),
            hs == holdings.deep_view(),
            qs == quotes.deep_view(),
            forall|k: int| 0 <= k < hs.len() ==> holding_ok(#[trigger] hs[k]),
            i <= n,
            acc as int == change_sum(hs.take(i as int), qs.take(i as int)),
            -((i as int) * (i64::MAX as int)) <= acc as int <= (i as int) * (i64::MAX as int),
            forall|k: int|
                0 <= k < i ==> -(i64::MAX as int) <= change_value(#[trigger] hs[k], qs[k])
                    <= i64::MAX,
        decreases n - i,
    {
        let h = &holdings[i];
        let q = &quotes[i];
        proof {
            assert(hs[i as int] == holdings@[i as int]@);
            assert(qs[i as int] == quotes@[i as int]@);
            let diff = q.price - q.prev_close;
            assert(-(i128::MAX as int) <= diff * h.quantity <= i128::MAX as int)
                by (nonlinear_arith)
                requires
                    -(i64::MAX as int) - i64::MAX - 1 <= diff <= (i64::MAX as int) + i64::MAX + 1
                        && 1
                        <= h.quantity <= i64::MAX,
            ;
        }
        let diff_wide: i128 = (q.price as i128) - (q.prev_close as i128);
        let term: i128 = diff_wide * (h.quantity as i128);
        if term > i64::MAX as i128 || term < -(i64::MAX as i128) {
            proof {
                assert(!change_fits(hs, qs));
            }
            return None;
        }
        acc = acc + term;
        proof {
            assert(hs.take(i + 1).drop_last() =~= hs.take(i as int));
            assert(qs.take(i + 1).drop_last() =~= qs.take(i as int));
            assert(hs.take(i + 1).last() == hs[i as int]);
            assert(qs.take(i + 1).last() == qs[i as int]);
        }
        i += 1;
    }
    proof {
        assert(hs.take(n as int) =~= hs);
        assert(qs.take(n as int) =~= qs);
    }
    if acc > i64::MAX as i128 || acc < -(i64::MAX as i128) {
        proof {
            assert(!change_fits(hs, qs));
        }
        return None;
    }
    Some(acc as i64)
}

/// Persists a computed valuation: the account's advisory `value`
/// becomes its cash plus the portfolio total. Cash, holdings and the
/// log are untouched; an absent account or a sum that does not fit the
/// store's 64-bit field rejects the write and changes nothing.
pub fn record_valuation(ledger: &mut Ledger, account_id: &String, total_value: i64) -> (r: Result<
    (),
    TradeError,
>)
    requires
        old(ledger).wf(),
        total_value >= 0,
    ensures
        final(ledger).wf(),
        ledger_balanced(old(ledger)@) ==> ledger_balanced(final(ledger)@),
        r is Err ==> final(ledger)@ == old(ledger)@,
        !has_account(old(ledger)@, account_id@) <==> r == Err::<(), TradeError>(
            TradeError::AccountNotFound,
        ),
        r == Err::<(), TradeError>(TradeError::StoreUnavailable) <==> (has_account(
            old(ledger)@,
            account_id@,
        ) && account_of(old(ledger)@, account_id@).account.cash + total_value > i64::MAX),
        r is Ok <==> (has_account(old(ledger)@, account_id@) && account_of(
            old(ledger)@,
            account_id@,
        ).account.cash + total_value <= i64::MAX),
        r is Ok ==> {
            let i = account_index(old(ledger)@, account_id@);
            let row = old(ledger)@.accounts[i];
            final(ledger)@ == (LedgerV {
                accounts: old(ledger)@.accounts.update(
                    i,
                    crate::ledger::AccountRowV {
                        account: AccountV {
                            value: row.account.cash + total_value,
                            ..row.account
                        },
                        ..row
                    },
                ),
                holdings: old(ledger)@.holdings,
                transactions: old(ledger)@.transactions,
            })
        },
{
    match ledger.get_account(account_id) {
        None => Err(TradeError::AccountNotFound),
        Some(a) => {
            if a.cash > i64::MAX - total_value {
                return Err(TradeError::StoreUnavailable);
            }
            ledger.update_account(account_id, a.cash + total_value);
            Ok(())
        },
    }
}

} // verus!
