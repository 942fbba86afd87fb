//! The order execution engine.
//!
//! An order runs through five steps: quote (done by the caller, through
//! the quote cache), load, validate, compute, and an atomic commit.
//! Planning ([`validate_and_plan`]) is pure: from the loaded account and
//! holding it either produces an [`OrderPlan`] — the complete account
//! mutation, holding mutation and transaction insert of the commit —
//! or rejects the order with the exact reason. Committing
//! ([`apply_order`]) applies a plan all-or-nothing, guarded by a
//! compare-and-swap on the account's write version: a plan computed
//! against a state another order has since changed is rejected with
//! `Conflict` and changes nothing.

use vstd::arithmetic::div_mod::lemma_div_by_self;
use vstd::arithmetic::div_mod::lemma_div_is_ordered;
use vstd::arithmetic::div_mod::lemma_div_multiples_vanish;
use vstd::prelude::*;

use crate::errors::TradeError;
use crate::ledger::AccountRowV;
use crate::ledger::LedgerV;
use crate::ledger::Ledger;
use crate::ledger::account_balanced;
use crate::ledger::account_index;
use crate::ledger::account_of;
use crate::ledger::account_ok;
use crate::ledger::bump_version;
use crate::ledger::has_account;
use crate::ledger::has_holding;
use crate::ledger::holding_index;
use crate::ledger::holding_index_in;
use crate::ledger::holding_of;
use crate::ledger::holding_ok;
use crate::ledger::ledger_balanced;
use crate::ledger::ledger_wf;
use crate::ledger::lemma_account_lookup_at;
use crate::ledger::lemma_log_delta_push;
use crate::ledger::log_delta;
use crate::ledger::transaction_ok;
use crate::models::Account;
use crate::models::AccountV;
use crate::models::Holding;
use crate::models::HoldingV;
use crate::models::TradeRequest;
use crate::models::TradeSide;
use crate::models::Transaction;
use crate::models::TransactionV;

verus! {

/// The label recorded for each side in a transaction row.
pub open spec fn spec_side_label(side: TradeSide) -> Seq<char> {
    match side {
        TradeSide::Buy => "BUY"@,
        TradeSide::Sell => "SELL"@,
    }
}

/// Renders the side label of a transaction row.
pub fn side_label(side: TradeSide) -> (r: String)
    ensures
        r@ == spec_side_label(side),
{
    match side {
        TradeSide::Buy => "BUY".to_owned(),
        TradeSide::Sell => "SELL".to_owned(),
    }
}

/// What an order commit does to the account's holding row.
pub enum HoldingAction {
    /// First buy of this symbol: insert a fresh row.
    Insert { quantity: i64, price: i64 },
    /// Overwrite quantity and average cost as a pair.
    Update { quantity: i64, price: i64 },
    /// The sell empties the position: remove the row.
    Delete,
}

/// The mathematical view of a [`HoldingAction`].
pub enum HoldingActionV {
    Insert { quantity: int, price: int },
    Update { quantity: int, price: int },
    Delete,
}

impl View for HoldingAction {
    type V = HoldingActionV;

    open spec fn view(&self) -> HoldingActionV {
        match self {
            HoldingAction::Insert { quantity, price } => HoldingActionV::Insert {
                quantity: *quantity as int,
                price: *price as int,
            },
            HoldingAction::Update { quantity, price } => HoldingActionV::Update {
                quantity: *quantity as int,
                price: *price as int,
            },
            HoldingAction::Delete => HoldingActionV::Delete,
        }
    }
}

/// A fully validated order: the three mutations an atomic commit
/// applies, plus the write version of the account state they were
/// computed from.
pub struct OrderPlan {
    pub account_id: String,
    pub stock_symbol: String,
    pub stock_name: String,
    pub side: TradeSide,
    pub quantity: i64,
    pub price: i64,
    pub read_version: u64,
    pub new_cash: i64,
    pub action: HoldingAction,
}

/// The mathematical view of an [`OrderPlan`].
#[verifier::ext_equal]
pub struct PlanV {
    pub account_id: Seq<char>,
    pub stock_symbol: Seq<char>,
    pub stock_name: Seq<char>,
    pub side: TradeSide,
    pub quantity: int,
    pub price: int,
    pub read_version: int,
    pub new_cash: int,
    pub action: HoldingActionV,
}

impl View for OrderPlan {
    type V = PlanV;

    open spec fn view(&self) -> PlanV {
        PlanV {
            account_id: self.account_id@,
            stock_symbol: self.stock_symbol@,
            stock_name: self.stock_name@,
            side: self.side,
            quantity: self.quantity as int,
            price: self.price as int,
            read_version: self.read_version as int,
            new_cash: self.new_cash as int,
            action: self.action@,
        }
    }
}

/// The weighted-average cost per share after a buy merges into an
/// existing position; integer (floor) division, so repeated partial
/// buys never produce fractional minor units.
pub open spec fn merged_average(old_qty: int, old_avg: int, buy_qty: int, buy_price: int) -> int {
    (old_avg * old_qty + buy_price * buy_qty) / (old_qty + buy_qty)
}

/// Validation and state computation for one order, from the loaded
/// state: either every mutation of the commit, or the exact rejection.
///
/// - no account: `AccountNotFound`;
/// - buy with `cash < price × quantity`: `InsufficientFunds`;
/// - sell with no holding or fewer shares than asked: `InsufficientShares`;
/// - a result that no longer fits the store's 64-bit fields (a merged
///   position's quantity, or cash after sale proceeds): the write is
///   impossible, `StoreUnavailable`.
pub open spec fn plan_from(
    account: Option<AccountV>,
    version: int,
    holding: Option<HoldingV>,
    sym: Seq<char>,
    name: Seq<char>,
    side: TradeSide,
    qty: int,
    price: int,
) -> Result<PlanV, TradeError> {
    match account {
        None => Err(TradeError::AccountNotFound),
        Some(acct) => {
            let cost = price * qty;
            match side {
                TradeSide::Buy => {
                    if acct.cash < cost {
                        Err(TradeError::InsufficientFunds)
                    } else {
                        match holding {
                            None => Ok(
                                PlanV {
                                    account_id: acct.id,
                                    stock_symbol: sym,
                                    stock_name: name,
                                    side,
                                    quantity: qty,
                                    price,
                                    read_version: version,
                                    new_cash: acct.cash - cost,
                                    action: HoldingActionV::Insert { quantity: qty, price },
                                },
                            ),
                            Some(h) => {
                                if h.quantity + qty > i64::MAX {
                                    Err(TradeError::StoreUnavailable)
                                } else {
                                    Ok(
                                        PlanV {
                                            account_id: acct.id,
                                            stock_symbol: sym,
                                            stock_name: name,
                                            side,
                                            quantity: qty,
                                            price,
                                            read_version: version,
                                            new_cash: acct.cash - cost,
                                            action: HoldingActionV::Update {
                                                quantity: h.quantity + qty,
                                                price: merged_average(
                                                    h.quantity,
                                                    h.purchase_price,
                                                    qty,
                                                    price,
                                                ),
                                            },
                                        },
                                    )
                                }
                            },
                        }
                    }
                },
                TradeSide::Sell => {
                    match holding {
                        None => Err(TradeError::InsufficientShares),
                        Some(h) => {
                            if h.quantity < qty {
                                Err(TradeError::InsufficientShares)
                            } else if acct.cash + cost > i64::MAX {
                                Err(TradeError::StoreUnavailable)
                            } else {
                                Ok(
                                    PlanV {
                                        account_id: acct.id,
                                        stock_symbol: sym,
                                        stock_name: name,
                                        side,
                                        quantity: qty,
                                        price,
                                        read_version: version,
                                        new_cash: acct.cash + cost,
                                        action: if h.quantity == qty {
                                            HoldingActionV::Delete
                                        } else {
                                            HoldingActionV::Update {
                                                quantity: h.quantity - qty,
                                                price: h.purchase_price,
                                            }
                                        },
                                    },
                                )
                            }
                        },
                    }
                },
            }
        },
    }
}

/// [`plan_from`], reading the loaded state out of a ledger.
pub open spec fn plan_for(
    l: LedgerV,
    id: Seq<char>,
    sym: Seq<char>,
    name: Seq<char>,
    side: TradeSide,
    qty: int,
    price: int,
) -> Result<PlanV, TradeError> {
    plan_from(
        if has_account(l, id) {
            Some(account_of(l, id).account)
        } else {
            None
        },
        if has_account(l, id) {
            account_of(l, id).version
        } else {
            0
        },
        if has_holding(l, id, sym) {
            Some(holding_of(l, id, sym))
        } else {
            None
        },
        sym,
        name,
        side,
        qty,
        price,
    )
}

/// The transaction record a committed plan appends to the log.
pub open spec fn tx_for(p: PlanV, tx_id: Seq<char>, timestamp: Seq<char>) -> TransactionV {
    TransactionV {
        id: tx_id,
        account_id: p.account_id,
        stock_symbol: p.stock_symbol,
        transaction_type: spec_side_label(p.side),
        quantity: p.quantity,
        price: p.price,
        timestamp,
    }
}

/// A plan is fresh when the account row it was computed from is still
/// at the write version the plan read.
pub open spec fn plan_fresh(l: LedgerV, p: PlanV) -> bool {
    has_account(l, p.account_id) && account_of(l, p.account_id).version == p.read_version
}

/// A plan is good for a ledger state when planning against that state
/// yields exactly it.
pub open spec fn plan_good(l: LedgerV, p: PlanV) -> bool {
    Ok::<PlanV, TradeError>(p) == plan_for(
        l,
        p.account_id,
        p.stock_symbol,
        p.stock_name,
        p.side,
        p.quantity,
        p.price,
    )
}

/// The ledger state after a fresh plan commits: cash written and the
/// write version bumped, the holding row inserted, overwritten or
/// removed, and the transaction appended — as one atomic unit.
pub open spec fn apply_to(l: LedgerV, p: PlanV, tx_id: Seq<char>, timestamp: Seq<char>) -> LedgerV {
    let ai = account_index(l, p.account_id);
    let row = l.accounts[ai];
    let row1 = AccountRowV {
        account: AccountV { cash: p.new_cash, ..row.account },
        version: bump_version(row.version),
        initial_cash: row.initial_cash,
    };
    let holdings1 = match p.action {
        HoldingActionV::Insert { quantity, price } => l.holdings.push(
            HoldingV {
                account_id: p.account_id,
                stock_symbol: p.stock_symbol,
                stock_name: p.stock_name,
                quantity,
                purchase_price: price,
                total_value: price * quantity,
                current_price: price,
            },
        ),
        HoldingActionV::Update { quantity, price } => l.holdings.update(
            holding_index(l, p.account_id, p.stock_symbol),
            HoldingV {
                quantity,
                purchase_price: price,
                ..holding_of(l, p.account_id, p.stock_symbol)
            },
        ),
        HoldingActionV::Delete => l.holdings.remove(
            holding_index(l, p.account_id, p.stock_symbol),
        ),
    };
    LedgerV {
        accounts: l.accounts.update(ai, row1),
        holdings: holdings1,
        transactions: l.transactions.push(tx_for(p, tx_id, timestamp)),
    }
}

/// The weighted average of two positive prices lies between 1 and the
/// larger price; in particular it fits wherever the prices fit.
pub proof fn lemma_weighted_avg_bounds(q1: int, p1: int, q2: int, p2: int)
    requires
        1 <= q1,
        1 <= p1,
        1 <= q2,
        1 <= p2,
    ensures
        1 <= merged_average(q1, p1, q2, p2),
        merged_average(q1, p1, q2, p2) <= if p1 >= p2 {
            p1
        } else {
            p2
        },
{
    let d = q1 + q2;
    let num = p1 * q1 + p2 * q2;
    let pm = if p1 >= p2 {
        p1
    } else {
        p2
    };
    assert(p1 * q1 + p2 * q2 >= q1 + q2) by (nonlinear_arith)
        requires
            1 <= q1 && 1 <= p1 && 1 <= q2 && 1 <= p2,
    ;
    if p1 >= p2 {
        assert(p1 * q1 + p2 * q2 <= (q1 + q2) * p1) by (nonlinear_arith)
            requires
                1 <= q1 && 1 <= q2 && 1 <= p2 <= p1,
        ;
    } else {
        assert(p1 * q1 + p2 * q2 <= (q1 + q2) * p2) by (nonlinear_arith)
            requires
                1 <= q1 && 1 <= q2 && 1 <= p1 <= p2,
        ;
    }
    assert(num >= d);
    assert(num <= d * pm);
    lemma_div_is_ordered(d, num, d);
    lemma_div_by_self(d);
    lemma_div_is_ordered(num, d * pm, d);
    lemma_div_multiples_vanish(pm, d);
}

/// The view of a planning result.
pub open spec fn plan_result_view(r: Result<OrderPlan, TradeError>) -> Result<PlanV, TradeError> {
    match r {
        Ok(p) => Ok(p@),
        Err(e) => Err(e),
    }
}

/// The view of an optional loaded account.
pub open spec fn account_opt_view(a: Option<&Account>) -> Option<AccountV> {
    match a {
        Some(x) => Some(x@),
        None => None,
    }
}

/// The view of an optional loaded holding.
pub open spec fn holding_opt_view(h: Option<&Holding>) -> Option<HoldingV> {
    match h {
        Some(x) => Some(x@),
        None => None,
    }
}

/// Validates one order against the loaded state and computes the
/// mutations its commit must apply: exactly [`plan_from`].
pub fn validate_and_plan(
    account: Option<&Account>,
    version: u64,
    holding: Option<&Holding>,
    stock_name: &String,
    trade: &TradeRequest,
    side: TradeSide,
    price: i64,
) -> (r: Result<OrderPlan, TradeError>)
    requires
        1 <= trade.quantity,
        1 <= price,
        account matches Some(a) ==> a.cash >= 0,
        holding matches Some(h) ==> holding_ok(h@),
    ensures
        plan_result_view(r) == plan_from(
            account_opt_view(account),
            version as int,
            holding_opt_view(holding),
            trade.stock_symbol@,
            stock_name@,
            side,
            trade.quantity as int,
            price as int,
        ),
{
    let acct = match account {
        None => {
            return Err(TradeError::AccountNotFound);
        },
        Some(a) => a,
    };
    let q = trade.quantity;
    proof {
        assert(price * q <= i64::MAX * i64::MAX) by (nonlinear_arith)
            requires
                1 <= price <= i64::MAX && 1 <= q <= i64::MAX,
        ;
    }
    let cost_wide: u128 = (price as u128) * (q as u128);
    match side {
        TradeSide::Buy => {
            if (acct.cash as u128) < cost_wide {
                return Err(TradeError::InsufficientFunds);
            }
            let cost = cost_wide as i64;
            let new_cash = acct.cash - cost;
            match holding {
                None => Ok(
                    OrderPlan {
                        account_id: acct.id.clone(),
                        stock_symbol: trade.stock_symbol.clone(),
                        stock_name: stock_name.clone(),
                        side,
                        quantity: q,
                        price,
                        read_version: version,
                        new_cash,
                        action: HoldingAction::Insert { quantity: q, price },
                    },
                ),
                Some(h) => {
                    let new_q_wide: u128 = (h.quantity as u128) + (q as u128);
                    if new_q_wide > i64::MAX as u128 {
                        return Err(TradeError::StoreUnavailable);
                    }
                    proof {
                        assert(h.purchase_price * h.quantity <= i64::MAX * i64::MAX)
                            by (nonlinear_arith)
                            requires
                                1 <= h.purchase_price <= i64::MAX && 1 <= h.quantity <= i64::MAX,
                        ;
                    }
                    let numerator: u128 = (h.purchase_price as u128) * (h.quantity as u128)
                        + cost_wide;
                    let avg_wide: u128 = numerator / new_q_wide;
                    proof {
                        lemma_weighted_avg_bounds(
                            h.quantity as int,
                            h.purchase_price as int,
                            q as int,
                            price as int,
                        );
                    }
                    Ok(
                        OrderPlan {
                            account_id: acct.id.clone(),
                            stock_symbol: trade.stock_symbol.clone(),
                            stock_name: stock_name.clone(),
                            side,
                            quantity: q,
                            price,
                            read_version: version,
                            new_cash,
                            action: HoldingAction::Update {
                                quantity: new_q_wide as i64,
                                price: avg_wide as i64,
                            },
                        },
                    )
                },
            }
        },
        TradeSide::Sell => {
            match holding {
                None => Err(TradeError::InsufficientShares),
                Some(h) => {
                    if h.quantity < q {
                        return Err(TradeError::InsufficientShares);
                    }
                    let new_cash_wide: u128 = (acct.cash as u128) + cost_wide;
                    if new_cash_wide > i64::MAX as u128 {
                        return Err(TradeError::StoreUnavailable);
                    }
                    let new_cash = new_cash_wide as i64;
                    let new_q = h.quantity - q;
                    Ok(
                        OrderPlan {
                            account_id: acct.id.clone(),
                            stock_symbol: trade.stock_symbol.clone(),
                            stock_name: stock_name.clone(),
                            side,
                            quantity: q,
                            price,
                            read_version: version,
                            new_cash,
                            action: if new_q == 0 {
                                HoldingAction::Delete
                            } else {
                                HoldingAction::Update { quantity: new_q, price: h.purchase_price }
                            },
                        },
                    )
                },
            }
        },
    }
}

/// Loads the account and holding for one order and plans it: exactly
/// [`plan_for`] on the current ledger state.
pub fn plan_order(
    ledger: &Ledger,
    account_id: &String,
    trade: &TradeRequest,
    side: TradeSide,
    price: i64,
    stock_name: &String,
) -> (r: Result<OrderPlan, TradeError>)
    requires
        ledger.wf(),
        1 <= trade.quantity,
        1 <= price,
    ensures
        plan_result_view(r) == plan_for(
            ledger@,
            account_id@,
            trade.stock_symbol@,
            stock_name@,
            side,
            trade.quantity as int,
            price as int,
        ),
        r matches Ok(p) ==> plan_good(ledger@, p@) && plan_fresh(ledger@, p@),
{
    let account_opt = ledger.get_account(account_id);
    let holding_opt = ledger.get_holding(account_id, &trade.stock_symbol);
    let version: u64 = match ledger.account_version(account_id) {
        None => 0,
        Some(v) => v,
    };
    let account_ref: Option<&Account> = match &account_opt {
        Some(a) => Some(a),
        None => None,
    };
    let holding_ref: Option<&Holding> = match &holding_opt {
        Some(h) => Some(h),
        None => None,
    };
    proof {
        if account_opt is Some {
            let i = account_index(ledger@, account_id@);
            assert(account_ok(ledger@.accounts[i]));
        }
        if holding_opt is Some {
            let i = holding_index(ledger@, account_id@, trade.stock_symbol@);
            assert(holding_ok(ledger@.holdings[i]));
        }
    }
    let r = validate_and_plan(
        account_ref,
        version,
        holding_ref,
        stock_name,
        trade,
        side,
        price,
    );
    proof {
        if r is Ok {
            assert(account_of(ledger@, account_id@).account.id == account_id@);
        }
    }
    r
}

/// Builds the persisted transaction record for a plan.
fn transaction_for(plan: &OrderPlan, tx_id: &String, timestamp: &String) -> (r: Transaction)
    ensures
        r@ == tx_for(plan@, tx_id@, timestamp@),
{
    Transaction {
        id: tx_id.clone(),
        account_id: plan.account_id.clone(),
        stock_symbol: plan.stock_symbol.clone(),
        transaction_type: side_label(plan.side),
        quantity: plan.quantity,
        price: plan.price,
        timestamp: timestamp.clone(),
    }
}

/// Commits a plan atomically: either the account row is still at the
/// write version the plan read — then cash, holding and log change as
/// one unit — or nothing changes and the order is rejected with
/// `Conflict`.
pub fn apply_order(ledger: &mut Ledger, plan: OrderPlan, tx_id: String, timestamp: String) -> (r:
    Result<Transaction, TradeError>)
    requires
        old(ledger).wf(),
        plan_fresh(old(ledger)@, plan@) ==> plan_good(old(ledger)@, plan@) && 1 <= plan@.quantity
            && 1 <= plan@.price,
    ensures
        final(ledger).wf(),
        !plan_fresh(old(ledger)@, plan@) ==> r == Err::<Transaction, TradeError>(
            TradeError::Conflict,
        ) && final(ledger)@ == old(ledger)@,
        plan_fresh(old(ledger)@, plan@) ==> (r matches Ok(tx) && tx@ == tx_for(
            plan@,
            tx_id@,
            timestamp@,
        ) && final(ledger)@ == apply_to(old(ledger)@, plan@, tx_id@, timestamp@)),
        ledger_balanced(old(ledger)@) ==> ledger_balanced(final(ledger)@),
{
    let ghost l = old(ledger)@;
    let ghost p = plan@;
    let version = match ledger.account_version(&plan.account_id) {
        None => {
            return Err(TradeError::Conflict);
        },
        Some(v) => v,
    };
    if version != plan.read_version {
        return Err(TradeError::Conflict);
    }
    proof {
        assert(plan_fresh(l, p));
        assert(plan_good(l, p));
        let ai = account_index(l, p.account_id);
        assert(0 <= ai < l.accounts.len());
        assert(account_ok(l.accounts[ai]));
        assert(account_of(l, p.account_id).account.id == p.account_id);
        assert(p.new_cash >= 0);
    }
    let out = transaction_for(&plan, &tx_id, &timestamp);
    let tx = transaction_for(&plan, &tx_id, &timestamp);
    ledger.commit_cash(&plan.account_id, plan.new_cash);
    match &plan.action {
        HoldingAction::Insert { quantity, price } => {
            proof {
                assert(!has_holding(l, p.account_id, p.stock_symbol));
                assert(p.price * p.quantity <= account_of(l, p.account_id).account.cash);
            }
            let h = Holding {
                account_id: plan.account_id,
                stock_symbol: plan.stock_symbol,
                stock_name: plan.stock_name,
                quantity: *quantity,
                purchase_price: *price,
                total_value: *price * *quantity,
                current_price: *price,
            };
            ledger.add_holding(h);
        },
        HoldingAction::Update { quantity, price } => {
            proof {
                assert(has_holding(l, p.account_id, p.stock_symbol));
                let h = holding_of(l, p.account_id, p.stock_symbol);
                assert(holding_ok(h));
                if p.side == TradeSide::Buy {
                    lemma_weighted_avg_bounds(
                        h.quantity,
                        h.purchase_price,
                        p.quantity,
                        p.price,
                    );
                }
                assert(*quantity >= 1 && *price >= 1);
            }
            ledger.update_holding(&plan.account_id, &plan.stock_symbol, *quantity, *price);
        },
        HoldingAction::Delete => {
            proof {
                assert(has_holding(l, p.account_id, p.stock_symbol));
            }
            ledger.delete_holding(&plan.account_id, &plan.stock_symbol);
        },
    }
    ledger.add_transaction(tx);
    proof {
        let fin = final(ledger)@;
        let txv = tx_for(p, tx_id@, timestamp@);
        assert(transaction_ok(txv));
        assert(fin =~= apply_to(l, p, tx_id@, timestamp@));
        if ledger_balanced(l) {
            let ai = account_index(l, p.account_id);
            assert forall|k: int| 0 <= k < fin.accounts.len() implies account_balanced(
                fin,
                #[trigger] fin.accounts[k],
            ) by {
                lemma_log_delta_push(l.transactions, txv, fin.accounts[k].account.id);
                reveal_strlit("BUY");
                reveal_strlit("SELL");
                assert("BUY"@.len() == 3 && "SELL"@.len() == 4);
                assert(account_balanced(l, l.accounts[k]));
                if k != ai {
                    assert(fin.accounts[k] == l.accounts[k]);
                    assert(l.accounts[k].account.id != p.account_id);
                }
            }
        }
    }
    Ok(out)
}

/// Executes one order end to end against the ledger: plan from the
/// current state, then commit. Planning and commit run back to back
/// here, so the commit's compare-and-swap cannot lose a race and the
/// single configured retry is never taken; against a store shared by
/// concurrent callers, [`apply_order`] is the step that loses a race
/// with `Conflict`.
pub fn execute_order(
    ledger: &mut Ledger,
    account_id: &String,
    trade: &TradeRequest,
    side: TradeSide,
    price: i64,
    stock_name: &String,
    tx_id: String,
    timestamp: String,
) -> (r: Result<Transaction, TradeError>)
    requires
        old(ledger).wf(),
        1 <= trade.quantity,
        1 <= price,
    ensures
        final(ledger).wf(),
        ledger_balanced(old(ledger)@) ==> ledger_balanced(final(ledger)@),
        plan_for(
            old(ledger)@,
            account_id@,
            trade.stock_symbol@,
            stock_name@,
            side,
            trade.quantity as int,
            price as int,
        ) matches Err(e) ==> r == Err::<Transaction, TradeError>(e) && final(ledger)@ == old(ledger)@,
        plan_for(
            old(ledger)@,
            account_id@,
            trade.stock_symbol@,
            stock_name@,
            side,
            trade.quantity as int,
            price as int,
        ) matches Ok(p) ==> (r matches Ok(tx) && tx@ == tx_for(p, tx_id@, timestamp@) && final(ledger)@ == apply_to(old(ledger)@, p, tx_id@, timestamp@)),
        r is Err ==> final(ledger)@ == old(ledger)@,
        r == Err::<Transaction, TradeError>(TradeError::AccountNotFound) <==> !has_account(
            old(ledger)@,
            account_id@,
        ),
        r == Err::<Transaction, TradeError>(TradeError::InsufficientFunds) <==> (has_account(
            old(ledger)@,
            account_id@,
        ) && side == TradeSide::Buy && account_of(old(ledger)@, account_id@).account.cash < price
            * trade.quantity),
        r == Err::<Transaction, TradeError>(TradeError::InsufficientShares) <==> (has_account(
            old(ledger)@,
            account_id@,
        ) && side == TradeSide::Sell && (!has_holding(
            old(ledger)@,
            account_id@,
            trade.stock_symbol@,
        ) || holding_of(old(ledger)@, account_id@, trade.stock_symbol@).quantity
            < trade.quantity)),
{
    let plan = match plan_order(ledger, account_id, trade, side, price, stock_name) {
        Err(e) => {
            return Err(e);
        },
        Ok(p) => p,
    };
    match apply_order(ledger, plan, tx_id, timestamp) {
        Ok(tx) => Ok(tx),
        Err(e) => Err(e),
    }
}

/// Relies on uuid::Uuid::new_v4 and its hyphenated `Display` form for
/// a fresh random order identifier: 36 characters.
#[verifier::external_body]
fn fresh_transaction_id() -> (r: String)
    ensures
        r@.len() == 36,
{
    uuid::Uuid::new_v4().to_string()
}

/// Relies on chrono::Local::now and DateTime::to_rfc3339 for the
/// wall-clock timestamp recorded on a committed transaction.
#[verifier::external_body]
fn current_timestamp() -> (r: String)
    ensures
        r@.len() > 0,
{
    chrono::Local::now().to_rfc3339()
}

/// [`execute_order`] with a freshly generated transaction id and the
/// current wall-clock timestamp.
pub fn execute_order_now(
    ledger: &mut Ledger,
    account_id: &String,
    trade: &TradeRequest,
    side: TradeSide,
    price: i64,
    stock_name: &String,
) -> (r: Result<Transaction, TradeError>)
    requires
        old(ledger).wf(),
        1 <= trade.quantity,
        1 <= price,
    ensures
        final(ledger).wf(),
        ledger_balanced(old(ledger)@) ==> ledger_balanced(final(ledger)@),
        r is Err ==> final(ledger)@ == old(ledger)@,
        plan_for(
            old(ledger)@,
            account_id@,
            trade.stock_symbol@,
            stock_name@,
            side,
            trade.quantity as int,
            price as int,
        ) matches Err(e) ==> r == Err::<Transaction, TradeError>(e),
        plan_for(
            old(ledger)@,
            account_id@,
            trade.stock_symbol@,
            stock_name@,
            side,
            trade.quantity as int,
            price as int,
        ) matches Ok(p) ==> (r matches Ok(tx) && tx.id@.len() == 36 && tx@ == tx_for(
            p,
            tx.id@,
            tx.timestamp@,
        ) && final(ledger)@ == apply_to(old(ledger)@, p, tx.id@, tx.timestamp@)),
        r matches Ok(tx) ==> tx.timestamp@.len() > 0,
{
    let tx_id = fresh_transaction_id();
    let timestamp = current_timestamp();
    execute_order(ledger, account_id, trade, side, price, stock_name, tx_id, timestamp)
}


// ---------------------------------------------------------------------
// Laws
// ---------------------------------------------------------------------

/// The ledger never diverges from its transaction log: in a balanced
/// ledger, an account's cash equals the cash it was created with, plus
/// the proceeds of its logged sells, minus the costs of its logged
/// buys. Account creation establishes `ledger_balanced` and every
/// order execution preserves it, so this holds after any sequence of
/// buys and sells.
pub proof fn lemma_ledger_matches_log(l: LedgerV, id: Seq<char>)
    requires
        ledger_balanced(l),
        has_account(l, id),
    ensures
        account_of(l, id).account.cash == account_of(l, id).initial_cash + log_delta(
            l.transactions,
            id,
        ),
{
    let i = account_index(l, id);
    assert(account_balanced(l, l.accounts[i]));
}

/// The cost basis `sum(quantity * averageCost)` over one account's
/// holding rows.
pub open spec fn holdings_basis(hs: Seq<HoldingV>, id: Seq<char>) -> int
    decreases hs.len(),
{
    if hs.len() == 0 {
        0
    } else {
        holdings_basis(hs.drop_last(), id) + if hs.last().account_id == id {
            hs.last().purchase_price * hs.last().quantity
        } else {
            0
        }
    }
}

/// An account with no open positions has a cost basis of zero.
proof fn lemma_holdings_basis_zero(hs: Seq<HoldingV>, id: Seq<char>)
    requires
        forall|i: int| 0 <= i < hs.len() ==> (#[trigger] hs[i]).account_id != id,
    ensures
        holdings_basis(hs, id) == 0,
    decreases hs.len(),
{
    if hs.len() > 0 {
        lemma_holdings_basis_zero(hs.drop_last(), id);
    }
}

/// For an account whose positions are all closed, cash plus the cost
/// basis `sum(quantity * averageCost)` of its holdings equals starting
/// cash minus logged buy costs plus logged sell proceeds. Cash alone
/// satisfies that equation in every state — `lemma_ledger_matches_log`
/// — so with open positions the sum on the left exceeds the right by
/// exactly the remaining basis; the equation with the basis included
/// therefore holds precisely of the flat book stated here.
pub proof fn lemma_flat_account_matches_log(l: LedgerV, id: Seq<char>)
    requires
        ledger_balanced(l),
        has_account(l, id),
        !has_holding_any(l, id),
    ensures
        account_of(l, id).account.cash + holdings_basis(l.holdings, id) == account_of(
            l,
            id,
        ).initial_cash + log_delta(l.transactions, id),
{
    lemma_holdings_basis_zero(l.holdings, id);
    lemma_ledger_matches_log(l, id);
}

/// Does the ledger hold any position at all for this account?
pub open spec fn has_holding_any(l: LedgerV, id: Seq<char>) -> bool {
    exists|i: int| 0 <= i < l.holdings.len() && (#[trigger] l.holdings[i]).account_id == id
}

/// No zero-quantity holding row ever persists: well-formedness pins
/// every stored row to a positive quantity, and every store operation
/// preserves well-formedness.
pub proof fn lemma_no_zero_quantity_holdings(l: LedgerV)
    requires
        ledger_wf(l),
    ensures
        forall|i: int| 0 <= i < l.holdings.len() ==> (#[trigger] l.holdings[i]).quantity >= 1,
{
}

/// A sell of the entire position removes the holding row outright.
pub proof fn lemma_sell_out_removes_holding(
    l: LedgerV,
    id: Seq<char>,
    sym: Seq<char>,
    name: Seq<char>,
    qty: int,
    price: int,
    tx_id: Seq<char>,
    timestamp: Seq<char>,
)
    requires
        ledger_wf(l),
        plan_for(l, id, sym, name, TradeSide::Sell, qty, price) is Ok,
        holding_of(l, id, sym).quantity == qty,
    ensures
        !has_holding(apply_to(l, plan_for(l, id, sym, name, TradeSide::Sell, qty, price)->Ok_0, tx_id, timestamp), id, sym),
{
    let p = plan_for(l, id, sym, name, TradeSide::Sell, qty, price)->Ok_0;
    assert(p.action is Delete);
    assert(p.account_id == id && p.stock_symbol == sym);
    let l1 = apply_to(l, p, tx_id, timestamp);
    let hi = holding_index(l, id, sym);
    assert(0 <= hi < l.holdings.len());
    assert(l1.holdings =~= l.holdings.remove(hi));
    if has_holding(l1, id, sym) {
        let k = holding_index_in(l1.holdings, id, sym);
        assert(0 <= k < l1.holdings.len() && l1.holdings[k].account_id == id
            && l1.holdings[k].stock_symbol == sym);
        let k0 = if k < hi {
            k
        } else {
            k + 1
        };
        assert(l1.holdings[k] == l.holdings[k0]);
        assert(false);
    }
}

/// After a first buy of `q1` shares at price `p1` and a second buy of
/// `q2` at `p2`, the position holds `q1 + q2` shares at the
/// floor-divided weighted average cost `(q1·p1 + q2·p2) / (q1 + q2)`.
pub proof fn lemma_average_cost_of_two_buys(
    l0: LedgerV,
    id: Seq<char>,
    sym: Seq<char>,
    name: Seq<char>,
    q1: int,
    p1: int,
    q2: int,
    p2: int,
    tx_id1: Seq<char>,
    ts1: Seq<char>,
    tx_id2: Seq<char>,
    ts2: Seq<char>,
)
    requires
        ledger_wf(l0),
        !has_holding(l0, id, sym),
        1 <= q1,
        1 <= p1,
        1 <= q2,
        1 <= p2,
        plan_for(l0, id, sym, name, TradeSide::Buy, q1, p1) is Ok,
    ensures
        ({
            let l1 = apply_to(
                l0,
                plan_for(l0, id, sym, name, TradeSide::Buy, q1, p1)->Ok_0,
                tx_id1,
                ts1,
            );
            &&& has_holding(l1, id, sym)
            &&& holding_of(l1, id, sym).quantity == q1
            &&& holding_of(l1, id, sym).purchase_price == p1
            &&& plan_for(l1, id, sym, name, TradeSide::Buy, q2, p2) is Ok ==> {
                let l2 = apply_to(
                    l1,
                    plan_for(l1, id, sym, name, TradeSide::Buy, q2, p2)->Ok_0,
                    tx_id2,
                    ts2,
                );
                &&& has_holding(l2, id, sym)
                &&& holding_of(l2, id, sym).quantity == q1 + q2
                &&& holding_of(l2, id, sym).purchase_price == (q1 * p1 + q2 * p2) / (q1 + q2)
            }
        }),
{
    let pl1 = plan_for(l0, id, sym, name, TradeSide::Buy, q1, p1)->Ok_0;
    assert(pl1.action == (HoldingActionV::Insert { quantity: q1, price: p1 }));
    let l1 = apply_to(l0, pl1, tx_id1, ts1);
    let n0 = l0.holdings.len() as int;
    assert(l1.holdings[n0].account_id == id && l1.holdings[n0].stock_symbol == sym);
    assert forall|a: int, b: int|
        0 <= a < l1.holdings.len() && 0 <= b < l1.holdings.len() && (
        #[trigger] l1.holdings[a]).account_id == (#[trigger] l1.holdings[b]).account_id
            && l1.holdings[a].stock_symbol == l1.holdings[b].stock_symbol implies a == b by {
        if a < n0 && b < n0 {
            assert(l1.holdings[a] == l0.holdings[a] && l1.holdings[b] == l0.holdings[b]);
        } else if a < n0 {
            assert(l0.holdings[a].account_id == id && l0.holdings[a].stock_symbol == sym);
            assert(has_holding(l0, id, sym));
        } else if b < n0 {
            assert(l0.holdings[b].account_id == id && l0.holdings[b].stock_symbol == sym);
            assert(has_holding(l0, id, sym));
        }
    }
    crate::ledger::lemma_holding_lookup_at(l1, id, sym, n0);
    assert(holding_of(l1, id, sym).quantity == q1);
    assert(holding_of(l1, id, sym).purchase_price == p1);
    if plan_for(l1, id, sym, name, TradeSide::Buy, q2, p2) is Ok {
        let pl2 = plan_for(l1, id, sym, name, TradeSide::Buy, q2, p2)->Ok_0;
        assert(pl2.action == (HoldingActionV::Update {
            quantity: q1 + q2,
            price: merged_average(q1, p1, q2, p2),
        }));
        let l2 = apply_to(l1, pl2, tx_id2, ts2);
        let row2 = HoldingV {
            quantity: q1 + q2,
            purchase_price: merged_average(q1, p1, q2, p2),
            ..holding_of(l1, id, sym)
        };
        assert(l2.holdings =~= l1.holdings.update(n0, row2));
        assert(l2.holdings[n0] == row2);
        assert forall|a: int, b: int|
            0 <= a < l2.holdings.len() && 0 <= b < l2.holdings.len() && (
            #[trigger] l2.holdings[a]).account_id == (#[trigger] l2.holdings[b]).account_id
                && l2.holdings[a].stock_symbol == l2.holdings[b].stock_symbol implies a == b by {
            assert(l2.holdings[a].account_id == l1.holdings[a].account_id
                && l2.holdings[a].stock_symbol == l1.holdings[a].stock_symbol);
            assert(l2.holdings[b].account_id == l1.holdings[b].account_id
                && l2.holdings[b].stock_symbol == l1.holdings[b].stock_symbol);
        }
        crate::ledger::lemma_holding_lookup_at(l2, id, sym, n0);
        assert(p1 * q1 == q1 * p1) by (nonlinear_arith);
        assert(p2 * q2 == q2 * p2) by (nonlinear_arith);
        assert(merged_average(q1, p1, q2, p2) == (q1 * p1 + q2 * p2) / (q1 + q2));
    }
}

/// A sell that leaves shares behind never changes the remaining
/// position's average cost, only its quantity.
pub proof fn lemma_sell_preserves_average_cost(
    l: LedgerV,
    id: Seq<char>,
    sym: Seq<char>,
    name: Seq<char>,
    qty: int,
    price: int,
    tx_id: Seq<char>,
    timestamp: Seq<char>,
)
    requires
        ledger_wf(l),
        plan_for(l, id, sym, name, TradeSide::Sell, qty, price) is Ok,
        1 <= qty < holding_of(l, id, sym).quantity,
    ensures
        ({
            let l1 = apply_to(
                l,
                plan_for(l, id, sym, name, TradeSide::Sell, qty, price)->Ok_0,
                tx_id,
                timestamp,
            );
            &&& has_holding(l1, id, sym)
            &&& holding_of(l1, id, sym).purchase_price == holding_of(l, id, sym).purchase_price
            &&& holding_of(l1, id, sym).quantity == holding_of(l, id, sym).quantity - qty
        }),
{
    let p = plan_for(l, id, sym, name, TradeSide::Sell, qty, price)->Ok_0;
    let h = holding_of(l, id, sym);
    assert(p.action == (HoldingActionV::Update {
        quantity: h.quantity - qty,
        price: h.purchase_price,
    }));
    let l1 = apply_to(l, p, tx_id, timestamp);
    let hi = holding_index(l, id, sym);
    assert(0 <= hi < l.holdings.len());
    let row1 = HoldingV { quantity: h.quantity - qty, purchase_price: h.purchase_price, ..h };
    assert(l1.holdings =~= l.holdings.update(hi, row1));
    assert(l1.holdings[hi] == row1);
    assert forall|a: int, b: int|
        0 <= a < l1.holdings.len() && 0 <= b < l1.holdings.len() && (
        #[trigger] l1.holdings[a]).account_id == (#[trigger] l1.holdings[b]).account_id
            && l1.holdings[a].stock_symbol == l1.holdings[b].stock_symbol implies a == b by {
        assert(l1.holdings[a].account_id == l.holdings[a].account_id && l1.holdings[a].stock_symbol
            == l.holdings[a].stock_symbol);
        assert(l1.holdings[b].account_id == l.holdings[b].account_id && l1.holdings[b].stock_symbol
            == l.holdings[b].stock_symbol);
    }
    crate::ledger::lemma_holding_lookup_at(l1, id, sym, hi);
}

/// Two orders planned against the same account state cannot both
/// commit. The first commit bumps the account's write version, so the
/// second plan is no longer fresh: its commit is rejected with
/// `Conflict` and changes nothing (see `apply_order`). In particular,
/// two buys that are each affordable alone but not together can never
/// both debit the account.
pub proof fn lemma_race_has_single_winner(
    l0: LedgerV,
    p1: PlanV,
    p2: PlanV,
    tx_id1: Seq<char>,
    ts1: Seq<char>,
)
    requires
        ledger_wf(l0),
        plan_good(l0, p1),
        plan_fresh(l0, p1),
        plan_good(l0, p2),
        plan_fresh(l0, p2),
        p2.account_id == p1.account_id,
    ensures
        account_of(apply_to(l0, p1, tx_id1, ts1), p1.account_id).account.cash == p1.new_cash,
        !plan_fresh(apply_to(l0, p1, tx_id1, ts1), p2),
{
    let aid = p1.account_id;
    let ai = account_index(l0, aid);
    assert(0 <= ai < l0.accounts.len());
    let row0 = l0.accounts[ai];
    assert(row0.account.id == aid);
    let l1 = apply_to(l0, p1, tx_id1, ts1);
    let row1 = l1.accounts[ai];
    assert(l1.accounts =~= l0.accounts.update(
        ai,
        AccountRowV {
            account: AccountV { cash: p1.new_cash, ..row0.account },
            version: bump_version(row0.version),
            initial_cash: row0.initial_cash,
        },
    ));
    assert forall|a: int, b: int|
        0 <= a < l1.accounts.len() && 0 <= b < l1.accounts.len() && (
        #[trigger] l1.accounts[a]).account.id == (#[trigger] l1.accounts[b]).account.id implies a
        == b by {
        assert(l1.accounts[a].account.id == l0.accounts[a].account.id);
        assert(l1.accounts[b].account.id == l0.accounts[b].account.id);
    }
    lemma_account_lookup_at(l1, aid, ai);
    assert(row1.version == bump_version(row0.version));
    assert(bump_version(row0.version) != row0.version);
    assert(p2.read_version == row0.version);
}

} // verus!
