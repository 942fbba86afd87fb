//! The ledger store: accounts, holdings and the append-only transaction
//! log, with point lookups and the primitive mutations the execution
//! engine builds on.
//!
//! The store is keyed: account rows by account id, holding rows by
//! (account id, stock symbol). Well-formedness ([`ledger_wf`]) says the
//! keys are unique, cash is never negative, every holding row has a
//! positive quantity and average cost, and every logged transaction has
//! a positive quantity and price. [`ledger_balanced`] is the
//! ledger-matches-log property: each account's cash equals its starting
//! cash plus the signed proceeds of its logged trades.

use vstd::prelude::*;

use crate::errors::TradeError;
use crate::models::Account;
use crate::models::AccountV;
use crate::models::Holding;
use crate::models::HoldingV;
use crate::models::Transaction;
use crate::models::TransactionV;
use crate::models::CreateAccount;

verus! {

/// One stored account row: the account itself plus the store's own
/// bookkeeping — a write version for atomic compare-and-swap commits,
/// and, as ghost state, the cash the account started with.
pub struct AccountRow {
    pub account: Account,
    pub version: u64,
    pub initial_cash: Ghost<int>,
}

/// The mathematical view of an [`AccountRow`].
#[verifier::ext_equal]
pub struct AccountRowV {
    pub account: AccountV,
    pub version: int,
    pub initial_cash: int,
}

impl View for AccountRow {
    type V = AccountRowV;

    open spec fn view(&self) -> AccountRowV {
        AccountRowV {
            account: self.account@,
            version: self.version as int,
            initial_cash: self.initial_cash@,
        }
    }
}

impl DeepView for AccountRow {
    type V = AccountRowV;

    open spec fn deep_view(&self) -> AccountRowV {
        self@
    }
}

/// The in-memory ledger store.
pub struct Ledger {
    pub accounts: Vec<AccountRow>,
    pub holdings: Vec<Holding>,
    pub transactions: Vec<Transaction>,
}

/// The mathematical view of a [`Ledger`].
#[verifier::ext_equal]
pub struct LedgerV {
    pub accounts: Seq<AccountRowV>,
    pub holdings: Seq<HoldingV>,
    pub transactions: Seq<TransactionV>,
}

impl View for Ledger {
    type V = LedgerV;

    open spec fn view(&self) -> LedgerV {
        LedgerV {
            accounts: self.accounts.deep_view(),
            holdings: self.holdings.deep_view(),
            transactions: self.transactions.deep_view(),
        }
    }
}

// ---------------------------------------------------------------------
// Lookups
// ---------------------------------------------------------------------

/// Does `accs` hold a row keyed by `id`?
pub open spec fn has_account_in(accs: Seq<AccountRowV>, id: Seq<char>) -> bool {
    exists|i: int| 0 <= i < accs.len() && (#[trigger] accs[i]).account.id == id
}

/// The index in `accs` of the row keyed by `id` (unique under
/// [`account_rows_unique`]).
pub open spec fn account_index_in(accs: Seq<AccountRowV>, id: Seq<char>) -> int {
    choose|i: int| 0 <= i < accs.len() && (#[trigger] accs[i]).account.id == id
}

/// Does the ledger hold an account row keyed by `id`?
pub open spec fn has_account(l: LedgerV, id: Seq<char>) -> bool {
    has_account_in(l.accounts, id)
}

/// The index of the account row keyed by `id`.
pub open spec fn account_index(l: LedgerV, id: Seq<char>) -> int {
    account_index_in(l.accounts, id)
}

/// The account row keyed by `id`.
pub open spec fn account_of(l: LedgerV, id: Seq<char>) -> AccountRowV {
    l.accounts[account_index(l, id)]
}

/// Does `hs` hold a row keyed by (`id`, `sym`)?
pub open spec fn has_holding_in(hs: Seq<HoldingV>, id: Seq<char>, sym: Seq<char>) -> bool {
    exists|i: int|
        0 <= i < hs.len() && (#[trigger] hs[i]).account_id == id && hs[i].stock_symbol == sym
}

/// The index in `hs` of the row keyed by (`id`, `sym`) (unique under
/// [`holding_keys_unique`]).
pub open spec fn holding_index_in(hs: Seq<HoldingV>, id: Seq<char>, sym: Seq<char>) -> int {
    choose|i: int|
        0 <= i < hs.len() && (#[trigger] hs[i]).account_id == id && hs[i].stock_symbol == sym
}

/// Does the ledger hold a holding row keyed by (`id`, `sym`)?
pub open spec fn has_holding(l: LedgerV, id: Seq<char>, sym: Seq<char>) -> bool {
    has_holding_in(l.holdings, id, sym)
}

/// The index of the holding row keyed by (`id`, `sym`).
pub open spec fn holding_index(l: LedgerV, id: Seq<char>, sym: Seq<char>) -> int {
    holding_index_in(l.holdings, id, sym)
}

/// The holding row keyed by (`id`, `sym`).
pub open spec fn holding_of(l: LedgerV, id: Seq<char>, sym: Seq<char>) -> HoldingV {
    l.holdings[holding_index(l, id, sym)]
}

// ---------------------------------------------------------------------
// Well-formedness
// ---------------------------------------------------------------------

/// Account ids key at most one row each.
pub open spec fn account_rows_unique(accs: Seq<AccountRowV>) -> bool {
    forall|i: int, j: int|
        0 <= i < accs.len() && 0 <= j < accs.len() && (#[trigger] accs[i]).account.id == (
        #[trigger] accs[j]).account.id ==> i == j
}

/// (account id, symbol) pairs key at most one holding row each.
pub open spec fn holding_keys_unique(hs: Seq<HoldingV>) -> bool {
    forall|i: int, j: int|
        0 <= i < hs.len() && 0 <= j < hs.len() && (#[trigger] hs[i]).account_id == (
        #[trigger] hs[j]).account_id && hs[i].stock_symbol == hs[j].stock_symbol ==> i == j
}

/// Cash never goes negative.
pub open spec fn account_ok(a: AccountRowV) -> bool {
    a.account.cash >= 0
}

/// A holding row exists only with a positive quantity and a positive
/// average cost per share.
pub open spec fn holding_ok(h: HoldingV) -> bool {
    h.quantity >= 1 && h.purchase_price >= 1
}

/// A logged transaction records a positive quantity, a positive unit
/// price, and one of the two sides.
pub open spec fn transaction_ok(t: TransactionV) -> bool {
    t.quantity >= 1 && t.price >= 1 && (t.transaction_type == "BUY"@ || t.transaction_type
        == "SELL"@)
}

/// The store invariant.
pub open spec fn ledger_wf(l: LedgerV) -> bool {
    &&& account_rows_unique(l.accounts)
    &&& holding_keys_unique(l.holdings)
    &&& forall|i: int| 0 <= i < l.accounts.len() ==> account_ok(#[trigger] l.accounts[i])
    &&& forall|i: int| 0 <= i < l.holdings.len() ==> holding_ok(#[trigger] l.holdings[i])
    &&& forall|i: int| 0 <= i < l.transactions.len() ==> transaction_ok(#[trigger] l.transactions[i])
}

/// The successor of a write version. Wraps at the top of `u64`; the
/// only fact compare-and-swap relies on is that the successor differs
/// from the version it replaces.
pub open spec fn bump_version(v: int) -> int {
    if v == u64::MAX {
        0
    } else {
        v + 1
    }
}

// ---------------------------------------------------------------------
// The ledger-matches-log property
// ---------------------------------------------------------------------

/// The signed cash movement of one logged transaction: proceeds flow in
/// on a sell and out on a buy.
pub open spec fn tx_delta(t: TransactionV) -> int {
    if t.transaction_type == "SELL"@ {
        t.price * t.quantity
    } else {
        -(t.price * t.quantity)
    }
}

/// The net cash movement that the log records for account `id`.
pub open spec fn log_delta(txs: Seq<TransactionV>, id: Seq<char>) -> int
    decreases txs.len(),
{
    if txs.len() == 0 {
        0
    } else {
        log_delta(txs.drop_last(), id) + if txs.last().account_id == id {
            tx_delta(txs.last())
        } else {
            0
        }
    }
}

/// One account's cash equals its starting cash plus the net cash
/// movement its logged trades record.
pub open spec fn account_balanced(l: LedgerV, a: AccountRowV) -> bool {
    a.account.cash == a.initial_cash + log_delta(l.transactions, a.account.id)
}

/// The ledger never diverges from its transaction log: every account is
/// balanced against it.
pub open spec fn ledger_balanced(l: LedgerV) -> bool {
    forall|i: int| 0 <= i < l.accounts.len() ==> account_balanced(l, #[trigger] l.accounts[i])
}

/// Appending one transaction moves `log_delta` by that transaction's
/// own signed cash movement, and only for its own account.
pub proof fn lemma_log_delta_push(txs: Seq<TransactionV>, t: TransactionV, id: Seq<char>)
    ensures
        log_delta(txs.push(t), id) == log_delta(txs, id) + if t.account_id == id {
            tx_delta(t)
        } else {
            0
        },
{
    assert(txs.push(t).drop_last() =~= txs);
    assert(txs.push(t).last() == t);
}

// ---------------------------------------------------------------------
// Uniqueness of lookups
// ---------------------------------------------------------------------

/// Under key uniqueness, a row found at index `i` is the row every
/// account lookup denotes.
pub proof fn lemma_account_lookup_at(l: LedgerV, id: Seq<char>, i: int)
    requires
        account_rows_unique(l.accounts),
        0 <= i < l.accounts.len(),
        l.accounts[i].account.id == id,
    ensures
        has_account(l, id),
        account_index(l, id) == i,
        account_of(l, id) == l.accounts[i],
{
    assert(has_account(l, id));
    let j = account_index(l, id);
    assert(l.accounts[j].account.id == id);
}

/// Under key uniqueness, a holding found at index `i` is the row every
/// holding lookup denotes.
pub proof fn lemma_holding_lookup_at(l: LedgerV, id: Seq<char>, sym: Seq<char>, i: int)
    requires
        holding_keys_unique(l.holdings),
        0 <= i < l.holdings.len(),
        l.holdings[i].account_id == id,
        l.holdings[i].stock_symbol == sym,
    ensures
        has_holding(l, id, sym),
        holding_index(l, id, sym) == i,
        holding_of(l, id, sym) == l.holdings[i],
{
    assert(has_holding(l, id, sym));
    let j = holding_index(l, id, sym);
    assert(l.holdings[j].account_id == id && l.holdings[j].stock_symbol == sym);
}

// ---------------------------------------------------------------------
// Filtered reads
// ---------------------------------------------------------------------

/// The holdings of one account, in insertion order.
pub open spec fn holdings_of(hs: Seq<HoldingV>, id: Seq<char>) -> Seq<HoldingV>
    decreases hs.len(),
{
    if hs.len() == 0 {
        Seq::empty()
    } else {
        holdings_of(hs.drop_last(), id) + if hs.last().account_id == id {
            seq![hs.last()]
        } else {
            Seq::empty()
        }
    }
}

/// The transactions of one account, newest first (the log is append-only,
/// so recency is reverse insertion order).
pub open spec fn history_of(txs: Seq<TransactionV>, id: Seq<char>) -> Seq<TransactionV>
    decreases txs.len(),
{
    if txs.len() == 0 {
        Seq::empty()
    } else {
        (if txs.last().account_id == id {
            seq![txs.last()]
        } else {
            Seq::empty()
        }) + history_of(txs.drop_last(), id)
    }
}

/// Peeling the oldest transaction off the log moves it to the end of
/// the newest-first history.
proof fn lemma_history_of_cons(x: TransactionV, s: Seq<TransactionV>, id: Seq<char>)
    ensures
        history_of(seq![x] + s, id) == history_of(s, id) + if x.account_id == id {
            seq![x]
        } else {
            Seq::<TransactionV>::empty()
        },
    decreases s.len(),
{
    let t = seq![x] + s;
    let xs = if x.account_id == id {
        seq![x]
    } else {
        Seq::<TransactionV>::empty()
    };
    if s.len() == 0 {
        assert(t =~= seq![x]);
        assert(t.drop_last() =~= Seq::<TransactionV>::empty());
        assert(history_of(t, id) =~= history_of(s, id) + xs);
    } else {
        assert(t.last() == s.last());
        assert(t.drop_last() =~= seq![x] + s.drop_last());
        lemma_history_of_cons(x, s.drop_last(), id);
        let pre = if s.last().account_id == id {
            seq![s.last()]
        } else {
            Seq::<TransactionV>::empty()
        };
        assert(history_of(t, id) == pre + history_of(t.drop_last(), id));
        assert(history_of(t.drop_last(), id) == history_of(s.drop_last(), id) + xs);
        assert(history_of(s, id) == pre + history_of(s.drop_last(), id));
        assert(pre + (history_of(s.drop_last(), id) + xs) =~= (pre + history_of(
            s.drop_last(),
            id,
        )) + xs);
    }
}

// ---------------------------------------------------------------------
// Store operations: accounts
// ---------------------------------------------------------------------

impl Ledger {
    /// The store invariant, on the executable store.
    pub open spec fn wf(&self) -> bool {
        ledger_wf(self@)
    }

    /// An empty store.
    pub fn new() -> (r: Ledger)
        ensures
            r.wf(),
            ledger_balanced(r@),
            r@.accounts == Seq::<AccountRowV>::empty(),
            r@.holdings == Seq::<HoldingV>::empty(),
            r@.transactions == Seq::<TransactionV>::empty(),
    {
        let r = Ledger { accounts: Vec::new(), holdings: Vec::new(), transactions: Vec::new() };
        proof {
            assert(r@.accounts =~= Seq::<AccountRowV>::empty());
            assert(r@.holdings =~= Seq::<HoldingV>::empty());
            assert(r@.transactions =~= Seq::<TransactionV>::empty());
        }
        r
    }

    /// The index of the row keyed by `account_id`, if any.
    pub(crate) fn find_account_index(&self, account_id: &String) -> (r: Option<usize>)
        ensures
            match r {
                Some(i) => i < self.accounts.len() && self@.accounts[i as int].account.id
                    == account_id@ && has_account(self@, account_id@),
                None => !has_account(self@, account_id@),
            },
    {
        let n = self.accounts.len();
        let mut i: usize = 0;
        while i < n
            invariant
                n == self.accounts.len(),
                i <= n,
                forall|j: int| 0 <= j < i ==> (#[trigger] self@.accounts[j]).account.id != account_id@,
            decreases n - i,
        {
            if self.accounts[i].account.id == *account_id {
                proof {
                    assert(self@.accounts[i as int] == self.accounts@[i as int]@);
                    assert(self@.accounts[i as int].account.id == account_id@);
                }
                return Some(i);
            }
            i += 1;
        }
        None
    }

    /// Point lookup of an account by id.
    pub fn get_account(&self, account_id: &String) -> (r: Option<Account>)
        ensures
            r is Some <==> has_account(self@, account_id@),
            r matches Some(a) ==> ledger_wf(self@) ==> a@ == account_of(self@, account_id@).account,
            r matches Some(a) ==> a.id@ == account_id@,
    {
        match self.find_account_index(account_id) {
            None => None,
            Some(i) => {
                let row = &self.accounts[i];
                let a = Account {
                    id: row.account.id.clone(),
                    value: row.account.value,
                    cash: row.account.cash,
                    change: row.account.change,
                };
                proof {
                    if ledger_wf(self@) {
                        lemma_account_lookup_at(self@, account_id@, i as int);
                    }
                }
                Some(a)
            },
        }
    }

    /// Inserts a new account row with write version 0; the cash it is
    /// created with is recorded as its starting cash.
    pub fn add_account(&mut self, account: Account)
        requires
            old(self).wf(),
            account.cash >= 0,
            !has_account(old(self)@, account.id@),
        ensures
            final(self).wf(),
            final(self)@.accounts == old(self)@.accounts.push(
                AccountRowV { account: account@, version: 0, initial_cash: account.cash as int },
            ),
            final(self)@.holdings == old(self)@.holdings,
            final(self)@.transactions == old(self)@.transactions,
            has_account(final(self)@, account.id@),
            account_of(final(self)@, account.id@) == (AccountRowV {
                account: account@,
                version: 0,
                initial_cash: account.cash as int,
            }),
            ledger_balanced(old(self)@) && log_delta(old(self)@.transactions, account.id@) == 0
                ==> ledger_balanced(final(self)@),
    {
        let ghost pre = self@;
        let ghost row_v = AccountRowV {
            account: account@,
            version: 0,
            initial_cash: account.cash as int,
        };
        let cash = account.cash;
        let row = AccountRow { account, version: 0, initial_cash: Ghost(cash as int) };
        self.accounts.push(row);
        proof {
            assert(final(self)@.accounts =~= pre.accounts.push(row_v));
            assert(final(self)@.holdings =~= pre.holdings);
            assert(final(self)@.transactions =~= pre.transactions);
            let n = pre.accounts.len() as int;
            lemma_account_lookup_at(final(self)@, row_v.account.id, n);
            if ledger_balanced(pre) && log_delta(pre.transactions, row_v.account.id) == 0 {
                assert forall|i: int| 0 <= i < final(self)@.accounts.len() implies account_balanced(
                    final(self)@,
                    #[trigger] final(self)@.accounts[i],
                ) by {
                    if i < n {
                        assert(account_balanced(pre, pre.accounts[i]));
                    }
                }
            }
        }
    }

    /// Idempotent account creation: returns the existing row if the id
    /// is already present, otherwise inserts one with the given
    /// starting endowment and a day change of zero.
    pub fn create_account_if_absent(&mut self, account_id: &String, starting: &CreateAccount) -> (r:
        Account)
        requires
            old(self).wf(),
            starting.cash >= 0,
        ensures
            final(self).wf(),
            has_account(final(self)@, account_id@),
            r@ == account_of(final(self)@, account_id@).account,
            has_account(old(self)@, account_id@) ==> final(self)@ == old(self)@,
            !has_account(old(self)@, account_id@) ==> final(self)@.accounts == old(
                self,
            )@.accounts.push(
                AccountRowV {
                    account: AccountV {
                        id: account_id@,
                        value: starting.value as int,
                        cash: starting.cash as int,
                        change: 0,
                    },
                    version: 0,
                    initial_cash: starting.cash as int,
                },
            ) && final(self)@.holdings == old(self)@.holdings && final(self)@.transactions == old(
                self,
            )@.transactions,
            ledger_balanced(old(self)@) && log_delta(old(self)@.transactions, account_id@) == 0
                ==> ledger_balanced(final(self)@),
    {
        match self.get_account(account_id) {
            Some(a) => a,
            None => {
                let fresh = Account {
                    id: account_id.clone(),
                    value: starting.value,
                    cash: starting.cash,
                    change: 0,
                };
                let r = Account {
                    id: account_id.clone(),
                    value: starting.value,
                    cash: starting.cash,
                    change: 0,
                };
                self.add_account(fresh);
                r
            },
        }
    }

    /// Overwrites the advisory aggregate value of an account; cash, the
    /// write version and everything else stay as they are. Writing to
    /// an absent id changes nothing.
    pub fn update_account(&mut self, account_id: &String, new_value: i64)
        requires
            old(self).wf(),
        ensures
            final(self).wf(),
            !has_account(old(self)@, account_id@) ==> final(self)@ == old(self)@,
            has_account(old(self)@, account_id@) ==> {
                let i = account_index(old(self)@, account_id@);
                let row = old(self)@.accounts[i];
                final(self)@ == (LedgerV {
                    accounts: old(self)@.accounts.update(
                        i,
                        AccountRowV {
                            account: AccountV { value: new_value as int, ..row.account },
                            ..row
                        },
                    ),
                    holdings: old(self)@.holdings,
                    transactions: old(self)@.transactions,
                })
            },
            ledger_balanced(old(self)@) ==> ledger_balanced(final(self)@),
    {
        let ghost pre = self@;
        match self.find_account_index(account_id) {
            None => (),
            Some(i) => {
                self.accounts[i].account.value = new_value;
                proof {
                    lemma_account_lookup_at(pre, account_id@, i as int);
                    let row = pre.accounts[i as int];
                    let row1 = AccountRowV {
                        account: AccountV { value: new_value as int, ..row.account },
                        ..row
                    };
                    assert(final(self)@.accounts =~= pre.accounts.update(i as int, row1));
                    assert(final(self)@.holdings =~= pre.holdings);
                    assert(final(self)@.transactions =~= pre.transactions);
                    assert(final(self)@ =~= (LedgerV {
                        accounts: pre.accounts.update(i as int, row1),
                        holdings: pre.holdings,
                        transactions: pre.transactions,
                    }));
                    if ledger_balanced(pre) {
                        assert forall|k: int|
                            0 <= k < final(self)@.accounts.len() implies account_balanced(
                            final(self)@,
                            #[trigger] final(self)@.accounts[k],
                        ) by {
                            assert(account_balanced(pre, pre.accounts[k]));
                        }
                    }
                }
            },
        }
    }

    /// The current write version of an account row.
    pub fn account_version(&self, account_id: &String) -> (r: Option<u64>)
        requires
            self.wf(),
        ensures
            r is Some <==> has_account(self@, account_id@),
            r matches Some(v) ==> v as int == account_of(self@, account_id@).version,
    {
        match self.find_account_index(account_id) {
            None => None,
            Some(i) => {
                proof {
                    lemma_account_lookup_at(self@, account_id@, i as int);
                }
                Some(self.accounts[i].version)
            },
        }
    }

    /// Writes an account's new cash balance and bumps its write
    /// version: the serialization point of an order commit.
    pub(crate) fn commit_cash(&mut self, account_id: &String, new_cash: i64)
        requires
            old(self).wf(),
            new_cash >= 0,
            has_account(old(self)@, account_id@),
        ensures
            final(self).wf(),
            final(self)@ == ({
                let i = account_index(old(self)@, account_id@);
                let row = old(self)@.accounts[i];
                LedgerV {
                    accounts: old(self)@.accounts.update(
                        i,
                        AccountRowV {
                            account: AccountV { cash: new_cash as int, ..row.account },
                            version: bump_version(row.version),
                            initial_cash: row.initial_cash,
                        },
                    ),
                    holdings: old(self)@.holdings,
                    transactions: old(self)@.transactions,
                }
            }),
    {
        let ghost pre = self@;
        let idx_opt = self.find_account_index(account_id);
        let i = idx_opt.unwrap();
        let v = self.accounts[i].version;
        let bumped: u64 = if v == u64::MAX {
            0
        } else {
            v + 1
        };
        self.accounts[i].account.cash = new_cash;
        self.accounts[i].version = bumped;
        proof {
            lemma_account_lookup_at(pre, account_id@, i as int);
            let row = pre.accounts[i as int];
            let row1 = AccountRowV {
                account: AccountV { cash: new_cash as int, ..row.account },
                version: bump_version(row.version),
                initial_cash: row.initial_cash,
            };
            assert(final(self)@.accounts =~= pre.accounts.update(i as int, row1));
            assert(final(self)@.holdings =~= pre.holdings);
            assert(final(self)@.transactions =~= pre.transactions);
            assert(final(self)@ =~= (LedgerV {
                accounts: pre.accounts.update(i as int, row1),
                holdings: pre.holdings,
                transactions: pre.transactions,
            }));
        }
    }

    // -----------------------------------------------------------------
    // Store operations: holdings
    // -----------------------------------------------------------------

    /// The index of the holding row keyed by (`account_id`, `stock_symbol`).
    pub(crate) fn find_holding_index(&self, account_id: &String, stock_symbol: &String) -> (r:
        Option<usize>)
        ensures
            match r {
                Some(i) => i < self.holdings.len() && self@.holdings[i as int].account_id
                    == account_id@ && self@.holdings[i as int].stock_symbol == stock_symbol@
                    && has_holding(self@, account_id@, stock_symbol@),
                None => !has_holding(self@, account_id@, stock_symbol@),
            },
    {
        let n = self.holdings.len();
        let mut i: usize = 0;
        while i < n
            invariant
                n == self.holdings.len(),
                i <= n,
                forall|j: int|
                    0 <= j < i ==> !((#[trigger] self@.holdings[j]).account_id == account_id@
                        && self@.holdings[j].stock_symbol == stock_symbol@),
            decreases n - i,
        {
            if self.holdings[i].account_id == *account_id && self.holdings[i].stock_symbol
                == *stock_symbol {
                proof {
                    assert(self@.holdings[i as int] == self.holdings@[i as int]@);
                }
                return Some(i);
            }
            i += 1;
        }
        None
    }

    /// Point lookup of a holding by (account id, symbol).
    pub fn get_holding(&self, account_id: &String, stock_symbol: &String) -> (r: Option<Holding>)
        ensures
            r is Some <==> has_holding(self@, account_id@, stock_symbol@),
            r matches Some(h) ==> ledger_wf(self@) ==> h@ == holding_of(
                self@,
                account_id@,
                stock_symbol@,
            ),
    {
        match self.find_holding_index(account_id, stock_symbol) {
            None => None,
            Some(i) => {
                let row = &self.holdings[i];
                let h = Holding {
                    account_id: row.account_id.clone(),
                    stock_symbol: row.stock_symbol.clone(),
                    stock_name: row.stock_name.clone(),
                    quantity: row.quantity,
                    purchase_price: row.purchase_price,
                    total_value: row.total_value,
                    current_price: row.current_price,
                };
                proof {
                    if ledger_wf(self@) {
                        lemma_holding_lookup_at(self@, account_id@, stock_symbol@, i as int);
                    }
                }
                Some(h)
            },
        }
    }

    /// All holdings of one account, in insertion order.
    pub fn get_holdings(&self, account_id: &String) -> (r: Vec<Holding>)
        ensures
            r.deep_view() == holdings_of(self@.holdings, account_id@),
    {
        let n = self.holdings.len();
        let mut out: Vec<Holding> = Vec::new();
        let mut i: usize = 0;
        proof {
            assert(out.deep_view() =~= holdings_of(self@.holdings.take(0), account_id@));
        }
        while i < n
            invariant
                n == self.holdings.len(),
                i <= n,
                out.deep_view() == holdings_of(self@.holdings.take(i as int), account_id@),
            decreases n - i,
        {
            let row = &self.holdings[i];
            if row.account_id == *account_id {
                let h = Holding {
                    account_id: row.account_id.clone(),
                    stock_symbol: row.stock_symbol.clone(),
                    stock_name: row.stock_name.clone(),
                    quantity: row.quantity,
                    purchase_price: row.purchase_price,
                    total_value: row.total_value,
                    current_price: row.current_price,
                };
                proof {
                    assert(h == self.holdings@[i as int]);
                }
                out.push(h);
            }
            proof {
                let hs = self@.holdings;
                assert(hs.take(i + 1).drop_last() =~= hs.take(i as int));
                assert(hs.take(i + 1).last() == hs[i as int]);
                assert(out.deep_view() =~= holdings_of(hs.take(i + 1), account_id@));
            }
            i += 1;
        }
        proof {
            assert(self@.holdings.take(n as int) =~= self@.holdings);
        }
        out
    }

    /// Inserts a new holding row.
    pub fn add_holding(&mut self, holding: Holding)
        requires
            old(self).wf(),
            holding_ok(holding@),
            !has_holding(old(self)@, holding.account_id@, holding.stock_symbol@),
        ensures
            final(self).wf(),
            final(self)@.holdings == old(self)@.holdings.push(holding@),
            final(self)@.accounts == old(self)@.accounts,
            final(self)@.transactions == old(self)@.transactions,
            ledger_balanced(old(self)@) ==> ledger_balanced(final(self)@),
    {
        let ghost pre = self@;
        let ghost hv = holding@;
        self.holdings.push(holding);
        proof {
            assert(final(self)@.holdings =~= pre.holdings.push(hv));
            assert(final(self)@.accounts =~= pre.accounts);
            assert(final(self)@.transactions =~= pre.transactions);
            if ledger_balanced(pre) {
                assert forall|k: int| 0 <= k < final(self)@.accounts.len() implies account_balanced(
                    final(self)@,
                    #[trigger] final(self)@.accounts[k],
                ) by {
                    assert(account_balanced(pre, pre.accounts[k]));
                }
            }
        }
    }

    /// Overwrites the quantity and average cost of a holding row as a
    /// pair; the remaining fields stay as they are. Writing to an
    /// absent key changes nothing.
    pub fn update_holding(
        &mut self,
        account_id: &String,
        stock_symbol: &String,
        quantity: i64,
        purchase_price: i64,
    )
        requires
            old(self).wf(),
            quantity >= 1,
            purchase_price >= 1,
        ensures
            final(self).wf(),
            !has_holding(old(self)@, account_id@, stock_symbol@) ==> final(self)@ == old(self)@,
            has_holding(old(self)@, account_id@, stock_symbol@) ==> {
                let i = holding_index(old(self)@, account_id@, stock_symbol@);
                let row = old(self)@.holdings[i];
                final(self)@ == (LedgerV {
                    accounts: old(self)@.accounts,
                    holdings: old(self)@.holdings.update(
                        i,
                        HoldingV {
                            quantity: quantity as int,
                            purchase_price: purchase_price as int,
                            ..row
                        },
                    ),
                    transactions: old(self)@.transactions,
                })
            },
            ledger_balanced(old(self)@) ==> ledger_balanced(final(self)@),
    {
        let ghost pre = self@;
        match self.find_holding_index(account_id, stock_symbol) {
            None => (),
            Some(i) => {
                self.holdings[i].quantity = quantity;
                self.holdings[i].purchase_price = purchase_price;
                proof {
                    lemma_holding_lookup_at(pre, account_id@, stock_symbol@, i as int);
                    let row = pre.holdings[i as int];
                    let row1 = HoldingV {
                        quantity: quantity as int,
                        purchase_price: purchase_price as int,
                        ..row
                    };
                    assert(final(self)@.holdings =~= pre.holdings.update(i as int, row1));
                    assert(final(self)@.accounts =~= pre.accounts);
                    assert(final(self)@.transactions =~= pre.transactions);
                    assert(final(self)@ =~= (LedgerV {
                        accounts: pre.accounts,
                        holdings: pre.holdings.update(i as int, row1),
                        transactions: pre.transactions,
                    }));
                    if ledger_balanced(pre) {
                        assert forall|k: int|
                            0 <= k < final(self)@.accounts.len() implies account_balanced(
                            final(self)@,
                            #[trigger] final(self)@.accounts[k],
                        ) by {
                            assert(account_balanced(pre, pre.accounts[k]));
                        }
                    }
                }
            },
        }
    }

    /// Removes a holding row. Deleting an absent key changes nothing.
    pub fn delete_holding(&mut self, account_id: &String, stock_symbol: &String)
        requires
            old(self).wf(),
        ensures
            final(self).wf(),
            !has_holding(old(self)@, account_id@, stock_symbol@) ==> final(self)@ == old(self)@,
            has_holding(old(self)@, account_id@, stock_symbol@) ==> final(self)@ == (LedgerV {
                accounts: old(self)@.accounts,
                holdings: old(self)@.holdings.remove(
                    holding_index(old(self)@, account_id@, stock_symbol@),
                ),
                transactions: old(self)@.transactions,
            }),
            !has_holding(final(self)@, account_id@, stock_symbol@),
            ledger_balanced(old(self)@) ==> ledger_balanced(final(self)@),
    {
        let ghost pre = self@;
        match self.find_holding_index(account_id, stock_symbol) {
            None => (),
            Some(i) => {
                self.holdings.remove(i);
                proof {
                    lemma_holding_lookup_at(pre, account_id@, stock_symbol@, i as int);
                    assert(final(self)@.holdings =~= pre.holdings.remove(i as int));
                    assert(final(self)@.accounts =~= pre.accounts);
                    assert(final(self)@.transactions =~= pre.transactions);
                    assert(final(self)@ =~= (LedgerV {
                        accounts: pre.accounts,
                        holdings: pre.holdings.remove(i as int),
                        transactions: pre.transactions,
                    }));
                    let hs1 = final(self)@.holdings;
                    assert forall|a: int, b: int|
                        0 <= a < hs1.len() && 0 <= b < hs1.len() && (#[trigger] hs1[a]).account_id
                            == (#[trigger] hs1[b]).account_id && hs1[a].stock_symbol
                            == hs1[b].stock_symbol implies a == b by {
                        let a0 = if a < i as int { a } else { a + 1 };
                        let b0 = if b < i as int { b } else { b + 1 };
                        assert(hs1[a] == pre.holdings[a0]);
                        assert(hs1[b] == pre.holdings[b0]);
                    }
                    if has_holding(final(self)@, account_id@, stock_symbol@) {
                        let k = holding_index(final(self)@, account_id@, stock_symbol@);
                        let k0 = if k < i as int { k } else { k + 1 };
                        assert(hs1[k] == pre.holdings[k0]);
                        assert(false);
                    }
                    if ledger_balanced(pre) {
                        assert forall|k: int|
                            0 <= k < final(self)@.accounts.len() implies account_balanced(
                            final(self)@,
                            #[trigger] final(self)@.accounts[k],
                        ) by {
                            assert(account_balanced(pre, pre.accounts[k]));
                        }
                    }
                }
            },
        }
    }

    // -----------------------------------------------------------------
    // Store operations: transactions
    // -----------------------------------------------------------------

    /// Appends one transaction to the log. The log is append-only:
    /// records are never rewritten or removed.
    pub fn add_transaction(&mut self, transaction: Transaction)
        requires
            old(self).wf(),
            transaction_ok(transaction@),
        ensures
            final(self).wf(),
            final(self)@.transactions == old(self)@.transactions.push(transaction@),
            final(self)@.accounts == old(self)@.accounts,
            final(self)@.holdings == old(self)@.holdings,
    {
        let ghost pre = self@;
        let ghost tv = transaction@;
        self.transactions.push(transaction);
        proof {
            assert(final(self)@.transactions =~= pre.transactions.push(tv));
            assert(final(self)@.accounts =~= pre.accounts);
            assert(final(self)@.holdings =~= pre.holdings);
        }
    }

    /// One account's transaction history, newest first.
    pub fn get_transactions(&self, account_id: &String) -> (r: Vec<Transaction>)
        ensures
            r.deep_view() == history_of(self@.transactions, account_id@),
    {
        let mut out: Vec<Transaction> = Vec::new();
        let mut i: usize = self.transactions.len();
        proof {
            assert(self@.transactions.skip(i as int) =~= Seq::<TransactionV>::empty());
            assert(out.deep_view() =~= history_of(self@.transactions.skip(i as int), account_id@));
        }
        while i > 0
            invariant
                i <= self.transactions.len(),
                out.deep_view() == history_of(self@.transactions.skip(i as int), account_id@),
            decreases i,
        {
            i -= 1;
            let row = &self.transactions[i];
            if row.account_id == *account_id {
                let t = Transaction {
                    id: row.id.clone(),
                    account_id: row.account_id.clone(),
                    stock_symbol: row.stock_symbol.clone(),
                    transaction_type: row.transaction_type.clone(),
                    quantity: row.quantity,
                    price: row.price,
                    timestamp: row.timestamp.clone(),
                };
                proof {
                    assert(t == self.transactions@[i as int]);
                }
                out.push(t);
            }
            proof {
                let txs = self@.transactions;
                assert(txs.skip(i as int) =~= seq![txs[i as int]] + txs.skip(i + 1));
                lemma_history_of_cons(txs[i as int], txs.skip(i + 1), account_id@);
                assert(out.deep_view() =~= history_of(txs.skip(i as int), account_id@));
            }
        }
        proof {
            assert(self@.transactions.skip(0) =~= self@.transactions);
        }
        out
    }
}

} // verus!
