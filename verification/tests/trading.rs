use stock_ledger::engine::apply_order;
use stock_ledger::engine::execute_order;
use stock_ledger::engine::execute_order_now;
use stock_ledger::engine::plan_order;
use stock_ledger::errors::TradeError;
use stock_ledger::ledger::Ledger;
use stock_ledger::models::CreateAccount;
use stock_ledger::models::TradeRequest;
use stock_ledger::models::TradeSide;

fn fresh_account(ledger: &mut Ledger, id: &str, cash: i64) -> String {
    let id = id.to_string();
    let starting = CreateAccount { value: cash, cash };
    let account = ledger.create_account_if_absent(&id, &starting);
    assert_eq!(account.cash, cash);
    assert_eq!(account.value, cash);
    assert_eq!(account.change, 0);
    id
}

fn request(symbol: &str, quantity: i64) -> TradeRequest {
    TradeRequest { stock_symbol: symbol.to_string(), quantity }
}

fn buy(
    ledger: &mut Ledger,
    id: &String,
    symbol: &str,
    quantity: i64,
    price: i64,
) -> Result<stock_ledger::models::Transaction, TradeError> {
    execute_order(
        ledger,
        id,
        &request(symbol, quantity),
        TradeSide::Buy,
        price,
        &"Acme Corp".to_string(),
        format!("tx-{}", ledger.transactions.len()),
        "2024-01-02T03:04:05+00:00".to_string(),
    )
}

fn sell(
    ledger: &mut Ledger,
    id: &String,
    symbol: &str,
    quantity: i64,
    price: i64,
) -> Result<stock_ledger::models::Transaction, TradeError> {
    execute_order(
        ledger,
        id,
        &request(symbol, quantity),
        TradeSide::Sell,
        price,
        &"Acme Corp".to_string(),
        format!("tx-{}", ledger.transactions.len()),
        "2024-01-02T03:04:05+00:00".to_string(),
    )
}

#[test]
fn example_trading_session() {
    // Starting cash 100000 cents. A buy of 10 shares at 150.00 costs
    // 150000 and is rejected; at 50.00 it costs 50000 and commits; the
    // sell of all 10 at 60.00 frees the row and brings cash to 110000.
    let mut ledger = Ledger::new();
    let id = fresh_account(&mut ledger, "user@example.com", 100_000);

    let rejected = buy(&mut ledger, &id, "ACME", 10, 15_000);
    assert_eq!(rejected, Err(TradeError::InsufficientFunds));
    assert_eq!(ledger.get_account(&id).unwrap().cash, 100_000);

    let committed = buy(&mut ledger, &id, "ACME", 10, 5_000).unwrap();
    assert_eq!(committed.transaction_type, "BUY");
    assert_eq!(committed.quantity, 10);
    assert_eq!(committed.price, 5_000);
    assert_eq!(ledger.get_account(&id).unwrap().cash, 50_000);
    let holding = ledger.get_holding(&id, &"ACME".to_string()).unwrap();
    assert_eq!(holding.quantity, 10);
    assert_eq!(holding.purchase_price, 5_000);

    let sold = sell(&mut ledger, &id, "ACME", 10, 6_000).unwrap();
    assert_eq!(sold.transaction_type, "SELL");
    assert_eq!(ledger.get_account(&id).unwrap().cash, 110_000);
    assert!(ledger.get_holding(&id, &"ACME".to_string()).is_none());
}

#[test]
fn insufficient_funds_changes_nothing() {
    let mut ledger = Ledger::new();
    let id = fresh_account(&mut ledger, "user@example.com", 1_000);
    buy(&mut ledger, &id, "ACME", 2, 100).unwrap();

    let cash_before = ledger.get_account(&id).unwrap().cash;
    let holdings_before = ledger.get_holdings(&id).len();
    let log_before = ledger.get_transactions(&id).len();

    let r = buy(&mut ledger, &id, "ACME", 100, 100);
    assert_eq!(r, Err(TradeError::InsufficientFunds));
    assert_eq!(ledger.get_account(&id).unwrap().cash, cash_before);
    assert_eq!(ledger.get_holdings(&id).len(), holdings_before);
    assert_eq!(ledger.get_transactions(&id).len(), log_before);
    let holding = ledger.get_holding(&id, &"ACME".to_string()).unwrap();
    assert_eq!(holding.quantity, 2);
    assert_eq!(holding.purchase_price, 100);
}

#[test]
fn insufficient_shares_changes_nothing() {
    let mut ledger = Ledger::new();
    let id = fresh_account(&mut ledger, "user@example.com", 10_000);

    // Selling a stock that is not held at all.
    let r = sell(&mut ledger, &id, "ACME", 1, 100);
    assert_eq!(r, Err(TradeError::InsufficientShares));
    assert_eq!(ledger.get_account(&id).unwrap().cash, 10_000);
    assert_eq!(ledger.get_transactions(&id).len(), 0);

    // Selling more shares than are held.
    buy(&mut ledger, &id, "ACME", 3, 100).unwrap();
    let r = sell(&mut ledger, &id, "ACME", 4, 100);
    assert_eq!(r, Err(TradeError::InsufficientShares));
    assert_eq!(ledger.get_account(&id).unwrap().cash, 10_000 - 300);
    assert_eq!(ledger.get_holding(&id, &"ACME".to_string()).unwrap().quantity, 3);
    assert_eq!(ledger.get_transactions(&id).len(), 1);
}

#[test]
fn account_not_found_is_rejected() {
    let mut ledger = Ledger::new();
    let id = "nobody@example.com".to_string();
    let r = buy(&mut ledger, &id, "ACME", 1, 100);
    assert_eq!(r, Err(TradeError::AccountNotFound));
    assert!(ledger.get_account(&id).is_none());
}

#[test]
fn average_cost_is_floor_weighted() {
    // Two buys of q1 at p1 and q2 at p2 end at
    // floor((q1*p1 + q2*p2) / (q1 + q2)).
    let mut ledger = Ledger::new();
    let id = fresh_account(&mut ledger, "user@example.com", 1_000_000);
    buy(&mut ledger, &id, "ACME", 3, 1_000).unwrap();
    buy(&mut ledger, &id, "ACME", 2, 2_000).unwrap();
    let holding = ledger.get_holding(&id, &"ACME".to_string()).unwrap();
    assert_eq!(holding.quantity, 5);
    assert_eq!(holding.purchase_price, (3 * 1_000 + 2 * 2_000) / 5); // 1400

    // Floor division: 1*1 + 1*2 over 2 gives 1, not 1.5.
    buy(&mut ledger, &id, "OTHER", 1, 1).unwrap();
    buy(&mut ledger, &id, "OTHER", 1, 2).unwrap();
    let other = ledger.get_holding(&id, &"OTHER".to_string()).unwrap();
    assert_eq!(other.purchase_price, 1);
}

#[test]
fn sell_preserves_average_cost() {
    let mut ledger = Ledger::new();
    let id = fresh_account(&mut ledger, "user@example.com", 1_000_000);
    buy(&mut ledger, &id, "ACME", 3, 1_000).unwrap();
    buy(&mut ledger, &id, "ACME", 2, 2_000).unwrap();
    sell(&mut ledger, &id, "ACME", 2, 9_000).unwrap();
    let holding = ledger.get_holding(&id, &"ACME".to_string()).unwrap();
    assert_eq!(holding.quantity, 3);
    assert_eq!(holding.purchase_price, 1_400);
}

#[test]
fn sell_to_zero_removes_holding() {
    let mut ledger = Ledger::new();
    let id = fresh_account(&mut ledger, "user@example.com", 10_000);
    buy(&mut ledger, &id, "ACME", 5, 100).unwrap();
    assert_eq!(ledger.get_holdings(&id).len(), 1);
    sell(&mut ledger, &id, "ACME", 5, 100).unwrap();
    assert!(ledger.get_holding(&id, &"ACME".to_string()).is_none());
    assert!(ledger.get_holdings(&id).is_empty());
    // No zero-quantity row is ever visible.
    for h in ledger.get_holdings(&id) {
        assert!(h.quantity >= 1);
    }
}

#[test]
fn concurrent_plans_have_single_winner() {
    // Two buys planned against the same snapshot, each affordable
    // alone but not together: the first commit wins, the second is
    // rejected with Conflict and cash is debited exactly once.
    let mut ledger = Ledger::new();
    let id = fresh_account(&mut ledger, "user@example.com", 100);
    let name = "Acme Corp".to_string();

    let plan1 = plan_order(&ledger, &id, &request("ACME", 6), TradeSide::Buy, 10, &name).unwrap();
    let plan2 = plan_order(&ledger, &id, &request("ACME", 6), TradeSide::Buy, 10, &name).unwrap();

    let first = apply_order(&mut ledger, plan1, "tx-a".to_string(), "t1".to_string());
    assert!(first.is_ok());
    assert_eq!(ledger.get_account(&id).unwrap().cash, 40);

    let second = apply_order(&mut ledger, plan2, "tx-b".to_string(), "t2".to_string());
    assert_eq!(second.map(|t| t.id), Err(TradeError::Conflict));
    assert_eq!(ledger.get_account(&id).unwrap().cash, 40);
    assert_eq!(ledger.get_transactions(&id).len(), 1);
}

#[test]
fn ledger_matches_transaction_log() {
    // cash == starting cash - sum(buy costs) + sum(sell proceeds),
    // replayed from the persisted log.
    let mut ledger = Ledger::new();
    let id = fresh_account(&mut ledger, "user@example.com", 1_000_000);
    buy(&mut ledger, &id, "ACME", 10, 500).unwrap();
    buy(&mut ledger, &id, "WIDGET", 4, 2_500).unwrap();
    sell(&mut ledger, &id, "ACME", 3, 700).unwrap();
    buy(&mut ledger, &id, "ACME", 1, 650).unwrap();
    sell(&mut ledger, &id, "WIDGET", 4, 2_400).unwrap();

    let mut replayed: i64 = 1_000_000;
    for tx in ledger.get_transactions(&id) {
        let amount = tx.price * tx.quantity;
        if tx.transaction_type == "SELL" {
            replayed += amount;
        } else {
            replayed -= amount;
        }
    }
    assert_eq!(ledger.get_account(&id).unwrap().cash, replayed);
}

#[test]
fn transactions_come_newest_first() {
    let mut ledger = Ledger::new();
    let id = fresh_account(&mut ledger, "user@example.com", 10_000);
    buy(&mut ledger, &id, "ACME", 1, 100).unwrap();
    buy(&mut ledger, &id, "WIDGET", 1, 100).unwrap();
    sell(&mut ledger, &id, "ACME", 1, 100).unwrap();
    let history = ledger.get_transactions(&id);
    assert_eq!(history.len(), 3);
    assert_eq!(history[0].transaction_type, "SELL");
    assert_eq!(history[0].stock_symbol, "ACME");
    assert_eq!(history[1].stock_symbol, "WIDGET");
    assert_eq!(history[2].stock_symbol, "ACME");
    assert_eq!(history[2].transaction_type, "BUY");
}

#[test]
fn overflowing_writes_are_store_unavailable() {
    // Sale proceeds that no longer fit the store's 64-bit cash field.
    let mut ledger = Ledger::new();
    let id = fresh_account(&mut ledger, "user@example.com", i64::MAX - 10);
    buy(&mut ledger, &id, "ACME", 2, 1).unwrap();
    let r = sell(&mut ledger, &id, "ACME", 2, i64::MAX / 2 + 1);
    assert_eq!(r, Err(TradeError::StoreUnavailable));
    assert_eq!(ledger.get_account(&id).unwrap().cash, i64::MAX - 10 - 2);
    assert_eq!(ledger.get_holding(&id, &"ACME".to_string()).unwrap().quantity, 2);
}

#[test]
fn account_creation_is_idempotent() {
    let mut ledger = Ledger::new();
    let id = fresh_account(&mut ledger, "user@example.com", 100_000);
    buy(&mut ledger, &id, "ACME", 10, 500).unwrap();

    // A second login must not reset the balance.
    let starting = CreateAccount { value: 100_000, cash: 100_000 };
    let again = ledger.create_account_if_absent(&id, &starting);
    assert_eq!(again.cash, 100_000 - 5_000);
    assert_eq!(ledger.accounts.len(), 1);
}

#[test]
fn generated_transaction_ids_are_uuids() {
    let mut ledger = Ledger::new();
    let id = fresh_account(&mut ledger, "user@example.com", 10_000);
    let tx = execute_order_now(
        &mut ledger,
        &id,
        &request("ACME", 1),
        TradeSide::Buy,
        100,
        &"Acme Corp".to_string(),
    )
    .unwrap();
    assert_eq!(tx.id.len(), 36);
    assert!(!tx.timestamp.is_empty());
    let other = execute_order_now(
        &mut ledger,
        &id,
        &request("ACME", 1),
        TradeSide::Buy,
        100,
        &"Acme Corp".to_string(),
    )
    .unwrap();
    assert_ne!(tx.id, other.id);
}

#[test]
fn update_and_delete_holding_by_key() {
    let mut ledger = Ledger::new();
    let id = fresh_account(&mut ledger, "user@example.com", 10_000);
    buy(&mut ledger, &id, "ACME", 2, 100).unwrap();
    buy(&mut ledger, &id, "WIDGET", 3, 100).unwrap();

    ledger.update_holding(&id, &"ACME".to_string(), 7, 123);
    let acme = ledger.get_holding(&id, &"ACME".to_string()).unwrap();
    assert_eq!(acme.quantity, 7);
    assert_eq!(acme.purchase_price, 123);
    assert_eq!(ledger.get_holding(&id, &"WIDGET".to_string()).unwrap().quantity, 3);

    ledger.delete_holding(&id, &"ACME".to_string());
    assert!(ledger.get_holding(&id, &"ACME".to_string()).is_none());
    assert_eq!(ledger.get_holdings(&id).len(), 1);

    // Writes to an absent key change nothing.
    ledger.update_holding(&id, &"MISSING".to_string(), 5, 5);
    assert!(ledger.get_holding(&id, &"MISSING".to_string()).is_none());
}

#[test]
fn oversized_merged_position_is_store_unavailable() {
    // A buy whose merged position no longer fits the store's 64-bit
    // quantity field is refused as an impossible write.
    let mut ledger = Ledger::new();
    let id = fresh_account(&mut ledger, "user@example.com", 10_000);
    buy(&mut ledger, &id, "ACME", 1, 1).unwrap();
    ledger.update_holding(&id, &"ACME".to_string(), i64::MAX, 1);

    let r = buy(&mut ledger, &id, "ACME", 1, 1);
    assert_eq!(r, Err(TradeError::StoreUnavailable));
    assert_eq!(ledger.get_holding(&id, &"ACME".to_string()).unwrap().quantity, i64::MAX);
    assert_eq!(ledger.get_account(&id).unwrap().cash, 10_000 - 1);
}

#[test]
fn holdings_listed_in_insertion_order() {
    let mut ledger = Ledger::new();
    let id = fresh_account(&mut ledger, "user@example.com", 10_000);
    let other = fresh_account(&mut ledger, "other@example.com", 10_000);
    buy(&mut ledger, &id, "ACME", 1, 100).unwrap();
    buy(&mut ledger, &other, "STRANGE", 1, 100).unwrap();
    buy(&mut ledger, &id, "WIDGET", 1, 100).unwrap();

    let listed = ledger.get_holdings(&id);
    assert_eq!(listed.len(), 2);
    assert_eq!(listed[0].stock_symbol, "ACME");
    assert_eq!(listed[1].stock_symbol, "WIDGET");
    assert_eq!(listed[0].stock_name, "Acme Corp");
    assert!(ledger.get_holdings(&"nobody@example.com".to_string()).is_empty());
}
