use stock_ledger::errors::TradeError;
use stock_ledger::ledger::Ledger;
use stock_ledger::models::CreateAccount;
use stock_ledger::models::FinnhubProfile;
use stock_ledger::models::GoogleUserInfo;
use stock_ledger::models::Holding;
use stock_ledger::quotes::Quote;
use stock_ledger::valuation::day_change_sum;
use stock_ledger::valuation::record_valuation;
use stock_ledger::valuation::value_portfolio;

fn holding(symbol: &str, quantity: i64, purchase_price: i64) -> Holding {
    Holding {
        account_id: "user@example.com".to_string(),
        stock_symbol: symbol.to_string(),
        stock_name: format!("{} Inc", symbol),
        quantity,
        purchase_price,
        total_value: purchase_price * quantity,
        current_price: purchase_price,
    }
}

fn quote(price: i64, prev_close: i64) -> Quote {
    Quote { price, day_change: price - prev_close, day_change_percent: 250, prev_close }
}

#[test]
fn portfolio_is_priced_per_holding() {
    let holdings = vec![holding("ACME", 10, 5_000), holding("WIDGET", 4, 2_000)];
    let quotes = vec![quote(6_000, 5_900), quote(1_500, 1_600)];
    let profiles = vec![
        Some(FinnhubProfile {
            name: "Acme Inc".to_string(),
            logo: "https://example.com/acme.png".to_string(),
            finnhub_industry: "Industrials".to_string(),
        }),
        None,
    ];

    let (portfolio, total) = value_portfolio(&holdings, &quotes, &profiles).unwrap();
    assert_eq!(total, 10 * 6_000 + 4 * 1_500);
    assert_eq!(portfolio.holdings.len(), 2);

    let first = &portfolio.holdings[0];
    assert_eq!(first.stock_symbol, "ACME");
    assert_eq!(first.current_price, 6_000);
    assert_eq!(first.total_value, 60_000);
    assert_eq!(first.overall_change, 60_000 - 50_000);
    assert_eq!(first.day_change, 100);
    assert_eq!(first.day_change_percent, 250);
    assert_eq!(first.purchase_price, 5_000);
    assert_eq!(first.stock_logo_url, "https://example.com/acme.png");
    assert_eq!(first.category, "Industrials");

    let second = &portfolio.holdings[1];
    assert_eq!(second.total_value, 6_000);
    assert_eq!(second.overall_change, 6_000 - 8_000);
    assert_eq!(second.stock_logo_url, "");
    assert_eq!(second.category, "");
}

#[test]
fn valuation_aborts_when_a_value_overflows() {
    let holdings = vec![holding("ACME", i64::MAX / 2, 1)];
    let quotes = vec![quote(3, 2)];
    let profiles = vec![None];
    assert!(value_portfolio(&holdings, &quotes, &profiles).is_none());
}

#[test]
fn day_change_sums_price_movements() {
    let holdings = vec![holding("ACME", 10, 5_000), holding("WIDGET", 4, 2_000)];
    let quotes = vec![quote(6_000, 5_900), quote(1_500, 1_600)];
    // 10 * (6000 - 5900) + 4 * (1500 - 1600) = 1000 - 400.
    assert_eq!(day_change_sum(&holdings, &quotes), Some(600));

    let empty_h: Vec<Holding> = Vec::new();
    let empty_q: Vec<Quote> = Vec::new();
    assert_eq!(day_change_sum(&empty_h, &empty_q), Some(0));
}

#[test]
fn recorded_valuation_is_cash_plus_total() {
    let mut ledger = Ledger::new();
    let id = "user@example.com".to_string();
    let starting = CreateAccount { value: 100_000, cash: 100_000 };
    ledger.create_account_if_absent(&id, &starting);

    record_valuation(&mut ledger, &id, 42_000).unwrap();
    let account = ledger.get_account(&id).unwrap();
    assert_eq!(account.value, 142_000);
    assert_eq!(account.cash, 100_000);

    let missing = "nobody@example.com".to_string();
    assert_eq!(record_valuation(&mut ledger, &missing, 1), Err(TradeError::AccountNotFound));
}

#[test]
fn error_messages_name_the_reason() {
    assert_eq!(TradeError::Unauthorized.message(), "Unauthorized access");
    assert_eq!(TradeError::AccountNotFound.message(), "Account not found");
    assert_eq!(
        TradeError::PriceUnavailable.message(),
        "Could not fetch a valid price for this stock"
    );
    assert_eq!(
        TradeError::InsufficientFunds.message(),
        "You don't have enough cash to complete this trade."
    );
    assert_eq!(
        TradeError::InsufficientShares.message(),
        "You cannot sell more shares than you own."
    );
    assert_eq!(TradeError::Conflict.message(), "Another order changed this account; please retry");
    assert_eq!(TradeError::StoreUnavailable.message(), "Error completing trade");
}

#[test]
fn session_is_valid_only_with_an_email() {
    let anonymous = GoogleUserInfo::default();
    assert_eq!(anonymous.email, "");
    assert_eq!(anonymous.name, "");
    assert_eq!(anonymous.picture, "");
    assert_eq!(anonymous.validate(), Err(TradeError::Unauthorized));

    let known = GoogleUserInfo {
        email: "user@example.com".to_string(),
        name: "A User".to_string(),
        picture: String::new(),
    };
    assert_eq!(known.validate(), Ok(()));
}
