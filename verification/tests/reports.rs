use budget_rs::dates::Date;
use budget_rs::models::Amount;
use budget_rs::models::Category;
use budget_rs::models::Transaction;
use budget_rs::models::TransactionType;
use budget_rs::reports::filter_transactions;

fn transaction(
    id: u32,
    ymd: (i32, u32, u32),
    transaction_type: TransactionType,
    amount: f64,
    category: Category,
    description: &str,
) -> Transaction {
    Transaction {
        id,
        date: Date::new(ymd.0, ymd.1, ymd.2).unwrap(),
        transaction_type,
        amount: Amount { bits: amount.to_bits() },
        category,
        description: description.to_string(),
    }
}

fn sample_transactions() -> Vec<Transaction> {
    vec![
        transaction(1, (2026, 4, 1), TransactionType::Income, 1800.0, Category::Salary, "Monthly salary"),
        transaction(2, (2026, 4, 12), TransactionType::Expense, 24.5, Category::Groceries, "Tesco shop"),
        transaction(3, (2026, 4, 13), TransactionType::Expense, 12.5, Category::Transport, "Bus fare"),
        transaction(4, (2026, 3, 28), TransactionType::Expense, 40.0, Category::Dining, "Dinner out"),
    ]
}

fn ids(v: &[Transaction]) -> Vec<u32> {
    v.iter().map(|t| t.id).collect()
}

#[test]
fn filters_by_month() {
    let transactions = sample_transactions();
    let filtered = filter_transactions(&transactions, Some("2026-04"), None).unwrap();

    assert_eq!(filtered.len(), 3);
}

#[test]
fn filters_by_category() {
    let transactions = sample_transactions();
    let filtered = filter_transactions(&transactions, None, Some("groceries")).unwrap();

    assert_eq!(filtered.len(), 1);
    assert!(matches!(filtered[0].category, Category::Groceries));
}

#[test]
fn filters_by_month_and_category() {
    let transactions = sample_transactions();
    let filtered =
        filter_transactions(&transactions, Some("2026-04"), Some("transport")).unwrap();

    assert_eq!(filtered.len(), 1);
    assert_eq!(filtered[0].description, "Bus fare");
}

#[test]
fn rejects_invalid_category_filter() {
    let transactions = sample_transactions();
    let filtered = filter_transactions(&transactions, None, Some("travel"));

    assert!(filtered.is_err());
}

#[test]
fn no_filter_keeps_everything_in_order() {
    let transactions = sample_transactions();
    let filtered = filter_transactions(&transactions, None, None).unwrap();
    assert_eq!(ids(&filtered), vec![1, 2, 3, 4]);
    assert_eq!(filtered[3].amount.bits, 40.0f64.to_bits());
    assert_eq!(filtered[0].description, "Monthly salary");
}

#[test]
fn month_filter_compares_the_whole_text() {
    let transactions = sample_transactions();
    assert_eq!(ids(&filter_transactions(&transactions, Some("2026-03"), None).unwrap()), vec![4]);
    assert!(filter_transactions(&transactions, Some("2026-4"), None).unwrap().is_empty());
    assert!(filter_transactions(&transactions, Some("2026-04-01"), None).unwrap().is_empty());
    assert!(filter_transactions(&transactions, Some(""), None).unwrap().is_empty());
}

#[test]
fn category_filter_ignores_case() {
    let transactions = sample_transactions();
    let filtered = filter_transactions(&transactions, Some("2026-03"), Some("DINING")).unwrap();
    assert_eq!(ids(&filtered), vec![4]);
    let none = filter_transactions(&transactions, Some("2026-03"), Some("salary")).unwrap();
    assert!(none.is_empty());
}

#[test]
fn invalid_category_filter_names_the_category() {
    let transactions = sample_transactions();
    let err = filter_transactions(&transactions, Some("2026-04"), Some("Travel")).unwrap_err();
    assert_eq!(err, "Invalid category: Travel");
    let empty: Vec<Transaction> = Vec::new();
    assert!(filter_transactions(&empty, None, Some("travel")).is_err());
}

#[test]
fn filtering_twice_changes_nothing() {
    let transactions = sample_transactions();
    let once = filter_transactions(&transactions, Some("2026-04"), Some("groceries")).unwrap();
    let twice = filter_transactions(&once, Some("2026-04"), Some("groceries")).unwrap();
    assert_eq!(ids(&once), ids(&twice));
    let month_only = filter_transactions(&transactions, Some("2026-04"), None).unwrap();
    let in_steps = filter_transactions(&month_only, None, Some("groceries")).unwrap();
    assert_eq!(ids(&in_steps), ids(&once));
}

#[test]
fn months_of_distant_years() {
    let transactions = vec![
        transaction(1, (5, 1, 2), TransactionType::Income, 1.0, Category::Other, "a"),
        transaction(2, (-5, 3, 4), TransactionType::Income, 1.0, Category::Other, "b"),
        transaction(3, (10000, 12, 31), TransactionType::Income, 1.0, Category::Other, "c"),
    ];
    assert_eq!(ids(&filter_transactions(&transactions, Some("0005-01"), None).unwrap()), vec![1]);
    assert_eq!(ids(&filter_transactions(&transactions, Some("-0005-03"), None).unwrap()), vec![2]);
    assert_eq!(ids(&filter_transactions(&transactions, Some("+10000-12"), None).unwrap()), vec![3]);
}
