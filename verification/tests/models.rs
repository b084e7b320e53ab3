use budget_rs::models::Category;
use budget_rs::models::TransactionType;
use budget_rs::reports::format_category;
use budget_rs::reports::format_transaction_type;
use std::str::FromStr;

#[test]
fn parses_transaction_type_income() {
    let parsed = TransactionType::from_str("income").unwrap();
    assert!(matches!(parsed, TransactionType::Income));
}

#[test]
fn parses_transaction_type_expense_case_insensitive() {
    let parsed = TransactionType::from_str("ExPeNsE").unwrap();
    assert!(matches!(parsed, TransactionType::Expense));
}

#[test]
fn rejects_invalid_transaction_type() {
    let parsed = TransactionType::from_str("bonus");
    assert!(parsed.is_err());
}

#[test]
fn parses_category_groceries() {
    let parsed = Category::from_str("groceries").unwrap();
    assert!(matches!(parsed, Category::Groceries));
}

#[test]
fn parses_category_salary_case_insensitive() {
    let parsed = Category::from_str("SaLaRy").unwrap();
    assert!(matches!(parsed, Category::Salary));
}

#[test]
fn rejects_invalid_category() {
    let parsed = Category::from_str("travel");
    assert!(parsed.is_err());
}

#[test]
fn invalid_names_are_quoted_in_the_message() {
    assert_eq!(
        TransactionType::from_str("Bonus").unwrap_err(),
        "Invalid transaction type: Bonus"
    );
    assert_eq!(Category::from_str("travel").unwrap_err(), "Invalid category: travel");
}

#[test]
fn names_must_match_whole_words() {
    assert!(TransactionType::from_str(" income").is_err());
    assert!(TransactionType::from_str("incomes").is_err());
    assert!(TransactionType::from_str("").is_err());
    assert!(Category::from_str("rent ").is_err());
    assert!(Category::from_str("re").is_err());
}

#[test]
fn trait_and_inherent_parsing_agree() {
    let via_trait: Result<Category, String> = "HEALTH".parse();
    assert_eq!(via_trait.unwrap(), Category::Health);
    let via_trait: Result<TransactionType, String> = "Income".parse();
    assert_eq!(via_trait.unwrap(), TransactionType::Income);
}

#[test]
fn every_display_name_reads_back() {
    let all = [
        Category::Salary,
        Category::Rent,
        Category::Groceries,
        Category::Transport,
        Category::Utilities,
        Category::Dining,
        Category::Entertainment,
        Category::Savings,
        Category::Health,
        Category::Other,
    ];
    for c in all {
        assert_eq!(Category::from_str(format_category(&c)).unwrap(), c);
    }
    for t in [TransactionType::Income, TransactionType::Expense] {
        assert_eq!(TransactionType::from_str(format_transaction_type(&t)).unwrap(), t);
    }
}

#[test]
fn display_names() {
    assert_eq!(format_transaction_type(&TransactionType::Income), "Income");
    assert_eq!(format_transaction_type(&TransactionType::Expense), "Expense");
    assert_eq!(format_category(&Category::Entertainment), "Entertainment");
    assert_eq!(format_category(&Category::Other), "Other");
}

#[test]
fn case_folding_is_ascii_only() {
    // The Kelvin sign lowercases to `k`; no name holds one.
    assert!(Category::from_str("\u{212A}").is_err());
    assert_eq!(Category::from_str("DINING").unwrap(), Category::Dining);
    assert_eq!(Category::from_str("eNtErTaInMeNt").unwrap(), Category::Entertainment);
}
