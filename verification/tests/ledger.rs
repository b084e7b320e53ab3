use budget_rs::dates::Date;
use budget_rs::ledger::NewTransaction;
use budget_rs::ledger::add_transaction;
use budget_rs::ledger::delete_transaction;
use budget_rs::ledger::largest_id;
use budget_rs::ledger::next_id;
use budget_rs::models::Amount;
use budget_rs::models::Category;
use budget_rs::models::Transaction;
use budget_rs::models::TransactionType;

fn entry(description: &str) -> NewTransaction {
    NewTransaction {
        date: Date::new(2026, 4, 2).unwrap(),
        transaction_type: TransactionType::Expense,
        category: Category::Rent,
        description: description.to_string(),
    }
}

fn with_ids(ids: &[u32]) -> Vec<Transaction> {
    ids.iter()
        .map(|&id| Transaction {
            id,
            date: Date::new(2026, 1, 1).unwrap(),
            transaction_type: TransactionType::Income,
            amount: Amount { bits: 10.0f64.to_bits() },
            category: Category::Salary,
            description: format!("entry {id}"),
        })
        .collect()
}

fn ids(v: &[Transaction]) -> Vec<u32> {
    v.iter().map(|t| t.id).collect()
}

#[test]
fn numbering_starts_at_one() {
    let empty: Vec<Transaction> = Vec::new();
    assert_eq!(largest_id(&empty), 0);
    assert_eq!(next_id(&empty), 1);
}

#[test]
fn numbering_follows_the_largest() {
    let v = with_ids(&[1, 4, 2]);
    assert_eq!(largest_id(&v), 4);
    assert_eq!(next_id(&v), 5);
}

#[test]
fn adding_appends_with_the_next_number() {
    let mut v = with_ids(&[3, 7]);
    let added = add_transaction(&mut v, entry("Flat"), Amount { bits: 700.0f64.to_bits() });
    assert_eq!(added.id, 8);
    assert_eq!(added.description, "Flat");
    assert_eq!(added.amount.bits, 700.0f64.to_bits());
    assert_eq!(added.category, Category::Rent);
    assert_eq!(ids(&v), vec![3, 7, 8]);
    assert_eq!(v[2].description, "Flat");
    assert_eq!(v[2].date.to_text(), "2026-04-02");
}

#[test]
fn deleting_removes_every_match() {
    let mut v = with_ids(&[1, 2, 2, 3]);
    assert!(delete_transaction(&mut v, 2));
    assert_eq!(ids(&v), vec![1, 3]);
    assert_eq!(v[1].description, "entry 3");
}

#[test]
fn deleting_a_missing_number_changes_nothing() {
    let mut v = with_ids(&[1, 3]);
    assert!(!delete_transaction(&mut v, 2));
    assert_eq!(ids(&v), vec![1, 3]);
    assert!(!delete_transaction(&mut v, 2));
}

#[test]
fn deleting_what_was_added_restores_the_ledger() {
    let mut v = with_ids(&[1, 2]);
    let added = add_transaction(&mut v, entry("Bus"), Amount { bits: 2.5f64.to_bits() });
    assert!(delete_transaction(&mut v, added.id));
    assert_eq!(ids(&v), vec![1, 2]);
    assert_eq!(v[0].description, "entry 1");
}

#[test]
fn numbers_stay_distinct() {
    let mut v: Vec<Transaction> = Vec::new();
    for i in 0..5 {
        add_transaction(&mut v, entry("x"), Amount { bits: (i as f64).to_bits() });
    }
    assert!(delete_transaction(&mut v, 3));
    add_transaction(&mut v, entry("y"), Amount { bits: 0 });
    assert_eq!(ids(&v), vec![1, 2, 4, 5, 6]);
}
