use budget_rs::dates::Date;
use budget_rs::models::Amount;
use budget_rs::models::Category;
use budget_rs::models::Transaction;
use budget_rs::models::TransactionType;
use budget_rs::requests::CommandError;
use budget_rs::requests::check_command;
use budget_rs::requests::check_request;
use budget_rs::requests::to_transaction_dto;

fn today() -> Date {
    Date::new(2026, 5, 6).unwrap()
}

#[test]
fn request_is_recorded_with_trimmed_description() {
    let e = check_request("expense", "Groceries", Some("2026-04-12"), "  Tesco shop \n", today())
        .unwrap();
    assert_eq!(e.transaction_type, TransactionType::Expense);
    assert_eq!(e.category, Category::Groceries);
    assert_eq!(e.date.to_text(), "2026-04-12");
    assert_eq!(e.description, "Tesco shop");
}

#[test]
fn request_without_date_is_dated_today() {
    let e = check_request("income", "salary", None, "Pay", today()).unwrap();
    assert_eq!(e.date.to_text(), "2026-05-06");
    let e = check_request("income", "salary", Some("   "), "Pay", today()).unwrap();
    assert_eq!(e.date.to_text(), "2026-05-06");
    let e = check_request("income", "salary", Some(""), "Pay", today()).unwrap();
    assert_eq!(e.date.to_text(), "2026-05-06");
}

#[test]
fn request_faults_come_in_order() {
    assert_eq!(
        check_request("gift", "travel", Some("x"), "", today()).err().unwrap(),
        "Invalid transaction type: gift"
    );
    assert_eq!(
        check_request("income", "travel", Some("x"), "", today()).err().unwrap(),
        "Invalid category: travel"
    );
    assert_eq!(
        check_request("income", "other", Some("x"), "", today()).err().unwrap(),
        "Date must use YYYY-MM-DD format."
    );
    assert_eq!(
        check_request("income", "other", Some("2026-02-30"), "ok", today()).err().unwrap(),
        "Date must use YYYY-MM-DD format."
    );
    assert_eq!(
        check_request("income", "other", None, " \t ", today()).err().unwrap(),
        "Description cannot be empty."
    );
}

#[test]
fn command_keeps_description_and_reports_bad_dates() {
    let e = check_command("Expense", "dining", None, "  Dinner ".to_string(), today()).unwrap();
    assert_eq!(e.description, "  Dinner ");
    assert_eq!(e.date.to_text(), "2026-05-06");
    let e = check_command("Expense", "dining", Some("2026-03-28"), String::new(), today()).unwrap();
    assert_eq!(e.date.to_text(), "2026-03-28");
    assert!(matches!(
        check_command("Expense", "dining", Some("28/03/2026"), String::new(), today()),
        Err(CommandError::BadDate(_))
    ));
    match check_command("bonus", "dining", None, String::new(), today()) {
        Err(CommandError::Invalid(m)) => assert_eq!(m, "Invalid transaction type: bonus"),
        _ => panic!("type must be refused"),
    }
    match check_command("income", "travel", Some("bad"), String::new(), today()) {
        Err(CommandError::Invalid(m)) => assert_eq!(m, "Invalid category: travel"),
        _ => panic!("category must be refused"),
    }
}

#[test]
fn json_form_of_a_transaction() {
    let t = Transaction {
        id: 9,
        date: Date::new(2026, 4, 1).unwrap(),
        transaction_type: TransactionType::Income,
        amount: Amount { bits: 1800.0f64.to_bits() },
        category: Category::Salary,
        description: "Monthly salary".to_string(),
    };
    let d = to_transaction_dto(t);
    assert_eq!(d.id, 9);
    assert_eq!(d.date, "2026-04-01");
    assert_eq!(d.transaction_type, "Income");
    assert_eq!(f64::from_bits(d.amount.bits), 1800.0);
    assert_eq!(d.category, "Salary");
    assert_eq!(d.description, "Monthly salary");
}
