//! Checking what a user asks to record, and shaping transactions for the
//! JSON interface.

use crate::dates::Date;
use crate::dates::date_text;
use crate::dates::parsed_ymd;
use crate::dates::ymd_date;
use crate::ledger::NewTransaction;
use crate::models::Amount;
use crate::models::Category;
use crate::models::Transaction;
use crate::models::TransactionType;
use crate::models::category_label;
use crate::models::invalid_category_message;
use crate::models::invalid_type_message;
use crate::models::parse_category;
use crate::models::parse_transaction_type;
use crate::models::type_label;
use crate::reports::format_category;
use crate::reports::format_transaction_type;
use crate::text::is_blank;
use crate::text::optional_text;
use crate::text::trim;
use crate::text::trim_whitespace;
use chrono::ParseError;
use vstd::prelude::*;

verus! {

/// The message for a request whose date cannot be read.
pub open spec fn date_message() -> Seq<char> {
    "Date must use YYYY-MM-DD format."@
}

/// The message for a request whose description is blank.
pub open spec fn description_message() -> Seq<char> {
    "Description cannot be empty."@
}

/// Whether a request names a date: it gives a text that is not blank.
pub open spec fn names_date(date: Option<Seq<char>>) -> bool {
    date matches Some(d) && trim(d).len() > 0
}

/// The first fault of a request, as the message that answers it, or `None`
/// for a request that can be recorded. Type, category, date and description
/// are checked in this order.
pub open spec fn request_fault(
    transaction_type: Seq<char>,
    category: Seq<char>,
    date: Option<Seq<char>>,
    description: Seq<char>,
) -> Option<Seq<char>> {
    if parse_transaction_type(transaction_type) is None {
        Some(invalid_type_message(transaction_type))
    } else if parse_category(category) is None {
        Some(invalid_category_message(category))
    } else if names_date(date) && parsed_ymd(date->0) is None {
        Some(date_message())
    } else if trim(description).len() == 0 {
        Some(description_message())
    } else {
        None
    }
}

/// Checks a request to record a transaction: the type and the category are
/// names in any letter case, the date is read as `%Y-%m-%d` unless it is
/// missing or blank (then it is `today`), and the description is trimmed
/// and must not be empty.
pub fn check_request(
    transaction_type: &str,
    category: &str,
    date: Option<&str>,
    description: &str,
    today: Date,
) -> (r: Result<NewTransaction, String>)
    ensures
        match r {
            Ok(e) => {
                &&& request_fault(
                    transaction_type@,
                    category@,
                    optional_text(date),
                    description@,
                ) is None
                &&& parse_transaction_type(transaction_type@) == Some(e.transaction_type)
                &&& parse_category(category@) == Some(e.category)
                &&& if names_date(optional_text(date)) {
                    parsed_ymd(date->0@) matches Some(v) && e.date@ == ymd_date(v)
                } else {
                    e.date@ == today@
                }
                &&& e.description@ == trim(description@)
            },
            Err(m) => request_fault(
                transaction_type@,
                category@,
                optional_text(date),
                description@,
            ) == Some(m@),
        },
{
    let parsed_type = match TransactionType::from_str(transaction_type) {
        Ok(t) => t,
        Err(m) => {
            return Err(m);
        },
    };
    let parsed_category = match Category::from_str(category) {
        Ok(c) => c,
        Err(m) => {
            return Err(m);
        },
    };
    let parsed_date = match date {
        Some(d) => {
            if is_blank(d) {
                today
            } else {
                match Date::parse(d) {
                    Ok(v) => v,
                    Err(_) => {
                        return Err("Date must use YYYY-MM-DD format.".to_owned());
                    },
                }
            }
        },
        None => today,
    };
    let trimmed = trim_whitespace(description);
    if trimmed.unicode_len() == 0 {
        return Err("Description cannot be empty.".to_owned());
    }
    Ok(
        NewTransaction {
            date: parsed_date,
            transaction_type: parsed_type,
            category: parsed_category,
            description: trimmed.to_owned(),
        },
    )
}

/// Why a command to record a transaction was refused.
#[derive(Debug)]
pub enum CommandError {
    /// The type or the category names nothing; the message says which.
    Invalid(String),
    /// The date could not be read.
    BadDate(ParseError),
}

/// Checks a command to record a transaction: the type and the category are
/// names in any letter case, and the date is read as `%Y-%m-%d` where one
/// is given, else it is `today`. The description is kept as it is.
pub fn check_command(
    transaction_type: &str,
    category: &str,
    date: Option<&str>,
    description: String,
    today: Date,
) -> (r: Result<NewTransaction, CommandError>)
    ensures
        match r {
            Ok(e) => {
                &&& parse_transaction_type(transaction_type@) == Some(e.transaction_type)
                &&& parse_category(category@) == Some(e.category)
                &&& match date {
                    Some(d) => parsed_ymd(d@) matches Some(v) && e.date@ == ymd_date(v),
                    None => e.date@ == today@,
                }
                &&& e.description@ == description@
            },
            Err(CommandError::Invalid(m)) => {
                ||| parse_transaction_type(transaction_type@) is None && m@ == invalid_type_message(
                    transaction_type@,
                )
                ||| parse_transaction_type(transaction_type@) is Some && parse_category(
                    category@,
                ) is None && m@ == invalid_category_message(category@)
            },
            Err(CommandError::BadDate(_)) => {
                &&& parse_transaction_type(transaction_type@) is Some
                &&& parse_category(category@) is Some
                &&& date matches Some(d) && parsed_ymd(d@) is None
            },
        },
{
    let parsed_type = match TransactionType::from_str(transaction_type) {
        Ok(t) => t,
        Err(m) => {
            return Err(CommandError::Invalid(m));
        },
    };
    let parsed_category = match Category::from_str(category) {
        Ok(c) => c,
        Err(m) => {
            return Err(CommandError::Invalid(m));
        },
    };
    let parsed_date = match date {
        Some(d) => match Date::parse(d) {
            Ok(v) => v,
            Err(e) => {
                return Err(CommandError::BadDate(e));
            },
        },
        None => today,
    };
    Ok(
        NewTransaction {
            date: parsed_date,
            transaction_type: parsed_type,
            category: parsed_category,
            description,
        },
    )
}

/// A transaction as the JSON interface shows it: date, type and category
/// as text.
#[derive(Debug)]
pub struct TransactionDto {
    pub id: u32,
    pub date: String,
    pub transaction_type: String,
    pub amount: Amount,
    pub category: String,
    pub description: String,
}

/// The form in which the JSON interface shows a transaction.
pub fn to_transaction_dto(tx: Transaction) -> (r: TransactionDto)
    ensures
        r.id == tx.id,
        r.date@ == date_text(tx.date@),
        r.transaction_type@ == type_label(tx.transaction_type),
        r.amount == tx.amount,
        r.category@ == category_label(tx.category),
        r.description@ == tx.description@,
{
    TransactionDto {
        id: tx.id,
        date: tx.date.to_text(),
        transaction_type: format_transaction_type(&tx.transaction_type).to_owned(),
        amount: tx.amount,
        category: format_category(&tx.category).to_owned(),
        description: tx.description,
    }
}

} // verus!
