//! Transactions and the two enumerations that classify them.

use crate::dates::CalendarDate;
use crate::dates::Date;
use crate::text::eq_ignore_ascii_case;
use crate::text::ascii_lowercase;
use crate::text::folded;
use crate::text::lemma_folded_is_ascii_lowercase;
use vstd::prelude::*;

verus! {

/// Whether money came in or went out.
#[derive(Clone, Copy, Debug, PartialEq, Eq, Structural)]
pub enum TransactionType {
    Income,
    Expense,
}

/// What a transaction was for.
#[derive(Clone, Copy, Debug, PartialEq, Eq, Structural)]
pub enum Category {
    Salary,
    Rent,
    Groceries,
    Transport,
    Utilities,
    Dining,
    Entertainment,
    Savings,
    Health,
    Other,
}

/// Whether `s` spells `word`, letting ASCII letters differ in case.
pub open spec fn spells(s: Seq<char>, word: Seq<char>) -> bool {
    folded(s) == folded(word)
}

/// The transaction type that `s` names, in any ASCII letter case.
///
/// Full Unicode lowercasing decides the same here as ASCII folding: the
/// only character outside ASCII that lowercases to ASCII letters alone is
/// the Kelvin sign, which gives `k`, and neither word holds a `k`.
pub open spec fn parse_transaction_type(s: Seq<char>) -> Option<TransactionType> {
    if spells(s, "income"@) {
        Some(TransactionType::Income)
    } else if spells(s, "expense"@) {
        Some(TransactionType::Expense)
    } else {
        None
    }
}

/// The category that `s` names, in any ASCII letter case.
///
/// As for transaction types, ASCII folding decides the same as full
/// Unicode lowercasing, since none of these words holds a `k`.
pub open spec fn parse_category(s: Seq<char>) -> Option<Category> {
    if spells(s, "salary"@) {
        Some(Category::Salary)
    } else if spells(s, "rent"@) {
        Some(Category::Rent)
    } else if spells(s, "groceries"@) {
        Some(Category::Groceries)
    } else if spells(s, "transport"@) {
        Some(Category::Transport)
    } else if spells(s, "utilities"@) {
        Some(Category::Utilities)
    } else if spells(s, "dining"@) {
        Some(Category::Dining)
    } else if spells(s, "entertainment"@) {
        Some(Category::Entertainment)
    } else if spells(s, "savings"@) {
        Some(Category::Savings)
    } else if spells(s, "health"@) {
        Some(Category::Health)
    } else if spells(s, "other"@) {
        Some(Category::Other)
    } else {
        None
    }
}

/// The lowercase name of a category.
pub open spec fn category_keyword(c: Category) -> Seq<char> {
    match c {
        Category::Salary => "salary"@,
        Category::Rent => "rent"@,
        Category::Groceries => "groceries"@,
        Category::Transport => "transport"@,
        Category::Utilities => "utilities"@,
        Category::Dining => "dining"@,
        Category::Entertainment => "entertainment"@,
        Category::Savings => "savings"@,
        Category::Health => "health"@,
        Category::Other => "other"@,
    }
}

/// The message for text that names no transaction type.
pub open spec fn invalid_type_message(s: Seq<char>) -> Seq<char> {
    "Invalid transaction type: "@ + s
}

/// The message for text that names no category.
pub open spec fn invalid_category_message(s: Seq<char>) -> Seq<char> {
    "Invalid category: "@ + s
}

/// The display name of a transaction type.
pub open spec fn type_label(t: TransactionType) -> Seq<char> {
    match t {
        TransactionType::Income => "Income"@,
        TransactionType::Expense => "Expense"@,
    }
}

/// The display name of a category.
pub open spec fn category_label(c: Category) -> Seq<char> {
    match c {
        Category::Salary => "Salary"@,
        Category::Rent => "Rent"@,
        Category::Groceries => "Groceries"@,
        Category::Transport => "Transport"@,
        Category::Utilities => "Utilities"@,
        Category::Dining => "Dining"@,
        Category::Entertainment => "Entertainment"@,
        Category::Savings => "Savings"@,
        Category::Health => "Health"@,
        Category::Other => "Other"@,
    }
}


/// Reading the display name of a transaction type gives that type back.
pub proof fn lemma_type_label_round_trip(t: TransactionType)
    ensures
        parse_transaction_type(type_label(t)) == Some(t),
{
    reveal_strlit("income");
    reveal_strlit("expense");
    reveal_strlit("Income");
    reveal_strlit("Expense");
    assert(folded("Income"@) =~= folded("income"@));
    assert(folded("Expense"@) =~= folded("expense"@));
    assert(folded("Expense"@)[0] != folded("income"@)[0]);
}

/// Reading the display name of a category gives that category back.
pub proof fn lemma_category_label_round_trip(c: Category)
    ensures
        parse_category(category_label(c)) == Some(c),
{
    reveal_strlit("salary");
    reveal_strlit("rent");
    reveal_strlit("groceries");
    reveal_strlit("transport");
    reveal_strlit("utilities");
    reveal_strlit("dining");
    reveal_strlit("entertainment");
    reveal_strlit("savings");
    reveal_strlit("health");
    reveal_strlit("other");
    reveal_strlit("Salary");
    reveal_strlit("Rent");
    reveal_strlit("Groceries");
    reveal_strlit("Transport");
    reveal_strlit("Utilities");
    reveal_strlit("Dining");
    reveal_strlit("Entertainment");
    reveal_strlit("Savings");
    reveal_strlit("Health");
    reveal_strlit("Other");
    let l = category_label(c);
    match c {
        Category::Salary => assert(folded(l) =~= folded("salary"@)),
        Category::Rent => assert(folded(l) =~= folded("rent"@)),
        Category::Groceries => assert(folded(l) =~= folded("groceries"@)),
        Category::Transport => assert(folded(l) =~= folded("transport"@)),
        Category::Utilities => assert(folded(l) =~= folded("utilities"@)),
        Category::Dining => assert(folded(l) =~= folded("dining"@)),
        Category::Entertainment => assert(folded(l) =~= folded("entertainment"@)),
        Category::Savings => assert(folded(l) =~= folded("savings"@)),
        Category::Health => assert(folded(l) =~= folded("health"@)),
        Category::Other => assert(folded(l) =~= folded("other"@)),
    }
    assert(folded("salary"@)[0] == 115 && folded("dining"@)[0] == 100 && folded("health"@)[0] == 104);
    assert(folded("groceries"@)[0] == 103 && folded("transport"@)[0] == 116 && folded("utilities"@)[0] == 117);
}

/// Reading a transaction type or a category does not depend on the case of
/// ASCII letters.
pub proof fn lemma_parsing_ignores_case(s: Seq<char>, t: Seq<char>)
    requires
        folded(s) == folded(t),
    ensures
        parse_transaction_type(s) == parse_transaction_type(t),
        parse_category(s) == parse_category(t),
{
}

proof fn lemma_lowercase_word(w: Seq<char>)
    requires
        forall|i: int| 0 <= i < w.len() ==> !('A' <= #[trigger] w[i] && w[i] <= 'Z'),
    ensures
        ascii_lowercase(w) == w,
{
    assert(ascii_lowercase(w) =~= w);
}

/// Reading a text is reading its ASCII lowercase form.
pub proof fn lemma_parsing_reads_lowercase(s: Seq<char>)
    ensures
        parse_transaction_type(s) == parse_transaction_type(ascii_lowercase(s)),
        parse_category(s) == parse_category(ascii_lowercase(s)),
{
    let l = ascii_lowercase(s);
    assert(ascii_lowercase(l) =~= l);
    lemma_folded_is_ascii_lowercase(s, l);
    lemma_parsing_ignores_case(s, l);
}

/// A text names a transaction type exactly when its ASCII lowercase form is
/// that type's name.
pub proof fn lemma_type_names(s: Seq<char>)
    ensures
        parse_transaction_type(s) == Some(TransactionType::Income) <==> ascii_lowercase(s)
            == "income"@,
        parse_transaction_type(s) == Some(TransactionType::Expense) <==> ascii_lowercase(s)
            == "expense"@,
        parse_transaction_type(s) is None <==> (ascii_lowercase(s) != "income"@
            && ascii_lowercase(s) != "expense"@),
{
    reveal_strlit("income");
    reveal_strlit("expense");
    lemma_lowercase_word("income"@);
    lemma_lowercase_word("expense"@);
    lemma_folded_is_ascii_lowercase(s, "income"@);
    lemma_folded_is_ascii_lowercase(s, "expense"@);
}

/// A text names a category exactly when its ASCII lowercase form is that
/// category's name.
pub proof fn lemma_category_names(s: Seq<char>, c: Category)
    ensures
        parse_category(s) == Some(c) <==> ascii_lowercase(s) == category_keyword(c),
{
    reveal_strlit("salary");
    reveal_strlit("rent");
    reveal_strlit("groceries");
    reveal_strlit("transport");
    reveal_strlit("utilities");
    reveal_strlit("dining");
    reveal_strlit("entertainment");
    reveal_strlit("savings");
    reveal_strlit("health");
    reveal_strlit("other");
    lemma_lowercase_word("salary"@);
    lemma_lowercase_word("rent"@);
    lemma_lowercase_word("groceries"@);
    lemma_lowercase_word("transport"@);
    lemma_lowercase_word("utilities"@);
    lemma_lowercase_word("dining"@);
    lemma_lowercase_word("entertainment"@);
    lemma_lowercase_word("savings"@);
    lemma_lowercase_word("health"@);
    lemma_lowercase_word("other"@);
    lemma_folded_is_ascii_lowercase(s, "salary"@);
    lemma_folded_is_ascii_lowercase(s, "rent"@);
    lemma_folded_is_ascii_lowercase(s, "groceries"@);
    lemma_folded_is_ascii_lowercase(s, "transport"@);
    lemma_folded_is_ascii_lowercase(s, "utilities"@);
    lemma_folded_is_ascii_lowercase(s, "dining"@);
    lemma_folded_is_ascii_lowercase(s, "entertainment"@);
    lemma_folded_is_ascii_lowercase(s, "savings"@);
    lemma_folded_is_ascii_lowercase(s, "health"@);
    lemma_folded_is_ascii_lowercase(s, "other"@);
    assert("salary"@[0] != "dining"@[0] && "salary"@[0] != "health"@[0] && "dining"@[0]
        != "health"@[0]);
    assert("groceries"@[0] != "transport"@[0] && "groceries"@[0] != "utilities"@[0]
        && "transport"@[0] != "utilities"@[0]);
}

impl TransactionType {
    /// Reads a transaction type, `income` or `expense`, in any letter case.
    pub fn from_str(s: &str) -> (r: Result<TransactionType, String>)
        ensures
            match r {
                Ok(t) => parse_transaction_type(s@) == Some(t),
                Err(m) => parse_transaction_type(s@) is None && m@ == invalid_type_message(s@),
            },
    {
        if eq_ignore_ascii_case(s, "income") {
            Ok(TransactionType::Income)
        } else if eq_ignore_ascii_case(s, "expense") {
            Ok(TransactionType::Expense)
        } else {
            let mut m = "Invalid transaction type: ".to_owned();
            m.append(s);
            Err(m)
        }
    }
}

impl Category {
    /// Reads a category by its name, in any letter case.
    pub fn from_str(s: &str) -> (r: Result<Category, String>)
        ensures
            match r {
                Ok(c) => parse_category(s@) == Some(c),
                Err(m) => parse_category(s@) is None && m@ == invalid_category_message(s@),
            },
    {
        if eq_ignore_ascii_case(s, "salary") {
            Ok(Category::Salary)
        } else if eq_ignore_ascii_case(s, "rent") {
            Ok(Category::Rent)
        } else if eq_ignore_ascii_case(s, "groceries") {
            Ok(Category::Groceries)
        } else if eq_ignore_ascii_case(s, "transport") {
            Ok(Category::Transport)
        } else if eq_ignore_ascii_case(s, "utilities") {
            Ok(Category::Utilities)
        } else if eq_ignore_ascii_case(s, "dining") {
            Ok(Category::Dining)
        } else if eq_ignore_ascii_case(s, "entertainment") {
            Ok(Category::Entertainment)
        } else if eq_ignore_ascii_case(s, "savings") {
            Ok(Category::Savings)
        } else if eq_ignore_ascii_case(s, "health") {
            Ok(Category::Health)
        } else if eq_ignore_ascii_case(s, "other") {
            Ok(Category::Other)
        } else {
            let mut m = "Invalid category: ".to_owned();
            m.append(s);
            Err(m)
        }
    }
}

impl std::str::FromStr for TransactionType {
    type Err = String;

    fn from_str(s: &str) -> (r: Result<TransactionType, String>)
        ensures
            match r {
                Ok(t) => parse_transaction_type(s@) == Some(t),
                Err(m) => parse_transaction_type(s@) is None && m@ == invalid_type_message(s@),
            },
    {
        TransactionType::from_str(s)
    }
}

impl std::str::FromStr for Category {
    type Err = String;

    fn from_str(s: &str) -> (r: Result<Category, String>)
        ensures
            match r {
                Ok(c) => parse_category(s@) == Some(c),
                Err(m) => parse_category(s@) is None && m@ == invalid_category_message(s@),
            },
    {
        Category::from_str(s)
    }
}

/// A sum of money, held as the bit pattern of the binary64 floating-point
/// number that denotes it. The library carries amounts and never computes
/// with them.
#[derive(Clone, Copy, Debug, PartialEq, Eq, Structural)]
pub struct Amount {
    pub bits: u64,
}

/// One income or expense entry of the ledger.
#[derive(Clone, Debug)]
pub struct Transaction {
    pub id: u32,
    pub date: Date,
    pub transaction_type: TransactionType,
    pub amount: Amount,
    pub category: Category,
    pub description: String,
}

/// A transaction in mathematical form.
pub struct TransactionView {
    pub id: u32,
    pub date: CalendarDate,
    pub transaction_type: TransactionType,
    pub amount: Amount,
    pub category: Category,
    pub description: Seq<char>,
}

impl View for Transaction {
    type V = TransactionView;

    open spec fn view(&self) -> TransactionView {
        TransactionView {
            id: self.id,
            date: self.date@,
            transaction_type: self.transaction_type,
            amount: self.amount,
            category: self.category,
            description: self.description@,
        }
    }
}

/// The views of a sequence of transactions.
pub open spec fn views(s: Seq<Transaction>) -> Seq<TransactionView> {
    s.map_values(|t: Transaction| t@)
}

impl Transaction {
    /// A copy of this transaction.
    pub fn duplicate(&self) -> (r: Transaction)
        ensures
            r@ == self@,
    {
        Transaction {
            id: self.id,
            date: self.date,
            transaction_type: self.transaction_type,
            amount: self.amount,
            category: self.category,
            description: self.description.clone(),
        }
    }
}

} // verus!
