//! Selecting transactions by month and category, and naming types and
//! categories for display.

use crate::dates::CalendarDate;
use crate::dates::lemma_year_month_text_injective;
use crate::dates::year_month_text;
use crate::models::Category;
use crate::models::Transaction;
use crate::models::TransactionType;
use crate::models::TransactionView;
use crate::models::category_label;
use crate::models::invalid_category_message;
use crate::models::parse_category;
use crate::models::type_label;
use crate::models::views;
use crate::sequences::lemma_filter_keeps_all;
use crate::sequences::lemma_filter_twice;
use crate::text::optional_text;
use vstd::prelude::*;

verus! {

broadcast use vstd::seq_lib::group_filter_ensures;

/// Whether a transaction falls in `month` (its `YYYY-MM` text) and in
/// `category`, where `None` asks for no condition.
pub open spec fn selected(
    t: TransactionView,
    month: Option<Seq<char>>,
    category: Option<Category>,
) -> bool {
    &&& month matches Some(m) ==> year_month_text(t.date) == m
    &&& category matches Some(c) ==> t.category == c
}

/// The transactions of `s` that fall in `month` and `category`, in their order.
pub open spec fn filtered(
    s: Seq<TransactionView>,
    month: Option<Seq<char>>,
    category: Option<Category>,
) -> Seq<TransactionView> {
    s.filter(|t: TransactionView| selected(t, month, category))
}

/// The category that an optional category filter names.
pub open spec fn category_choice(category: Option<&str>) -> Option<Category> {
    match category {
        Some(c) => parse_category(c@),
        None => None,
    }
}

/// Filtering asks for nothing when neither a month nor a category is given:
/// every transaction is kept, in its order.
pub proof fn lemma_no_filter_keeps_all(s: Seq<TransactionView>)
    ensures
        filtered(s, None, None) == s,
{
    lemma_filter_keeps_all(s, |t: TransactionView| selected(t, None, None));
}

/// The kept transactions are exactly those of the input that fall in the
/// month and the category; nothing else is kept.
pub proof fn lemma_filter_keeps_exactly(
    s: Seq<TransactionView>,
    month: Option<Seq<char>>,
    category: Option<Category>,
)
    ensures
        forall|i: int|
            0 <= i < filtered(s, month, category).len() ==> selected(
                #[trigger] filtered(s, month, category)[i],
                month,
                category,
            ) && s.contains(filtered(s, month, category)[i]),
        forall|i: int|
            0 <= i < s.len() && selected(s[i], month, category) ==> #[trigger] filtered(
                s,
                month,
                category,
            ).contains(s[i]),
        filtered(s, month, category).len() <= s.len(),
{
    let p = |t: TransactionView| selected(t, month, category);
    assert forall|i: int| 0 <= i < s.filter(p).len() implies s.contains(#[trigger] s.filter(p)[i]) by {
        s.lemma_filter_contains_rev(p, s.filter(p)[i]);
    }
}

/// Filtering by month and category is filtering by month, then filtering
/// that by category.
pub proof fn lemma_filter_in_steps(
    s: Seq<TransactionView>,
    month: Option<Seq<char>>,
    category: Option<Category>,
)
    ensures
        filtered(filtered(s, month, None), None, category) == filtered(s, month, category),
{
    let pm = |t: TransactionView| selected(t, month, None);
    let pc = |t: TransactionView| selected(t, None, category);
    lemma_filter_twice(s, pm, pc);
    assert((|x: TransactionView| pm(x) && pc(x)) =~= (|t: TransactionView|
        selected(t, month, category)));
}

/// Filtering again with the same month and category changes nothing.
pub proof fn lemma_filter_idempotent(
    s: Seq<TransactionView>,
    month: Option<Seq<char>>,
    category: Option<Category>,
)
    ensures
        filtered(filtered(s, month, category), month, category) == filtered(s, month, category),
{
    let p = |t: TransactionView| selected(t, month, category);
    lemma_filter_twice(s, p, p);
    assert((|x: TransactionView| p(x) && p(x)) =~= p);
}

/// A month filter written as the `YYYY-MM` text of a date keeps exactly
/// the transactions of that date's year and month.
pub proof fn lemma_month_filter_is_calendar_month(t: TransactionView, d: CalendarDate)
    requires
        1 <= t.date.month <= 12,
        1 <= d.month <= 12,
    ensures
        selected(t, Some(year_month_text(d)), None) <==> (t.date.year == d.year && t.date.month
            == d.month),
{
    if year_month_text(t.date) == year_month_text(d) {
        lemma_year_month_text_injective(t.date, d);
    }
}

/// Every kept transaction is of the asked category and, where a month is
/// asked, dated in that month.
pub proof fn lemma_filter_keeps_only(
    s: Seq<TransactionView>,
    month: Option<Seq<char>>,
    category: Option<Category>,
)
    ensures
        forall|i: int|
            0 <= i < filtered(s, month, category).len() ==> (category matches Some(k)
                ==> #[trigger] filtered(s, month, category)[i].category == k),
        forall|i: int|
            0 <= i < filtered(s, month, category).len() ==> (month matches Some(m)
                ==> year_month_text(#[trigger] filtered(s, month, category)[i].date) == m),
{
    let p = |t: TransactionView| selected(t, month, category);
    assert forall|i: int| 0 <= i < s.filter(p).len() implies p(#[trigger] s.filter(p)[i]) by {
        s.lemma_filter_pred(p, i);
    }
}

/// Keeps the transactions of `month` (a `YYYY-MM` text, compared with the
/// date's text as a whole) and of `category` (a category name in any letter
/// case). Fails where `category` names no category.
pub fn filter_transactions(
    transactions: &[Transaction],
    month: Option<&str>,
    category: Option<&str>,
) -> (r: Result<Vec<Transaction>, String>)
    ensures
        match r {
            Ok(v) => {
                &&& category matches Some(c) ==> parse_category(c@) is Some
                &&& views(v@) == filtered(
                    views(transactions@),
                    optional_text(month),
                    category_choice(category),
                )
                &&& forall|i: int|
                    0 <= i < v@.len() ==> (category matches Some(c) ==> #[trigger] v@[i].category
                        == parse_category(c@)->0)
                &&& forall|i: int|
                    0 <= i < v@.len() ==> (month matches Some(m) ==> year_month_text(
                        #[trigger] v@[i].date@,
                    ) == m@)
            },
            Err(m) => {
                &&& category matches Some(c)
                &&& parse_category(c@) is None
                &&& m@ == invalid_category_message(c@)
            },
        },
{
    let wanted: Option<Category> = match category {
        Some(c) => match Category::from_str(c) {
            Ok(parsed) => Some(parsed),
            Err(m) => {
                return Err(m);
            },
        },
        None => None,
    };
    let wanted_month: Option<String> = match month {
        Some(m) => Some(m.to_owned()),
        None => None,
    };
    let ghost mv = optional_text(month);
    let ghost cv = category_choice(category);
    let ghost pred = |t: TransactionView| selected(t, mv, cv);
    let n = transactions.len();
    let mut out: Vec<Transaction> = Vec::new();
    for i in 0..n
        invariant
            n == transactions@.len(),
            wanted == cv,
            pred == (|t: TransactionView| selected(t, mv, cv)),
            match wanted_month {
                Some(m) => mv == Some(m@),
                None => mv is None,
            },
            views(out@) == views(transactions@.take(i as int)).filter(pred),
    {
        let t = &transactions[i];
        let in_month = match &wanted_month {
            Some(m) => {
                let text = t.date.year_month_text();
                text == *m
            },
            None => true,
        };
        let in_category = match wanted {
            Some(c) => t.category == c,
            None => true,
        };
        proof {
            assert(transactions@.take(i + 1) =~= transactions@.take(i as int).push(*t));
            assert(views(transactions@.take(i + 1)) =~= views(transactions@.take(i as int)).push(
                t@,
            ));
            views(transactions@.take(i as int)).lemma_filter_push(t@, pred);
            assert(pred(t@) == (in_month && in_category));
        }
        if in_month && in_category {
            let ghost before = out@;
            let copy = t.duplicate();
            out.push(copy);
            proof {
                assert(views(out@) =~= views(before).push(t@));
            }
        }
    }
    assert(transactions@.take(n as int) =~= transactions@);
    proof {
        lemma_filter_keeps_only(views(transactions@), mv, cv);
        assert forall|i: int| 0 <= i < out@.len() implies (category matches Some(c)
            ==> #[trigger] out@[i].category == parse_category(c@)->0) by {
            assert(views(out@)[i] == out@[i]@);
        }
        assert forall|i: int| 0 <= i < out@.len() implies (month matches Some(m) ==> year_month_text(
            #[trigger] out@[i].date@,
        ) == m@) by {
            assert(views(out@)[i] == out@[i]@);
        }
    }
    Ok(out)
}

/// The display name of a transaction type.
pub fn format_transaction_type(transaction_type: &TransactionType) -> (r: &'static str)
    ensures
        r@ == type_label(*transaction_type),
{
    match transaction_type {
        TransactionType::Income => "Income",
        TransactionType::Expense => "Expense",
    }
}

/// The display name of a category.
pub fn format_category(category: &Category) -> (r: &'static str)
    ensures
        r@ == category_label(*category),
{
    match category {
        Category::Salary => "Salary",
        Category::Rent => "Rent",
        Category::Groceries => "Groceries",
        Category::Transport => "Transport",
        Category::Utilities => "Utilities",
        Category::Dining => "Dining",
        Category::Entertainment => "Entertainment",
        Category::Savings => "Savings",
        Category::Health => "Health",
        Category::Other => "Other",
    }
}

} // verus!
