//! The bookkeeping rules of the ledger: numbering new transactions, adding
//! them and deleting them by number.

use crate::dates::Date;
use crate::models::Amount;
use crate::models::Category;
use crate::models::Transaction;
use crate::models::TransactionType;
use crate::models::TransactionView;
use crate::models::views;
use crate::sequences::lemma_filter_keeps_all;
use crate::sequences::lemma_filter_shorter;
use crate::sequences::lemma_filter_twice;
use vstd::prelude::*;

verus! {

broadcast use vstd::seq_lib::group_filter_ensures;

/// The largest number that a transaction of `s` has, or 0 for no transactions.
pub open spec fn max_id(s: Seq<TransactionView>) -> nat
    decreases s.len(),
{
    if s.len() == 0 {
        0
    } else {
        let rest = max_id(s.drop_last());
        if s.last().id > rest {
            s.last().id as nat
        } else {
            rest
        }
    }
}

/// Whether no two transactions of `s` share a number.
pub open spec fn unique_ids(s: Seq<TransactionView>) -> bool {
    forall|i: int, j: int| 0 <= i < j < s.len() ==> #[trigger] s[i].id != #[trigger] s[j].id
}

/// Whether some transaction of `s` has number `id`.
pub open spec fn has_id(s: Seq<TransactionView>, id: u32) -> bool {
    exists|i: int| 0 <= i < s.len() && #[trigger] s[i].id == id
}

/// The transactions of `s` whose number is not `id`, in their order.
pub open spec fn without_id(s: Seq<TransactionView>, id: u32) -> Seq<TransactionView> {
    s.filter(|t: TransactionView| t.id != id)
}

/// What a new transaction holds besides its number and its amount.
#[derive(Debug)]
pub struct NewTransaction {
    pub date: Date,
    pub transaction_type: TransactionType,
    pub category: Category,
    pub description: String,
}

/// Every transaction's number is at most `max_id`.
pub proof fn lemma_max_id_bounds(s: Seq<TransactionView>)
    ensures
        forall|i: int| 0 <= i < s.len() ==> #[trigger] s[i].id <= max_id(s),
        s.len() > 0 ==> has_id(s, max_id(s) as u32),
    decreases s.len(),
{
    if s.len() > 0 {
        let init = s.drop_last();
        lemma_max_id_bounds(init);
        assert forall|i: int| 0 <= i < s.len() implies #[trigger] s[i].id <= max_id(s) by {
            if i < s.len() - 1 {
                assert(s[i] == init[i]);
            }
        }
        if s.last().id <= max_id(init) && init.len() > 0 {
            let k = choose|k: int| 0 <= k < init.len() && #[trigger] init[k].id == max_id(init) as u32;
            assert(s[k] == init[k]);
        }
    }
}


/// The number that `add_transaction` gives is used by no transaction yet.
pub proof fn lemma_next_id_is_fresh(s: Seq<TransactionView>)
    requires
        max_id(s) < u32::MAX,
    ensures
        !has_id(s, (max_id(s) + 1) as u32),
{
    lemma_max_id_bounds(s);
}

/// Adding a transaction keeps the numbers of the ledger distinct.
pub proof fn lemma_add_keeps_ids_unique(s: Seq<TransactionView>, t: TransactionView)
    requires
        unique_ids(s),
        max_id(s) < u32::MAX,
        t.id == max_id(s) + 1,
    ensures
        unique_ids(s.push(t)),
{
    lemma_max_id_bounds(s);
    let s2 = s.push(t);
    assert forall|i: int, j: int| 0 <= i < j < s2.len() implies #[trigger] s2[i].id
        != #[trigger] s2[j].id by {
        assert(s2[i] == s[i]);
        if j < s.len() {
            assert(s2[j] == s[j]);
        }
    }
}

/// After a deletion no transaction has the deleted number.
pub proof fn lemma_delete_removes_id(s: Seq<TransactionView>, id: u32)
    ensures
        !has_id(without_id(s, id), id),
{
    let p = |t: TransactionView| t.id != id;
    if has_id(without_id(s, id), id) {
        let k = choose|k: int|
            0 <= k < without_id(s, id).len() && #[trigger] without_id(s, id)[k].id == id;
        assert(p(s.filter(p)[k]));
    }
}

/// Deleting a number that no transaction has changes nothing.
pub proof fn lemma_delete_absent_id(s: Seq<TransactionView>, id: u32)
    requires
        !has_id(s, id),
    ensures
        without_id(s, id) == s,
{
    let p = |t: TransactionView| t.id != id;
    assert forall|i: int| 0 <= i < s.len() implies #[trigger] p(s[i]) by {
        if !p(s[i]) {
            assert(s[i].id == id);
        }
    }
    lemma_filter_keeps_all(s, p);
}

/// Deleting the same number twice is deleting it once.
pub proof fn lemma_delete_idempotent(s: Seq<TransactionView>, id: u32)
    ensures
        without_id(without_id(s, id), id) == without_id(s, id),
{
    let p = |t: TransactionView| t.id != id;
    lemma_filter_twice(s, p, p);
    assert((|x: TransactionView| p(x) && p(x)) =~= p);
}

/// Deleting the transaction that was just added gives the ledger back as it
/// was before.
pub proof fn lemma_delete_undoes_add(s: Seq<TransactionView>, t: TransactionView)
    requires
        max_id(s) < u32::MAX,
        t.id == max_id(s) + 1,
    ensures
        without_id(s.push(t), t.id) == s,
{
    lemma_next_id_is_fresh(s);
    let p = |x: TransactionView| x.id != t.id;
    lemma_delete_absent_id(s, t.id);
    s.lemma_filter_push(t, p);
}

/// Deleting keeps the numbers of the ledger distinct.
pub proof fn lemma_delete_keeps_ids_unique(s: Seq<TransactionView>, id: u32)
    requires
        unique_ids(s),
    ensures
        unique_ids(without_id(s, id)),
    decreases s.len(),
{
    let p = |t: TransactionView| t.id != id;
    if s.len() == 0 {
        reveal(Seq::filter);
    } else {
        let init = s.drop_last();
        let x = s.last();
        assert(unique_ids(init)) by {
            assert forall|i: int, j: int| 0 <= i < j < init.len() implies #[trigger] init[i].id
                != #[trigger] init[j].id by {
                assert(init[i] == s[i] && init[j] == s[j]);
            }
        }
        lemma_delete_keeps_ids_unique(init, id);
        assert(s =~= init.push(x));
        init.lemma_filter_push(x, p);
        let f = init.filter(p);
        if p(x) {
            assert forall|i: int, j: int| 0 <= i < j < f.push(x).len() implies #[trigger] f.push(
                x,
            )[i].id != #[trigger] f.push(x)[j].id by {
                if j == f.len() {
                    init.lemma_filter_contains_rev(p, f[i]);
                    let k = choose|k: int| 0 <= k < init.len() && init[k] == f[i];
                    assert(s[k] == init[k]);
                } else {
                    assert(f.push(x)[i] == f[i] && f.push(x)[j] == f[j]);
                }
            }
        }
    }
}

/// The largest number that a transaction has, or 0 for an empty ledger.
pub fn largest_id(transactions: &[Transaction]) -> (r: u32)
    ensures
        r == max_id(views(transactions@)),
{
    let n = transactions.len();
    let mut best: u32 = 0;
    for i in 0..n
        invariant
            n == transactions@.len(),
            best == max_id(views(transactions@.take(i as int))),
    {
        proof {
            assert(views(transactions@.take(i + 1)).drop_last() =~= views(
                transactions@.take(i as int),
            ));
        }
        if transactions[i].id > best {
            best = transactions[i].id;
        }
    }
    assert(transactions@.take(n as int) =~= transactions@);
    best
}

/// The number that the next transaction gets: one more than the largest
/// number in use, or 1 for an empty ledger.
pub fn next_id(transactions: &[Transaction]) -> (r: u32)
    requires
        max_id(views(transactions@)) < u32::MAX,
    ensures
        r == max_id(views(transactions@)) + 1,
{
    largest_id(transactions) + 1
}

/// Appends a new transaction numbered by `next_id` and returns a copy of it.
pub fn add_transaction(
    transactions: &mut Vec<Transaction>,
    entry: NewTransaction,
    amount: Amount,
) -> (r: Transaction)
    requires
        max_id(views(old(transactions)@)) < u32::MAX,
    ensures
        r.id == max_id(views(old(transactions)@)) + 1,
        r@ == (TransactionView {
            id: r.id,
            date: entry.date@,
            transaction_type: entry.transaction_type,
            amount,
            category: entry.category,
            description: entry.description@,
        }),
        views(final(transactions)@) == views(old(transactions)@).push(r@),
{
    let id = next_id(transactions.as_slice());
    let t = Transaction {
        id,
        date: entry.date,
        transaction_type: entry.transaction_type,
        amount,
        category: entry.category,
        description: entry.description,
    };
    let copy = t.duplicate();
    let ghost before = transactions@;
    transactions.push(t);
    proof {
        assert(views(transactions@) =~= views(before).push(copy@));
    }
    copy
}

/// Removes every transaction numbered `id`; tells whether one was removed.
pub fn delete_transaction(transactions: &mut Vec<Transaction>, id: u32) -> (removed: bool)
    ensures
        views(final(transactions)@) == without_id(views(old(transactions)@), id),
        removed == (final(transactions)@.len() != old(transactions)@.len()),
        removed == has_id(views(old(transactions)@), id),
{
    let ghost pred = |t: TransactionView| t.id != id;
    let ghost start = views(transactions@);
    let n = transactions.len();
    let mut kept: Vec<Transaction> = Vec::new();
    for i in 0..n
        invariant
            n == transactions@.len(),
            start == views(transactions@),
            pred == (|t: TransactionView| t.id != id),
            views(kept@) == views(transactions@.take(i as int)).filter(pred),
            kept@.len() == i || has_id(views(transactions@.take(i as int)), id),
            kept@.len() <= i,
    {
        let ghost prefix = views(transactions@.take(i as int));
        proof {
            assert(views(transactions@.take(i + 1)) =~= prefix.push(transactions@[i as int]@));
            prefix.lemma_filter_push(transactions@[i as int]@, pred);
        }
        if transactions[i].id != id {
            let ghost before = kept@;
            let copy = transactions[i].duplicate();
            kept.push(copy);
            proof {
                assert(views(kept@) =~= views(before).push(transactions@[i as int]@));
                if has_id(prefix, id) {
                    let k = choose|k: int| 0 <= k < prefix.len() && #[trigger] prefix[k].id == id;
                    assert(views(transactions@.take(i + 1))[k].id == id);
                }
            }
        } else {
            proof {
                assert(views(transactions@.take(i + 1))[i as int].id == id);
            }
        }
    }
    proof {
        assert(transactions@.take(n as int) =~= transactions@);
        if has_id(start, id) {
            let k = choose|k: int| 0 <= k < start.len() && #[trigger] start[k].id == id;
            assert(!pred(start[k]));
            lemma_filter_shorter(start, pred, k);
        }
    }
    let removed = kept.len() != n;
    *transactions = kept;
    removed
}

} // verus!
