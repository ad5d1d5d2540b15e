//! The statement that records shared expenses in the expenses table.

use vstd::prelude::*;
use vstd::string::*;

use crate::json::TransactionJson;
use crate::text::{amount_text, chars_of, render_amount, string_of};

verus! {

/// The start of the statement that adds rows to the expenses table, keeping rows
/// whose id is already there.
pub const INSERT_PREFIX: &'static str = "INSERT OR IGNORE INTO expenses VALUES ";

/// `t` has every field that a row of the expenses table records.
pub open spec fn is_recordable(t: TransactionJson) -> bool {
    &&& t.id is Some
    &&& t.date is Some
    &&& t.amount is Some
    &&& t.account_name is Some
    &&& t.category_name is Some
    &&& t.memo is Some
}

/// The row of the recordable transaction `t` of `owner`: id, owner, date, amount in
/// currency units (unquoted), account, category and memo, then a comma.
pub open spec fn row_text(owner: Seq<char>, t: TransactionJson) -> Seq<char> {
    "\n('"@ + t.id->0@ + "', '"@ + owner + "', '"@ + t.date->0@ + "', "@ + amount_text(t.amount->0 as int)
        + ", '"@ + t.account_name->0@ + "', '"@ + t.category_name->0@ + "', '"@ + t.memo->0@ + "'),"@
}

/// The rows of the recordable transactions of `s`, in order.
pub open spec fn rows_text(owner: Seq<char>, s: Seq<TransactionJson>) -> Seq<char>
    decreases s.len(),
{
    if s.len() == 0 {
        seq![]
    } else if is_recordable(s.last()) {
        rows_text(owner, s.drop_last()) + row_text(owner, s.last())
    } else {
        rows_text(owner, s.drop_last())
    }
}

/// The statement recording the transactions `s` of `owner`: the rows after the
/// statement's start, with the final character (the last row's comma, or the
/// space when there is no row) replaced by a semicolon.
pub open spec fn insert_query_text(owner: Seq<char>, s: Seq<TransactionJson>) -> Seq<char> {
    (INSERT_PREFIX@ + rows_text(owner, s)).drop_last().push(';')
}

fn append_row(q: &mut String, owner: &str, t: &TransactionJson)
    requires
        is_recordable(*t),
    ensures
        final(q)@ == old(q)@ + row_text(owner@, *t),
{
    match (&t.id, &t.date, &t.amount, &t.account_name, &t.category_name, &t.memo) {
        (Some(id), Some(date), Some(amount), Some(account), Some(category), Some(memo)) => {
            q.append("\n('");
            q.append(id.as_str());
            q.append("', '");
            q.append(owner);
            q.append("', '");
            q.append(date.as_str());
            q.append("', ");
            let a = render_amount(*amount);
            q.append(a.as_str());
            q.append(", '");
            q.append(account.as_str());
            q.append("', '");
            q.append(category.as_str());
            q.append("', '");
            q.append(memo.as_str());
            q.append("'),");
            assert(q@ =~= old(q)@ + row_text(owner@, *t));
        },
        _ => {},
    }
}

/// The statement that records the transactions `txns` of `owner` (see `insert_query_text`).
pub fn insert_txns_query(owner: &str, txns: &Vec<TransactionJson>) -> (r: String)
    ensures
        r@ == insert_query_text(owner@, txns@),
{
    let mut q = String::from_str(INSERT_PREFIX);
    for i in 0..txns.len()
        invariant
            q@ == INSERT_PREFIX@ + rows_text(owner@, txns@.take(i as int)),
    {
        assert(txns@.take(i + 1).drop_last() =~= txns@.take(i as int));
        if txns[i].id.is_some() && txns[i].date.is_some() && txns[i].amount.is_some()
            && txns[i].account_name.is_some() && txns[i].category_name.is_some() && txns[i].memo.is_some() {
            append_row(&mut q, owner, &txns[i]);
            assert(q@ =~= INSERT_PREFIX@ + rows_text(owner@, txns@.take(i + 1)));
        }
    }
    assert(txns@.take(txns.len() as int) =~= txns@);
    proof {
        reveal_strlit("INSERT OR IGNORE INTO expenses VALUES ");
    }
    let mut chars = chars_of(q.as_str());
    chars.pop();
    chars.push(';');
    string_of(&chars)
}

/// Law: the statement starts with `INSERT OR IGNORE INTO expenses VALUES` and
/// ends with a semicolon; without a recordable transaction it is just that.
pub proof fn lemma_insert_query_shape(owner: Seq<char>, s: Seq<TransactionJson>)
    ensures
        insert_query_text(owner, s).last() == ';',
        insert_query_text(owner, s).take(INSERT_PREFIX@.len() - 1) == INSERT_PREFIX@.drop_last(),
        rows_text(owner, s).len() == 0 ==> insert_query_text(owner, s) == INSERT_PREFIX@.drop_last().push(';'),
{
    reveal_strlit("INSERT OR IGNORE INTO expenses VALUES ");
    let q = INSERT_PREFIX@ + rows_text(owner, s);
    assert(q.drop_last().push(';').take(INSERT_PREFIX@.len() - 1) =~= INSERT_PREFIX@.drop_last());
    if rows_text(owner, s).len() == 0 {
        assert(q =~= INSERT_PREFIX@);
    }
}

/// Law: a transaction with an id, a date, an amount, an account, a category and a
/// memo, whatever they hold (an empty memo too), adds exactly one row after the rows
/// before it: its fields in order, the memo quoted at the end.
pub proof fn lemma_complete_transaction_gets_row(owner: Seq<char>, s: Seq<TransactionJson>, t: TransactionJson)
    requires
        t.id is Some,
        t.date is Some,
        t.amount is Some,
        t.account_name is Some,
        t.category_name is Some,
        t.memo is Some,
    ensures
        rows_text(owner, s.push(t)) == rows_text(owner, s) + ("\n('"@ + t.id->0@ + "', '"@ + owner + "', '"@
            + t.date->0@ + "', "@ + amount_text(t.amount->0 as int) + ", '"@ + t.account_name->0@ + "', '"@
            + t.category_name->0@ + "', '"@ + t.memo->0@ + "'),"@),
        insert_query_text(owner, s.push(t)).len() > INSERT_PREFIX@.len(),
{
    assert(s.push(t).drop_last() =~= s);
    reveal_strlit("'),");
    let r = "\n('"@ + t.id->0@ + "', '"@ + owner + "', '"@ + t.date->0@ + "', "@ + amount_text(t.amount->0 as int)
        + ", '"@ + t.account_name->0@ + "', '"@ + t.category_name->0@ + "', '"@ + t.memo->0@ + "'),"@;
    assert(r.len() >= 3);
}

/// Law: a transaction that lacks one of those fields adds no row.
pub proof fn lemma_incomplete_transaction_gets_no_row(owner: Seq<char>, s: Seq<TransactionJson>, t: TransactionJson)
    requires
        !(t.id is Some && t.date is Some && t.amount is Some && t.account_name is Some && t.category_name is Some
            && t.memo is Some),
    ensures
        rows_text(owner, s.push(t)) == rows_text(owner, s),
{
    assert(s.push(t).drop_last() =~= s);
}

} // verus!
