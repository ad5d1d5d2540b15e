//! The entries of the expense sheet.

use vstd::prelude::*;

use crate::json::TransactionJson;

verus! {

/// The fields of a transaction that a line of the expense sheet shows; the amount
/// is in milliunits.
#[derive(Debug)]
pub struct SheetEntry {
    pub date: String,
    pub amount: i64,
    pub account: String,
    pub category: String,
    pub memo: String,
}

/// `t` has every field that a line of the sheet shows.
pub open spec fn has_sheet_fields(t: TransactionJson) -> bool {
    &&& t.date is Some
    &&& t.amount is Some
    &&& t.account_name is Some
    &&& t.category_name is Some
    &&& t.memo is Some
}

/// The sheet entry of `t`, or `None` when `t` lacks a field that the sheet shows
/// (such a transaction is skipped).
pub fn sheet_entry(t: &TransactionJson) -> (r: Option<SheetEntry>)
    ensures
        r is Some <==> has_sheet_fields(*t),
        r is Some <==> (t.date is Some && t.amount is Some && t.account_name is Some && t.category_name is Some
            && t.memo is Some),
        r matches Some(e) ==> {
            &&& e.date@ == t.date->0@
            &&& e.amount == t.amount->0
            &&& e.account@ == t.account_name->0@
            &&& e.category@ == t.category_name->0@
            &&& e.memo@ == t.memo->0@
        },
{
    match (&t.date, &t.amount, &t.account_name, &t.category_name, &t.memo) {
        (Some(date), Some(amount), Some(account), Some(category), Some(memo)) => Some(
            SheetEntry {
                date: date.clone(),
                amount: *amount,
                account: account.clone(),
                category: category.clone(),
                memo: memo.clone(),
            },
        ),
        _ => None,
    }
}

/// `t` has every field that a line of the brief sheet (without memo) shows.
pub open spec fn has_brief_sheet_fields(t: TransactionJson) -> bool {
    &&& t.date is Some
    &&& t.amount is Some
    &&& t.account_name is Some
    &&& t.category_name is Some
}

/// The entry of `t` on the brief sheet, whose lines carry no memo (the entry's memo
/// is empty), or `None` when `t` lacks a field that such a line shows.
pub fn brief_sheet_entry(t: &TransactionJson) -> (r: Option<SheetEntry>)
    ensures
        r is Some <==> has_brief_sheet_fields(*t),
        r is Some <==> (t.date is Some && t.amount is Some && t.account_name is Some && t.category_name is Some),
        r matches Some(e) ==> {
            &&& e.date@ == t.date->0@
            &&& e.amount == t.amount->0
            &&& e.account@ == t.account_name->0@
            &&& e.category@ == t.category_name->0@
            &&& e.memo@ == Seq::<char>::empty()
        },
{
    match (&t.date, &t.amount, &t.account_name, &t.category_name) {
        (Some(date), Some(amount), Some(account), Some(category)) => Some(
            SheetEntry {
                date: date.clone(),
                amount: *amount,
                account: account.clone(),
                category: category.clone(),
                memo: String::new(),
            },
        ),
        _ => None,
    }
}

/// Law: a transaction gets a sheet line exactly when its date, amount, account,
/// category and memo are all present, whatever they hold (an empty memo too).
pub proof fn lemma_sheet_line_when_fields_present(t: TransactionJson)
    ensures
        has_sheet_fields(t) <==> (t.date is Some && t.amount is Some && t.account_name is Some
            && t.category_name is Some && t.memo is Some),
        has_brief_sheet_fields(t) <==> (t.date is Some && t.amount is Some && t.account_name is Some
            && t.category_name is Some),
{
}

} // verus!
