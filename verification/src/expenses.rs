//! Shared expenses: the transactions that a budget marks as shared by a memo
//! marker, and their normal form.

use vstd::prelude::*;

use crate::json::TransactionJson;
use crate::text::{chars_of, find_infix, has_infix, infix_at, is_first_infix, lemma_first_infix_unique, splice_out, string_of};

verus! {

/// The memo marker of an expense shared between the households.
pub const EXP_PREFIX: &'static str = "ALSHARED";

/// `t` is a shared expense: an outflow (an amount below zero), approved,
/// categorised and with a clearing status, whose memo holds the shared-expense
/// marker.
pub open spec fn is_shared_expense(t: TransactionJson) -> bool {
    &&& t.amount matches Some(a) && a < 0
    &&& t.approved == Some(true)
    &&& t.category_id is Some
    &&& t.cleared is Some
    &&& t.memo matches Some(m) && has_infix(m@, EXP_PREFIX@)
}

/// Where the marker first occurs in the memo `m`.
pub open spec fn first_marker(m: Seq<char>) -> int {
    choose|i: int| is_first_infix(m, EXP_PREFIX@, i)
}

/// The memo `m` with its first marker removed: what remains is the expense's note.
pub open spec fn note_of(m: Seq<char>) -> Seq<char> {
    let i = first_marker(m);
    m.subrange(0, i) + m.subrange(i + EXP_PREFIX@.len(), m.len() as int)
}

/// A shared expense can be put in normal form: its amount is above the least `i64`,
/// so that its outflow is an `i64` too.
pub open spec fn normalisable(t: TransactionJson) -> bool {
    is_shared_expense(t) ==> t.amount->0 > i64::MIN
}

/// `o` is the normal form of the shared expense `t`: the amount becomes the outflow
/// (its negation), the memo becomes the note (the memo without its first marker),
/// and every other field is kept.
pub open spec fn normal_form_of(t: TransactionJson, o: TransactionJson) -> bool {
    &&& o.amount == Some((-t.amount->0) as i64)
    &&& o.memo matches Some(m) && m@ == note_of(t.memo->0@)
    &&& o == TransactionJson { amount: o.amount, memo: o.memo, ..t }
}

/// The shared expenses of `s`, in their order in `s`.
pub open spec fn shared_in(s: Seq<TransactionJson>) -> Seq<TransactionJson>
    decreases s.len(),
{
    if s.len() == 0 {
        seq![]
    } else if is_shared_expense(s.last()) {
        shared_in(s.drop_last()).push(s.last())
    } else {
        shared_in(s.drop_last())
    }
}

/// `out` holds the normal forms of the shared expenses of `input`, in order.
pub open spec fn shared_expenses_of(input: Seq<TransactionJson>, out: Seq<TransactionJson>) -> bool {
    &&& out.len() == shared_in(input).len()
    &&& forall|k: int| 0 <= k < out.len() ==> normal_form_of(#[trigger] shared_in(input)[k], out[k])
}

/// The marker is eight characters long.
pub proof fn lemma_marker_len()
    ensures
        EXP_PREFIX@.len() == 8,
{
    reveal_strlit("ALSHARED");
}

/// Law: a memo that starts with the marker has, as its note, exactly what follows it.
pub proof fn lemma_note_after_leading_marker(rest: Seq<char>)
    ensures
        note_of(EXP_PREFIX@ + rest) == rest,
{
    let m = EXP_PREFIX@ + rest;
    assert(m.subrange(0, EXP_PREFIX@.len() as int) =~= EXP_PREFIX@);
    assert(is_first_infix(m, EXP_PREFIX@, 0));
    lemma_first_infix_unique(m, EXP_PREFIX@, 0, first_marker(m));
    assert(m.subrange(0, 0) + m.subrange(EXP_PREFIX@.len() as int, m.len() as int) =~= rest);
}

/// Law: a note keeps everything of the memo but the first marker: the text before
/// it and the text after it, in order.
pub proof fn lemma_note_splits_at_marker(before: Seq<char>, after: Seq<char>)
    requires
        !has_infix(before, EXP_PREFIX@),
        !has_infix(before + EXP_PREFIX@.drop_last(), EXP_PREFIX@),
    ensures
        note_of(before + EXP_PREFIX@ + after) == before + after,
{
    lemma_marker_len();
    let p = EXP_PREFIX@;
    let m = before + p + after;
    let i = before.len() as int;
    assert(m.subrange(i, i + p.len()) =~= p);
    assert forall|j: int| 0 <= j < i implies !#[trigger] infix_at(m, p, j) by {
        let w = before + p.drop_last();
        if infix_at(m, p, j) {
            assert(j + p.len() <= w.len());
            assert(w.subrange(j, j + p.len()) =~= m.subrange(j, j + p.len()));
            assert(infix_at(w, p, j));
        }
    }
    assert(is_first_infix(m, p, i));
    lemma_first_infix_unique(m, p, i, first_marker(m));
    assert(m.subrange(0, i) + m.subrange(i + p.len(), m.len() as int) =~= before + after);
}

/// The note of the memo `m`, which holds the marker.
pub fn note(m: &String) -> (r: String)
    requires
        has_infix(m@, EXP_PREFIX@),
    ensures
        r@ == note_of(m@),
{
    let chars = chars_of(m.as_str());
    let marker = chars_of(EXP_PREFIX);
    match find_infix(&chars, &marker) {
        Some(i) => {
            proof {
                lemma_first_infix_unique(m@, EXP_PREFIX@, i as int, first_marker(m@));
            }
            let kept = splice_out(&chars, i, marker.len());
            string_of(&kept)
        },
        None => String::new(),
    }
}

/// Whether `t` is a shared expense.
pub fn shared_expense_test(t: &TransactionJson) -> (b: bool)
    ensures
        b == is_shared_expense(*t),
{
    let outflow = match t.amount {
        Some(a) => a < 0,
        None => false,
    };
    let approved = match t.approved {
        Some(x) => x,
        None => false,
    };
    if outflow && approved && t.category_id.is_some() && t.cleared.is_some() {
        match &t.memo {
            Some(memo) => {
                let chars = chars_of(memo.as_str());
                let marker = chars_of(EXP_PREFIX);
                find_infix(&chars, &marker).is_some()
            },
            None => false,
        }
    } else {
        false
    }
}

/// The normal form of the shared expense `t` (see `normal_form_of`).
pub fn into_normal_form(t: TransactionJson) -> (o: TransactionJson)
    requires
        is_shared_expense(t),
        normalisable(t),
    ensures
        normal_form_of(t, o),
{
    let mut o = t;
    let memo = match &o.memo {
        Some(m) => note(m),
        None => String::new(),
    };
    let amount = match o.amount {
        Some(a) => -a,
        None => 0,
    };
    o.memo = Some(memo);
    o.amount = Some(amount);
    o
}

/// The shared expenses of `transactions`, in normal form and in their order.
pub fn shared_expenses(transactions: Vec<TransactionJson>) -> (out: Vec<TransactionJson>)
    requires
        forall|i: int| 0 <= i < transactions.len() ==> normalisable(#[trigger] transactions@[i]),
    ensures
        shared_expenses_of(transactions@, out@),
{
    let ghost input = transactions@;
    let mut out: Vec<TransactionJson> = Vec::new();
    let mut rest = transactions;
    let total = rest.len();
    let ghost n = input.len();
    let mut i: usize = 0;
    assert(input.take(0) =~= seq![]);
    assert(input.skip(0) =~= input);
    while rest.len() > 0
        invariant
            n == input.len(),
            n <= usize::MAX,
            i + rest.len() == n,
            rest@ == input.skip(i as int),
            forall|k: int| 0 <= k < n ==> normalisable(#[trigger] input[k]),
            shared_expenses_of(input.take(i as int), out@),
        decreases rest.len(),
    {
        let t = rest.remove(0);
        assert(t == input[i as int]);
        assert(rest@ =~= input.skip(i + 1));
        let ghost before = input.take(i as int);
        assert(input.take(i + 1).drop_last() =~= before);
        assert(input.take(i + 1).last() == t);
        if shared_expense_test(&t) {
            let o = into_normal_form(t);
            out.push(o);
        }
        i = i + 1;
    }
    assert(input.take(n as int) =~= input);
    out
}

/// Whether `t` can be put in normal form (see `normalisable`).
pub fn normalisable_test(t: &TransactionJson) -> (b: bool)
    ensures
        b == normalisable(*t),
{
    if !shared_expense_test(t) {
        return true;
    }
    match t.amount {
        Some(a) => a > i64::MIN,
        None => true,
    }
}

/// Whether every transaction of `txns` can be put in normal form.
pub fn all_normalisable(txns: &Vec<TransactionJson>) -> (b: bool)
    ensures
        b == forall|i: int| 0 <= i < txns.len() ==> normalisable(#[trigger] txns@[i]),
{
    for i in 0..txns.len()
        invariant
            forall|j: int| 0 <= j < i ==> normalisable(#[trigger] txns@[j]),
    {
        if !normalisable_test(&txns[i]) {
            return false;
        }
    }
    true
}

/// Every element of `shared_in(s)` is a shared expense that occurs in `s`, and
/// there are no more of them than transactions.
pub proof fn lemma_shared_in_members(s: Seq<TransactionJson>)
    ensures
        shared_in(s).len() <= s.len(),
        forall|k: int| 0 <= k < shared_in(s).len() ==> is_shared_expense(#[trigger] shared_in(s)[k]) && s.contains(shared_in(s)[k]),
    decreases s.len(),
{
    if s.len() > 0 {
        let rest = s.drop_last();
        lemma_shared_in_members(rest);
        assert forall|k: int| 0 <= k < shared_in(s).len() implies is_shared_expense(#[trigger] shared_in(s)[k]) && s.contains(shared_in(s)[k]) by {
            if k < shared_in(rest).len() {
                let j = choose|j: int| 0 <= j < rest.len() && rest[j] == shared_in(rest)[k];
                assert(s[j] == rest[j]);
            } else {
                assert(s[s.len() - 1] == s.last());
            }
        }
    }
}

/// Law: the shared expenses kept from transactions that can all be normalised are
/// outflows: each has an amount, and it is positive.
pub proof fn lemma_shared_expenses_are_outflows(input: Seq<TransactionJson>, out: Seq<TransactionJson>)
    requires
        forall|i: int| 0 <= i < input.len() ==> normalisable(#[trigger] input[i]),
        shared_expenses_of(input, out),
    ensures
        forall|k: int| 0 <= k < out.len() ==> ((#[trigger] out[k]).amount matches Some(a) && a > 0),
{
    lemma_shared_in_members(input);
    assert forall|k: int| 0 <= k < out.len() implies ((#[trigger] out[k]).amount matches Some(a) && a > 0) by {
        let t = shared_in(input)[k];
        assert(normal_form_of(t, out[k]));
        let j = choose|j: int| 0 <= j < input.len() && input[j] == t;
        assert(normalisable(input[j]));
    }
}

/// Law: a shared expense whose memo starts with the marker keeps, as its memo,
/// exactly the text after the marker.
pub proof fn lemma_normal_form_memo(t: TransactionJson, o: TransactionJson, rest: Seq<char>)
    requires
        normal_form_of(t, o),
        t.memo matches Some(m) && m@ == EXP_PREFIX@ + rest,
    ensures
        o.memo matches Some(m) && m@ == rest,
{
    lemma_note_after_leading_marker(rest);
}

/// The shared expenses of two lists, one after the other, are those of the first
/// then those of the second.
pub proof fn lemma_shared_in_concat(s1: Seq<TransactionJson>, s2: Seq<TransactionJson>)
    ensures
        shared_in(s1 + s2) == shared_in(s1) + shared_in(s2),
    decreases s2.len(),
{
    if s2.len() == 0 {
        assert(s1 + s2 =~= s1);
        assert(shared_in(s1) + shared_in(s2) =~= shared_in(s1));
    } else {
        lemma_shared_in_concat(s1, s2.drop_last());
        assert((s1 + s2).drop_last() =~= s1 + s2.drop_last());
        assert((s1 + s2).last() == s2.last());
        if is_shared_expense(s2.last()) {
            assert(shared_in(s1) + shared_in(s2) =~= (shared_in(s1) + shared_in(s2.drop_last())).push(s2.last()));
        }
    }
}

/// Law: each transaction is kept or dropped, and put in normal form, independently
/// of the others: the shared expenses kept from two lists of transactions, one
/// after the other, are those kept from the first followed by those kept from the
/// second.
pub proof fn lemma_shared_expenses_concat(
    s1: Seq<TransactionJson>,
    o1: Seq<TransactionJson>,
    s2: Seq<TransactionJson>,
    o2: Seq<TransactionJson>,
)
    requires
        shared_expenses_of(s1, o1),
        shared_expenses_of(s2, o2),
    ensures
        shared_expenses_of(s1 + s2, o1 + o2),
{
    lemma_shared_in_concat(s1, s2);
    let sh = shared_in(s1 + s2);
    assert forall|k: int| 0 <= k < (o1 + o2).len() implies normal_form_of(#[trigger] sh[k], (o1 + o2)[k]) by {
        if k < o1.len() {
            assert(sh[k] == shared_in(s1)[k]);
        } else {
            assert(sh[k] == shared_in(s2)[k - o1.len()]);
        }
    }
}

/// Law: which transactions count as shared expenses is decided by five of their
/// fields alone: an amount below zero, approval, a category, a clearing status, and
/// the eight characters `ALSHARED` somewhere in the memo. No other field matters.
pub proof fn lemma_shared_expense_criteria(t: TransactionJson)
    ensures
        is_shared_expense(t) <==> {
            &&& t.amount is Some
            &&& t.amount->0 < 0
            &&& t.approved == Some(true)
            &&& t.category_id is Some
            &&& t.cleared is Some
            &&& t.memo is Some
            &&& exists|i: int| 0 <= i && i + 8 <= t.memo->0@.len() && #[trigger] t.memo->0@.subrange(i, i + 8) == "ALSHARED"@
        },
{
    reveal_strlit("ALSHARED");
    if t.memo is Some {
        let m = t.memo->0@;
        if has_infix(m, EXP_PREFIX@) {
            let i = choose|i: int| #[trigger] infix_at(m, EXP_PREFIX@, i);
            assert(m.subrange(i, i + 8) == "ALSHARED"@);
        }
        if exists|i: int| 0 <= i && i + 8 <= m.len() && #[trigger] m.subrange(i, i + 8) == "ALSHARED"@ {
            let i = choose|i: int| 0 <= i && i + 8 <= m.len() && #[trigger] m.subrange(i, i + 8) == "ALSHARED"@;
            assert(infix_at(m, EXP_PREFIX@, i));
        }
    }
}

/// Law: two transactions that agree on amount, approval, memo and on having a
/// category and a clearing status are both shared expenses or both not, whatever
/// their other fields (identifiers, import id, flag, payee, names).
pub proof fn lemma_shared_expense_ignores_other_fields(t1: TransactionJson, t2: TransactionJson)
    requires
        t1.amount == t2.amount,
        t1.approved == t2.approved,
        t1.memo == t2.memo,
        t1.category_id is Some <==> t2.category_id is Some,
        t1.cleared is Some <==> t2.cleared is Some,
    ensures
        is_shared_expense(t1) == is_shared_expense(t2),
{
    lemma_shared_expense_criteria(t1);
    lemma_shared_expense_criteria(t2);
}

/// Every shared expense of `s` occurs in `shared_in(s)`.
proof fn lemma_shared_in_complete(s: Seq<TransactionJson>, j: int)
    requires
        0 <= j < s.len(),
        is_shared_expense(s[j]),
    ensures
        exists|k: int| 0 <= k < shared_in(s).len() && shared_in(s)[k] == s[j],
    decreases s.len(),
{
    if j == s.len() - 1 {
        let k = shared_in(s.drop_last()).len() as int;
        assert(shared_in(s)[k] == s[j]);
    } else {
        lemma_shared_in_complete(s.drop_last(), j);
        let k = choose|k: int| 0 <= k < shared_in(s.drop_last()).len() && shared_in(s.drop_last())[k] == s.drop_last()[j];
        assert(shared_in(s)[k] == s[j]);
    }
}

/// Law: every approved, categorised, cleared outflow whose memo holds `ALSHARED`
/// is kept, whatever its other fields: the kept list holds an expense with its
/// identifier, import id, date, account and category, and its outflow as amount.
pub proof fn lemma_marked_outflows_are_kept(s: Seq<TransactionJson>, out: Seq<TransactionJson>, j: int)
    requires
        shared_expenses_of(s, out),
        0 <= j < s.len(),
        s[j].amount is Some,
        s[j].amount->0 < 0,
        s[j].approved == Some(true),
        s[j].category_id is Some,
        s[j].cleared is Some,
        s[j].memo is Some,
        exists|i: int| 0 <= i && i + 8 <= s[j].memo->0@.len() && #[trigger] s[j].memo->0@.subrange(i, i + 8) == "ALSHARED"@,
    ensures
        exists|k: int| 0 <= k < out.len() && {
            &&& #[trigger] out[k].id == s[j].id
            &&& out[k].import_id == s[j].import_id
            &&& out[k].date == s[j].date
            &&& out[k].account_name == s[j].account_name
            &&& out[k].category_name == s[j].category_name
            &&& out[k].amount == Some((-s[j].amount->0) as i64)
        },
{
    lemma_shared_expense_criteria(s[j]);
    lemma_shared_in_complete(s, j);
    let k = choose|k: int| 0 <= k < shared_in(s).len() && shared_in(s)[k] == s[j];
    assert(normal_form_of(shared_in(s)[k], out[k]));
    assert(out[k].id == s[j].id);
}

} // verus!
