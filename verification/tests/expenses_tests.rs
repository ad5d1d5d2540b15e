use expense_resolver::budget::Budget;
use expense_resolver::expenses::{all_normalisable, into_normal_form, normalisable_test, note, shared_expense_test, shared_expenses, EXP_PREFIX};
use expense_resolver::json::{TransactionJson, TransactionsJson, TransactionsJsonInner};

fn txn(id: &str, amount: Option<i64>, memo: Option<&str>) -> TransactionJson {
    TransactionJson {
        id: Some(id.to_string()),
        date: Some("2024-05-01".to_string()),
        amount,
        memo: memo.map(|m| m.to_string()),
        cleared: Some("cleared".to_string()),
        approved: Some(true),
        flag_color: None,
        account_id: Some("acct-id".to_string()),
        payee_id: None,
        category_id: Some("cat-id".to_string()),
        transfer_account_id: None,
        transfer_transaction_id: None,
        matched_transaction_id: None,
        import_id: None,
        deleted: Some(false),
        account_name: Some("Checking".to_string()),
        payee_name: Some("Shop".to_string()),
        category_name: Some("Groceries".to_string()),
    }
}

#[test]
fn prefix_is_the_marker() {
    assert_eq!(EXP_PREFIX, "ALSHARED");
    assert_eq!(EXP_PREFIX.len(), 8);
}

#[test]
fn shared_expense_criteria() {
    assert!(shared_expense_test(&txn("1", Some(-5000), Some("ALSHARED dinner"))));
    assert!(shared_expense_test(&txn("1", Some(-5000), Some("lunch ALSHARED"))));
    // a transaction without an amount is no shared expense
    assert!(!shared_expense_test(&txn("1", None, Some("ALSHARED"))));
    assert!(!shared_expense_test(&txn("1", Some(0), Some("ALSHARED"))));
    assert!(!shared_expense_test(&txn("1", Some(5000), Some("ALSHARED"))));
    assert!(!shared_expense_test(&txn("1", Some(-5000), Some("alshared"))));
    assert!(!shared_expense_test(&txn("1", Some(-5000), None)));
    let mut t = txn("1", Some(-5000), Some("ALSHARED"));
    t.approved = Some(false);
    assert!(!shared_expense_test(&t));
    t.approved = None;
    assert!(!shared_expense_test(&t));
    let mut t = txn("1", Some(-5000), Some("ALSHARED"));
    t.category_id = None;
    assert!(!shared_expense_test(&t));
    let mut t = txn("1", Some(-5000), Some("ALSHARED"));
    t.cleared = None;
    assert!(!shared_expense_test(&t));
}

#[test]
fn normal_form_drops_marker_and_negates() {
    let o = into_normal_form(txn("1", Some(-12340), Some("ALSHARED dinner")));
    assert_eq!(o.memo, Some(" dinner".to_string()));
    assert_eq!(o.amount, Some(12340));
    assert_eq!(o.id, Some("1".to_string()));
    assert_eq!(o.category_name, Some("Groceries".to_string()));
    // the marker goes wherever it stands; the rest of the memo is the note
    let o = into_normal_form(txn("2", Some(-1), Some("lunch ALSHARED")));
    assert_eq!(o.memo, Some("lunch ".to_string()));
    let o = into_normal_form(txn("3", Some(-1), Some("xALSHARED")));
    assert_eq!(o.memo, Some("x".to_string()));
    let o = into_normal_form(txn("4", Some(-1), Some("ALSHARED")));
    assert_eq!(o.memo, Some("".to_string()));
}

#[test]
fn note_removes_only_the_first_marker() {
    assert_eq!(note(&"déjà ALSHARED vu ALSHARED".to_string()), "déjà  vu ALSHARED");
    assert_eq!(note(&"ALSHAREDALSHARED".to_string()), "ALSHARED");
    assert_eq!(note(&"ALSALSHAREDX".to_string()), "ALSX");
}

#[test]
fn normalisability() {
    assert!(normalisable_test(&txn("1", Some(-5), Some("ALSHARED"))));
    assert!(normalisable_test(&txn("1", Some(-5), Some("aaaaaaaéALSHARED"))));
    assert!(normalisable_test(&txn("1", None, Some("ALSHARED"))));
    // not shared: nothing to normalise
    assert!(normalisable_test(&txn("1", Some(i64::MIN), Some("nothing"))));
    assert!(!normalisable_test(&txn("1", Some(i64::MIN), Some("ALSHARED"))));
    assert!(all_normalisable(&vec![txn("1", Some(-5), Some("ALSHARED")), txn("2", None, None)]));
    assert!(!all_normalisable(&vec![txn("1", Some(-5), Some("ALSHARED")), txn("2", Some(i64::MIN), Some("ALSHARED"))]));
}

#[test]
fn shared_expenses_keep_order_and_drop_others() {
    let input = vec![
        txn("a", Some(-100), Some("ALSHARED one")),
        txn("b", Some(-200), Some("private")),
        txn("c", Some(300), Some("ALSHARED refund")),
        txn("d", Some(-400), Some("note ALSHARED two")),
    ];
    let out = shared_expenses(input);
    assert_eq!(out.len(), 2);
    assert_eq!(out[0].id, Some("a".to_string()));
    assert_eq!(out[0].memo, Some(" one".to_string()));
    assert_eq!(out[0].amount, Some(100));
    assert_eq!(out[1].id, Some("d".to_string()));
    assert_eq!(out[1].memo, Some("note  two".to_string()));
    assert_eq!(out[1].amount, Some(400));
    // law: kept expenses are outflows
    assert!(out.iter().all(|t| t.amount.unwrap() > 0));
}

#[test]
fn get_transactions_keeps_knowledge() {
    let b = Budget::with_token("tok".to_string());
    assert!(b.get_transactions(None).is_none());
    let resp = TransactionsJson {
        data: TransactionsJsonInner {
            transactions: vec![txn("a", Some(-100), Some("ALSHARED x")), txn("b", Some(-1), Some("no"))],
            server_knowledge: 77,
        },
    };
    let (kept, k) = b.get_transactions(Some(resp)).unwrap();
    assert_eq!(k, 77);
    assert_eq!(kept.len(), 1);
    assert_eq!(kept[0].memo, Some(" x".to_string()));
    let empty = TransactionsJson { data: TransactionsJsonInner { transactions: vec![], server_knowledge: 3 } };
    let (kept, k) = b.get_transactions(Some(empty)).unwrap();
    assert_eq!(k, 3);
    assert!(kept.is_empty());
}

#[test]
fn shared_expenses_of_concatenated_lists() {
    let a = vec![txn("a", Some(-1), Some("ALSHARED 1")), txn("b", Some(-2), Some("no"))];
    let b = vec![txn("c", Some(-3), Some("x ALSHARED")), txn("d", None, Some("ALSHARED"))];
    let mut both = vec![txn("a", Some(-1), Some("ALSHARED 1")), txn("b", Some(-2), Some("no"))];
    both.push(txn("c", Some(-3), Some("x ALSHARED")));
    both.push(txn("d", None, Some("ALSHARED")));
    let mut apart = shared_expenses(a);
    apart.extend(shared_expenses(b));
    let together = shared_expenses(both);
    let ids = |v: &Vec<TransactionJson>| v.iter().map(|t| (t.id.clone(), t.memo.clone(), t.amount)).collect::<Vec<_>>();
    assert_eq!(ids(&together), ids(&apart));
    assert_eq!(together.len(), 2);
}
