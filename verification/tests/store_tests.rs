use expense_resolver::json::TransactionJson;
use expense_resolver::sheet::{brief_sheet_entry, sheet_entry};
use expense_resolver::store::{insert_txns_query, INSERT_PREFIX};

fn expense(id: &str, amount: i64, memo: &str) -> TransactionJson {
    TransactionJson {
        id: Some(id.to_string()),
        date: Some("2024-05-01".to_string()),
        amount: Some(amount),
        memo: Some(memo.to_string()),
        cleared: Some("cleared".to_string()),
        approved: Some(true),
        flag_color: None,
        account_id: None,
        payee_id: None,
        category_id: Some("cat".to_string()),
        transfer_account_id: None,
        transfer_transaction_id: None,
        matched_transaction_id: None,
        import_id: None,
        deleted: None,
        account_name: Some("Checking".to_string()),
        payee_name: None,
        category_name: Some("Groceries".to_string()),
    }
}

#[test]
fn insert_query_one_row() {
    let q = insert_txns_query("Aashray", &vec![expense("t1", 12340, " dinner")]);
    assert_eq!(
        q,
        "INSERT OR IGNORE INTO expenses VALUES \n('t1', 'Aashray', '2024-05-01', 12.34, 'Checking', 'Groceries', ' dinner');"
    );
}

#[test]
fn insert_query_rows_in_order_skipping_incomplete() {
    let mut incomplete = expense("t2", 1, "x");
    incomplete.date = None;
    let q = insert_txns_query("Lizzie", &vec![expense("t1", 5000, "a"), incomplete, expense("t3", 1, "b")]);
    assert_eq!(
        q,
        "INSERT OR IGNORE INTO expenses VALUES \n('t1', 'Lizzie', '2024-05-01', 5, 'Checking', 'Groceries', 'a'),\n('t3', 'Lizzie', '2024-05-01', 0.001, 'Checking', 'Groceries', 'b');"
    );
}

#[test]
fn insert_query_without_rows() {
    assert_eq!(INSERT_PREFIX, "INSERT OR IGNORE INTO expenses VALUES ");
    assert_eq!(insert_txns_query("x", &vec![]), "INSERT OR IGNORE INTO expenses VALUES;");
}

#[test]
fn insert_query_amount_is_float_text() {
    for a in [1i64, 10, 999, 1000, 12340, 98765] {
        let q = insert_txns_query("o", &vec![expense("i", a, "m")]);
        assert!(q.contains(&format!("', {}, '", a as f64 / 1000.0)), "{}", q);
        assert!(q.ends_with(';'));
    }
}

#[test]
fn sheet_entries() {
    let t = expense("t1", 12340, " dinner");
    let e = sheet_entry(&t).unwrap();
    assert_eq!(e.date, "2024-05-01");
    assert_eq!(e.amount, 12340);
    assert_eq!(e.account, "Checking");
    assert_eq!(e.category, "Groceries");
    assert_eq!(e.memo, " dinner");
    let mut no_memo = expense("t2", 1, "x");
    no_memo.memo = None;
    assert!(sheet_entry(&no_memo).is_none());
    let b = brief_sheet_entry(&no_memo).unwrap();
    assert_eq!(b.memo, "");
    let mut no_cat = expense("t3", 1, "x");
    no_cat.category_name = None;
    assert!(sheet_entry(&no_cat).is_none());
    assert!(brief_sheet_entry(&no_cat).is_none());
}
