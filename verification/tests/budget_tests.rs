use expense_resolver::budget::{select_active_budget, Budget, GET_BUDGETS_URI};
use expense_resolver::json::{BudgetJson, BudgetsJson, BudgetsJsonInner};
use serde_json::Value;

fn budget(id: &str, modified: &str) -> BudgetJson {
    BudgetJson {
        id: id.to_string(),
        name: format!("{} name", id),
        last_modified_on: modified.to_string(),
        first_month: format!("{} first", id),
        last_month: format!("{} last", id),
        date_format: Value::Null,
        currency_format: Value::Null,
    }
}

fn listing(budgets: Vec<BudgetJson>) -> BudgetsJson {
    BudgetsJson { data: BudgetsJsonInner { budgets, default_budget: Value::Null } }
}

#[test]
fn active_budget_is_most_recently_modified() {
    let budgets = vec![
        budget("a", "2022-03-07T03:28:24.521Z"),
        budget("b", "2023-01-01T00:00:00.000Z"),
        budget("c", "2022-12-31T23:59:59.999Z"),
    ];
    assert_eq!(select_active_budget(&budgets), 1);
}

#[test]
fn active_budget_ties_go_to_the_first() {
    let budgets = vec![
        budget("a", "2021-01-01"),
        budget("b", "2023-01-01"),
        budget("c", "2023-01-01"),
        budget("d", "2022-01-01"),
    ];
    assert_eq!(select_active_budget(&budgets), 1);
}

#[test]
fn active_budget_matches_stable_sort() {
    let keys = ["b", "a", "c", "c", "", "ca", "b"];
    let budgets: Vec<BudgetJson> = keys.iter().enumerate().map(|(i, k)| budget(&i.to_string(), k)).collect();
    let mut sorted: Vec<&BudgetJson> = budgets.iter().collect();
    sorted.sort_by(|a, b| b.last_modified_on.cmp(&a.last_modified_on));
    let r = select_active_budget(&budgets);
    assert_eq!(budgets[r].id, sorted[0].id);
    assert_eq!(r, 5);
}

#[test]
fn new_without_listing_is_unresolved() {
    let b = Budget::new("tok".to_string(), None).unwrap();
    assert_eq!(b.budget_id(), None);
    assert_eq!(b.name(), None);
    assert_eq!(b.last_modified_on(), None);
    assert_eq!(b.first_month(), None);
    assert_eq!(b.last_month(), None);
    assert!(b.get_txn_uri(0).is_none());
}

#[test]
fn new_takes_the_active_budget() {
    let l = listing(vec![budget("old", "2020-01-01"), budget("new", "2024-05-01")]);
    let b = Budget::new("tok".to_string(), Some(l)).unwrap();
    assert_eq!(b.budget_id(), Some("new".to_string()));
    assert_eq!(b.name(), Some("new name".to_string()));
    assert_eq!(b.last_modified_on(), Some("2024-05-01".to_string()));
    assert_eq!(b.first_month(), Some("new first".to_string()));
    assert_eq!(b.last_month(), Some("new last".to_string()));
}

#[test]
fn requests_carry_token_and_json_content_type() {
    let b = Budget::with_token("SECRET-REDACTED".to_string());
    let r = b.build_req("https://example.org/x".to_string());
    assert_eq!(r.method, "GET");
    assert_eq!(r.uri, "https://example.org/x");
    assert_eq!(
        r.headers,
        vec![
            ("content-type".to_string(), "application/json".to_string()),
            ("Authorization".to_string(), "Bearer SECRET-REDACTED".to_string()),
        ]
    );
}

#[test]
fn budget_listing_request() {
    let b = Budget::with_token("tok".to_string());
    let r = b.get_id();
    assert_eq!(r.uri, GET_BUDGETS_URI);
    assert_eq!(r.uri, "https://api.youneedabudget.com/v1/budgets?include_accounts=false");
    assert_eq!(r.headers[1].1, "Bearer tok");
}

#[test]
fn transactions_request_uses_knowledge() {
    let l = listing(vec![budget("abc-123", "2024-05-01")]);
    let b = Budget::new("tok".to_string(), Some(l)).unwrap();
    let r = b.get_txn_uri(4321).unwrap();
    assert_eq!(r.uri, "https://api.youneedabudget.com/v1/budgets/abc-123/transactions?last_knowledge_of_server=4321");
    assert_eq!(r.method, "GET");
    assert_eq!(r.headers[1].1, "Bearer tok");
    let r0 = b.get_txn_uri(0).unwrap();
    assert_eq!(r0.uri, "https://api.youneedabudget.com/v1/budgets/abc-123/transactions?last_knowledge_of_server=0");
    let rn = b.get_txn_uri(-7).unwrap();
    assert_eq!(rn.uri, "https://api.youneedabudget.com/v1/budgets/abc-123/transactions?last_knowledge_of_server=-7");
}

#[test]
fn transactions_request_needs_a_valid_header_value() {
    let l = listing(vec![budget("abc", "2024-05-01")]);
    let b = Budget::new("to\nk".to_string(), Some(l)).unwrap();
    assert!(b.get_txn_uri(1).is_none());
    let l = listing(vec![budget("abc", "2024-05-01")]);
    let b = Budget::new("to\tké".to_string(), Some(l)).unwrap();
    assert!(b.get_txn_uri(1).is_some());
}
