use expense_resolver::json::{BudgetJson, BudgetsJson, BudgetsJsonInner, TransactionJson, TransactionsJson, TransactionsJsonInner};
use expense_resolver::run::{Run, RunAction, RunEvent, RunPhase};
use serde_json::Value;

fn listing() -> BudgetsJson {
    BudgetsJson {
        data: BudgetsJsonInner {
            budgets: vec![BudgetJson {
                id: "b1".to_string(),
                name: "Home".to_string(),
                last_modified_on: "2024-05-01".to_string(),
                first_month: "2024-01-01".to_string(),
                last_month: "2024-05-01".to_string(),
                date_format: Value::Null,
                currency_format: Value::Null,
            }],
            default_budget: Value::Null,
        },
    }
}

fn txn(id: &str, amount: i64, memo: &str) -> TransactionJson {
    TransactionJson {
        id: Some(id.to_string()),
        date: Some("2024-05-02".to_string()),
        amount: Some(amount),
        memo: Some(memo.to_string()),
        cleared: Some("cleared".to_string()),
        approved: Some(true),
        flag_color: None,
        account_id: None,
        payee_id: None,
        category_id: Some("c".to_string()),
        transfer_account_id: None,
        transfer_transaction_id: None,
        matched_transaction_id: None,
        import_id: None,
        deleted: None,
        account_name: Some("Checking".to_string()),
        payee_name: None,
        category_name: Some("Food".to_string()),
    }
}

fn start(stored: Option<i64>) -> Run {
    let run = Run::new("Aashray".to_string(), "tok".to_string());
    assert_eq!(run.phase(), RunPhase::Start);
    let (run, action) = run.step(RunEvent::Begin);
    match action {
        RunAction::LoadKnowledge { owner } => assert_eq!(owner, "Aashray"),
        other => panic!("unexpected {:?}", other),
    }
    let (run, action) = run.step(RunEvent::KnowledgeLoaded { knowledge: stored });
    match action {
        RunAction::FetchBudgets { request } => {
            assert_eq!(request.uri, "https://api.youneedabudget.com/v1/budgets?include_accounts=false");
            assert_eq!(request.headers[1].1, "Bearer tok");
        },
        other => panic!("unexpected {:?}", other),
    }
    run
}

#[test]
fn run_records_shared_expenses_and_knowledge() {
    let run = start(Some(55));
    let (run, action) = run.step(RunEvent::BudgetsFetched { listing: Some(listing()) });
    match action {
        RunAction::FetchTransactions { request } => assert_eq!(
            request.uri,
            "https://api.youneedabudget.com/v1/budgets/b1/transactions?last_knowledge_of_server=55"
        ),
        other => panic!("unexpected {:?}", other),
    }
    assert_eq!(run.budget().unwrap().last_month(), Some("2024-05-01".to_string()));
    let response = TransactionsJson {
        data: TransactionsJsonInner {
            transactions: vec![txn("t1", -12340, "ALSHARED pizza"), txn("t2", -1000, "mine")],
            server_knowledge: 60,
        },
    };
    let (run, action) = run.step(RunEvent::TransactionsFetched { response: Some(response) });
    match action {
        RunAction::WriteSheet { owner, expenses } => {
            assert_eq!(owner, "Aashray");
            assert_eq!(expenses.len(), 1);
            assert_eq!(expenses[0].amount, Some(12340));
        },
        other => panic!("unexpected {:?}", other),
    }
    assert_eq!(run.phase(), RunPhase::AwaitSheet);
    let (run, action) = run.step(RunEvent::SheetWritten);
    match action {
        RunAction::Insert { query } => assert_eq!(
            query,
            "INSERT OR IGNORE INTO expenses VALUES \n('t1', 'Aashray', '2024-05-02', 12.34, 'Checking', 'Food', ' pizza');"
        ),
        other => panic!("unexpected {:?}", other),
    }
    assert_eq!(run.phase(), RunPhase::AwaitInsert);
    let (run, action) = run.step(RunEvent::Inserted);
    match action {
        RunAction::StoreKnowledge { owner, knowledge } => {
            assert_eq!(owner, "Aashray");
            assert_eq!(knowledge, 60);
        },
        other => panic!("unexpected {:?}", other),
    }
    assert_eq!(run.phase(), RunPhase::AwaitStore);
    let (run, action) = run.step(RunEvent::KnowledgeStored);
    assert!(matches!(action, RunAction::Finish));
    assert_eq!(run.phase(), RunPhase::Done);
}

#[test]
fn run_without_stored_knowledge_starts_at_zero() {
    let run = start(None);
    let (_, action) = run.step(RunEvent::BudgetsFetched { listing: Some(listing()) });
    match action {
        RunAction::FetchTransactions { request } => assert!(request.uri.ends_with("last_knowledge_of_server=0")),
        other => panic!("unexpected {:?}", other),
    }
}

#[test]
fn run_without_shared_expenses_stores_nothing() {
    let run = start(Some(1));
    let (run, _) = run.step(RunEvent::BudgetsFetched { listing: Some(listing()) });
    let response = TransactionsJson {
        data: TransactionsJsonInner { transactions: vec![txn("t2", -1000, "mine")], server_knowledge: 9 },
    };
    let (run, action) = run.step(RunEvent::TransactionsFetched { response: Some(response) });
    match action {
        RunAction::WriteSheet { expenses, .. } => assert!(expenses.is_empty()),
        other => panic!("unexpected {:?}", other),
    }
    // nothing to insert: no rows and no knowledge are written
    let (run, action) = run.step(RunEvent::SheetWritten);
    assert!(matches!(action, RunAction::Finish));
    assert_eq!(run.phase(), RunPhase::Done);
}

#[test]
fn run_ends_when_budgets_cannot_be_listed() {
    let run = start(None);
    let (run, action) = run.step(RunEvent::BudgetsFetched { listing: None });
    assert!(matches!(action, RunAction::Finish));
    assert_eq!(run.phase(), RunPhase::Done);
    assert_eq!(run.budget().unwrap().budget_id(), None);
}

#[test]
fn run_ends_when_transactions_fail() {
    let run = start(None);
    let (run, _) = run.step(RunEvent::BudgetsFetched { listing: Some(listing()) });
    let (run, action) = run.step(RunEvent::TransactionsFetched { response: None });
    assert!(matches!(action, RunAction::Finish));
    assert_eq!(run.phase(), RunPhase::Done);
}

#[test]
fn run_ends_on_unexpected_event() {
    let run = Run::new("o".to_string(), "t".to_string());
    let (run, action) = run.step(RunEvent::Inserted);
    assert!(matches!(action, RunAction::Finish));
    assert_eq!(run.phase(), RunPhase::Done);
    let (run, action) = run.step(RunEvent::Begin);
    assert!(matches!(action, RunAction::Finish));
    assert_eq!(run.phase(), RunPhase::Done);
}
