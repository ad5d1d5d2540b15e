//! The records of the budget service's responses, as the library reads them.
//!
//! Amounts are integers in milliunits (thousandths of a currency unit), the unit in
//! which the service reports them. Parts of a response that the library only carries
//! along are kept as JSON values.

use vstd::prelude::*;

verus! {

#[verifier::external_type_specification]
#[verifier::external_body]
pub struct ExJsonValue(serde_json::Value);

/// The response listing the budgets of an account.
#[derive(Debug)]
pub struct BudgetsJson {
    pub data: BudgetsJsonInner,
}

#[derive(Debug)]
pub struct BudgetsJsonInner {
    pub budgets: Vec<BudgetJson>,
    pub default_budget: serde_json::Value,
}

/// One budget of an account.
#[derive(Debug)]
pub struct BudgetJson {
    pub id: String,
    pub name: String,
    /// Time of the last modification, as an ISO 8601 timestamp.
    pub last_modified_on: String,
    pub first_month: String,
    pub last_month: String,
    pub date_format: serde_json::Value,
    pub currency_format: serde_json::Value,
}

/// The response listing the transactions of a budget.
#[derive(Debug)]
pub struct TransactionsJson {
    pub data: TransactionsJsonInner,
}

#[derive(Debug)]
pub struct TransactionsJsonInner {
    pub transactions: Vec<TransactionJson>,
    /// The service's knowledge counter at the time of the response.
    pub server_knowledge: i64,
}

/// One transaction of a budget.
#[derive(Debug)]
pub struct TransactionJson {
    pub id: Option<String>,
    pub date: Option<String>,
    /// Amount in milliunits; outflows are negative.
    pub amount: Option<i64>,
    pub memo: Option<String>,
    pub cleared: Option<String>,
    pub approved: Option<bool>,
    pub flag_color: Option<String>,
    pub account_id: Option<String>,
    pub payee_id: Option<String>,
    pub category_id: Option<String>,
    pub transfer_account_id: Option<String>,
    pub transfer_transaction_id: Option<String>,
    pub matched_transaction_id: Option<String>,
    pub import_id: Option<String>,
    pub deleted: Option<bool>,
    pub account_name: Option<String>,
    pub payee_name: Option<String>,
    pub category_name: Option<String>,
}

} // verus!
