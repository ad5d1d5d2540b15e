//! One resolution run for one budget owner, as a sequence of decisions: each step
//! takes what the last requested piece of outside work produced and says what to
//! do next.
//!
//! A run looks up the owner's stored server knowledge (0 when none is stored), asks
//! the service for the owner's budgets, then for the active budget's transactions
//! that changed since that knowledge, and records the shared expenses among them:
//! first on the expense sheet, always; then, only when there is at least one, in
//! the expenses table; and only after that does it store the new knowledge.

use vstd::prelude::*;
use vstd::string::*;

use crate::budget::{budget_from_listing, service_request, transactions_uri, Budget, BudgetView, GET_BUDGETS_URI};
use crate::expenses::{normalisable, shared_expenses_of};
use crate::json::{BudgetsJson, TransactionJson, TransactionsJson};
use crate::request::{headers_valid, HttpRequest};
use crate::store::{insert_query_text, insert_txns_query};

verus! {

/// Where a run stands: which piece of outside work it waits for.
#[derive(Debug, Clone, Copy, PartialEq, Eq)]
pub enum RunPhase {
    Start,
    AwaitKnowledge,
    AwaitBudgets,
    AwaitTransactions,
    AwaitSheet,
    AwaitInsert,
    AwaitStore,
    Done,
}

/// The outside work that a run asks for next.
#[derive(Debug)]
pub enum RunAction {
    /// Read the owner's stored server knowledge.
    LoadKnowledge { owner: String },
    /// Send the request that lists the owner's budgets.
    FetchBudgets { request: HttpRequest },
    /// Send the request for the active budget's changed transactions.
    FetchTransactions { request: HttpRequest },
    /// Append `expenses` to the owner's sheet.
    WriteSheet { owner: String, expenses: Vec<TransactionJson> },
    /// Run the statement that inserts the expenses into the expenses table.
    Insert { query: String },
    /// Store `knowledge` as the owner's server knowledge.
    StoreKnowledge { owner: String, knowledge: i64 },
    /// The run is over.
    Finish,
}

/// What the last piece of outside work produced.
#[derive(Debug)]
pub enum RunEvent {
    Begin,
    /// The owner's stored server knowledge, if any.
    KnowledgeLoaded { knowledge: Option<i64> },
    /// The budget listing, or `None` when the request failed.
    BudgetsFetched { listing: Option<BudgetsJson> },
    /// The transactions, or `None` when no request could be made or it failed.
    TransactionsFetched { response: Option<TransactionsJson> },
    SheetWritten,
    Inserted,
    KnowledgeStored,
}

/// A resolution run for one owner.
#[derive(Debug)]
pub struct Run {
    phase: RunPhase,
    owner: String,
    token: String,
    knowledge: i64,
    budget: Option<Budget>,
    pending_insert: Option<String>,
    pending_knowledge: i64,
}

/// A run as values. `pending_insert` and `pending_knowledge` are the insert
/// statement still to run and the knowledge still to store, once the transactions
/// came in.
pub struct RunView {
    pub phase: RunPhase,
    pub owner: Seq<char>,
    pub token: Seq<char>,
    pub knowledge: int,
    pub budget: Option<BudgetView>,
    pub pending_insert: Option<Seq<char>>,
    pub pending_knowledge: int,
}

impl View for Run {
    type V = RunView;

    closed spec fn view(&self) -> RunView {
        RunView {
            phase: self.phase,
            owner: self.owner@,
            token: self.token@,
            knowledge: self.knowledge as int,
            budget: match self.budget {
                Some(b) => Some(b@),
                None => None,
            },
            pending_insert: match self.pending_insert {
                Some(q) => Some(q@),
                None => None,
            },
            pending_knowledge: self.pending_knowledge as int,
        }
    }
}

/// The event is one that the run can take in: the budget listing, when present,
/// is not empty, and every transaction received can be put in normal form.
pub open spec fn event_well_formed(e: RunEvent) -> bool {
    match e {
        RunEvent::BudgetsFetched { listing } => listing matches Some(l) ==> l.data.budgets.len() > 0,
        RunEvent::TransactionsFetched { response } => response matches Some(resp) ==> forall|i: int|
            0 <= i < resp.data.transactions.len() ==> normalisable(#[trigger] resp.data.transactions@[i]),
        _ => true,
    }
}

/// The run is over: it is done and asks for nothing more.
pub open spec fn finished(next: RunView, action: RunAction) -> bool {
    next.phase == RunPhase::Done && action is Finish
}

/// `next` keeps what `v` learned: the knowledge, the budget and what is pending.
pub open spec fn keeps(v: RunView, next: RunView) -> bool {
    &&& next.knowledge == v.knowledge
    &&& next.budget == v.budget
    &&& next.pending_insert == v.pending_insert
    &&& next.pending_knowledge == v.pending_knowledge
}

/// The step relation: from run `v`, event `e` leads to run `next` and asks for `action`.
pub open spec fn step_spec(v: RunView, e: RunEvent, next: RunView, action: RunAction) -> bool {
    &&& next.owner == v.owner
    &&& next.token == v.token
    &&& match (v.phase, e) {
        (RunPhase::Start, RunEvent::Begin) => {
            &&& next.phase == RunPhase::AwaitKnowledge
            &&& keeps(v, next)
            &&& action matches RunAction::LoadKnowledge { owner } && owner@ == v.owner
        },
        (RunPhase::AwaitKnowledge, RunEvent::KnowledgeLoaded { knowledge }) => {
            &&& next.phase == RunPhase::AwaitBudgets
            &&& next.knowledge == match knowledge {
                Some(k) => k as int,
                None => 0,
            }
            &&& next.budget == v.budget
            &&& next.pending_insert == v.pending_insert
            &&& next.pending_knowledge == v.pending_knowledge
            &&& action matches RunAction::FetchBudgets { request } && request@ == service_request(GET_BUDGETS_URI@, v.token)
        },
        (RunPhase::AwaitBudgets, RunEvent::BudgetsFetched { listing }) => {
            let b = budget_from_listing(v.token, listing);
            &&& next.knowledge == v.knowledge
            &&& next.budget == Some(b)
            &&& next.pending_insert == v.pending_insert
            &&& next.pending_knowledge == v.pending_knowledge
            &&& match b.budget_id {
                None => finished(next, action),
                Some(id) => {
                    let q = service_request(transactions_uri(id, v.knowledge), v.token);
                    if headers_valid(q) {
                        &&& next.phase == RunPhase::AwaitTransactions
                        &&& action matches RunAction::FetchTransactions { request } && request@ == q
                    } else {
                        finished(next, action)
                    }
                },
            }
        },
        (RunPhase::AwaitTransactions, RunEvent::TransactionsFetched { response }) => {
            &&& next.knowledge == v.knowledge
            &&& next.budget == v.budget
            &&& match response {
                None => finished(next, action) && next.pending_insert == v.pending_insert
                    && next.pending_knowledge == v.pending_knowledge,
                Some(resp) => {
                    &&& next.phase == RunPhase::AwaitSheet
                    &&& action matches RunAction::WriteSheet { owner, expenses }
                    &&& owner@ == v.owner
                    &&& shared_expenses_of(resp.data.transactions@, expenses@)
                    &&& next.pending_knowledge == resp.data.server_knowledge
                    &&& next.pending_insert == if expenses.len() > 0 {
                        Some(insert_query_text(v.owner, expenses@))
                    } else {
                        None
                    }
                },
            }
        },
        (RunPhase::AwaitSheet, RunEvent::SheetWritten) => {
            &&& keeps(v, next)
            &&& match v.pending_insert {
                None => finished(next, action),
                Some(q) => {
                    &&& next.phase == RunPhase::AwaitInsert
                    &&& action matches RunAction::Insert { query } && query@ == q
                },
            }
        },
        (RunPhase::AwaitInsert, RunEvent::Inserted) => {
            &&& keeps(v, next)
            &&& next.phase == RunPhase::AwaitStore
            &&& action matches RunAction::StoreKnowledge { owner, knowledge }
            &&& owner@ == v.owner
            &&& knowledge == v.pending_knowledge
        },
        (RunPhase::AwaitStore, RunEvent::KnowledgeStored) => {
            &&& keeps(v, next)
            &&& finished(next, action)
        },
        _ => {
            &&& keeps(v, next)
            &&& finished(next, action)
        },
    }
}

/// The order in which a run passes through its phases.
pub open spec fn phase_rank(p: RunPhase) -> int {
    match p {
        RunPhase::Start => 0,
        RunPhase::AwaitKnowledge => 1,
        RunPhase::AwaitBudgets => 2,
        RunPhase::AwaitTransactions => 3,
        RunPhase::AwaitSheet => 4,
        RunPhase::AwaitInsert => 5,
        RunPhase::AwaitStore => 6,
        RunPhase::Done => 7,
    }
}

/// Law: every step of a run that is not over moves it to a later phase, and a run
/// asks to finish exactly when it is done; so a run asks for at most seven pieces
/// of outside work before it finishes.
pub proof fn lemma_step_advances(v: RunView, e: RunEvent, next: RunView, action: RunAction)
    requires
        step_spec(v, e, next, action),
    ensures
        phase_rank(next.phase) > phase_rank(v.phase) || (v.phase == RunPhase::Done && next.phase == RunPhase::Done),
        action is Finish <==> next.phase == RunPhase::Done,
{
}

/// Law: the transactions are requested with the stored server knowledge, or with 0
/// when none is stored, so that earlier results are not fetched again.
pub proof fn lemma_transactions_request_uses_stored_knowledge(
    v0: RunView,
    stored: Option<i64>,
    v1: RunView,
    a1: RunAction,
    listing: Option<BudgetsJson>,
    v2: RunView,
    a2: RunAction,
)
    requires
        v0.phase == RunPhase::AwaitKnowledge,
        step_spec(v0, RunEvent::KnowledgeLoaded { knowledge: stored }, v1, a1),
        step_spec(v1, RunEvent::BudgetsFetched { listing }, v2, a2),
        a2 is FetchTransactions,
    ensures
        a2 matches RunAction::FetchTransactions { request } && request@.uri == transactions_uri(
            budget_from_listing(v0.token, listing).budget_id->0,
            match stored {
                Some(k) => k as int,
                None => 0,
            },
        ),
{
}

/// Law: rows are inserted only right after the sheet was written, and knowledge is
/// stored only right after the rows were inserted.
pub proof fn lemma_record_order(v: RunView, e: RunEvent, next: RunView, action: RunAction)
    requires
        step_spec(v, e, next, action),
    ensures
        action is Insert ==> v.phase == RunPhase::AwaitSheet && e is SheetWritten,
        action is StoreKnowledge ==> v.phase == RunPhase::AwaitInsert && e is Inserted,
        action is WriteSheet ==> v.phase == RunPhase::AwaitTransactions && e is TransactionsFetched,
{
}

/// Law: once the transactions came in, the run writes the sheet with the shared
/// expenses; then, when there is at least one, it inserts exactly those expenses,
/// and then stores the knowledge that came with the transactions; when there is
/// none, it writes nothing more and stores no knowledge.
pub proof fn lemma_record_sequence(
    v0: RunView,
    resp: TransactionsJson,
    v1: RunView,
    a1: RunAction,
    v2: RunView,
    a2: RunAction,
    v3: RunView,
    a3: RunAction,
)
    requires
        v0.phase == RunPhase::AwaitTransactions,
        step_spec(v0, RunEvent::TransactionsFetched { response: Some(resp) }, v1, a1),
        step_spec(v1, RunEvent::SheetWritten, v2, a2),
        step_spec(v2, RunEvent::Inserted, v3, a3),
    ensures
        a1 matches RunAction::WriteSheet { owner, expenses } && {
            &&& owner@ == v0.owner
            &&& shared_expenses_of(resp.data.transactions@, expenses@)
            &&& if expenses.len() > 0 {
                &&& a2 matches RunAction::Insert { query } && query@ == insert_query_text(v0.owner, expenses@)
                &&& a3 matches RunAction::StoreKnowledge { owner, knowledge } && owner@ == v0.owner
                    && knowledge == resp.data.server_knowledge
            } else {
                finished(v2, a2)
            }
        },
{
}

impl Run {
    /// A run for `owner`, whose budgets the personal access token `pat` opens.
    pub fn new(owner: String, pat: String) -> (r: Run)
        ensures
            r@.phase == RunPhase::Start,
            r@.owner == owner@,
            r@.token == pat@,
            r@.knowledge == 0,
            r@.budget is None,
            r@.pending_insert is None,
            r@.pending_knowledge == 0,
    {
        Run {
            phase: RunPhase::Start,
            owner,
            token: pat,
            knowledge: 0,
            budget: None,
            pending_insert: None,
            pending_knowledge: 0,
        }
    }

    /// Where the run stands.
    pub fn phase(&self) -> (p: RunPhase)
        ensures
            p == self@.phase,
    {
        self.phase
    }

    /// The budget that the run works on, once the budget listing was taken in.
    pub fn budget(&self) -> (b: Option<&Budget>)
        ensures
            match self@.budget {
                None => b is None,
                Some(v) => b matches Some(x) && x@ == v,
            },
    {
        match &self.budget {
            Some(b) => Some(b),
            None => None,
        }
    }

    /// The next step of the run (see `step_spec`); an event that the run does not wait
    /// for ends it.
    pub fn step(self, event: RunEvent) -> (r: (Run, RunAction))
        requires
            event_well_formed(event),
        ensures
            step_spec(self@, event, r.0@, r.1),
    {
        let Run { phase, owner, token, knowledge, budget, pending_insert, pending_knowledge } = self;
        match (phase, event) {
            (RunPhase::Start, RunEvent::Begin) => {
                let action = RunAction::LoadKnowledge { owner: owner.clone() };
                (
                    Run { phase: RunPhase::AwaitKnowledge, owner, token, knowledge, budget, pending_insert, pending_knowledge },
                    action,
                )
            },
            (RunPhase::AwaitKnowledge, RunEvent::KnowledgeLoaded { knowledge: stored }) => {
                let k = match stored {
                    Some(k) => k,
                    None => 0,
                };
                let request = Budget::with_token(token.clone()).get_id();
                (
                    Run { phase: RunPhase::AwaitBudgets, owner, token, knowledge: k, budget, pending_insert, pending_knowledge },
                    RunAction::FetchBudgets { request },
                )
            },
            (RunPhase::AwaitBudgets, RunEvent::BudgetsFetched { listing }) => {
                let resolved = Budget::new(token.clone(), listing);
                match resolved {
                    Some(b) => {
                        let request = b.get_txn_uri(knowledge);
                        match request {
                            Some(request) => (
                                Run {
                                    phase: RunPhase::AwaitTransactions,
                                    owner,
                                    token,
                                    knowledge,
                                    budget: Some(b),
                                    pending_insert,
                                    pending_knowledge,
                                },
                                RunAction::FetchTransactions { request },
                            ),
                            None => (
                                Run {
                                    phase: RunPhase::Done,
                                    owner,
                                    token,
                                    knowledge,
                                    budget: Some(b),
                                    pending_insert,
                                    pending_knowledge,
                                },
                                RunAction::Finish,
                            ),
                        }
                    },
                    None => (
                        Run { phase: RunPhase::Done, owner, token, knowledge, budget, pending_insert, pending_knowledge },
                        RunAction::Finish,
                    ),
                }
            },
            (RunPhase::AwaitTransactions, RunEvent::TransactionsFetched { response }) => {
                let kept = match &budget {
                    Some(b) => b.get_transactions(response),
                    None => Budget::with_token(token.clone()).get_transactions(response),
                };
                match kept {
                    Some((expenses, latest)) => {
                        let insert = if expenses.len() > 0 {
                            Some(insert_txns_query(owner.as_str(), &expenses))
                        } else {
                            None
                        };
                        let action = RunAction::WriteSheet { owner: owner.clone(), expenses };
                        (
                            Run {
                                phase: RunPhase::AwaitSheet,
                                owner,
                                token,
                                knowledge,
                                budget,
                                pending_insert: insert,
                                pending_knowledge: latest,
                            },
                            action,
                        )
                    },
                    None => (
                        Run { phase: RunPhase::Done, owner, token, knowledge, budget, pending_insert, pending_knowledge },
                        RunAction::Finish,
                    ),
                }
            },
            (RunPhase::AwaitSheet, RunEvent::SheetWritten) => {
                match &pending_insert {
                    Some(q) => {
                        let action = RunAction::Insert { query: q.clone() };
                        (
                            Run { phase: RunPhase::AwaitInsert, owner, token, knowledge, budget, pending_insert, pending_knowledge },
                            action,
                        )
                    },
                    None => (
                        Run { phase: RunPhase::Done, owner, token, knowledge, budget, pending_insert, pending_knowledge },
                        RunAction::Finish,
                    ),
                }
            },
            (RunPhase::AwaitInsert, RunEvent::Inserted) => {
                let action = RunAction::StoreKnowledge { owner: owner.clone(), knowledge: pending_knowledge };
                (
                    Run { phase: RunPhase::AwaitStore, owner, token, knowledge, budget, pending_insert, pending_knowledge },
                    action,
                )
            },
            (RunPhase::AwaitStore, RunEvent::KnowledgeStored) => (
                Run { phase: RunPhase::Done, owner, token, knowledge, budget, pending_insert, pending_knowledge },
                RunAction::Finish,
            ),
            _ => (
                Run { phase: RunPhase::Done, owner, token, knowledge, budget, pending_insert, pending_knowledge },
                RunAction::Finish,
            ),
        }
    }
}

} // verus!
