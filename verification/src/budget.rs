//! The budget whose transactions are resolved: choosing it among an account's
//! budgets, the requests made on its behalf, and the selection of its shared
//! expenses.

use vstd::prelude::*;
use vstd::string::*;

use crate::expenses::{normalisable, shared_expenses, shared_expenses_of};
use crate::json::{BudgetJson, BudgetsJson, TransactionJson, TransactionsJson};
use crate::request::{header_byte_valid, header_value_valid, lemma_printable_ascii_header_value, headers_valid, headers_valid_test, HttpRequest, HttpRequestView};
use crate::text::{lemma_encode_utf8_concat, lemma_text_le_first_difference, int_text, render_int, text_le, text_le_exec, lemma_bytes_le_reflexive, lemma_bytes_le_total, lemma_bytes_le_transitive};
use vstd::utf8::encode_utf8;

verus! {

/// The service address that lists an account's budgets.
pub const GET_BUDGETS_URI: &'static str = "https://api.youneedabudget.com/v1/budgets?include_accounts=false";

/// A budget of the account that a personal access token opens.
#[derive(Debug)]
pub struct Budget {
    token: String,
    budget_id: Option<String>,
    name: Option<String>,
    last_modified_on: Option<String>,
    last_month: Option<String>,
    first_month: Option<String>,
}

/// A budget as text.
pub struct BudgetView {
    pub token: Seq<char>,
    pub budget_id: Option<Seq<char>>,
    pub name: Option<Seq<char>>,
    pub last_modified_on: Option<Seq<char>>,
    pub first_month: Option<Seq<char>>,
    pub last_month: Option<Seq<char>>,
}

pub open spec fn opt_text(s: Option<String>) -> Option<Seq<char>> {
    match s {
        Some(t) => Some(t@),
        None => None,
    }
}

impl View for Budget {
    type V = BudgetView;

    closed spec fn view(&self) -> BudgetView {
        BudgetView {
            token: self.token@,
            budget_id: opt_text(self.budget_id),
            name: opt_text(self.name),
            last_modified_on: opt_text(self.last_modified_on),
            first_month: opt_text(self.first_month),
            last_month: opt_text(self.last_month),
        }
    }
}

/// `budgets[r]` is the first of the most recently modified budgets: no budget's
/// modification time (its `last_modified_on` text, in `String`'s order) comes later,
/// and every budget before it has an earlier one.
pub open spec fn is_first_most_recent(budgets: Seq<BudgetJson>, r: int) -> bool {
    &&& 0 <= r < budgets.len()
    &&& forall|j: int| 0 <= j < budgets.len() ==> text_le(#[trigger] budgets[j].last_modified_on@, budgets[r].last_modified_on@)
    &&& forall|j: int| 0 <= j < r ==> !text_le(budgets[r].last_modified_on@, #[trigger] budgets[j].last_modified_on@)
}

/// Law: at most one budget is the first of the most recently modified, so the
/// active budget is determined by the listing.
pub proof fn lemma_first_most_recent_unique(budgets: Seq<BudgetJson>, r1: int, r2: int)
    requires
        is_first_most_recent(budgets, r1),
        is_first_most_recent(budgets, r2),
    ensures
        r1 == r2,
{
    if r1 < r2 {
        assert(text_le(budgets[r2].last_modified_on@, budgets[r1].last_modified_on@));
    } else if r2 < r1 {
        assert(text_le(budgets[r1].last_modified_on@, budgets[r2].last_modified_on@));
    }
}

/// Law: the active budget's modification time is the latest by bytes compared as
/// numbers: wherever its UTF-8 text first differs from another budget's, its byte
/// is the larger; and no budget before it has the same modification time.
pub proof fn lemma_active_budget_is_latest(budgets: Seq<BudgetJson>, r: int, j: int, i: int)
    requires
        is_first_most_recent(budgets, r),
        0 <= j < budgets.len(),
        0 <= i < encode_utf8(budgets[j].last_modified_on@).len(),
        i < encode_utf8(budgets[r].last_modified_on@).len(),
        forall|k: int| 0 <= k < i ==> encode_utf8(budgets[j].last_modified_on@)[k] == encode_utf8(budgets[r].last_modified_on@)[k],
        encode_utf8(budgets[j].last_modified_on@)[i] != encode_utf8(budgets[r].last_modified_on@)[i],
    ensures
        (encode_utf8(budgets[j].last_modified_on@)[i] as int) < (encode_utf8(budgets[r].last_modified_on@)[i] as int),
{
    assert(text_le(budgets[j].last_modified_on@, budgets[r].last_modified_on@));
    lemma_text_le_first_difference(budgets[j].last_modified_on@, budgets[r].last_modified_on@, i);
}

/// Law: no budget listed before the active one has the same modification time.
pub proof fn lemma_earlier_budgets_differ(budgets: Seq<BudgetJson>, r: int, j: int)
    requires
        is_first_most_recent(budgets, r),
        0 <= j < r,
    ensures
        budgets[j].last_modified_on@ != budgets[r].last_modified_on@,
{
    lemma_bytes_le_reflexive(encode_utf8(budgets[r].last_modified_on@));
    assert(!text_le(budgets[r].last_modified_on@, budgets[j].last_modified_on@));
}

/// The budget that the resolver works on: the first of the most recently modified
/// budgets, which is what a stable sort by modification time, latest first, puts first.
pub open spec fn active_budget_index(budgets: Seq<BudgetJson>) -> int {
    choose|r: int| is_first_most_recent(budgets, r)
}

/// The index of the active budget (see `active_budget_index`).
pub fn select_active_budget(budgets: &Vec<BudgetJson>) -> (r: usize)
    requires
        budgets.len() > 0,
    ensures
        is_first_most_recent(budgets@, r as int),
        r == active_budget_index(budgets@),
{
    let mut best: usize = 0;
    proof {
        lemma_bytes_le_reflexive(encode_utf8(budgets@[0].last_modified_on@));
    }
    for i in 1..budgets.len()
        invariant
            best < i <= budgets.len(),
            forall|j: int| 0 <= j < i ==> text_le(#[trigger] budgets@[j].last_modified_on@, budgets@[best as int].last_modified_on@),
            forall|j: int| 0 <= j < best ==> !text_le(budgets@[best as int].last_modified_on@, #[trigger] budgets@[j].last_modified_on@),
    {
        if !text_le_exec(budgets[i].last_modified_on.as_str(), budgets[best].last_modified_on.as_str()) {
            proof {
                let kb = budgets@[best as int].last_modified_on@;
                let ki = budgets@[i as int].last_modified_on@;
                lemma_bytes_le_total(encode_utf8(ki), encode_utf8(kb));
                assert forall|j: int| 0 <= j < i + 1 implies text_le(#[trigger] budgets@[j].last_modified_on@, ki) by {
                    if j < i {
                        lemma_bytes_le_transitive(encode_utf8(budgets@[j].last_modified_on@), encode_utf8(kb), encode_utf8(ki));
                    } else {
                        lemma_bytes_le_reflexive(encode_utf8(ki));
                    }
                }
                assert forall|j: int| 0 <= j < i implies !text_le(ki, #[trigger] budgets@[j].last_modified_on@) by {
                    if text_le(ki, budgets@[j].last_modified_on@) {
                        lemma_bytes_le_transitive(encode_utf8(ki), encode_utf8(budgets@[j].last_modified_on@), encode_utf8(kb));
                    }
                }
            }
            best = i;
        }
    }
    proof {
        assert(is_first_most_recent(budgets@, best as int));
        lemma_first_most_recent_unique(budgets@, best as int, active_budget_index(budgets@));
    }
    best
}

/// A budget known only by the token that opens it.
pub open spec fn unresolved_budget(token: Seq<char>) -> BudgetView {
    BudgetView {
        token,
        budget_id: None,
        name: None,
        last_modified_on: None,
        first_month: None,
        last_month: None,
    }
}

/// The budget described by `b`, opened by `token`.
pub open spec fn resolved_budget(token: Seq<char>, b: BudgetJson) -> BudgetView {
    BudgetView {
        token,
        budget_id: Some(b.id@),
        name: Some(b.name@),
        last_modified_on: Some(b.last_modified_on@),
        first_month: Some(b.first_month@),
        last_month: Some(b.last_month@),
    }
}

/// The budget that the answer to the budget listing (or its absence, when the
/// request failed) gives for `token`: the active budget of the listing.
pub open spec fn budget_from_listing(token: Seq<char>, listing: Option<BudgetsJson>) -> BudgetView {
    match listing {
        None => unresolved_budget(token),
        Some(l) => resolved_budget(token, l.data.budgets@[active_budget_index(l.data.budgets@)]),
    }
}

/// The request of `uri` from the service, authorised by `token`.
pub open spec fn service_request(uri: Seq<char>, token: Seq<char>) -> HttpRequestView {
    HttpRequestView {
        method: "GET"@,
        uri,
        headers: seq![("content-type"@, "application/json"@), ("Authorization"@, "Bearer "@ + token)],
    }
}

/// The address of the transactions of budget `id` that changed after the service's
/// knowledge counter stood at `knowledge`.
pub open spec fn transactions_uri(id: Seq<char>, knowledge: int) -> Seq<char> {
    "https://api.youneedabudget.com/v1/budgets/"@ + id + "/transactions?last_knowledge_of_server="@
        + int_text(knowledge)
}

impl Budget {
    /// The budget opened by `token`, before the service was asked which it is.
    pub fn with_token(token: String) -> (b: Budget)
        ensures
            b@ == unresolved_budget(token@),
    {
        Budget {
            token,
            budget_id: None,
            name: None,
            last_modified_on: None,
            first_month: None,
            last_month: None,
        }
    }

    /// The budget of `token`, given the service's answer to the budget listing
    /// (`None` when that request failed, which leaves the budget unresolved).
    pub fn new(token: String, listing: Option<BudgetsJson>) -> (r: Option<Budget>)
        requires
            listing matches Some(l) ==> l.data.budgets.len() > 0,
        ensures
            r matches Some(b) && b@ == budget_from_listing(token@, listing),
    {
        let mut budget = Budget::with_token(token);
        match listing {
            Some(l) => {
                let mut budgets = l.data.budgets;
                let i = select_active_budget(&budgets);
                let ghost listed = budgets@;
                let active = budgets.swap_remove(i);
                assert(active == listed[i as int]);
                budget.budget_id = Some(active.id);
                budget.name = Some(active.name);
                budget.last_modified_on = Some(active.last_modified_on);
                budget.first_month = Some(active.first_month);
                budget.last_month = Some(active.last_month);
            },
            None => {},
        }
        Some(budget)
    }

    /// A request of `uri` from the service, authorised by this budget's token.
    pub fn build_req(&self, uri: String) -> (r: HttpRequest)
        ensures
            r@ == service_request(uri@, self@.token),
    {
        let mut authorization = String::from_str("Bearer ");
        authorization.append(self.token.as_str());
        let mut headers: Vec<(String, String)> = Vec::new();
        headers.push((String::from_str("content-type"), String::from_str("application/json")));
        headers.push((String::from_str("Authorization"), authorization));
        let r = HttpRequest { method: String::from_str("GET"), uri, headers };
        assert(r@.headers =~= service_request(uri@, self@.token).headers);
        r
    }

    /// The request listing the budgets of this budget's account.
    pub fn get_id(&self) -> (r: HttpRequest)
        ensures
            r@ == service_request(GET_BUDGETS_URI@, self@.token),
    {
        self.build_req(String::from_str(GET_BUDGETS_URI))
    }

    /// The request of the transactions that changed after `server_knowledge`; `None`
    /// while the budget is unresolved, or when a header value (the token) holds a byte
    /// that the http crate refuses in a header, so that no request can be built.
    pub fn get_txn_uri(&self, server_knowledge: i64) -> (r: Option<HttpRequest>)
        ensures
            match self@.budget_id {
                None => r is None,
                Some(id) => {
                    let q = service_request(transactions_uri(id, server_knowledge as int), self@.token);
                    if headers_valid(q) {
                        r matches Some(req) && req@ == q
                    } else {
                        r is None
                    }
                },
            },
    {
        match &self.budget_id {
            Some(id) => {
                let mut uri = String::from_str("https://api.youneedabudget.com/v1/budgets/");
                uri.append(id.as_str());
                uri.append("/transactions?last_knowledge_of_server=");
                let k = render_int(server_knowledge);
                uri.append(k.as_str());
                let req = self.build_req(uri);
                if headers_valid_test(&req) {
                    Some(req)
                } else {
                    None
                }
            },
            None => None,
        }
    }

    /// What the resolver keeps of the answer to the transactions request (`None` when
    /// no request was made or it failed): the shared expenses in normal form, in
    /// their order, with the service's knowledge counter.
    pub fn get_transactions(&self, response: Option<TransactionsJson>) -> (r: Option<(Vec<TransactionJson>, i64)>)
        requires
            response matches Some(resp) ==> forall|i: int|
                0 <= i < resp.data.transactions.len() ==> normalisable(#[trigger] resp.data.transactions@[i]),
        ensures
            match response {
                None => r is None,
                Some(resp) => r matches Some(kept) && kept.1 == resp.data.server_knowledge
                    && shared_expenses_of(resp.data.transactions@, kept.0@),
            },
    {
        match response {
            Some(resp) => {
                let knowledge = resp.data.server_knowledge;
                let expenses = shared_expenses(resp.data.transactions);
                Some((expenses, knowledge))
            },
            None => None,
        }
    }
}

fn copy_text(s: &Option<String>) -> (r: Option<String>)
    ensures
        opt_text(r) == opt_text(*s),
{
    match s {
        Some(t) => Some(t.clone()),
        None => None,
    }
}

impl Budget {
    /// The budget's identifier, once resolved.
    pub fn budget_id(&self) -> (r: Option<String>)
        ensures
            opt_text(r) == self@.budget_id,
    {
        copy_text(&self.budget_id)
    }

    /// The budget's name, once resolved.
    pub fn name(&self) -> (r: Option<String>)
        ensures
            opt_text(r) == self@.name,
    {
        copy_text(&self.name)
    }

    /// When the budget was last modified, once resolved.
    pub fn last_modified_on(&self) -> (r: Option<String>)
        ensures
            opt_text(r) == self@.last_modified_on,
    {
        copy_text(&self.last_modified_on)
    }

    /// The budget's first month, once resolved.
    pub fn first_month(&self) -> (r: Option<String>)
        ensures
            opt_text(r) == self@.first_month,
    {
        copy_text(&self.first_month)
    }

    /// The budget's last month, once resolved.
    pub fn last_month(&self) -> (r: Option<String>)
        ensures
            opt_text(r) == self@.last_month,
    {
        copy_text(&self.last_month)
    }
}

/// Law: with a token of printable ASCII characters (every personal access token is
/// letters and digits), the transactions request of a resolved budget can be built,
/// whatever the budget id and knowledge: `get_txn_uri` then gives `Some`.
pub proof fn lemma_printable_token_builds_request(id: Seq<char>, knowledge: int, token: Seq<char>)
    requires
        forall|i: int| 0 <= i < token.len() ==> ' ' <= #[trigger] token[i] <= '~',
    ensures
        headers_valid(service_request(transactions_uri(id, knowledge), token)),
{
    reveal_strlit("application/json");
    reveal_strlit("Bearer ");
    let q = service_request(transactions_uri(id, knowledge), token);
    let json = "application/json"@;
    let auth = "Bearer "@ + token;
    assert forall|i: int| 0 <= i < json.len() implies ' ' <= #[trigger] json[i] <= '~' by {}
    assert forall|i: int| 0 <= i < auth.len() implies ' ' <= #[trigger] auth[i] <= '~' by {
        if i >= 7 {
            assert(auth[i] == token[i - 7]);
        }
    }
    lemma_printable_ascii_header_value(json);
    lemma_printable_ascii_header_value(auth);
    assert(q.headers[0].1 == json);
    assert(q.headers[1].1 == auth);
}

/// Law: the transactions request of a resolved budget can be built exactly when
/// every byte of the token's UTF-8 encoding is a tab or a byte of 32 or more other
/// than 127, whatever the budget id and knowledge.
pub proof fn lemma_request_buildable_iff_token_bytes(id: Seq<char>, knowledge: int, token: Seq<char>)
    ensures
        headers_valid(service_request(transactions_uri(id, knowledge), token)) <==> forall|i: int|
            0 <= i < encode_utf8(token).len() ==> {
                let b = #[trigger] encode_utf8(token)[i];
                b == 9 || (32 <= b && b != 127)
            },
{
    reveal_strlit("application/json");
    reveal_strlit("Bearer ");
    let q = service_request(transactions_uri(id, knowledge), token);
    let json = "application/json"@;
    let bearer = "Bearer "@;
    let auth = bearer + token;
    assert forall|i: int| 0 <= i < json.len() implies ' ' <= #[trigger] json[i] <= '~' by {}
    assert forall|i: int| 0 <= i < bearer.len() implies ' ' <= #[trigger] bearer[i] <= '~' by {}
    lemma_printable_ascii_header_value(json);
    lemma_printable_ascii_header_value(bearer);
    lemma_encode_utf8_concat(bearer, token);
    let eb = encode_utf8(bearer);
    let et = encode_utf8(token);
    let ea = encode_utf8(auth);
    assert(ea == eb + et);
    assert(q.headers[0].1 == json);
    assert(q.headers[1].1 == auth);
    if forall|i: int| 0 <= i < et.len() ==> {
        let b = #[trigger] et[i];
        b == 9 || (32 <= b && b != 127)
    } {
        assert forall|i: int| 0 <= i < ea.len() implies header_byte_valid(#[trigger] ea[i]) by {
            if i < eb.len() {
                assert(ea[i] == eb[i]);
            } else {
                assert(ea[i] == et[i - eb.len()]);
            }
        }
        assert(header_value_valid(auth));
        assert forall|i: int| 0 <= i < q.headers.len() implies header_value_valid(#[trigger] q.headers[i].1) by {}
    }
    if headers_valid(q) {
        assert(header_value_valid(q.headers[1].1));
        assert forall|i: int| 0 <= i < et.len() implies {
            let b = #[trigger] et[i];
            b == 9 || (32 <= b && b != 127)
        } by {
            assert(ea[i + eb.len()] == et[i]);
            assert(header_byte_valid(ea[i + eb.len()]));
        }
    }
}

} // verus!
