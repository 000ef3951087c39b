//! Publishing under an idempotency key happens once.
use crate::idempotency::key::is_valid_key;
use crate::idempotency::key::key_check;
use crate::idempotency::persistence::claim_row;
use crate::idempotency::persistence::committed;
use crate::idempotency::persistence::has_record;
use crate::idempotency::persistence::lemma_commit_keeps_schema;
use crate::idempotency::persistence::lemma_record_index_is_unique;
use crate::idempotency::persistence::record_index;
use crate::idempotency::persistence::replayed;
use crate::idempotency::persistence::rolled_back;
use crate::idempotency::persistence::saved_response;
use crate::idempotency::persistence::with_idempotency;
use crate::idempotency::persistence::IdempotencyError;
use crate::idempotency::persistence::PendingWrites;
use crate::idempotency::response::is_valid_response;
use crate::idempotency::response::lemma_saved_response_round_trip;
use crate::idempotency::response::Response;
use crate::newsletter::issue_row;
use crate::newsletter::lemma_tasks_for_confirmed;
use crate::newsletter::published;
use crate::newsletter::tasks_for_confirmed;
use crate::newsletter::Form;
use crate::newsletter::NewsletterError;
use crate::store::has_issue;
use crate::store::record_matches;
use crate::store::Tables;
use vstd::prelude::*;

verus! {

/// Whether the operation under `key` is completed in `tables`, with
/// `response` as its saved answer.
pub open spec fn answered_with(tables: Tables, user_id: u128, key: Seq<char>, response: Response)
    -> bool {
    has_record(tables.idempotency, user_id, key) && replayed(tables.idempotency, user_id, key)
        == Ok::<Response, IdempotencyError>(response)
}

/// Handling a form keeps the schema of the store.
pub proof fn lemma_published_keeps_schema(
    tables: Tables,
    user_id: u128,
    form: Form,
    issue_id: u128,
    response: Response,
    now: u64,
)
    requires
        tables.wf(),
    ensures
        published(tables, user_id, form, issue_id, response, now).0.wf(),
{
    let key = form.idempotency_key;
    let after = published(tables, user_id, form, issue_id, response, now).0;
    if key_check(key) is Ok && !has_record(tables.idempotency, user_id, key) && !has_issue(
        tables.newsletter_issues,
        issue_id,
    ) {
        let rows = tables.idempotency;
        let claimed = with_idempotency(tables, rows.push(claim_row(user_id, key, now)));
        let pending = PendingWrites {
            user_id,
            idempotency_key: key,
            issues: seq![issue_row(issue_id, form.title, form.text, form.html, now)],
            tasks: tasks_for_confirmed(tables.subscriptions, issue_id, now),
        };
        lemma_record_index_is_unique(claimed.idempotency, user_id, key, rows.len() as int);
        lemma_tasks_for_confirmed(tables.subscriptions, issue_id, now);
        assert(pending.issues[0].newsletter_issue_id == issue_id);
        lemma_commit_keeps_schema(claimed, pending, response);
        let done = committed(claimed, pending, response);
        assert(done.newsletter_issues =~= after.newsletter_issues);
    }
}

/// A form that was answered well leaves its answer behind: the operation
/// under its key is completed, with that answer saved.
pub proof fn lemma_answer_is_saved(
    tables: Tables,
    user_id: u128,
    form: Form,
    issue_id: u128,
    response: Response,
    now: u64,
)
    requires
        tables.wf(),
        is_valid_response(response),
        published(tables, user_id, form, issue_id, response, now).1 is Ok,
    ensures
        answered_with(
            published(tables, user_id, form, issue_id, response, now).0,
            user_id,
            form.idempotency_key,
            published(tables, user_id, form, issue_id, response, now).1->Ok_0,
        ),
{
    let key = form.idempotency_key;
    let after = published(tables, user_id, form, issue_id, response, now).0;
    if !has_record(tables.idempotency, user_id, key) {
        let rows = tables.idempotency;
        lemma_record_index_is_unique(after.idempotency, user_id, key, rows.len() as int);
        lemma_saved_response_round_trip(response);
    }
}

/// Once the operation under a key is completed, every form under that key
/// gets the saved answer, whatever else the form holds, and writes nothing.
pub proof fn lemma_completed_key_replays(
    tables: Tables,
    user_id: u128,
    saved: Response,
    form: Form,
    issue_id: u128,
    response: Response,
    now: u64,
)
    requires
        is_valid_key(form.idempotency_key),
        answered_with(tables, user_id, form.idempotency_key, saved),
    ensures
        published(tables, user_id, form, issue_id, response, now) == (
            tables,
            Ok::<Response, NewsletterError>(saved),
        ),
{
}

/// What was answered stays answered. Whatever form is handled next, of
/// whatever user and under whatever key, an operation that is completed
/// stays completed with the answer that was saved for it: no operation of
/// the library removes or changes a saved answer.
pub proof fn lemma_saved_answer_stays(
    tables: Tables,
    user_id: u128,
    key: Seq<char>,
    saved: Response,
    next_user_id: u128,
    next: Form,
    issue_id: u128,
    response: Response,
    now: u64,
)
    requires
        tables.wf(),
        answered_with(tables, user_id, key, saved),
    ensures
        answered_with(
            published(tables, next_user_id, next, issue_id, response, now).0,
            user_id,
            key,
            saved,
        ),
{
    let after = published(tables, next_user_id, next, issue_id, response, now).0;
    if after != tables {
        let rows = tables.idempotency;
        let i = record_index(rows, user_id, key);
        lemma_record_index_is_unique(after.idempotency, user_id, key, i);
    }
}

/// A form that is refused leaves the store as it was.
pub proof fn lemma_failure_writes_nothing(
    tables: Tables,
    user_id: u128,
    form: Form,
    issue_id: u128,
    response: Response,
    now: u64,
)
    requires
        published(tables, user_id, form, issue_id, response, now).1 is Err,
    ensures
        published(tables, user_id, form, issue_id, response, now).0 == tables,
{
}

/// Publishing is idempotent. When a form was answered well, a second form of
/// the same user under the same key gets the same answer (status code,
/// headers and body), even if its title and contents differ, and leaves the
/// store as the first left it: no second issue, no second batch of tasks.
pub proof fn lemma_publish_is_idempotent(
    tables: Tables,
    user_id: u128,
    first: Form,
    first_issue_id: u128,
    first_response: Response,
    first_now: u64,
    second: Form,
    second_issue_id: u128,
    second_response: Response,
    second_now: u64,
)
    requires
        tables.wf(),
        is_valid_response(first_response),
        second.idempotency_key == first.idempotency_key,
        published(tables, user_id, first, first_issue_id, first_response, first_now).1 is Ok,
    ensures
        ({
            let (after_first, first_answer) = published(
                tables,
                user_id,
                first,
                first_issue_id,
                first_response,
                first_now,
            );
            published(
                after_first,
                user_id,
                second,
                second_issue_id,
                second_response,
                second_now,
            ) == (after_first, first_answer)
        }),
{
    let (after_first, first_answer) = published(
        tables,
        user_id,
        first,
        first_issue_id,
        first_response,
        first_now,
    );
    lemma_answer_is_saved(tables, user_id, first, first_issue_id, first_response, first_now);
}

/// One form as it comes in: what it holds, the identifier at hand for its
/// issue, the answer it would get as a first attempt, and when it comes.
pub struct Submission {
    pub form: Form,
    pub issue_id: u128,
    pub response: Response,
    pub now: u64,
}

/// The store after the first `n` of `submissions` were handled, one after
/// the other.
pub open spec fn store_after(
    tables: Tables,
    user_id: u128,
    submissions: Seq<Submission>,
    n: nat,
) -> Tables
    decreases n,
{
    if n == 0 {
        tables
    } else {
        let s = submissions[n - 1];
        published(
            store_after(tables, user_id, submissions, (n - 1) as nat),
            user_id,
            s.form,
            s.issue_id,
            s.response,
            s.now,
        ).0
    }
}

/// What the submission at place `n` is answered, the ones before it having
/// been handled.
pub open spec fn answer_at(tables: Tables, user_id: u128, submissions: Seq<Submission>, n: nat)
    -> Result<Response, NewsletterError> {
    let s = submissions[n as int];
    published(
        store_after(tables, user_id, submissions, n),
        user_id,
        s.form,
        s.issue_id,
        s.response,
        s.now,
    ).1
}

/// Whether every one of `submissions` comes under `key` and brings a valid
/// answer.
pub open spec fn all_under_key(submissions: Seq<Submission>, key: Seq<char>) -> bool {
    forall|i: int|
        0 <= i < submissions.len() ==> (#[trigger] submissions[i]).form.idempotency_key == key
            && is_valid_response(submissions[i].response)
}

/// Handling submissions keeps the schema of the store.
pub proof fn lemma_store_after_keeps_schema(
    tables: Tables,
    user_id: u128,
    submissions: Seq<Submission>,
    n: nat,
)
    requires
        tables.wf(),
    ensures
        store_after(tables, user_id, submissions, n).wf(),
    decreases n,
{
    if n > 0 {
        lemma_store_after_keeps_schema(tables, user_id, submissions, (n - 1) as nat);
        let s = submissions[n - 1];
        lemma_published_keeps_schema(
            store_after(tables, user_id, submissions, (n - 1) as nat),
            user_id,
            s.form,
            s.issue_id,
            s.response,
            s.now,
        );
    }
}

/// Duplicate submissions converge. Of any number of submissions of one user
/// under one key, handled one after the other in any order, the first that
/// is answered well decides: every later one gets that same answer and
/// leaves the store as it found it. So at most one of them publishes, and
/// one that is refused writes nothing.
pub proof fn lemma_duplicates_converge(
    tables: Tables,
    user_id: u128,
    key: Seq<char>,
    submissions: Seq<Submission>,
    i: nat,
    j: nat,
)
    requires
        tables.wf(),
        all_under_key(submissions, key),
        i < j < submissions.len(),
        answer_at(tables, user_id, submissions, i) is Ok,
    ensures
        answer_at(tables, user_id, submissions, j) == answer_at(tables, user_id, submissions, i),
        store_after(tables, user_id, submissions, j + 1) == store_after(
            tables,
            user_id,
            submissions,
            i + 1,
        ),
        answered_with(
            store_after(tables, user_id, submissions, j + 1),
            user_id,
            key,
            answer_at(tables, user_id, submissions, i)->Ok_0,
        ),
    decreases j - i,
{
    let first = submissions[i as int];
    let before_first = store_after(tables, user_id, submissions, i);
    lemma_store_after_keeps_schema(tables, user_id, submissions, i);
    lemma_answer_is_saved(
        before_first,
        user_id,
        first.form,
        first.issue_id,
        first.response,
        first.now,
    );
    if j > i + 1 {
        lemma_duplicates_converge(tables, user_id, key, submissions, i, (j - 1) as nat);
    }
}

/// One step of one request among those that come under one key of one
/// user, in the order in which the store lets them happen. Requests may
/// come at any time and in any number; the store makes a request that asks
/// under a key wait while the claim of another is open, so such a request
/// takes its step only when that claim is committed or given up.
pub enum RequestStep {
    /// A request asks to process under the key, at `now`.
    Ask { now: u64 },
    /// The request that holds the claim saves `response` and commits what
    /// it wrote.
    Commit { pending: PendingWrites, response: Response },
    /// The request that holds the claim gives up and rolls back.
    GiveUp { pending: PendingWrites },
}

/// What a request that asks to process is told.
pub enum Told {
    /// The key was free: the request holds the claim now and does the work.
    Start,
    /// The operation is completed: this is its answer.
    Replay(Response),
    /// The key is claimed and cannot be answered.
    Refuse(IdempotencyError),
}

/// What a request that asks to process under `key` is told on `tables`.
pub open spec fn told(tables: Tables, user_id: u128, key: Seq<char>) -> Told {
    if !has_record(tables.idempotency, user_id, key) {
        Told::Start
    } else {
        match replayed(tables.idempotency, user_id, key) {
            Ok(r) => Told::Replay(r),
            Err(e) => Told::Refuse(e),
        }
    }
}

/// Whether `pending` is the transaction of the request that holds the claim
/// of `key` in `tables`.
pub open spec fn holds_claim(tables: Tables, user_id: u128, key: Seq<char>, pending: PendingWrites)
    -> bool {
    &&& pending.wf()
    &&& pending.user_id == user_id
    &&& pending.idempotency_key == key
    &&& pending.open_in(tables)
}

/// Whether the claim of `key` is open in `tables`: a request holds it and
/// has neither committed nor given up.
pub open spec fn claim_is_open(tables: Tables, user_id: u128, key: Seq<char>) -> bool {
    has_record(tables.idempotency, user_id, key) && saved_response(
        tables.idempotency,
        user_id,
        key,
    ) is None
}

/// Whether `step` can be made on `tables`: a request that asks waits while
/// the claim of another is open; to commit or to give up, the request must
/// hold the claim.
#[verifier::opaque]
pub open spec fn request_allowed(tables: Tables, user_id: u128, key: Seq<char>, step: RequestStep)
    -> bool {
    match step {
        RequestStep::Ask { .. } => !claim_is_open(tables, user_id, key),
        RequestStep::Commit { pending, response } => holds_claim(tables, user_id, key, pending)
            && is_valid_response(response),
        RequestStep::GiveUp { pending } => holds_claim(tables, user_id, key, pending),
    }
}

/// The store after `step`: a request that asks claims the key where it is
/// free; a commit completes the claim and brings the pending rows in, or,
/// where an identifier of theirs was taken meanwhile, rolls back; giving up
/// rolls back.
#[verifier::opaque]
pub open spec fn after_request(tables: Tables, user_id: u128, key: Seq<char>, step: RequestStep)
    -> Tables {
    match step {
        RequestStep::Ask { now } => if has_record(tables.idempotency, user_id, key) {
            tables
        } else {
            with_idempotency(tables, tables.idempotency.push(claim_row(user_id, key, now)))
        },
        RequestStep::Commit { pending, response } => if pending.issues_are_new(
            tables.newsletter_issues,
        ) {
            committed(tables, pending, response)
        } else {
            rolled_back(tables, pending)
        },
        RequestStep::GiveUp { pending } => rolled_back(tables, pending),
    }
}

/// The store after the first `n` of `steps`.
pub open spec fn store_after_requests(
    tables: Tables,
    user_id: u128,
    key: Seq<char>,
    steps: Seq<RequestStep>,
    n: nat,
) -> Tables
    decreases n,
{
    if n == 0 {
        tables
    } else {
        after_request(
            store_after_requests(tables, user_id, key, steps, (n - 1) as nat),
            user_id,
            key,
            steps[n - 1],
        )
    }
}

/// Whether each of `steps` is allowed when it is made.
pub open spec fn requests_allowed(
    tables: Tables,
    user_id: u128,
    key: Seq<char>,
    steps: Seq<RequestStep>,
) -> bool {
    forall|n: nat|
        n < steps.len() ==> request_allowed(
            store_after_requests(tables, user_id, key, steps, n),
            user_id,
            key,
            #[trigger] steps[n as int],
        )
}

/// Whether the step at place `i` commits `response`: it is a commit, and no
/// identifier of its issues was taken meanwhile.
pub open spec fn commits_at(
    tables: Tables,
    user_id: u128,
    key: Seq<char>,
    steps: Seq<RequestStep>,
    i: nat,
    response: Response,
) -> bool {
    steps[i as int] matches RequestStep::Commit { pending, response: saved } && saved == response
        && pending.issues_are_new(
        store_after_requests(tables, user_id, key, steps, i).newsletter_issues,
    )
}

/// Whether the request that asks at place `i` is told to start.
pub open spec fn starts_at(
    tables: Tables,
    user_id: u128,
    key: Seq<char>,
    steps: Seq<RequestStep>,
    i: nat,
) -> bool {
    steps[i as int] is Ask && told(
        store_after_requests(tables, user_id, key, steps, i),
        user_id,
        key,
    ) is Start
}

/// Rolling a claim back keeps the schema.
pub proof fn lemma_rollback_keeps_schema(tables: Tables, pending: PendingWrites)
    requires
        tables.wf(),
        pending.open_in(tables),
    ensures
        rolled_back(tables, pending).wf(),
{
}

/// One allowed step of a request keeps the schema.
pub proof fn lemma_request_keeps_schema(
    tables: Tables,
    user_id: u128,
    key: Seq<char>,
    step: RequestStep,
)
    requires
        tables.wf(),
        request_allowed(tables, user_id, key, step),
    ensures
        after_request(tables, user_id, key, step).wf(),
{
    reveal(request_allowed);
    reveal(after_request);
    match step {
        RequestStep::Ask { now } => {},
        RequestStep::Commit { pending, response } => {
            if pending.issues_are_new(tables.newsletter_issues) {
                lemma_commit_keeps_schema(tables, pending, response);
            } else {
                lemma_rollback_keeps_schema(tables, pending);
            }
        },
        RequestStep::GiveUp { pending } => {
            lemma_rollback_keeps_schema(tables, pending);
        },
    }
}

/// Allowed steps of requests keep the schema.
pub proof fn lemma_requests_keep_schema(
    tables: Tables,
    user_id: u128,
    key: Seq<char>,
    steps: Seq<RequestStep>,
    n: nat,
)
    requires
        tables.wf(),
        requests_allowed(tables, user_id, key, steps),
        n <= steps.len(),
    ensures
        store_after_requests(tables, user_id, key, steps, n).wf(),
    decreases n,
{
    if n > 0 {
        lemma_requests_keep_schema(tables, user_id, key, steps, (n - 1) as nat);
        lemma_request_keeps_schema(
            store_after_requests(tables, user_id, key, steps, (n - 1) as nat),
            user_id,
            key,
            steps[n - 1],
        );
    }
}

/// While a request holds the claim, the others wait. From the step at
/// which a request is told to start, the claim is open, and while it is,
/// the only steps are those of its holder: to commit or to give up.
pub proof fn lemma_open_claim_makes_others_wait(
    tables: Tables,
    user_id: u128,
    key: Seq<char>,
    steps: Seq<RequestStep>,
    i: nat,
)
    requires
        tables.wf(),
        requests_allowed(tables, user_id, key, steps),
        i < steps.len(),
    ensures
        starts_at(tables, user_id, key, steps, i) ==> claim_is_open(
            store_after_requests(tables, user_id, key, steps, i + 1),
            user_id,
            key,
        ),
        claim_is_open(store_after_requests(tables, user_id, key, steps, i), user_id, key)
            ==> !(steps[i as int] is Ask),
{
    reveal(request_allowed);
    reveal(after_request);
    let at_i = store_after_requests(tables, user_id, key, steps, i);
    let next = store_after_requests(tables, user_id, key, steps, i + 1);
    assert(request_allowed(at_i, user_id, key, steps[i as int]));
    if starts_at(tables, user_id, key, steps, i) {
        lemma_requests_keep_schema(tables, user_id, key, steps, i);
        lemma_record_index_is_unique(next.idempotency, user_id, key, at_i.idempotency.len() as int);
    }
}

/// Rolling a claim back frees its key.
pub proof fn lemma_rollback_frees_key(
    tables: Tables,
    user_id: u128,
    key: Seq<char>,
    pending: PendingWrites,
)
    requires
        tables.wf(),
        holds_claim(tables, user_id, key, pending),
    ensures
        !has_record(rolled_back(tables, pending).idempotency, user_id, key),
{
    let rows = tables.idempotency;
    let n = record_index(rows, user_id, key);
    let after = rolled_back(tables, pending).idempotency;
    assert forall|j: int| 0 <= j < after.len() implies !record_matches(
        #[trigger] after[j],
        user_id,
        key,
    ) by {
        if j < n {
            assert(after[j] == rows[j]);
        } else {
            assert(after[j] == rows[j + 1]);
        }
    }
}

/// Whether, after the first `n` of `steps`, the operation under `key` is
/// completed with the answer that one of those steps committed.
pub open spec fn answered_by_commit(
    tables: Tables,
    user_id: u128,
    key: Seq<char>,
    steps: Seq<RequestStep>,
    n: nat,
) -> bool {
    exists|i: nat, response: Response|
        i < n && #[trigger] commits_at(tables, user_id, key, steps, i, response) && answered_with(
            store_after_requests(tables, user_id, key, steps, n),
            user_id,
            key,
            response,
        )
}

/// A key that starts free is, after any steps, free, or claimed by a request
/// at work, or completed with the answer that a request committed.
pub proof fn lemma_key_is_free_open_or_answered(
    tables: Tables,
    user_id: u128,
    key: Seq<char>,
    steps: Seq<RequestStep>,
    n: nat,
)
    requires
        tables.wf(),
        requests_allowed(tables, user_id, key, steps),
        !has_record(tables.idempotency, user_id, key),
        n <= steps.len(),
    ensures
        ({
            let at_n = store_after_requests(tables, user_id, key, steps, n);
            ||| !has_record(at_n.idempotency, user_id, key)
            ||| claim_is_open(at_n, user_id, key)
            ||| answered_by_commit(tables, user_id, key, steps, n)
        }),
    decreases n,
{
    reveal(request_allowed);
    reveal(after_request);
    if n > 0 {
        let m = (n - 1) as nat;
        let before = store_after_requests(tables, user_id, key, steps, m);
        let at_n = store_after_requests(tables, user_id, key, steps, n);
        let step = steps[m as int];
        lemma_key_is_free_open_or_answered(tables, user_id, key, steps, m);
        lemma_requests_keep_schema(tables, user_id, key, steps, m);
        assert(request_allowed(before, user_id, key, step));
        if answered_by_commit(tables, user_id, key, steps, m) {
            let (i, response) = choose|i: nat, response: Response|
                i < m && #[trigger] commits_at(tables, user_id, key, steps, i, response)
                    && answered_with(before, user_id, key, response);
            lemma_completed_key_is_closed(before, user_id, key, response, step);
            assert(commits_at(tables, user_id, key, steps, i, response) && answered_with(
                at_n,
                user_id,
                key,
                response,
            ));
        } else {
            match step {
                RequestStep::Ask { now } => {
                    lemma_record_index_is_unique(
                        at_n.idempotency,
                        user_id,
                        key,
                        before.idempotency.len() as int,
                    );
                },
                RequestStep::Commit { pending, response } => {
                    if pending.issues_are_new(before.newsletter_issues) {
                        lemma_commit_saves_answer(before, user_id, key, pending, response);
                        assert(commits_at(tables, user_id, key, steps, m, response)
                            && answered_with(at_n, user_id, key, response));
                    } else {
                        lemma_rollback_frees_key(before, user_id, key, pending);
                    }
                },
                RequestStep::GiveUp { pending } => {
                    lemma_rollback_frees_key(before, user_id, key, pending);
                },
            }
        }
    }
}

/// Duplicates converge on one first attempt. Let any number of requests of
/// one user come under one key that was free, each taking its steps when
/// the store lets it. Then every request that asks is either told to start,
/// the key being free, or given the answer that an earlier request
/// committed; none is ever refused.
pub proof fn lemma_duplicates_are_replayed(
    tables: Tables,
    user_id: u128,
    key: Seq<char>,
    steps: Seq<RequestStep>,
    n: nat,
)
    requires
        tables.wf(),
        requests_allowed(tables, user_id, key, steps),
        !has_record(tables.idempotency, user_id, key),
        n < steps.len(),
        steps[n as int] is Ask,
    ensures
        ({
            let answer = told(store_after_requests(tables, user_id, key, steps, n), user_id, key);
            ||| answer is Start
            ||| exists|i: nat, response: Response|
                i < n && #[trigger] commits_at(tables, user_id, key, steps, i, response) && answer
                    == Told::Replay(response)
        }),
{
    reveal(request_allowed);
    reveal(after_request);
    let at_n = store_after_requests(tables, user_id, key, steps, n);
    lemma_key_is_free_open_or_answered(tables, user_id, key, steps, n);
    assert(request_allowed(at_n, user_id, key, steps[n as int]));
    if answered_by_commit(tables, user_id, key, steps, n) {
        let (i, response) = choose|i: nat, response: Response|
            i < n && #[trigger] commits_at(tables, user_id, key, steps, i, response)
                && answered_with(at_n, user_id, key, response);
        assert(commits_at(tables, user_id, key, steps, i, response) && told(at_n, user_id, key)
            == Told::Replay(response));
    }
}

/// What a duplicate meets depends on when it comes. The first request under
/// a key claims it, works in its transaction, and ends by committing with
/// its answer or by giving up. A request of the same user under the same
/// key
///
/// - that comes while the claim is open waits: it takes no step;
/// - that asks after the commit is given the answer of the first;
/// - that asks after the first gave up finds the key free, the store being
///   as it was before the claim: it is told to start.
pub proof fn lemma_duplicate_by_arrival(
    tables: Tables,
    user_id: u128,
    key: Seq<char>,
    now: u64,
    pending: PendingWrites,
    response: Response,
)
    requires
        tables.wf(),
        !has_record(tables.idempotency, user_id, key),
        pending.wf(),
        pending.user_id == user_id,
        pending.idempotency_key == key,
        pending.issues_are_new(tables.newsletter_issues),
        is_valid_response(response),
    ensures
        ({
            let ask = RequestStep::Ask { now };
            let claimed = after_request(tables, user_id, key, ask);
            let done = after_request(
                claimed,
                user_id,
                key,
                RequestStep::Commit { pending, response },
            );
            let undone = after_request(claimed, user_id, key, RequestStep::GiveUp { pending });
            &&& told(tables, user_id, key) is Start
            &&& claimed.wf()
            &&& holds_claim(claimed, user_id, key, pending)
            &&& !request_allowed(claimed, user_id, key, ask)
            &&& done.wf()
            &&& request_allowed(done, user_id, key, ask)
            &&& told(done, user_id, key) == Told::Replay(response)
            &&& after_request(done, user_id, key, ask) == done
            &&& undone == tables
        }),
{
    reveal(request_allowed);
    reveal(after_request);
    let rows = tables.idempotency;
    let claimed = with_idempotency(tables, rows.push(claim_row(user_id, key, now)));
    let n = rows.len() as int;
    lemma_record_index_is_unique(claimed.idempotency, user_id, key, n);
    lemma_commit_keeps_schema(claimed, pending, response);
    lemma_commit_saves_answer(claimed, user_id, key, pending, response);
    assert(claimed.idempotency.remove(n) =~= rows);
}

/// A commit leaves its answer behind: the operation under the key is
/// completed, with the answer that was committed.
pub proof fn lemma_commit_saves_answer(
    tables: Tables,
    user_id: u128,
    key: Seq<char>,
    pending: PendingWrites,
    response: Response,
)
    requires
        tables.wf(),
        holds_claim(tables, user_id, key, pending),
        is_valid_response(response),
    ensures
        answered_with(committed(tables, pending, response), user_id, key, response),
{
    let n = record_index(tables.idempotency, user_id, key);
    let done = committed(tables, pending, response);
    assert(record_matches(done.idempotency[n], user_id, key));
    lemma_record_index_is_unique(done.idempotency, user_id, key, n);
    lemma_saved_response_round_trip(response);
}

/// Once the operation under a key is completed, the only step that a request
/// under the key can make is to ask, and asking changes nothing.
pub proof fn lemma_completed_key_is_closed(
    tables: Tables,
    user_id: u128,
    key: Seq<char>,
    saved: Response,
    step: RequestStep,
)
    requires
        answered_with(tables, user_id, key, saved),
        request_allowed(tables, user_id, key, step),
    ensures
        step is Ask,
        after_request(tables, user_id, key, step) == tables,
{
    reveal(request_allowed);
    reveal(after_request);
}

/// A completed key stays closed: from the place where the operation is
/// completed on, every step is a request that asks, and the store stays as
/// it is.
pub proof fn lemma_completed_key_stays_closed(
    tables: Tables,
    user_id: u128,
    key: Seq<char>,
    steps: Seq<RequestStep>,
    saved: Response,
    m: nat,
    n: nat,
)
    requires
        requests_allowed(tables, user_id, key, steps),
        m <= n <= steps.len(),
        answered_with(store_after_requests(tables, user_id, key, steps, m), user_id, key, saved),
    ensures
        store_after_requests(tables, user_id, key, steps, n) == store_after_requests(
            tables,
            user_id,
            key,
            steps,
            m,
        ),
        forall|k: int| m <= k < n ==> (#[trigger] steps[k]) is Ask,
    decreases n - m,
{
    if n > m {
        let last = (n - 1) as nat;
        lemma_completed_key_stays_closed(tables, user_id, key, steps, saved, m, last);
        let before = store_after_requests(tables, user_id, key, steps, last);
        assert(request_allowed(before, user_id, key, steps[last as int]));
        lemma_completed_key_is_closed(before, user_id, key, saved, steps[last as int]);
    }
}

/// Of all requests under one key, one commits. Once a request has committed
/// with its answer, every request that asks under the key is given that
/// answer, whatever else it brings; none is told to start, none can commit
/// or give up, and the store stays as the commit left it.
pub proof fn lemma_one_request_commits(
    tables: Tables,
    user_id: u128,
    key: Seq<char>,
    steps: Seq<RequestStep>,
    response: Response,
    i: nat,
    j: nat,
)
    requires
        tables.wf(),
        requests_allowed(tables, user_id, key, steps),
        i < j < steps.len(),
        commits_at(tables, user_id, key, steps, i, response),
    ensures
        steps[j as int] is Ask,
        told(store_after_requests(tables, user_id, key, steps, j), user_id, key) == Told::Replay(
            response,
        ),
        store_after_requests(tables, user_id, key, steps, j + 1) == store_after_requests(
            tables,
            user_id,
            key,
            steps,
            i + 1,
        ),
{
    reveal(request_allowed);
    reveal(after_request);
    let at_i = store_after_requests(tables, user_id, key, steps, i);
    let done = store_after_requests(tables, user_id, key, steps, i + 1);
    lemma_requests_keep_schema(tables, user_id, key, steps, i);
    assert(request_allowed(at_i, user_id, key, steps[i as int]));
    assert(done == after_request(at_i, user_id, key, steps[i as int]));
    assert(answered_with(done, user_id, key, response)) by {
        if let RequestStep::Commit { pending, response: saved } = steps[i as int] {
            lemma_commit_saves_answer(at_i, user_id, key, pending, response);
        }
    }
    lemma_completed_key_stays_closed(tables, user_id, key, steps, response, i + 1, j);
    lemma_completed_key_stays_closed(tables, user_id, key, steps, response, i + 1, j + 1);
}

/// Of the requests that come together under a free key, one is the first
/// attempt and all others observe its answer. The request that the store
/// lets ask first is told to start; when it has committed with its answer,
/// every other request asks in its turn, is given that answer, and leaves
/// the store as the commit left it. So exactly one request is told to
/// start, however many come and in whatever order the store takes them.
pub proof fn lemma_one_first_attempt(
    tables: Tables,
    user_id: u128,
    key: Seq<char>,
    steps: Seq<RequestStep>,
    response: Response,
    j: nat,
)
    requires
        tables.wf(),
        !has_record(tables.idempotency, user_id, key),
        requests_allowed(tables, user_id, key, steps),
        2 <= j < steps.len(),
        steps[0] is Ask,
        commits_at(tables, user_id, key, steps, 1, response),
    ensures
        starts_at(tables, user_id, key, steps, 0),
        steps[j as int] is Ask,
        !starts_at(tables, user_id, key, steps, j),
        told(store_after_requests(tables, user_id, key, steps, j), user_id, key) == Told::Replay(
            response,
        ),
        store_after_requests(tables, user_id, key, steps, j + 1) == store_after_requests(
            tables,
            user_id,
            key,
            steps,
            2,
        ),
{
    lemma_one_request_commits(tables, user_id, key, steps, response, 1, j);
}

/// A first attempt under a valid, unused key, with an identifier that no
/// issue has, publishes: exactly one issue is added, and exactly one task
/// for each confirmed subscriber, and the answer is the one it brought.
pub proof fn lemma_first_attempt_publishes(
    tables: Tables,
    user_id: u128,
    form: Form,
    issue_id: u128,
    response: Response,
    now: u64,
)
    requires
        is_valid_key(form.idempotency_key),
        !has_record(tables.idempotency, user_id, form.idempotency_key),
        !has_issue(tables.newsletter_issues, issue_id),
    ensures
        ({
            let (after, answer) = published(tables, user_id, form, issue_id, response, now);
            &&& answer == Ok::<Response, NewsletterError>(response)
            &&& after.newsletter_issues == tables.newsletter_issues.push(
                issue_row(issue_id, form.title, form.text, form.html, now),
            )
            &&& after.issue_delivery_queue == tables.issue_delivery_queue + tasks_for_confirmed(
                tables.subscriptions,
                issue_id,
                now,
            )
            &&& after.subscriptions == tables.subscriptions
        }),
{
}

} // verus!
