//! Publishing an issue: the issue and one delivery task for each confirmed
//! subscriber are written in the transaction that claimed the idempotency
//! key, and become visible together with the saved response or not at all.
use crate::identifiers::is_random_uuid;
use crate::identifiers::new_uuid;
use crate::idempotency::key::key_check;
use crate::idempotency::key::IdempotencyKey;
use crate::idempotency::key::IdempotencyKeyError;
use crate::idempotency::persistence::claim_row;
use crate::idempotency::persistence::completed_row;
use crate::idempotency::persistence::has_record;
use crate::idempotency::persistence::replayed;
use crate::idempotency::persistence::rollback;
use crate::idempotency::persistence::save_response;
use crate::idempotency::persistence::try_processing;
use crate::idempotency::persistence::IdempotencyError;
use crate::idempotency::persistence::NextAction;
use crate::idempotency::persistence::PendingWrites;
use crate::idempotency::persistence::Transaction;
use crate::idempotency::persistence::issue_exists;
use crate::idempotency::response::saved_columns;
use crate::routes::error_handlers::flash_redirect;
use crate::routes::error_handlers::FlashRedirect;
use crate::idempotency::response::HttpResponse;
use crate::idempotency::response::Response;
use crate::store::has_issue;
use crate::store::subscriber_emails_unique;
use crate::store::task_keys_unique;
use crate::store::task_matches;
use crate::store::tasks_view;
use crate::store::DeliveryTask;
use crate::store::IssueRow;
use crate::store::NewsletterIssue;
use crate::store::StorageError;
use crate::store::Store;
use crate::store::SubscriptionRow;
use crate::store::SubscriptionStatus;
use crate::store::Tables;
use crate::store::TaskRow;
use vstd::prelude::*;

verus! {

/// The form that asks for an issue to be published.
#[derive(Debug)]
pub struct BodyData {
    pub title: String,
    pub html: String,
    pub text: String,
    pub idempotency_key: String,
}

/// The form as a mathematical value.
pub struct Form {
    pub title: Seq<char>,
    pub html: Seq<char>,
    pub text: Seq<char>,
    pub idempotency_key: Seq<char>,
}

impl View for BodyData {
    type V = Form;

    open spec fn view(&self) -> Form {
        Form {
            title: self.title@,
            html: self.html@,
            text: self.text@,
            idempotency_key: self.idempotency_key@,
        }
    }
}

/// What the user is told once an issue is accepted.
pub const ISSUE_ACCEPTED: &'static str =
    "The newsletter issue has been accepted - emails will go out shortly.";

/// The path of the page that publishes issues.
pub const NEWSLETTER_PATH: &'static str = "/admin/newsletter";

/// What a first attempt is answered with: a redirect back to the page of the
/// form, telling that the issue is accepted.
pub fn accepted_redirect() -> (redirect: FlashRedirect)
    ensures
        redirect.message@ == ISSUE_ACCEPTED@,
        redirect.location@ == NEWSLETTER_PATH@,
{
    flash_redirect(ISSUE_ACCEPTED, NEWSLETTER_PATH)
}

/// Why an issue was not published.
#[derive(Debug, Clone, Copy, PartialEq, Eq, Structural)]
pub enum NewsletterError {
    /// The idempotency key of the form is no key. The client's fault.
    InvalidIdempotencyKey(IdempotencyKeyError),
    /// The key was claimed before and cannot be answered.
    Idempotency(IdempotencyError),
    /// The store refused a statement; nothing was written.
    Storage(StorageError),
}

impl NewsletterError {
    /// The status code that tells the client of this failure: 400 for a bad
    /// key, 500 for everything else.
    pub open spec fn spec_status_code(self) -> u16 {
        match self {
            NewsletterError::InvalidIdempotencyKey(_) => 400,
            _ => 500,
        }
    }

    /// The status code that tells the client of this failure.
    pub fn status_code(&self) -> (code: u16)
        ensures
            code == self.spec_status_code(),
    {
        match self {
            NewsletterError::InvalidIdempotencyKey(_) => 400,
            _ => 500,
        }
    }
}

/// The row of an issue published at `now`.
pub open spec fn issue_row(
    issue_id: u128,
    title: Seq<char>,
    text_content: Seq<char>,
    html_content: Seq<char>,
    now: u64,
) -> IssueRow {
    IssueRow { newsletter_issue_id: issue_id, title, text_content, html_content, published_at: now }
}

/// The task of delivering issue `issue_id` to `email`, due at `now`.
pub open spec fn new_task(issue_id: u128, email: Seq<char>, now: u64) -> TaskRow {
    TaskRow {
        newsletter_issue_id: issue_id,
        subscriber_email: email,
        next_retry: now,
        locked: false,
    }
}

/// Whether `s` has confirmed their subscription.
pub open spec fn is_confirmed(s: SubscriptionRow) -> bool {
    s.status == SubscriptionStatus::Confirmed
}

/// [`is_confirmed`] as a predicate on rows.
pub open spec fn confirmed_filter() -> spec_fn(SubscriptionRow) -> bool {
    |s: SubscriptionRow| is_confirmed(s)
}

/// The function that makes, from a subscription, the task of delivering
/// issue `issue_id` to it.
pub open spec fn task_maker(issue_id: u128, now: u64) -> spec_fn(SubscriptionRow) -> TaskRow {
    |s: SubscriptionRow| new_task(issue_id, s.email, now)
}

/// One task for each confirmed subscriber, in the order of the
/// subscriptions.
pub open spec fn tasks_for_confirmed(subscriptions: Seq<SubscriptionRow>, issue_id: u128, now: u64)
    -> Seq<TaskRow> {
    subscriptions.filter(confirmed_filter()).map_values(task_maker(issue_id, now))
}

/// Whether some task of `tasks` is for issue `issue_id`.
pub open spec fn has_task_of_issue(tasks: Seq<TaskRow>, issue_id: u128) -> bool {
    exists|i: int| 0 <= i < tasks.len() && (#[trigger] tasks[i]).newsletter_issue_id == issue_id
}

/// Whether the tasks of issue `issue_id` can be enqueued in `pending`: the
/// issue was inserted in this transaction, and its tasks were not enqueued
/// yet.
pub open spec fn enqueue_check(pending: PendingWrites, issue_id: u128) -> Result<
    (),
    StorageError,
> {
    if !has_issue(pending.issues, issue_id) {
        Err(StorageError::IssueNotInTransaction)
    } else if has_task_of_issue(pending.tasks, issue_id) {
        Err(StorageError::DuplicateTask)
    } else {
        Ok(())
    }
}

/// What [`tasks_for_confirmed`] gives: tasks of this issue, free and due at
/// `now`, each for the address of a confirmed subscriber, and, where no two
/// subscriptions share an address, no two for the same address.
pub proof fn lemma_tasks_for_confirmed(subscriptions: Seq<SubscriptionRow>, issue_id: u128, now: u64)
    ensures
        tasks_for_confirmed(subscriptions, issue_id, now).len() <= subscriptions.len(),
        forall|i: int|
            0 <= i < tasks_for_confirmed(subscriptions, issue_id, now).len() ==> {
                let t = #[trigger] tasks_for_confirmed(subscriptions, issue_id, now)[i];
                &&& t.newsletter_issue_id == issue_id
                &&& t.next_retry == now
                &&& !t.locked
                &&& exists|k: int|
                    0 <= k < subscriptions.len() && is_confirmed(#[trigger] subscriptions[k])
                        && subscriptions[k].email == t.subscriber_email
            },
        subscriber_emails_unique(subscriptions) ==> task_keys_unique(
            tasks_for_confirmed(subscriptions, issue_id, now),
        ),
    decreases subscriptions.len(),
{
    if subscriptions.len() > 0 {
        let tasks = tasks_for_confirmed(subscriptions, issue_id, now);
        let front = subscriptions.drop_last();
        let last = subscriptions.last();
        let front_tasks = tasks_for_confirmed(front, issue_id, now);
        assert(subscriptions =~= front.push(last));
        front.lemma_filter_push(last, confirmed_filter());
        lemma_tasks_for_confirmed(front, issue_id, now);
        assert forall|i: int| 0 <= i < tasks.len() implies {
            let t = #[trigger] tasks[i];
            &&& t.newsletter_issue_id == issue_id
            &&& t.next_retry == now
            &&& !t.locked
            &&& exists|k: int|
                0 <= k < subscriptions.len() && is_confirmed(#[trigger] subscriptions[k])
                    && subscriptions[k].email == t.subscriber_email
        } by {
            if i < front_tasks.len() {
                assert(front_tasks[i].newsletter_issue_id == issue_id);
            }
        }
        if subscriber_emails_unique(subscriptions) {
            assert(subscriber_emails_unique(front));
            assert forall|a: int, b: int| 0 <= a < b < tasks.len() implies !task_matches(
                #[trigger] tasks[a],
                (#[trigger] tasks[b]).newsletter_issue_id,
                tasks[b].subscriber_email,
            ) by {
                if b < front_tasks.len() {
                    assert(!task_matches(
                        front_tasks[a],
                        front_tasks[b].newsletter_issue_id,
                        front_tasks[b].subscriber_email,
                    ));
                } else {
                    assert(front_tasks[a].newsletter_issue_id == issue_id);
                }
            }
        }
    }
}

/// Writes the issue into the transaction under the identifier `issue_id`.
/// An identifier that the store or the transaction holds already is
/// refused, and the transaction stays as it was.
pub fn insert_issue_with_id(
    transaction: &mut Transaction,
    store: &Store,
    issue_id: u128,
    title: &str,
    text_content: &str,
    html_content: &str,
    now: u64,
) -> (res: Result<u128, StorageError>)
    requires
        old(transaction)@.wf(),
    ensures
        final(transaction)@.wf(),
        has_issue(store@.newsletter_issues, issue_id) || has_issue(old(transaction)@.issues, issue_id)
            ==> res == Err::<u128, StorageError>(StorageError::DuplicateIssue)
            && final(transaction)@ == old(transaction)@,
        !has_issue(store@.newsletter_issues, issue_id) && !has_issue(
            old(transaction)@.issues,
            issue_id,
        ) ==> res == Ok::<u128, StorageError>(issue_id) && final(transaction)@ == (PendingWrites {
            issues: old(transaction)@.issues.push(
                issue_row(issue_id, title@, text_content@, html_content@, now),
            ),
            ..old(transaction)@
        }),
{
    if issue_exists(&store.newsletter_issues, issue_id) || issue_exists(
        &transaction.issues,
        issue_id,
    ) {
        return Err(StorageError::DuplicateIssue);
    }
    let ghost before = transaction@;
    transaction.issues.push(
        NewsletterIssue {
            newsletter_issue_id: issue_id,
            title: title.to_owned(),
            text_content: text_content.to_owned(),
            html_content: html_content.to_owned(),
            published_at: now,
        },
    );
    proof {
        let row = issue_row(issue_id, title@, text_content@, html_content@, now);
        let after = transaction@;
        assert(after.issues =~= before.issues.push(row));
        assert forall|a: int| 0 <= a < after.tasks.len() implies has_issue(
            after.issues,
            (#[trigger] after.tasks[a]).newsletter_issue_id,
        ) by {
            let k = choose|k: int|
                0 <= k < before.issues.len() && (
                #[trigger] before.issues[k]).newsletter_issue_id
                    == before.tasks[a].newsletter_issue_id;
            assert(after.issues[k].newsletter_issue_id == after.tasks[a].newsletter_issue_id);
        }
    }
    Ok(issue_id)
}

/// What inserting an issue under the identifier `issue_id` answers: the
/// identifier, unless the store or the transaction holds it already.
pub open spec fn issue_inserted_result(stored: Seq<IssueRow>, pending: PendingWrites, issue_id: u128)
    -> Result<u128, StorageError> {
    if has_issue(stored, issue_id) || has_issue(pending.issues, issue_id) {
        Err(StorageError::DuplicateIssue)
    } else {
        Ok(issue_id)
    }
}

/// The writes of a transaction after an issue was inserted under the
/// identifier `issue_id`: the issue's row comes last, unless the identifier
/// is taken, and then nothing changes.
pub open spec fn issue_inserted(
    stored: Seq<IssueRow>,
    pending: PendingWrites,
    row: IssueRow,
) -> PendingWrites {
    if has_issue(stored, row.newsletter_issue_id) || has_issue(
        pending.issues,
        row.newsletter_issue_id,
    ) {
        pending
    } else {
        PendingWrites { issues: pending.issues.push(row), ..pending }
    }
}

/// Writes the issue into the transaction under a fresh random identifier and
/// returns that identifier. Which identifier is drawn is left to chance; what
/// follows is what [`insert_issue_with_id`] does with it. So the call
/// succeeds wherever the store and the transaction hold no issue yet, and in
/// the unlikely case that the identifier is taken, it fails and the
/// transaction stays as it was.
pub fn insert_newsletter_issues(
    transaction: &mut Transaction,
    store: &Store,
    title: &str,
    text_content: &str,
    html_content: &str,
    now: u64,
) -> (res: Result<u128, StorageError>)
    requires
        old(transaction)@.wf(),
    ensures
        final(transaction)@.wf(),
        exists|issue_id: u128|
            {
                &&& is_random_uuid(issue_id)
                &&& res == #[trigger] issue_inserted_result(
                    store@.newsletter_issues,
                    old(transaction)@,
                    issue_id,
                )
                &&& final(transaction)@ == issue_inserted(
                    store@.newsletter_issues,
                    old(transaction)@,
                    issue_row(issue_id, title@, text_content@, html_content@, now),
                )
            },
        res matches Ok(issue_id) ==> {
            &&& is_random_uuid(issue_id)
            &&& !has_issue(store@.newsletter_issues, issue_id)
            &&& !has_issue(old(transaction)@.issues, issue_id)
            &&& final(transaction)@ == (PendingWrites {
                issues: old(transaction)@.issues.push(
                    issue_row(issue_id, title@, text_content@, html_content@, now),
                ),
                ..old(transaction)@
            })
        },
        res matches Err(e) ==> e == StorageError::DuplicateIssue && final(transaction)@ == old(
            transaction,
        )@,
{
    let issue_id: u128 = new_uuid();
    let ghost before = transaction@;
    let res = insert_issue_with_id(
        transaction,
        store,
        issue_id,
        title,
        text_content,
        html_content,
        now,
    );
    proof {
        assert(res == issue_inserted_result(store@.newsletter_issues, before, issue_id));
    }
    res
}

/// Whether some task of `tasks` is for issue `issue_id`.
fn any_task_of_issue(tasks: &Vec<DeliveryTask>, issue_id: u128) -> (found: bool)
    ensures
        found == has_task_of_issue(tasks_view(tasks@), issue_id),
{
    let mut i: usize = 0;
    while i < tasks.len()
        invariant
            i <= tasks.len(),
            forall|j: int|
                0 <= j < i ==> (#[trigger] tasks_view(tasks@)[j]).newsletter_issue_id != issue_id,
        decreases tasks.len() - i,
    {
        if tasks[i].newsletter_issue_id == issue_id {
            assert(tasks_view(tasks@)[i as int].newsletter_issue_id == issue_id);
            return true;
        }
        i += 1;
    }
    false
}

/// Writes into the transaction one delivery task for each subscriber that is
/// confirmed now, due at once, in one step. The issue must have been
/// inserted in this transaction, and only once can its tasks be enqueued.
pub fn enqueue_delivery_tasks(
    transaction: &mut Transaction,
    store: &Store,
    newsletter_issue_id: u128,
    now: u64,
) -> (res: Result<(), StorageError>)
    requires
        old(transaction)@.wf(),
        store@.wf(),
    ensures
        final(transaction)@.wf(),
        match enqueue_check(old(transaction)@, newsletter_issue_id) {
            Err(e) => res == Err::<(), StorageError>(e) && final(transaction)@ == old(
                transaction,
            )@,
            Ok(_) => res == Ok::<(), StorageError>(()) && final(transaction)@ == (PendingWrites {
                tasks: old(transaction)@.tasks + tasks_for_confirmed(
                    store@.subscriptions,
                    newsletter_issue_id,
                    now,
                ),
                ..old(transaction)@
            }),
        },
{
    if !issue_exists(&transaction.issues, newsletter_issue_id) {
        return Err(StorageError::IssueNotInTransaction);
    }
    if any_task_of_issue(&transaction.tasks, newsletter_issue_id) {
        return Err(StorageError::DuplicateTask);
    }
    let ghost before = transaction@;
    let ghost subs = store@.subscriptions;
    let n: usize = store.subscriptions.len();
    let mut i: usize = 0;
    while i < n
        invariant
            i <= n,
            n == store.subscriptions.len(),
            subs == store@.subscriptions,
            transaction@ == (PendingWrites {
                tasks: before.tasks + tasks_for_confirmed(
                    subs.take(i as int),
                    newsletter_issue_id,
                    now,
                ),
                ..before
            }),
        decreases n - i,
    {
        proof {
            assert(subs.take(i as int + 1) =~= subs.take(i as int).push(subs[i as int]));
            subs.take(i as int).lemma_filter_push(subs[i as int], confirmed_filter());
        }
        let ghost so_far = transaction@.tasks;
        match store.subscriptions[i].status {
            SubscriptionStatus::Confirmed => {
                transaction.tasks.push(
                    DeliveryTask {
                        newsletter_issue_id,
                        subscriber_email: store.subscriptions[i].email.clone(),
                        next_retry: now,
                        locked: false,
                    },
                );
                proof {
                    assert(transaction@.tasks =~= so_far.push(
                        new_task(newsletter_issue_id, subs[i as int].email, now),
                    ));
                    assert(transaction@.tasks =~= before.tasks + tasks_for_confirmed(
                        subs.take(i as int + 1),
                        newsletter_issue_id,
                        now,
                    ));
                }
            },
            SubscriptionStatus::PendingConfirmation => {
            },
        }
        i += 1;
    }
    proof {
        assert(subs.take(n as int) =~= subs);
        lemma_enqueue_keeps_schema(before, subs, newsletter_issue_id, now);
    }
    Ok(())
}

/// Enqueueing the tasks of an issue of the transaction, for the first time,
/// keeps the schema among the pending rows.
pub proof fn lemma_enqueue_keeps_schema(
    pending: PendingWrites,
    subscriptions: Seq<SubscriptionRow>,
    issue_id: u128,
    now: u64,
)
    requires
        pending.wf(),
        subscriber_emails_unique(subscriptions),
        enqueue_check(pending, issue_id) is Ok,
    ensures
        (PendingWrites {
            tasks: pending.tasks + tasks_for_confirmed(subscriptions, issue_id, now),
            ..pending
        }).wf(),
{
    lemma_tasks_for_confirmed(subscriptions, issue_id, now);
}

/// The store after the form `form` of `user_id` was handled, with
/// `issue_id` as the identifier at hand and `response` as the answer of a
/// first attempt, and what the client is answered.
///
/// A bad key is refused and nothing is written. A key that was used before
/// is answered from what was saved, and nothing is written. Else the issue,
/// one task for each confirmed subscriber and the completed claim enter the
/// store together, unless the identifier is taken: then nothing is written.
pub open spec fn published(
    tables: Tables,
    user_id: u128,
    form: Form,
    issue_id: u128,
    response: Response,
    now: u64,
) -> (Tables, Result<Response, NewsletterError>) {
    let key = form.idempotency_key;
    match key_check(key) {
        Err(e) => (tables, Err(NewsletterError::InvalidIdempotencyKey(e))),
        Ok(_) => if has_record(tables.idempotency, user_id, key) {
            match replayed(tables.idempotency, user_id, key) {
                Ok(saved) => (tables, Ok(saved)),
                Err(e) => (tables, Err(NewsletterError::Idempotency(e))),
            }
        } else if has_issue(tables.newsletter_issues, issue_id) {
            (tables, Err(NewsletterError::Storage(StorageError::DuplicateIssue)))
        } else {
            (
                Tables {
                    idempotency: tables.idempotency.push(
                        completed_row(claim_row(user_id, key, now), saved_columns(response)),
                    ),
                    newsletter_issues: tables.newsletter_issues.push(
                        issue_row(issue_id, form.title, form.text, form.html, now),
                    ),
                    issue_delivery_queue: tables.issue_delivery_queue + tasks_for_confirmed(
                        tables.subscriptions,
                        issue_id,
                        now,
                    ),
                    ..tables
                },
                Ok(response),
            )
        },
    }
}

/// Handles the form with `issue_id` as the identifier of the issue, should
/// one be published, and `response` as the answer of a first attempt.
pub fn publish_newsletter_with_id(
    store: &mut Store,
    user_id: u128,
    body: BodyData,
    issue_id: u128,
    response: HttpResponse,
    now: u64,
) -> (res: Result<HttpResponse, NewsletterError>)
    requires
        old(store)@.wf(),
    ensures
        final(store)@.wf(),
        final(store)@ == published(old(store)@, user_id, body@, issue_id, response@, now).0,
        match published(old(store)@, user_id, body@, issue_id, response@, now).1 {
            Ok(r) => res matches Ok(answer) && answer@ == r,
            Err(e) => res matches Err(failure) && failure == e,
        },
{
    let ghost before = store@;
    let ghost form = body@;
    let BodyData { title, html, text, idempotency_key } = body;
    let key = match IdempotencyKey::try_from(idempotency_key) {
        Ok(key) => key,
        Err(e) => {
            return Err(NewsletterError::InvalidIdempotencyKey(e));
        },
    };
    let mut transaction = match try_processing(store, &key, user_id, now) {
        Ok(NextAction::StartProcessing(transaction)) => transaction,
        Ok(NextAction::ReturnSavedResponse(saved)) => {
            return Ok(saved);
        },
        Err(e) => {
            return Err(NewsletterError::Idempotency(e));
        },
    };
    let ghost claimed = store@;
    proof {
        assert(claimed.idempotency.remove(before.idempotency.len() as int)
            =~= before.idempotency);
    }
    match insert_issue_with_id(
        &mut transaction,
        store,
        issue_id,
        title.as_str(),
        text.as_str(),
        html.as_str(),
        now,
    ) {
        Err(e) => {
            rollback(store, transaction);
            return Err(NewsletterError::Storage(e));
        },
        Ok(_) => {},
    }
    match enqueue_delivery_tasks(&mut transaction, store, issue_id, now) {
        Err(e) => {
            proof {
                let issues = transaction@.issues;
                assert(issues[0].newsletter_issue_id == issue_id);
            }
            rollback(store, transaction);
            return Err(NewsletterError::Storage(e));
        },
        Ok(_) => {},
    }
    proof {
        let pending = transaction@;
        let done = published(before, user_id, form, issue_id, response@, now).0;
        let committed = crate::idempotency::persistence::committed(claimed, pending, response@);
        assert(committed.idempotency =~= done.idempotency);
        assert(committed.newsletter_issues =~= done.newsletter_issues);
    }
    match save_response(store, transaction, response) {
        Ok(answer) => Ok(answer),
        Err(e) => Err(NewsletterError::Idempotency(e)),
    }
}

/// Handles the form of `user_id`: publishes the issue once, however often
/// the form comes in under its key. The identifier of the issue is a fresh
/// random one; what else happens is what [`publish_newsletter_with_id`]
/// does with that identifier.
pub fn publish_newsletter(
    store: &mut Store,
    user_id: u128,
    body: BodyData,
    response: HttpResponse,
    now: u64,
) -> (res: Result<HttpResponse, NewsletterError>)
    requires
        old(store)@.wf(),
    ensures
        final(store)@.wf(),
        exists|issue_id: u128|
            {
                &&& is_random_uuid(issue_id)
                &&& final(store)@ == (#[trigger] published(
                    old(store)@,
                    user_id,
                    body@,
                    issue_id,
                    response@,
                    now,
                )).0
                &&& match published(old(store)@, user_id, body@, issue_id, response@, now).1 {
                    Ok(r) => res matches Ok(answer) && answer@ == r,
                    Err(e) => res matches Err(failure) && failure == e,
                }
            },
{
    let issue_id: u128 = new_uuid();
    publish_newsletter_with_id(store, user_id, body, issue_id, response, now)
}

} // verus!
