//! The idempotency store: the first request under a key claims it and works
//! in a transaction; every later request is answered with what was saved.
use crate::idempotency::key::IdempotencyKey;
use crate::idempotency::response::restored;
use crate::idempotency::response::saved_columns;
use crate::idempotency::response::HttpResponse;
use crate::idempotency::response::Response;
use crate::idempotency::response::ResponseError;
use crate::idempotency::response::SavedColumns;
use crate::idempotency::response::SavedResponse;
use crate::store::has_issue;
use crate::store::idempotency_keys_unique;
use crate::store::issue_ids_unique;
use crate::store::issues_view;
use crate::store::record_matches;
use crate::store::records_view;
use crate::store::task_keys_unique;
use crate::store::tasks_refer_to_issues;
use crate::store::tasks_view;
use crate::store::DeliveryTask;
use crate::store::IdempotencyRecord;
use crate::store::IdempotencyRow;
use crate::store::IssueRow;
use crate::store::NewsletterIssue;
use crate::store::StorageError;
use crate::store::Store;
use crate::store::Tables;
use crate::store::TaskRow;
use vstd::prelude::*;

verus! {

/// Why a request under a key could not be served.
#[derive(Debug, Clone, Copy, PartialEq, Eq, Structural)]
pub enum IdempotencyError {
    /// The key was claimed before, and no response was ever saved for it.
    NotYetCompleted,
    /// What was saved for the key is no response.
    CorruptResponse(ResponseError),
    /// The store refused to commit what the transaction wrote.
    Storage(StorageError),
}

/// The open transaction of the request that claimed a key. What the request
/// writes is held here until [`save_response`] commits it; nothing of it is
/// in the store before.
#[derive(Debug)]
pub struct Transaction {
    pub user_id: u128,
    pub idempotency_key: String,
    pub issues: Vec<NewsletterIssue>,
    pub tasks: Vec<DeliveryTask>,
}

/// An open transaction as a mathematical value.
pub struct PendingWrites {
    pub user_id: u128,
    pub idempotency_key: Seq<char>,
    pub issues: Seq<IssueRow>,
    pub tasks: Seq<TaskRow>,
}

impl View for Transaction {
    type V = PendingWrites;

    open spec fn view(&self) -> PendingWrites {
        PendingWrites {
            user_id: self.user_id,
            idempotency_key: self.idempotency_key@,
            issues: issues_view(self.issues@),
            tasks: tasks_view(self.tasks@),
        }
    }
}

impl PendingWrites {
    /// The transaction of a claim that has written nothing yet.
    pub open spec fn begin(user_id: u128, key: Seq<char>) -> PendingWrites {
        PendingWrites { user_id, idempotency_key: key, issues: Seq::empty(), tasks: Seq::empty() }
    }

    /// The pending rows obey the schema among themselves: one issue for each
    /// identifier, one task for each issue and address, each task for an
    /// issue of this transaction.
    pub open spec fn wf(self) -> bool {
        &&& issue_ids_unique(self.issues)
        &&& task_keys_unique(self.tasks)
        &&& tasks_refer_to_issues(self.tasks, self.issues)
    }

    /// The claim of this transaction stands in `tables`, unanswered.
    pub open spec fn open_in(self, tables: Tables) -> bool {
        has_record(tables.idempotency, self.user_id, self.idempotency_key) && saved_response(
            tables.idempotency,
            self.user_id,
            self.idempotency_key,
        ) is None
    }

    /// None of the pending issues has an identifier that `issues` holds.
    pub open spec fn issues_are_new(self, issues: Seq<IssueRow>) -> bool {
        forall|i: int|
            0 <= i < self.issues.len() ==> !has_issue(
                issues,
                (#[trigger] self.issues[i]).newsletter_issue_id,
            )
    }
}

/// What the caller of [`try_processing`] has to do.
#[derive(Debug)]
pub enum NextAction {
    /// The key was free and is now claimed: do the work in this transaction.
    StartProcessing(Transaction),
    /// The key was used before: answer what was answered then.
    ReturnSavedResponse(HttpResponse),
}

/// Whether `rows` holds the claim of `key` by `user_id`.
pub open spec fn has_record(rows: Seq<IdempotencyRow>, user_id: u128, key: Seq<char>) -> bool {
    exists|i: int| 0 <= i < rows.len() && record_matches(#[trigger] rows[i], user_id, key)
}

/// The place of the claim of `key` by `user_id`.
pub open spec fn record_index(rows: Seq<IdempotencyRow>, user_id: u128, key: Seq<char>) -> int {
    choose|i: int| 0 <= i < rows.len() && record_matches(#[trigger] rows[i], user_id, key)
}

/// What is saved under `key` for `user_id`: nothing where the key was never
/// claimed, and nothing where it was claimed and not completed.
pub open spec fn saved_response(rows: Seq<IdempotencyRow>, user_id: u128, key: Seq<char>) -> Option<
    SavedColumns,
> {
    if has_record(rows, user_id, key) {
        rows[record_index(rows, user_id, key)].response
    } else {
        None
    }
}

/// The row of a fresh claim.
pub open spec fn claim_row(user_id: u128, key: Seq<char>, now: u64) -> IdempotencyRow {
    IdempotencyRow { user_id, idempotency_key: key, response: None, created_at: now }
}

/// `r`, completed with `saved`.
pub open spec fn completed_row(r: IdempotencyRow, saved: SavedColumns) -> IdempotencyRow {
    IdempotencyRow { response: Some(saved), ..r }
}

/// `tables` with `rows` as its claims.
pub open spec fn with_idempotency(tables: Tables, rows: Seq<IdempotencyRow>) -> Tables {
    Tables { idempotency: rows, ..tables }
}

/// The store once the transaction `pending` has saved `response` and
/// committed: the claim is completed, and the pending issues and tasks are
/// in their tables, after the rows that were there.
pub open spec fn committed(tables: Tables, pending: PendingWrites, response: Response) -> Tables {
    let i = record_index(tables.idempotency, pending.user_id, pending.idempotency_key);
    Tables {
        idempotency: tables.idempotency.update(
            i,
            completed_row(tables.idempotency[i], saved_columns(response)),
        ),
        newsletter_issues: tables.newsletter_issues + pending.issues,
        issue_delivery_queue: tables.issue_delivery_queue + pending.tasks,
        ..tables
    }
}

/// The store once the transaction `pending` is rolled back: its claim is
/// gone, and nothing else has changed.
pub open spec fn rolled_back(tables: Tables, pending: PendingWrites) -> Tables {
    with_idempotency(
        tables,
        tables.idempotency.remove(
            record_index(tables.idempotency, pending.user_id, pending.idempotency_key),
        ),
    )
}

/// What a request under `key` is answered from what is saved: the saved
/// response, or why there is none to give.
pub open spec fn replayed(rows: Seq<IdempotencyRow>, user_id: u128, key: Seq<char>) -> Result<
    Response,
    IdempotencyError,
> {
    match saved_response(rows, user_id, key) {
        None => Err(IdempotencyError::NotYetCompleted),
        Some(saved) => match restored(saved) {
            Ok(r) => Ok(r),
            Err(e) => Err(IdempotencyError::CorruptResponse(e)),
        },
    }
}

/// With one claim for each user and key, only one place can hold a claim.
pub proof fn lemma_record_index_is_unique(
    rows: Seq<IdempotencyRow>,
    user_id: u128,
    key: Seq<char>,
    i: int,
)
    requires
        idempotency_keys_unique(rows),
        0 <= i < rows.len(),
        record_matches(rows[i], user_id, key),
    ensures
        has_record(rows, user_id, key),
        record_index(rows, user_id, key) == i,
{
}

/// The place of the claim of `key` by `user_id`, if there is one.
fn find_record(rows: &Vec<IdempotencyRecord>, user_id: u128, key: &String) -> (found: Option<usize>)
    ensures
        found matches Some(i) ==> i < rows.len() && record_matches(
            records_view(rows@)[i as int],
            user_id,
            key@,
        ),
        found is None ==> !has_record(records_view(rows@), user_id, key@),
{
    let mut i: usize = 0;
    while i < rows.len()
        invariant
            i <= rows.len(),
            forall|j: int|
                0 <= j < i ==> !record_matches(#[trigger] records_view(rows@)[j], user_id, key@),
        decreases rows.len() - i,
    {
        if rows[i].user_id == user_id && rows[i].idempotency_key == *key {
            return Some(i);
        }
        i += 1;
    }
    None
}

/// What follows from the number of rows that the claim inserted.
#[derive(Debug, Clone, Copy, PartialEq, Eq, Structural)]
pub enum ClaimDecision {
    /// A row was inserted: the key was free, this request is the first.
    StartProcessing,
    /// No row was inserted: the key is claimed, answer from what was saved.
    ReturnSavedResponse,
}

/// Decides by the number of rows that the claim inserted whether this
/// request is the first under its key.
pub fn decide_claim(n_inserted_rows: u64) -> (decision: ClaimDecision)
    ensures
        decision == if n_inserted_rows > 0 {
            ClaimDecision::StartProcessing
        } else {
            ClaimDecision::ReturnSavedResponse
        },
{
    if n_inserted_rows > 0 {
        ClaimDecision::StartProcessing
    } else {
        ClaimDecision::ReturnSavedResponse
    }
}

/// What a row of claims holds in its response columns, if the row was found,
/// as a mathematical value.
pub open spec fn columns_view(row: Option<Option<SavedResponse>>) -> Option<Option<SavedColumns>> {
    match row {
        Some(Some(columns)) => Some(Some(columns@)),
        Some(None) => Some(None),
        None => None,
    }
}

/// What reading a claim answers, by what was found: nothing where there is
/// no row; the failure that says so where the row has no response yet; else
/// the response that the columns stand for, or why they stand for none.
pub open spec fn read_answer(row: Option<Option<SavedColumns>>) -> Result<
    Option<Response>,
    IdempotencyError,
> {
    match row {
        None => Ok(None),
        Some(None) => Err(IdempotencyError::NotYetCompleted),
        Some(Some(columns)) => match restored(columns) {
            Ok(r) => Ok(Some(r)),
            Err(e) => Err(IdempotencyError::CorruptResponse(e)),
        },
    }
}

/// What is found under `key` for `user_id`: no row, or the response columns
/// of the claim's row.
pub open spec fn found_row(rows: Seq<IdempotencyRow>, user_id: u128, key: Seq<char>) -> Option<
    Option<SavedColumns>,
> {
    if has_record(rows, user_id, key) {
        Some(rows[record_index(rows, user_id, key)].response)
    } else {
        None
    }
}

/// Whether `res` is the answer `answer`, taken as a mathematical value.
pub open spec fn is_read_answer(
    res: Result<Option<HttpResponse>, IdempotencyError>,
    answer: Result<Option<Response>, IdempotencyError>,
) -> bool {
    match answer {
        Ok(None) => res matches Ok(None),
        Ok(Some(r)) => res matches Ok(Some(response)) && response@ == r,
        Err(e) => res matches Err(failure) && failure == e,
    }
}

/// Reads what a query for a claim found. `row` is `None` where no row was
/// found, and else what the row holds in its response columns. A row without
/// a response is a failure: the claim is not completed. So are columns that
/// stand for no response.
pub fn restore_saved(row: Option<Option<SavedResponse>>) -> (res: Result<
    Option<HttpResponse>,
    IdempotencyError,
>)
    ensures
        is_read_answer(res, read_answer(columns_view(row))),
{
    match row {
        None => Ok(None),
        Some(None) => Err(IdempotencyError::NotYetCompleted),
        Some(Some(columns)) => match HttpResponse::from_saved(columns) {
            Ok(response) => Ok(Some(response)),
            Err(e) => Err(IdempotencyError::CorruptResponse(e)),
        },
    }
}

/// The response to answer under a key that is claimed: the saved one, or,
/// where none was saved, the failure that says so.
pub fn saved_or_incomplete(saved: Option<HttpResponse>) -> (res: Result<
    HttpResponse,
    IdempotencyError,
>)
    ensures
        match saved {
            Some(response) => res matches Ok(answer) && answer@ == response@,
            None => res == Err::<HttpResponse, IdempotencyError>(IdempotencyError::NotYetCompleted),
        },
{
    match saved {
        Some(response) => Ok(response),
        None => Err(IdempotencyError::NotYetCompleted),
    }
}

/// The response saved under the key for the user. A key that was never
/// claimed has none. A key that was claimed and not completed cannot be
/// read: the call fails with [`IdempotencyError::NotYetCompleted`]. The
/// store is only read.
pub fn get_seved_response(store: &Store, idempotency_key: &IdempotencyKey, user_id: u128) -> (res:
    Result<Option<HttpResponse>, IdempotencyError>)
    requires
        store@.wf(),
    ensures
        is_read_answer(res, read_answer(found_row(store@.idempotency, user_id, idempotency_key@))),
        res matches Ok(None) <==> !has_record(store@.idempotency, user_id, idempotency_key@),
{
    let key = idempotency_key.as_string();
    match find_record(&store.idempotency, user_id, key) {
        None => restore_saved(None),
        Some(i) => {
            let columns = match &store.idempotency[i].response {
                None => None,
                Some(columns) => Some(columns.duplicate()),
            };
            proof {
                lemma_record_index_is_unique(store@.idempotency, user_id, key@, i as int);
            }
            restore_saved(Some(columns))
        },
    }
}

/// Puts the claim of the key by the user in the store, unless the key is
/// claimed already, and tells how many rows were inserted: one or none.
pub fn insert_claim(
    store: &mut Store,
    idempotency_key: &IdempotencyKey,
    user_id: u128,
    now: u64,
) -> (n_inserted_rows: u64)
    requires
        old(store)@.wf(),
    ensures
        final(store)@.wf(),
        has_record(old(store)@.idempotency, user_id, idempotency_key@) ==> n_inserted_rows == 0
            && final(store)@ == old(store)@,
        !has_record(old(store)@.idempotency, user_id, idempotency_key@) ==> n_inserted_rows == 1
            && final(store)@ == with_idempotency(
            old(store)@,
            old(store)@.idempotency.push(claim_row(user_id, idempotency_key@, now)),
        ) && PendingWrites::begin(user_id, idempotency_key@).open_in(final(store)@),
{
    let key = idempotency_key.as_string();
    let ghost rows = store@.idempotency;
    match find_record(&store.idempotency, user_id, key) {
        Some(_) => 0,
        None => {
            store.idempotency.push(
                IdempotencyRecord {
                    user_id,
                    idempotency_key: key.clone(),
                    response: None,
                    created_at: now,
                },
            );
            proof {
                let after = store@.idempotency;
                let row = claim_row(user_id, key@, now);
                assert(after =~= rows.push(row));
                lemma_record_index_is_unique(after, user_id, key@, rows.len() as int);
            }
            1
        },
    }
}

/// Claims the key for the user, or finds what was answered under it.
///
/// Where nobody has claimed the key, a claim without a response is put in
/// the store and the caller gets the transaction in which to do the work.
/// Where the key is claimed, the store stays as it is: the saved response is
/// handed out, or, where none was saved, the call fails with
/// [`IdempotencyError::NotYetCompleted`].
///
/// A store that many requests share makes a request wait here while the
/// claim of another is open, and lets it go on when that claim is committed
/// or rolled back: the call is for the moment at which the store lets the
/// request go on. A claim that is found without a response then is one that
/// was left behind.
pub fn try_processing(
    store: &mut Store,
    idempotency_key: &IdempotencyKey,
    user_id: u128,
    now: u64,
) -> (res: Result<NextAction, IdempotencyError>)
    requires
        old(store)@.wf(),
    ensures
        final(store)@.wf(),
        !has_record(old(store)@.idempotency, user_id, idempotency_key@) ==> {
            &&& res matches Ok(NextAction::StartProcessing(tx))
            &&& tx@ == PendingWrites::begin(user_id, idempotency_key@)
            &&& tx@.open_in(final(store)@)
            &&& final(store)@ == with_idempotency(
                old(store)@,
                old(store)@.idempotency.push(claim_row(user_id, idempotency_key@, now)),
            )
        },
        has_record(old(store)@.idempotency, user_id, idempotency_key@) ==> {
            &&& final(store)@ == old(store)@
            &&& match replayed(old(store)@.idempotency, user_id, idempotency_key@) {
                Ok(r) => res matches Ok(NextAction::ReturnSavedResponse(response)) && response@
                    == r,
                Err(e) => res matches Err(failure) && failure == e,
            }
        },
{
    let n_inserted_rows: u64 = insert_claim(store, idempotency_key, user_id, now);
    match decide_claim(n_inserted_rows) {
        ClaimDecision::StartProcessing => {
            let tx = Transaction {
                user_id,
                idempotency_key: idempotency_key.as_string().clone(),
                issues: Vec::new(),
                tasks: Vec::new(),
            };
            proof {
                assert(tx@.issues =~= Seq::<IssueRow>::empty());
                assert(tx@.tasks =~= Seq::<TaskRow>::empty());
            }
            Ok(NextAction::StartProcessing(tx))
        },
        ClaimDecision::ReturnSavedResponse => {
            let saved = match get_seved_response(store, idempotency_key, user_id) {
                Ok(saved) => saved,
                Err(e) => {
                    return Err(e);
                },
            };
            match saved_or_incomplete(saved) {
                Ok(response) => Ok(NextAction::ReturnSavedResponse(response)),
                Err(e) => Err(e),
            }
        },
    }
}

/// Whether an issue with identifier `issue_id` is among `issues`.
pub fn issue_exists(issues: &Vec<NewsletterIssue>, issue_id: u128) -> (found: bool)
    ensures
        found == has_issue(issues_view(issues@), issue_id),
{
    let mut i: usize = 0;
    while i < issues.len()
        invariant
            i <= issues.len(),
            forall|j: int|
                0 <= j < i ==> (#[trigger] issues_view(issues@)[j]).newsletter_issue_id != issue_id,
        decreases issues.len() - i,
    {
        if issues[i].newsletter_issue_id == issue_id {
            assert(issues_view(issues@)[i as int].newsletter_issue_id == issue_id);
            return true;
        }
        i += 1;
    }
    false
}

/// Whether none of `pending` has an identifier that `issues` holds.
fn all_new(pending: &Vec<NewsletterIssue>, issues: &Vec<NewsletterIssue>) -> (ok: bool)
    ensures
        ok == (forall|i: int|
            0 <= i < pending.len() ==> !has_issue(
                issues_view(issues@),
                (#[trigger] issues_view(pending@)[i]).newsletter_issue_id,
            )),
{
    let mut i: usize = 0;
    while i < pending.len()
        invariant
            i <= pending.len(),
            forall|j: int|
                0 <= j < i ==> !has_issue(
                    issues_view(issues@),
                    (#[trigger] issues_view(pending@)[j]).newsletter_issue_id,
                ),
        decreases pending.len() - i,
    {
        if issue_exists(issues, pending[i].newsletter_issue_id) {
            assert(has_issue(
                issues_view(issues@),
                issues_view(pending@)[i as int].newsletter_issue_id,
            ));
            return false;
        }
        i += 1;
    }
    true
}

/// Ends `transaction` without a trace: its claim leaves the store, and what
/// it wrote is dropped. The key is free again.
pub fn rollback(store: &mut Store, transaction: Transaction)
    requires
        old(store)@.wf(),
        transaction@.open_in(old(store)@),
    ensures
        final(store)@.wf(),
        final(store)@ == rolled_back(old(store)@, transaction@),
        !has_record(
            final(store)@.idempotency,
            transaction@.user_id,
            transaction@.idempotency_key,
        ),
{
    let ghost rows = store@.idempotency;
    match find_record(&store.idempotency, transaction.user_id, &transaction.idempotency_key) {
        None => {},
        Some(i) => {
            let _ = store.idempotency.remove(i);
            proof {
                let after = store@.idempotency;
                assert(after =~= rows.remove(i as int));
            }
        },
    }
}

/// Saves `http_response` under the claim of `transaction` and commits, all
/// at once: the claim is completed, and the issues and tasks that the
/// transaction wrote enter their tables. The response is handed back as it
/// came, so what was saved is what the client gets.
///
/// Where an issue of the transaction has an identifier that the store has
/// taken meanwhile, nothing is committed: the transaction is rolled back and
/// the call fails.
pub fn save_response(store: &mut Store, transaction: Transaction, http_response: HttpResponse) -> (res:
    Result<HttpResponse, IdempotencyError>)
    requires
        old(store)@.wf(),
        transaction@.wf(),
        transaction@.open_in(old(store)@),
    ensures
        final(store)@.wf(),
        transaction@.issues_are_new(old(store)@.newsletter_issues) ==> {
            &&& res matches Ok(response)
            &&& response@ == http_response@
            &&& final(store)@ == committed(old(store)@, transaction@, http_response@)
            &&& replayed(
                final(store)@.idempotency,
                transaction@.user_id,
                transaction@.idempotency_key,
            ) == Ok::<Response, IdempotencyError>(http_response@)
        },
        !transaction@.issues_are_new(old(store)@.newsletter_issues) ==> {
            &&& res matches Err(IdempotencyError::Storage(StorageError::DuplicateIssue))
            &&& final(store)@ == rolled_back(old(store)@, transaction@)
        },
{
    let ghost before = store@;
    let ghost pending = transaction@;
    if !all_new(&transaction.issues, &store.newsletter_issues) {
        rollback(store, transaction);
        return Err(IdempotencyError::Storage(StorageError::DuplicateIssue));
    }
    let mut transaction = transaction;
    match find_record(&store.idempotency, transaction.user_id, &transaction.idempotency_key) {
        None => {},
        Some(i) => {
            let saved = http_response.to_saved();
            let completed = IdempotencyRecord {
                user_id: transaction.user_id,
                idempotency_key: transaction.idempotency_key.clone(),
                response: Some(saved),
                created_at: store.idempotency[i].created_at,
            };
            store.idempotency.set(i, completed);
            store.newsletter_issues.append(&mut transaction.issues);
            store.issue_delivery_queue.append(&mut transaction.tasks);
            proof {
                let after = store@;
                let rows = before.idempotency;
                assert(after.idempotency =~= rows.update(
                    i as int,
                    completed_row(rows[i as int], saved_columns(http_response@)),
                ));
                assert(after.newsletter_issues =~= before.newsletter_issues + pending.issues);
                assert(after.issue_delivery_queue =~= before.issue_delivery_queue
                    + pending.tasks);
                lemma_commit_keeps_schema(before, pending, http_response@);
                lemma_record_index_is_unique(
                    after.idempotency,
                    pending.user_id,
                    pending.idempotency_key,
                    i as int,
                );
            }
        },
    }
    Ok(http_response)
}

/// Committing a transaction whose issues are new keeps the schema.
pub proof fn lemma_commit_keeps_schema(tables: Tables, pending: PendingWrites, response: Response)
    requires
        tables.wf(),
        pending.wf(),
        pending.open_in(tables),
        pending.issues_are_new(tables.newsletter_issues),
    ensures
        committed(tables, pending, response).wf(),
{
    let after = committed(tables, pending, response);
    let old_issues = tables.newsletter_issues;
    let issues = after.newsletter_issues;
    let old_q = tables.issue_delivery_queue;
    let q = after.issue_delivery_queue;
    assert forall|a: int| 0 <= a < q.len() implies has_issue(
        issues,
        (#[trigger] q[a]).newsletter_issue_id,
    ) by {
        if a < old_q.len() {
            let k = choose|k: int|
                0 <= k < old_issues.len() && (#[trigger] old_issues[k]).newsletter_issue_id
                    == old_q[a].newsletter_issue_id;
            assert(issues[k].newsletter_issue_id == q[a].newsletter_issue_id);
        } else {
            let pa = a - old_q.len();
            let k = choose|k: int|
                0 <= k < pending.issues.len() && (
                #[trigger] pending.issues[k]).newsletter_issue_id
                    == pending.tasks[pa].newsletter_issue_id;
            assert(issues[old_issues.len() + k].newsletter_issue_id == q[a].newsletter_issue_id);
        }
    }
}

} // verus!
