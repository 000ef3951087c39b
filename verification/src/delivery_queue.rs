//! The delivery queue: one row for each recipient that still needs an issue.
//!
//! A worker takes a row by locking it; rows that another worker holds are
//! passed over. Whoever holds a row ends by deleting it, by putting it back
//! for a later attempt, by purging the recipient, or by letting it go
//! unchanged. A purge removes every row of its recipient, also those that
//! other workers hold: when such a worker ends, its row is gone and its last
//! statement changes nothing.
use crate::store::issue_ids_unique;
use crate::store::issue_index;
use crate::store::issue_with_id;
use crate::store::issues_view;
use crate::store::tasks_view;
use crate::store::task_keys_unique;
use crate::store::task_matches;
use crate::store::tasks_refer_to_issues;
use crate::store::has_issue;
use crate::store::DeliveryTask;
use crate::store::IssueRow;
use crate::store::NewsletterIssue;
use crate::store::StorageError;
use crate::store::Store;
use crate::store::Tables;
use crate::store::TaskRow;
use vstd::prelude::*;

verus! {

/// The row that a delivery transaction holds, named by its key.
pub struct Lease {
    pub newsletter_issue_id: u128,
    pub subscriber_email: Seq<char>,
}

/// A transaction that holds one locked row of the queue.
#[derive(Debug)]
pub struct DeliveryTransaction {
    newsletter_issue_id: u128,
    subscriber_email: String,
}

impl View for DeliveryTransaction {
    type V = Lease;

    closed spec fn view(&self) -> Lease {
        Lease {
            newsletter_issue_id: self.newsletter_issue_id,
            subscriber_email: self.subscriber_email@,
        }
    }
}

/// Whether `t` can be taken at `now`: nobody holds it and its time has come.
pub open spec fn is_ready(t: TaskRow, now: u64) -> bool {
    !t.locked && t.next_retry <= now
}

/// Whether some row of `q` can be taken at `now`.
pub open spec fn has_ready(q: Seq<TaskRow>, now: u64) -> bool {
    exists|i: int| 0 <= i < q.len() && is_ready(#[trigger] q[i], now)
}

/// Whether `i` is the row that is taken at `now`: a ready row with the least
/// `next_retry`, and the first of those in the table.
pub open spec fn is_next_ready(q: Seq<TaskRow>, now: u64, i: int) -> bool {
    &&& 0 <= i < q.len()
    &&& is_ready(q[i], now)
    &&& forall|j: int|
        0 <= j < q.len() && is_ready(#[trigger] q[j], now) ==> q[i].next_retry < q[j].next_retry
            || (q[i].next_retry == q[j].next_retry && i <= j)
}

/// The place of the row that is taken at `now`, where there is one.
pub open spec fn next_ready(q: Seq<TaskRow>, now: u64) -> int {
    choose|i: int| is_next_ready(q, now, i)
}

/// `t`, held.
pub open spec fn locked_row(t: TaskRow) -> TaskRow {
    TaskRow { locked: true, ..t }
}

/// `t`, free, to be tried again at `next_retry`.
pub open spec fn retry_row(t: TaskRow, next_retry: u64) -> TaskRow {
    TaskRow { next_retry, locked: false, ..t }
}

/// `t`, free and otherwise as it was.
pub open spec fn released_row(t: TaskRow) -> TaskRow {
    TaskRow { locked: false, ..t }
}

/// The queue after a worker has taken a row at `now`: the row that
/// [`next_ready`] names is held, the others are as they were.
pub open spec fn dequeued(q: Seq<TaskRow>, now: u64) -> Seq<TaskRow> {
    if has_ready(q, now) {
        q.update(next_ready(q, now), locked_row(q[next_ready(q, now)]))
    } else {
        q
    }
}

/// The key of the row that is taken at `now`.
pub open spec fn dequeued_lease(q: Seq<TaskRow>, now: u64) -> Lease {
    Lease {
        newsletter_issue_id: q[next_ready(q, now)].newsletter_issue_id,
        subscriber_email: q[next_ready(q, now)].subscriber_email,
    }
}

/// Whether `q` has the row that `lease` names.
pub open spec fn has_task(q: Seq<TaskRow>, lease: Lease) -> bool {
    exists|i: int|
        0 <= i < q.len() && task_matches(
            #[trigger] q[i],
            lease.newsletter_issue_id,
            lease.subscriber_email,
        )
}

/// The place of the row that `lease` names.
pub open spec fn task_index(q: Seq<TaskRow>, lease: Lease) -> int {
    choose|i: int|
        0 <= i < q.len() && task_matches(
            #[trigger] q[i],
            lease.newsletter_issue_id,
            lease.subscriber_email,
        )
}

/// Whether the row that `lease` names is in `q` and held.
pub open spec fn holds_lease(q: Seq<TaskRow>, lease: Lease) -> bool {
    exists|i: int|
        0 <= i < q.len() && task_matches(
            #[trigger] q[i],
            lease.newsletter_issue_id,
            lease.subscriber_email,
        ) && q[i].locked
}

/// The queue without the row that `lease` names.
pub open spec fn deleted(q: Seq<TaskRow>, lease: Lease) -> Seq<TaskRow> {
    if has_task(q, lease) {
        q.remove(task_index(q, lease))
    } else {
        q
    }
}

/// The queue with the row that `lease` names free again and due at
/// `next_retry`.
pub open spec fn requeued(q: Seq<TaskRow>, lease: Lease, next_retry: u64) -> Seq<TaskRow> {
    if has_task(q, lease) {
        q.update(task_index(q, lease), retry_row(q[task_index(q, lease)], next_retry))
    } else {
        q
    }
}

/// Whether the time `delay` after `now` is one that the store can hold.
pub open spec fn retry_fits(now: u64, delay: u64) -> bool {
    now + delay <= u64::MAX
}

/// The queue after the holder of `lease` has put its row back at `now` for
/// an attempt `delay` later. Where the store cannot hold that time, the
/// statement fails, and the row is let go as it was.
pub open spec fn put_back(q: Seq<TaskRow>, lease: Lease, now: u64, delay: u64) -> Seq<TaskRow> {
    if retry_fits(now, delay) {
        requeued(q, lease, (now + delay) as u64)
    } else {
        released(q, lease)
    }
}

/// The queue with the row that `lease` names free again and otherwise
/// unchanged.
pub open spec fn released(q: Seq<TaskRow>, lease: Lease) -> Seq<TaskRow> {
    if has_task(q, lease) {
        q.update(task_index(q, lease), released_row(q[task_index(q, lease)]))
    } else {
        q
    }
}

/// Whether `t` stays when the holder of `lease` purges its recipient: the
/// rows for other addresses stay, and no others.
pub open spec fn purge_keeps(t: TaskRow, lease: Lease) -> bool {
    t.subscriber_email != lease.subscriber_email
}

/// Whether some row of `q` is for the address `email`, whatever the issue.
pub open spec fn has_task_for(q: Seq<TaskRow>, email: Seq<char>) -> bool {
    exists|i: int| 0 <= i < q.len() && (#[trigger] q[i]).subscriber_email == email
}

/// [`purge_keeps`] as a predicate on rows.
pub open spec fn purge_filter(lease: Lease) -> spec_fn(TaskRow) -> bool {
    |t: TaskRow| purge_keeps(t, lease)
}

/// The queue after the holder of `lease` has purged its recipient: the rows
/// for other addresses, in their order.
pub open spec fn purged(q: Seq<TaskRow>, lease: Lease) -> Seq<TaskRow> {
    q.filter(purge_filter(lease))
}

/// `tables` with `q` as its queue.
pub open spec fn with_queue(tables: Tables, q: Seq<TaskRow>) -> Tables {
    Tables { issue_delivery_queue: q, ..tables }
}

/// With one row for each key, only one place can hold the row of a lease.
pub proof fn lemma_task_index_is_unique(q: Seq<TaskRow>, lease: Lease, i: int)
    requires
        task_keys_unique(q),
        0 <= i < q.len(),
        task_matches(q[i], lease.newsletter_issue_id, lease.subscriber_email),
    ensures
        has_task(q, lease),
        task_index(q, lease) == i,
{
}

/// The key of the row `t`.
pub open spec fn lease_of(t: TaskRow) -> Lease {
    Lease { newsletter_issue_id: t.newsletter_issue_id, subscriber_email: t.subscriber_email }
}

/// Whether `i` is the row that would be taken if the queue ended before
/// place `n`.
pub open spec fn is_least_ready_below(q: Seq<TaskRow>, now: u64, n: int, i: int) -> bool {
    &&& 0 <= i < n
    &&& is_ready(q[i], now)
    &&& forall|j: int|
        0 <= j < n && is_ready(#[trigger] q[j], now) ==> q[i].next_retry < q[j].next_retry || (
        q[i].next_retry == q[j].next_retry && i <= j)
}

/// Among the rows before place `n`, if one is ready, one is taken first.
pub proof fn lemma_least_ready(q: Seq<TaskRow>, now: u64, n: int, k: int)
    requires
        0 <= k < n <= q.len(),
        is_ready(q[k], now),
    ensures
        exists|i: int| is_least_ready_below(q, now, n, i),
    decreases n,
{
    if exists|m: int| 0 <= m < n - 1 && is_ready(#[trigger] q[m], now) {
        let m = choose|m: int| 0 <= m < n - 1 && is_ready(#[trigger] q[m], now);
        let shorter = n - 1;
        lemma_least_ready(q, now, shorter, m);
        let b = choose|b: int| is_least_ready_below(q, now, shorter, b);
        if is_ready(q[n - 1], now) && q[n - 1].next_retry < q[b].next_retry {
            assert(is_least_ready_below(q, now, n, n - 1));
        } else {
            assert(is_least_ready_below(q, now, n, b));
        }
    } else {
        assert(is_least_ready_below(q, now, n, k));
    }
}

/// Where some row is ready, one of the ready rows is the one that is taken.
pub proof fn lemma_some_ready_is_next(q: Seq<TaskRow>, now: u64)
    requires
        has_ready(q, now),
    ensures
        is_next_ready(q, now, next_ready(q, now)),
{
    let k = choose|k: int| 0 <= k < q.len() && is_ready(#[trigger] q[k], now);
    lemma_least_ready(q, now, q.len() as int, k);
    let i = choose|i: int| is_least_ready_below(q, now, q.len() as int, i);
    assert(is_next_ready(q, now, i));
}

/// Changing when a row is due, or who holds it, keeps the keys and the
/// references of the queue.
pub proof fn lemma_update_keeps_keys(q: Seq<TaskRow>, issues: Seq<IssueRow>, i: int, t: TaskRow)
    requires
        task_keys_unique(q),
        tasks_refer_to_issues(q, issues),
        0 <= i < q.len(),
        lease_of(t) == lease_of(q[i]),
    ensures
        task_keys_unique(q.update(i, t)),
        tasks_refer_to_issues(q.update(i, t), issues),
        forall|l: Lease| has_task(q.update(i, t), l) == has_task(q, l),
{
    let u = q.update(i, t);
    assert forall|l: Lease| has_task(u, l) == has_task(q, l) by {
        if has_task(q, l) {
            let j = choose|j: int|
                0 <= j < q.len() && task_matches(
                    #[trigger] q[j],
                    l.newsletter_issue_id,
                    l.subscriber_email,
                );
            assert(task_matches(u[j], l.newsletter_issue_id, l.subscriber_email));
        }
    }
}

/// What a purge leaves: no row for the purged address, and every row for
/// another address, as it was, each key still once, each task still for an
/// issue that exists.
pub proof fn lemma_purged_keeps_keys(q: Seq<TaskRow>, issues: Seq<IssueRow>, lease: Lease)
    requires
        task_keys_unique(q),
        tasks_refer_to_issues(q, issues),
    ensures
        task_keys_unique(purged(q, lease)),
        tasks_refer_to_issues(purged(q, lease), issues),
        purged(q, lease).len() <= q.len(),
        !has_task_for(purged(q, lease), lease.subscriber_email),
        !has_task(purged(q, lease), lease),
        forall|i: int|
            0 <= i < purged(q, lease).len() ==> q.contains(#[trigger] purged(q, lease)[i])
                && purge_keeps(purged(q, lease)[i], lease),
        forall|i: int|
            0 <= i < q.len() && purge_keeps(#[trigger] q[i], lease) ==> purged(q, lease).contains(
                q[i],
            ),
    decreases q.len(),
{
    if q.len() > 0 {
        let front = q.drop_last();
        let last = q.last();
        assert(q =~= front.push(last));
        front.lemma_filter_push(last, purge_filter(lease));
        assert(task_keys_unique(front) && tasks_refer_to_issues(front, issues));
        lemma_purged_keeps_keys(front, issues, lease);
    }
}

/// A purge of an address that has no row in the queue changes nothing.
pub proof fn lemma_purge_of_absent_address(q: Seq<TaskRow>, lease: Lease)
    requires
        !has_task_for(q, lease.subscriber_email),
    ensures
        purged(q, lease) == q,
    decreases q.len(),
{
    reveal(Seq::filter);
    if q.len() > 0 {
        let front = q.drop_last();
        let last = q.last();
        assert(q =~= front.push(last));
        assert forall|i: int| 0 <= i < front.len() implies (#[trigger] front[i]).subscriber_email
            != lease.subscriber_email by {
            assert(front[i] == q[i]);
        }
        lemma_purge_of_absent_address(front, lease);
        assert(purge_keeps(last, lease));
    } else {
        assert(purged(q, lease) =~= q);
    }
}

impl DeliveryTransaction {
    /// The issue of the row that this transaction holds.
    pub fn newsletter_issue_id(&self) -> (id: u128)
        ensures
            id == self@.newsletter_issue_id,
    {
        self.newsletter_issue_id
    }

    /// The address of the row that this transaction holds.
    pub fn subscriber_email(&self) -> (email: &String)
        ensures
            email@ == self@.subscriber_email,
    {
        &self.subscriber_email
    }
}

/// The place of the row with the given key, if the queue has it.
fn find_task(queue: &Vec<DeliveryTask>, issue_id: u128, email: &String) -> (found: Option<usize>)
    ensures
        found matches Some(i) ==> i < queue.len() && task_matches(
            tasks_view(queue@)[i as int],
            issue_id,
            email@,
        ),
        found is None ==> !has_task(
            tasks_view(queue@),
            Lease { newsletter_issue_id: issue_id, subscriber_email: email@ },
        ),
{
    let mut i: usize = 0;
    while i < queue.len()
        invariant
            i <= queue.len(),
            forall|j: int|
                0 <= j < i ==> !task_matches(#[trigger] tasks_view(queue@)[j], issue_id, email@),
        decreases queue.len() - i,
    {
        if queue[i].newsletter_issue_id == issue_id && queue[i].subscriber_email == *email {
            return Some(i);
        }
        i += 1;
    }
    None
}

/// The place of the row that is taken at `now`, if a row is ready.
fn find_next_ready(queue: &Vec<DeliveryTask>, now: u64) -> (found: Option<usize>)
    ensures
        found is Some <==> has_ready(tasks_view(queue@), now),
        found matches Some(i) ==> is_next_ready(tasks_view(queue@), now, i as int),
{
    let ghost q = tasks_view(queue@);
    let mut best: Option<usize> = None;
    let mut i: usize = 0;
    while i < queue.len()
        invariant
            i <= queue.len(),
            q == tasks_view(queue@),
            best is None ==> forall|j: int| 0 <= j < i ==> !is_ready(#[trigger] q[j], now),
            best matches Some(b) ==> {
                &&& b < i
                &&& is_ready(q[b as int], now)
                &&& forall|j: int|
                    0 <= j < i && is_ready(#[trigger] q[j], now) ==> q[b as int].next_retry
                        < q[j].next_retry || (q[b as int].next_retry == q[j].next_retry && b <= j)
            },
        decreases queue.len() - i,
    {
        if !queue[i].locked && queue[i].next_retry <= now {
            match best {
                None => {
                    best = Some(i);
                },
                Some(b) => {
                    if queue[i].next_retry < queue[b].next_retry {
                        best = Some(i);
                    }
                },
            }
        }
        i += 1;
    }
    best
}

/// Takes the row that is due first among those that no transaction holds,
/// and holds it. Rows that another transaction holds are passed over, so no
/// row is ever handed to two transactions at once.
pub fn dequeue_taks(store: &mut Store, now: u64) -> (res: Option<
    (DeliveryTransaction, u128, String),
>)
    requires
        old(store)@.wf(),
    ensures
        final(store)@.wf(),
        final(store)@ == with_queue(old(store)@, dequeued(old(store)@.issue_delivery_queue, now)),
        res is Some <==> has_ready(old(store)@.issue_delivery_queue, now),
        res matches Some((tx, issue_id, email)) ==> {
            &&& tx@ == dequeued_lease(old(store)@.issue_delivery_queue, now)
            &&& issue_id == tx@.newsletter_issue_id
            &&& email@ == tx@.subscriber_email
            &&& !holds_lease(old(store)@.issue_delivery_queue, tx@)
            &&& holds_lease(final(store)@.issue_delivery_queue, tx@)
        },
{
    let ghost q = store@.issue_delivery_queue;
    match find_next_ready(&store.issue_delivery_queue, now) {
        None => None,
        Some(i) => {
            let issue_id: u128 = store.issue_delivery_queue[i].newsletter_issue_id;
            let email = store.issue_delivery_queue[i].subscriber_email.clone();
            let held = DeliveryTask {
                newsletter_issue_id: issue_id,
                subscriber_email: store.issue_delivery_queue[i].subscriber_email.clone(),
                next_retry: store.issue_delivery_queue[i].next_retry,
                locked: true,
            };
            store.issue_delivery_queue.set(i, held);
            let tx = DeliveryTransaction {
                newsletter_issue_id: issue_id,
                subscriber_email: email.clone(),
            };
            proof {
                let after = store@.issue_delivery_queue;
                assert(after =~= q.update(i as int, locked_row(q[i as int])));
                assert(task_matches(after[i as int], issue_id, email@) && after[i as int].locked);
            }
            Some((tx, issue_id, email))
        },
    }
}

/// Removes the row that `tx` holds and ends the transaction: the task is
/// done. Where the row is gone, because its recipient was purged meanwhile,
/// nothing changes.
pub fn delete_task(store: &mut Store, tx: DeliveryTransaction)
    requires
        old(store)@.wf(),
    ensures
        final(store)@.wf(),
        final(store)@ == with_queue(old(store)@, deleted(old(store)@.issue_delivery_queue, tx@)),
        has_task(old(store)@.issue_delivery_queue, tx@) ==> final(store)@.issue_delivery_queue.len()
            + 1 == old(store)@.issue_delivery_queue.len(),
        !has_task(final(store)@.issue_delivery_queue, tx@),
{
    let ghost q = store@.issue_delivery_queue;
    match find_task(&store.issue_delivery_queue, tx.newsletter_issue_id, &tx.subscriber_email) {
        None => {
        },
        Some(i) => {
            let _ = store.issue_delivery_queue.remove(i);
            proof {
                lemma_task_index_is_unique(q, tx@, i as int);
                assert(store@.issue_delivery_queue =~= q.remove(i as int));
            }
        },
    }
}

/// Puts the row that `tx` holds back, due `delay` after `now`, and ends the
/// transaction: the task stays in the queue. Where the store cannot hold
/// that time, the call fails and the row is let go as it was. Where the row
/// is gone, because its recipient was purged meanwhile, nothing changes.
pub fn requeue_taks(store: &mut Store, tx: DeliveryTransaction, now: u64, delay: u64) -> (res:
    Result<(), StorageError>)
    requires
        old(store)@.wf(),
    ensures
        final(store)@.wf(),
        final(store)@ == with_queue(
            old(store)@,
            put_back(old(store)@.issue_delivery_queue, tx@, now, delay),
        ),
        retry_fits(now, delay) ==> res == Ok::<(), StorageError>(()),
        !retry_fits(now, delay) ==> res == Err::<(), StorageError>(
            StorageError::TimestampOutOfRange,
        ),
        has_task(final(store)@.issue_delivery_queue, tx@) == has_task(
            old(store)@.issue_delivery_queue,
            tx@,
        ),
        !holds_lease(final(store)@.issue_delivery_queue, tx@),
{
    let next_retry: u64 = match now.checked_add(delay) {
        Some(next_retry) => next_retry,
        None => {
            release_task(store, tx);
            return Err(StorageError::TimestampOutOfRange);
        },
    };
    let ghost q = store@.issue_delivery_queue;
    match find_task(&store.issue_delivery_queue, tx.newsletter_issue_id, &tx.subscriber_email) {
        None => {
        },
        Some(i) => {
            let put_back = DeliveryTask {
                newsletter_issue_id: tx.newsletter_issue_id,
                subscriber_email: tx.subscriber_email,
                next_retry,
                locked: false,
            };
            store.issue_delivery_queue.set(i, put_back);
            proof {
                let after = store@.issue_delivery_queue;
                lemma_task_index_is_unique(q, tx@, i as int);
                assert(after =~= q.update(i as int, retry_row(q[i as int], next_retry)));
                lemma_update_keeps_keys(
                    q,
                    store@.newsletter_issues,
                    i as int,
                    retry_row(q[i as int], next_retry),
                );
            }
        },
    }
    Ok(())
}

/// Lets the row that `tx` holds go, unchanged, and ends the transaction: a
/// later dequeue finds the task as it was. Where the row is gone, because its
/// recipient was purged meanwhile, nothing changes.
pub fn release_task(store: &mut Store, tx: DeliveryTransaction)
    requires
        old(store)@.wf(),
    ensures
        final(store)@.wf(),
        final(store)@ == with_queue(old(store)@, released(old(store)@.issue_delivery_queue, tx@)),
        has_task(final(store)@.issue_delivery_queue, tx@) == has_task(
            old(store)@.issue_delivery_queue,
            tx@,
        ),
        !holds_lease(final(store)@.issue_delivery_queue, tx@),
{
    let ghost q = store@.issue_delivery_queue;
    match find_task(&store.issue_delivery_queue, tx.newsletter_issue_id, &tx.subscriber_email) {
        None => {
        },
        Some(i) => {
            let free = DeliveryTask {
                newsletter_issue_id: tx.newsletter_issue_id,
                subscriber_email: tx.subscriber_email,
                next_retry: store.issue_delivery_queue[i].next_retry,
                locked: false,
            };
            store.issue_delivery_queue.set(i, free);
            proof {
                let after = store@.issue_delivery_queue;
                lemma_task_index_is_unique(q, tx@, i as int);
                assert(after =~= q.update(i as int, released_row(q[i as int])));
                lemma_update_keeps_keys(
                    q,
                    store@.newsletter_issues,
                    i as int,
                    released_row(q[i as int]),
                );
                assert forall|j: int|
                    0 <= j < after.len() && task_matches(
                        #[trigger] after[j],
                        tx@.newsletter_issue_id,
                        tx@.subscriber_email,
                    ) implies !after[j].locked by {
                    lemma_task_index_is_unique(after, tx@, j);
                    lemma_task_index_is_unique(after, tx@, i as int);
                }
            }
        },
    }
}

/// Removes every task for the address of the row that `tx` holds, whatever
/// the issue and whoever holds it, and ends the transaction. Rows for other
/// addresses are not touched.
pub fn delete_tasks_for_subscriber(store: &mut Store, tx: DeliveryTransaction)
    requires
        old(store)@.wf(),
    ensures
        final(store)@.wf(),
        final(store)@ == with_queue(old(store)@, purged(old(store)@.issue_delivery_queue, tx@)),
        !has_task_for(final(store)@.issue_delivery_queue, tx@.subscriber_email),
        !has_task(final(store)@.issue_delivery_queue, tx@),
{
    let ghost q = store@.issue_delivery_queue;
    let ghost lease = tx@;
    let ghost mut k: int = 0;
    let mut i: usize = 0;
    proof {
        reveal(Seq::filter);
    }
    while i < store.issue_delivery_queue.len()
        invariant
            0 <= k <= q.len(),
            lease == tx@,
            i == purged(q.take(k), lease).len(),
            store@.issue_delivery_queue == purged(q.take(k), lease) + q.skip(k),
            store@ == with_queue(old(store)@, store@.issue_delivery_queue),
        decreases q.len() - k,
    {
        proof {
            assert(store@.issue_delivery_queue[i as int] == q.skip(k)[0]);
            assert(q.take(k + 1) =~= q.take(k).push(q[k]));
            q.take(k).lemma_filter_push(q[k], purge_filter(lease));
        }
        let ghost before = store@.issue_delivery_queue;
        if store.issue_delivery_queue[i].subscriber_email == tx.subscriber_email {
            let _ = store.issue_delivery_queue.remove(i);
            proof {
                assert(store@.issue_delivery_queue =~= before.remove(i as int));
                k = k + 1;
            }
        } else {
            proof {
                k = k + 1;
            }
            i += 1;
        }
    }
    proof {
        assert(q.take(k) =~= q);
        lemma_purged_keeps_keys(q, store@.newsletter_issues, lease);
    }
}

/// The issue with identifier `issue_id`, as the transaction reads it.
pub fn get_issue(store: &Store, tx: &DeliveryTransaction, issue_id: u128) -> (res: Option<
    NewsletterIssue,
>)
    ensures
        res is Some <==> has_issue(store@.newsletter_issues, issue_id),
        res matches Some(issue) ==> issue@.newsletter_issue_id == issue_id
            && store@.newsletter_issues.contains(issue@),
        res matches Some(issue) ==> (issue_ids_unique(store@.newsletter_issues) ==> issue@
            == issue_with_id(store@.newsletter_issues, issue_id)),
        store@.wf() && has_task(store@.issue_delivery_queue, tx@) && issue_id
            == tx@.newsletter_issue_id ==> res is Some,
{
    let ghost issues = store@.newsletter_issues;
    let mut i: usize = 0;
    while i < store.newsletter_issues.len()
        invariant
            i <= store.newsletter_issues.len(),
            issues == issues_view(store.newsletter_issues@),
            forall|j: int| 0 <= j < i ==> (#[trigger] issues[j]).newsletter_issue_id != issue_id,
        decreases store.newsletter_issues.len() - i,
    {
        if store.newsletter_issues[i].newsletter_issue_id == issue_id {
            let issue = store.newsletter_issues[i].duplicate();
            proof {
                if issue_ids_unique(issues) {
                    let k = issue_index(issues, issue_id);
                    if k < i {
                        assert(issues[k].newsletter_issue_id != issues[i as int].newsletter_issue_id);
                    } else if i < k {
                        assert(issues[i as int].newsletter_issue_id != issues[k].newsletter_issue_id);
                    }
                }
            }
            return Some(issue);
        }
        i += 1;
    }
    None
}

} // verus!
