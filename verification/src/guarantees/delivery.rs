//! Every task is delivered at most once, by one worker at a time.
//!
//! Workers are followed step by step: a worker takes a task, and later the
//! same worker settles it or lets it go. The steps of any number of workers
//! may come in any order; a step is allowed when the worker that makes it
//! holds the task it speaks of, or when the recipient of that task was purged
//! meanwhile, so that the step changes nothing.
use crate::delivery_queue::dequeued;
use crate::delivery_queue::dequeued_lease;
use crate::delivery_queue::has_ready;
use crate::delivery_queue::has_task;
use crate::delivery_queue::has_task_for;
use crate::delivery_queue::holds_lease;
use crate::delivery_queue::is_ready;
use crate::delivery_queue::lease_of;
use crate::delivery_queue::lemma_purge_of_absent_address;
use crate::delivery_queue::lemma_purged_keeps_keys;
use crate::delivery_queue::lemma_some_ready_is_next;
use crate::delivery_queue::next_ready;
use crate::delivery_queue::purged;
use crate::delivery_queue::released;
use crate::delivery_queue::released_row;
use crate::delivery_queue::retry_fits;
use crate::delivery_queue::retry_row;
use crate::delivery_queue::task_index;
use crate::delivery_queue::Lease;
use crate::domain::subscriber_email::is_valid_email;
use crate::email_client::Email;
use crate::issue_delivery_worker::executed_result;
use crate::issue_delivery_worker::handed_over_by_poll;
use crate::issue_delivery_worker::executed;
use crate::issue_delivery_worker::settled;
use crate::issue_delivery_worker::settled_result;
use crate::issue_delivery_worker::ExecutionFailure;
use crate::issue_delivery_worker::ExecutionOutcome;
use crate::issue_delivery_worker::SendResult;
use crate::issue_delivery_worker::WorkerPolicy;
use crate::issue_delivery_worker::TIMESTAMP_OUT_OF_RANGE;
use crate::store::task_keys_unique;
use crate::store::task_matches;
use crate::store::tasks_refer_to_issues;
use crate::store::IssueRow;
use crate::store::Tables;
use crate::store::TaskRow;
use vstd::prelude::*;

verus! {

/// One step of one worker.
pub enum QueueStep {
    /// A worker polls the queue at `now` and takes the task that is due
    /// first, if one is ready.
    Take { now: u64 },
    /// The worker that holds `lease` deals with its task, the sender having
    /// answered `sent` if it was asked.
    Settle { lease: Lease, sent: SendResult, now: u64, retry_delay: u64 },
    /// The worker that holds `lease` lets its task go unchanged.
    Release { lease: Lease },
}

/// Whether the task `lease` was purged from `q` under its holder: its
/// address is no address, and nothing for that address is left.
pub open spec fn was_purged(q: Seq<TaskRow>, lease: Lease) -> bool {
    !is_valid_email(lease.subscriber_email) && !has_task_for(q, lease.subscriber_email)
}

/// Whether `step` can be made on `q`: to settle a task or let it go, the
/// worker must hold it, unless another worker has purged it meanwhile.
pub open spec fn step_allowed(q: Seq<TaskRow>, step: QueueStep) -> bool {
    match step {
        QueueStep::Take { .. } => true,
        QueueStep::Settle { lease, .. } => holds_lease(q, lease) || was_purged(q, lease),
        QueueStep::Release { lease } => holds_lease(q, lease) || was_purged(q, lease),
    }
}

/// The queue after `step`.
pub open spec fn after_step(q: Seq<TaskRow>, step: QueueStep) -> Seq<TaskRow> {
    match step {
        QueueStep::Take { now } => dequeued(q, now),
        QueueStep::Settle { lease, sent, now, retry_delay } => settled(
            q,
            lease,
            sent,
            now,
            retry_delay,
        ),
        QueueStep::Release { lease } => released(q, lease),
    }
}

/// The queue after the first `n` of `steps`.
pub open spec fn queue_after(q: Seq<TaskRow>, steps: Seq<QueueStep>, n: nat) -> Seq<TaskRow>
    decreases n,
{
    if n == 0 {
        q
    } else {
        after_step(queue_after(q, steps, (n - 1) as nat), steps[n - 1])
    }
}

/// Whether each of `steps` is allowed when it is made.
pub open spec fn steps_allowed(q: Seq<TaskRow>, steps: Seq<QueueStep>) -> bool {
    forall|n: nat|
        n < steps.len() ==> step_allowed(queue_after(q, steps, n), #[trigger] steps[n as int])
}

/// Whether `step` hands an email to the sender with success: the address is
/// valid and the sender took the email.
pub open spec fn is_completion(step: QueueStep) -> bool {
    step matches QueueStep::Settle { lease, sent, .. } && is_valid_email(lease.subscriber_email)
        && sent is Delivered
}

/// Whether `step` ends the task `lease` for good: it is delivered, or its
/// recipient is purged.
pub open spec fn ends_task(step: QueueStep, lease: Lease) -> bool {
    step matches QueueStep::Settle { lease: held, sent, .. } && held == lease && (!is_valid_email(
        lease.subscriber_email,
    ) || sent is Delivered)
}

/// Whether `step` purges a recipient: the worker has found an address that
/// is no address.
pub open spec fn is_purge(step: QueueStep) -> bool {
    step matches QueueStep::Settle { lease, .. } && !is_valid_email(lease.subscriber_email)
}

/// Whether `step` is made by the holder of `lease`.
pub open spec fn step_of_holder(step: QueueStep, lease: Lease) -> bool {
    match step {
        QueueStep::Take { .. } => false,
        QueueStep::Settle { lease: held, .. } => held == lease,
        QueueStep::Release { lease: held } => held == lease,
    }
}

/// How many of the first `n` of `steps` are successful deliveries.
pub open spec fn completions(steps: Seq<QueueStep>, n: nat) -> nat
    decreases n,
{
    if n == 0 {
        0
    } else {
        completions(steps, (n - 1) as nat) + if is_completion(steps[n - 1]) {
            1nat
        } else {
            0nat
        }
    }
}

/// How many rows the purges among the first `n` of `steps` remove.
pub open spec fn purged_rows(q: Seq<TaskRow>, steps: Seq<QueueStep>, n: nat) -> nat
    decreases n,
{
    if n == 0 {
        0
    } else {
        purged_rows(q, steps, (n - 1) as nat) + if is_purge(steps[n - 1]) {
            (queue_after(q, steps, (n - 1) as nat).len() - queue_after(q, steps, n).len()) as nat
        } else {
            0nat
        }
    }
}

/// One poll of a worker is two steps: the worker takes the task that is due
/// first and settles it. Where no task is ready, the take changes nothing
/// and the poll ends there.
pub proof fn lemma_poll_is_take_then_settle(
    tables: Tables,
    sent: SendResult,
    now: u64,
    retry_delay: u64,
)
    requires
        tables.wf(),
    ensures
        ({
            let q = tables.issue_delivery_queue;
            let take = QueueStep::Take { now };
            let settle = QueueStep::Settle {
                lease: dequeued_lease(q, now),
                sent,
                now,
                retry_delay,
            };
            &&& has_ready(q, now) ==> step_allowed(after_step(q, take), settle) && executed(
                q,
                sent,
                now,
                retry_delay,
            ) == after_step(after_step(q, take), settle)
            &&& !has_ready(q, now) ==> executed(q, sent, now, retry_delay) == after_step(q, take)
                && after_step(q, take) == q
        }),
{
    if has_ready(tables.issue_delivery_queue, now) {
        lemma_take_is_exclusive(
            tables,
            now,
            dequeued_lease(tables.issue_delivery_queue, now),
        );
    }
}

/// Taking a task is exclusive. The task that a poll takes was held by
/// nobody, is held afterwards, and no other task changes hands: a task is
/// never with two workers at once.
pub proof fn lemma_take_is_exclusive(tables: Tables, now: u64, other: Lease)
    requires
        tables.wf(),
        has_ready(tables.issue_delivery_queue, now),
    ensures
        !holds_lease(
            tables.issue_delivery_queue,
            dequeued_lease(tables.issue_delivery_queue, now),
        ),
        holds_lease(
            dequeued(tables.issue_delivery_queue, now),
            dequeued_lease(tables.issue_delivery_queue, now),
        ),
        other != dequeued_lease(tables.issue_delivery_queue, now) ==> holds_lease(
            dequeued(tables.issue_delivery_queue, now),
            other,
        ) == holds_lease(tables.issue_delivery_queue, other),
{
    let q = tables.issue_delivery_queue;
    lemma_some_ready_is_next(q, now);
    let i = next_ready(q, now);
    let lease = dequeued_lease(q, now);
    let after = dequeued(q, now);
    assert(task_matches(after[i], lease.newsletter_issue_id, lease.subscriber_email)
        && after[i].locked);
    if other != lease {
        if holds_lease(q, other) {
            let j = choose|j: int|
                0 <= j < q.len() && task_matches(
                    #[trigger] q[j],
                    other.newsletter_issue_id,
                    other.subscriber_email,
                ) && q[j].locked;
            assert(task_matches(after[j], other.newsletter_issue_id, other.subscriber_email)
                && after[j].locked);
        }
    }
}

/// Two polls in a row never take the same task: the second passes over what
/// the first holds.
pub proof fn lemma_two_takes_differ(tables: Tables, first_now: u64, second_now: u64)
    requires
        tables.wf(),
        has_ready(tables.issue_delivery_queue, first_now),
        has_ready(dequeued(tables.issue_delivery_queue, first_now), second_now),
    ensures
        dequeued_lease(dequeued(tables.issue_delivery_queue, first_now), second_now)
            != dequeued_lease(tables.issue_delivery_queue, first_now),
{
    let q = tables.issue_delivery_queue;
    let first = dequeued_lease(q, first_now);
    let q1 = dequeued(q, first_now);
    lemma_take_is_exclusive(tables, first_now, first);
    lemma_some_ready_is_next(q, first_now);
    lemma_take_is_exclusive(Tables { issue_delivery_queue: q1, ..tables }, second_now, first);
}

/// What one allowed step does to the queue: it keeps the schema, adds no
/// task, removes one row when it is a successful delivery, and leaves
/// nothing of a task that it ends.
pub proof fn lemma_step(q: Seq<TaskRow>, issues: Seq<IssueRow>, step: QueueStep)
    requires
        task_keys_unique(q),
        tasks_refer_to_issues(q, issues),
        step_allowed(q, step),
    ensures
        task_keys_unique(after_step(q, step)),
        tasks_refer_to_issues(after_step(q, step), issues),
        after_step(q, step).len() <= q.len(),
        is_completion(step) ==> after_step(q, step).len() + 1 == q.len(),
        !is_completion(step) && !is_purge(step) ==> after_step(q, step).len() == q.len(),
        forall|l: Lease| has_task(after_step(q, step), l) ==> has_task(q, l),
        forall|l: Lease| ends_task(step, l) ==> !has_task(after_step(q, step), l),
{
    match step {
        QueueStep::Take { now } => {
            if has_ready(q, now) {
                lemma_some_ready_is_next(q, now);
            }
        },
        QueueStep::Settle { lease, .. } => {
            if !is_valid_email(lease.subscriber_email) {
                lemma_purged_keeps_keys(q, issues, lease);
            }
        },
        QueueStep::Release { .. } => {},
    }
}

/// Allowed steps keep the schema of the queue, and never add a task.
pub proof fn lemma_steps(q: Seq<TaskRow>, issues: Seq<IssueRow>, steps: Seq<QueueStep>, n: nat)
    requires
        task_keys_unique(q),
        tasks_refer_to_issues(q, issues),
        steps_allowed(q, steps),
        n <= steps.len(),
    ensures
        task_keys_unique(queue_after(q, steps, n)),
        tasks_refer_to_issues(queue_after(q, steps, n), issues),
        completions(steps, n) + purged_rows(q, steps, n) + queue_after(q, steps, n).len()
            == q.len(),
        forall|l: Lease| has_task(queue_after(q, steps, n), l) ==> has_task(q, l),
    decreases n,
{
    if n > 0 {
        lemma_steps(q, issues, steps, (n - 1) as nat);
        let before = queue_after(q, steps, (n - 1) as nat);
        lemma_step(before, issues, steps[n - 1]);
    }
}

/// Every task is accounted for once. However many workers poll a queue of
/// M tasks, and in whatever order their steps come, the successful
/// deliveries, the rows that purges removed and the rows still in the
/// queue add up to M: each successful delivery removes its task, and no
/// step of a worker adds one. So no more than M deliveries succeed, and
/// once the queue is drained exactly M tasks were delivered or purged.
pub proof fn lemma_deliveries_are_bounded(tables: Tables, steps: Seq<QueueStep>)
    requires
        tables.wf(),
        steps_allowed(tables.issue_delivery_queue, steps),
    ensures
        completions(steps, steps.len()) + purged_rows(
            tables.issue_delivery_queue,
            steps,
            steps.len(),
        ) + queue_after(tables.issue_delivery_queue, steps, steps.len()).len()
            == tables.issue_delivery_queue.len(),
        completions(steps, steps.len()) <= tables.issue_delivery_queue.len(),
{
    lemma_steps(tables.issue_delivery_queue, tables.newsletter_issues, steps, steps.len());
}

/// Whether `step` hands an email to the sender: a task for a valid address
/// is settled.
pub open spec fn is_send(step: QueueStep) -> bool {
    step matches QueueStep::Settle { lease, .. } && is_valid_email(lease.subscriber_email)
}

/// How many emails the first `n` of `steps` hand to the sender.
pub open spec fn sends(steps: Seq<QueueStep>, n: nat) -> nat
    decreases n,
{
    if n == 0 {
        0
    } else {
        sends(steps, (n - 1) as nat) + if is_send(steps[n - 1]) {
            1nat
        } else {
            0nat
        }
    }
}

/// Whether every task of `q` is for a valid address.
pub open spec fn all_addresses_valid(q: Seq<TaskRow>) -> bool {
    forall|i: int| 0 <= i < q.len() ==> is_valid_email((#[trigger] q[i]).subscriber_email)
}

/// Whether the sender takes every email that `steps` hand to it.
pub open spec fn sender_never_fails(steps: Seq<QueueStep>) -> bool {
    forall|i: int|
        0 <= i < steps.len() ==> ((#[trigger] steps[i]) matches QueueStep::Settle { sent, .. }
            ==> sent is Delivered)
}

/// With valid addresses and a sender that never fails, nothing is purged
/// and every email handed over is a delivery.
pub proof fn lemma_sends_are_deliveries(
    q: Seq<TaskRow>,
    issues: Seq<IssueRow>,
    steps: Seq<QueueStep>,
    n: nat,
)
    requires
        task_keys_unique(q),
        tasks_refer_to_issues(q, issues),
        steps_allowed(q, steps),
        all_addresses_valid(q),
        sender_never_fails(steps),
        n <= steps.len(),
    ensures
        sends(steps, n) == completions(steps, n),
        purged_rows(q, steps, n) == 0,
        all_addresses_valid(queue_after(q, steps, n)),
    decreases n,
{
    let at_n = queue_after(q, steps, n);
    lemma_steps(q, issues, steps, n);
    assert forall|i: int| 0 <= i < at_n.len() implies is_valid_email(
        (#[trigger] at_n[i]).subscriber_email,
    ) by {
        let l = lease_of(at_n[i]);
        assert(task_matches(at_n[i], l.newsletter_issue_id, l.subscriber_email));
        assert(has_task(queue_after(q, steps, n), l));
        assert(has_task(q, l));
        let j = task_index(q, l);
        assert(q[j].subscriber_email == l.subscriber_email);
    }
    if n > 0 {
        lemma_sends_are_deliveries(q, issues, steps, (n - 1) as nat);
        let before = queue_after(q, steps, (n - 1) as nat);
        let step = steps[n - 1];
        if let QueueStep::Settle { lease, .. } = step {
            if !is_valid_email(lease.subscriber_email) {
                assert(!has_task_for(before, lease.subscriber_email));
                lemma_purge_of_absent_address(before, lease);
            }
        }
    }
}

/// Every task is sent once. Let any number of workers poll a queue of M
/// tasks for valid addresses, their steps coming in any order, and let the
/// sender take every email. Then each email handed to the sender is a
/// delivery, and the deliveries and the rows still in the queue add up to
/// M. So once the queue is empty, exactly M emails were handed over and
/// exactly M tasks were completed: one for each row, as a completed task is
/// gone for good.
pub proof fn lemma_each_task_is_sent_once(tables: Tables, steps: Seq<QueueStep>)
    requires
        tables.wf(),
        steps_allowed(tables.issue_delivery_queue, steps),
        all_addresses_valid(tables.issue_delivery_queue),
        sender_never_fails(steps),
    ensures
        sends(steps, steps.len()) == completions(steps, steps.len()),
        completions(steps, steps.len()) + queue_after(
            tables.issue_delivery_queue,
            steps,
            steps.len(),
        ).len() == tables.issue_delivery_queue.len(),
        queue_after(tables.issue_delivery_queue, steps, steps.len()).len() == 0 ==> sends(
            steps,
            steps.len(),
        ) == tables.issue_delivery_queue.len(),
{
    let q = tables.issue_delivery_queue;
    lemma_steps(q, tables.newsletter_issues, steps, steps.len());
    lemma_sends_are_deliveries(q, tables.newsletter_issues, steps, steps.len());
}

/// A task that is gone stays gone: workers never bring a task back.
pub proof fn lemma_gone_stays_gone(
    tables: Tables,
    steps: Seq<QueueStep>,
    lease: Lease,
    m: nat,
    n: nat,
)
    requires
        tables.wf(),
        steps_allowed(tables.issue_delivery_queue, steps),
        m <= n <= steps.len(),
        !has_task(queue_after(tables.issue_delivery_queue, steps, m), lease),
    ensures
        !has_task(queue_after(tables.issue_delivery_queue, steps, n), lease),
    decreases n - m,
{
    if n > m {
        let q = tables.issue_delivery_queue;
        lemma_gone_stays_gone(tables, steps, lease, m, (n - 1) as nat);
        lemma_steps(q, tables.newsletter_issues, steps, (n - 1) as nat);
        let before = queue_after(q, steps, (n - 1) as nat);
        lemma_step(before, tables.newsletter_issues, steps[n - 1]);
    }
}

/// A worker whose task was purged under it ends without a trace: whatever
/// its last step is, the queue stays as it is, and nothing is delivered.
pub proof fn lemma_purged_task_ends_quietly(q: Seq<TaskRow>, step: QueueStep, lease: Lease)
    requires
        was_purged(q, lease),
        step_of_holder(step, lease),
    ensures
        after_step(q, step) == q,
        !is_completion(step),
{
    lemma_purge_of_absent_address(q, lease);
    if has_task(q, lease) {
        let i = task_index(q, lease);
        assert(q[i].subscriber_email == lease.subscriber_email);
    }
}

/// A task is ended once. After the step that delivers a task, or purges its
/// recipient, the task is gone for good: no later poll takes it, and no later
/// step of a worker delivers it or changes the queue in its name. So an
/// email that was handed over with success is never sent a second time, and
/// a task for an address that is no address is never tried again.
pub proof fn lemma_task_ends_once(
    tables: Tables,
    steps: Seq<QueueStep>,
    lease: Lease,
    i: nat,
    j: nat,
)
    requires
        tables.wf(),
        steps_allowed(tables.issue_delivery_queue, steps),
        i < j < steps.len(),
        ends_task(steps[i as int], lease),
    ensures
        step_of_holder(steps[j as int], lease) ==> !is_completion(steps[j as int])
            && queue_after(tables.issue_delivery_queue, steps, j + 1) == queue_after(
            tables.issue_delivery_queue,
            steps,
            j,
        ),
        steps[j as int] matches QueueStep::Take { now } ==> !(has_ready(
            queue_after(tables.issue_delivery_queue, steps, j),
            now,
        ) && dequeued_lease(queue_after(tables.issue_delivery_queue, steps, j), now) == lease),
        !has_task(queue_after(tables.issue_delivery_queue, steps, steps.len()), lease),
{
    let q = tables.issue_delivery_queue;
    let issues = tables.newsletter_issues;
    lemma_steps(q, issues, steps, i);
    lemma_gone_stays_gone(tables, steps, lease, i + 1, j);
    lemma_gone_stays_gone(tables, steps, lease, i + 1, steps.len());
    let at_j = queue_after(q, steps, j);
    match steps[j as int] {
        QueueStep::Take { now } => {
            if has_ready(at_j, now) && dequeued_lease(at_j, now) == lease {
                lemma_some_ready_is_next(at_j, now);
            }
        },
        _ => {
            if step_of_holder(steps[j as int], lease) {
                assert(step_allowed(at_j, steps[j as int]));
                lemma_purged_task_ends_quietly(at_j, steps[j as int], lease);
            }
        },
    }
}

/// A failed delivery is tried again, not lost and not doubled. When the
/// sender fails for a valid address, under a valid policy, the task stays
/// in the queue, free, and every other row is as it was. The task is due
/// after the delay of the policy, so later than now, and the poll reports
/// what the sender said; only where the store cannot hold the time of the
/// next attempt, the task keeps its time and the poll reports that.
pub proof fn lemma_failed_delivery_waits(
    tables: Tables,
    lease: Lease,
    reason: Seq<char>,
    now: u64,
    policy: WorkerPolicy,
)
    requires
        tables.wf(),
        policy.wf(),
        holds_lease(tables.issue_delivery_queue, lease),
        is_valid_email(lease.subscriber_email),
    ensures
        ({
            let q = tables.issue_delivery_queue;
            let retry_delay = policy.retry_delay_seconds;
            let after = settled(q, lease, SendResult::Failed(reason), now, retry_delay);
            let result = settled_result(lease, SendResult::Failed(reason), now, retry_delay);
            let i = task_index(q, lease);
            &&& after.len() == q.len()
            &&& 0 <= i < q.len()
            &&& lease_of(after[i]) == lease
            &&& !after[i].locked
            &&& forall|j: int| 0 <= j < q.len() && j != i ==> after[j] == q[j]
            &&& retry_fits(now, retry_delay) ==> {
                &&& after[i] == retry_row(q[i], (now + retry_delay) as u64)
                &&& after[i].next_retry > now
                &&& !is_ready(after[i], now)
                &&& is_ready(after[i], (now + retry_delay) as u64)
                &&& result == Err::<ExecutionOutcome, ExecutionFailure>(
                    ExecutionFailure::SendingError(reason),
                )
            }
            &&& !retry_fits(now, retry_delay) ==> {
                &&& after[i] == released_row(q[i])
                &&& result == Err::<ExecutionOutcome, ExecutionFailure>(
                    ExecutionFailure::UnexpectedError(TIMESTAMP_OUT_OF_RANGE@),
                )
            }
        }),
{
}

/// An address that is no address stops nothing but its own tasks. The
/// worker that finds it sends nothing, whatever the sender would answer;
/// no task for that address is left, whatever the issue and whoever held
/// it; every task for another address stays exactly as it was, and one that
/// was ready is ready still.
pub proof fn lemma_invalid_address_is_purged(
    tables: Tables,
    lease: Lease,
    sent: SendResult,
    now: u64,
    retry_delay: u64,
)
    requires
        tables.wf(),
        !is_valid_email(lease.subscriber_email),
    ensures
        ({
            let q = tables.issue_delivery_queue;
            &&& settled(q, lease, sent, now, retry_delay) == purged(q, lease)
            &&& settled_result(lease, sent, now, retry_delay) == Err::<
                ExecutionOutcome,
                ExecutionFailure,
            >(
                ExecutionFailure::WrongCredentials(lease.subscriber_email),
            )
            &&& !has_task_for(purged(q, lease), lease.subscriber_email)
            &&& forall|at: u64|
                has_ready(purged(q, lease), at) ==> (#[trigger] dequeued_lease(
                    purged(q, lease),
                    at,
                )).subscriber_email != lease.subscriber_email
            &&& forall|i: int|
                0 <= i < purged(q, lease).len() ==> q.contains(#[trigger] purged(q, lease)[i])
            &&& forall|i: int|
                0 <= i < q.len() && (#[trigger] q[i]).subscriber_email != lease.subscriber_email
                    ==> purged(q, lease).contains(q[i])
            &&& forall|i: int, at: u64|
                0 <= i < q.len() && (#[trigger] q[i]).subscriber_email != lease.subscriber_email
                    && #[trigger] is_ready(q[i], at) ==> has_ready(purged(q, lease), at)
        }),
{
    let q = tables.issue_delivery_queue;
    let left = purged(q, lease);
    lemma_purged_keeps_keys(q, tables.newsletter_issues, lease);
    assert forall|at: u64| has_ready(left, at) implies (#[trigger] dequeued_lease(
        left,
        at,
    )).subscriber_email != lease.subscriber_email by {
        lemma_some_ready_is_next(left, at);
        let i = next_ready(left, at);
        assert(left[i].subscriber_email != lease.subscriber_email);
    }
}

/// A poll that takes a task for an address that is no address removes
/// every task for that address. The poll reports the address, hands nothing
/// to the sender, and leaves no row for the address in the queue, whatever
/// the issue and whoever held it, so that no later poll takes one; the rows
/// for other addresses are all there, exactly as they were.
pub proof fn lemma_poll_purges_invalid_address(
    tables: Tables,
    log: Seq<Email>,
    sent: SendResult,
    now: u64,
    retry_delay: u64,
)
    requires
        tables.wf(),
        has_ready(tables.issue_delivery_queue, now),
        !is_valid_email(dequeued_lease(tables.issue_delivery_queue, now).subscriber_email),
    ensures
        ({
            let q = tables.issue_delivery_queue;
            let address = dequeued_lease(q, now).subscriber_email;
            let after = executed(q, sent, now, retry_delay);
            &&& executed_result(q, sent, now, retry_delay) == Err::<
                ExecutionOutcome,
                ExecutionFailure,
            >(
                ExecutionFailure::WrongCredentials(address),
            )
            &&& handed_over_by_poll(log, tables, now) == log
            &&& !has_task_for(after, address)
            &&& forall|at: u64|
                has_ready(after, at) ==> (#[trigger] dequeued_lease(after, at)).subscriber_email
                    != address
            &&& forall|i: int|
                0 <= i < after.len() ==> q.contains(#[trigger] after[i])
            &&& forall|i: int|
                0 <= i < q.len() && (#[trigger] q[i]).subscriber_email != address
                    ==> after.contains(q[i])
        }),
{
    let q = tables.issue_delivery_queue;
    let lease = dequeued_lease(q, now);
    let taken = dequeued(q, now);
    let after = executed(q, sent, now, retry_delay);
    lemma_some_ready_is_next(q, now);
    let k = next_ready(q, now);
    lemma_step(q, tables.newsletter_issues, QueueStep::Take { now });
    lemma_invalid_address_is_purged(
        Tables { issue_delivery_queue: taken, ..tables },
        lease,
        sent,
        now,
        retry_delay,
    );
    assert forall|i: int| 0 <= i < after.len() implies q.contains(#[trigger] after[i]) by {
        let j = choose|j: int| 0 <= j < taken.len() && taken[j] == after[i];
        assert(after[i].subscriber_email != lease.subscriber_email);
        assert(j != k);
        assert(q[j] == after[i]);
    }
    assert forall|i: int|
        0 <= i < q.len() && (#[trigger] q[i]).subscriber_email
            != lease.subscriber_email implies after.contains(q[i]) by {
        assert(taken[i] == q[i]);
    }
}

} // verus!
