//! The delivery worker: one poll takes a task from the queue, checks the
//! recipient, hands the issue to the email sender and settles the task by
//! what the sender answered.
use crate::delivery_queue::delete_task;
use crate::delivery_queue::delete_tasks_for_subscriber;
use crate::delivery_queue::deleted;
use crate::delivery_queue::dequeue_taks;
use crate::delivery_queue::dequeued;
use crate::delivery_queue::dequeued_lease;
use crate::delivery_queue::get_issue;
use crate::delivery_queue::has_ready;
use crate::delivery_queue::has_task;
use crate::delivery_queue::purged;
use crate::delivery_queue::release_task;
use crate::delivery_queue::released;
use crate::delivery_queue::requeue_taks;
use crate::delivery_queue::put_back;
use crate::delivery_queue::retry_fits;
use crate::delivery_queue::with_queue;
use crate::delivery_queue::DeliveryTransaction;
use crate::delivery_queue::Lease;
use crate::domain::subscriber_email::is_valid_email;
use crate::domain::subscriber_email::SubscriberEmail;
use crate::email_client::emails_view;
use crate::email_client::Email;
use crate::email_client::OutgoingEmail;
use crate::store::has_issue;
use crate::store::issue_with_id;
use crate::store::IssueRow;
use crate::store::NewsletterIssue;
use crate::store::Tables;
use crate::store::Store;
use crate::store::TaskRow;
use vstd::prelude::*;
use vstd::string::StringExecFns;

verus! {

/// How one poll of the queue ended well.
#[derive(Debug, Clone, Copy, PartialEq, Eq, Structural)]
pub enum ExecutionOutcome {
    /// A task was delivered and removed.
    TaskCompleted,
    /// No task was ready.
    EmptyQueue,
}

/// What is told about a delivery that the sender refused.
pub const DELIVERY_FAILED: &'static str = "Failed to deliver issue to a confirmed subscriber";

/// What is told about a stored address that is no address.
pub const ADDRESS_IS_INVALID: &'static str = "Subscriber stored contact deatails are invalid";

/// What is told when the issue of a task cannot be read.
pub const ISSUE_NOT_FOUND: &'static str = "no rows returned";

/// What is told when the time of the next attempt is one that the store
/// cannot hold.
pub const TIMESTAMP_OUT_OF_RANGE: &'static str = "timestamp out of range";

/// How one poll of the queue failed.
#[derive(Debug)]
pub enum ExecutionError {
    /// The sender failed; the task was put back for a later attempt. Holds
    /// what the sender said.
    SendingError(String),
    /// The stored address is no address; every task for it was removed.
    /// Holds the address.
    WrongCredentials(String),
    /// The store failed; the task is let go as it was. Holds what the store
    /// said.
    UnexpectedError(String),
}

/// A failed poll as a mathematical value.
pub enum ExecutionFailure {
    SendingError(Seq<char>),
    WrongCredentials(Seq<char>),
    UnexpectedError(Seq<char>),
}

impl View for ExecutionError {
    type V = ExecutionFailure;

    open spec fn view(&self) -> ExecutionFailure {
        match self {
            ExecutionError::SendingError(reason) => ExecutionFailure::SendingError(reason@),
            ExecutionError::WrongCredentials(email) => ExecutionFailure::WrongCredentials(email@),
            ExecutionError::UnexpectedError(reason) => ExecutionFailure::UnexpectedError(reason@),
        }
    }
}

impl ExecutionFailure {
    /// The text that tells of this failure.
    pub open spec fn message(self) -> Seq<char> {
        match self {
            ExecutionFailure::SendingError(_) => DELIVERY_FAILED@,
            ExecutionFailure::WrongCredentials(_) => ADDRESS_IS_INVALID@,
            ExecutionFailure::UnexpectedError(reason) => reason,
        }
    }
}

impl ExecutionError {
    /// The text that tells of this failure.
    pub fn to_string(&self) -> (text: String)
        ensures
            text@ == self@.message(),
    {
        match self {
            ExecutionError::SendingError(_) => String::from_str(DELIVERY_FAILED),
            ExecutionError::WrongCredentials(_) => String::from_str(ADDRESS_IS_INVALID),
            ExecutionError::UnexpectedError(reason) => reason.clone(),
        }
    }
}

/// What the email sender answered to one request.
#[derive(Debug)]
pub enum SendOutcome {
    /// The email was accepted.
    Delivered,
    /// The email was not accepted, for the reason given. Every such failure
    /// is taken as passing: the task will be tried again.
    Failed(String),
}

/// An answer of the sender as a mathematical value.
pub enum SendResult {
    Delivered,
    Failed(Seq<char>),
}

impl View for SendOutcome {
    type V = SendResult;

    open spec fn view(&self) -> SendResult {
        match self {
            SendOutcome::Delivered => SendResult::Delivered,
            SendOutcome::Failed(reason) => SendResult::Failed(reason@),
        }
    }
}

/// How long the worker waits: before a failed delivery is tried again, after
/// a poll that failed, and after a poll that found nothing to do. In
/// seconds. A policy is valid when none of the waits after a failure is
/// zero and the wait on an empty queue is the longer one
/// ([`WorkerPolicy::wf`]).
#[derive(Debug, Clone, Copy, PartialEq, Eq, Structural)]
pub struct WorkerPolicy {
    pub retry_delay_seconds: u64,
    pub error_backoff_seconds: u64,
    pub idle_backoff_seconds: u64,
}

impl WorkerPolicy {
    /// One second before a retry, one second after a failure, ten seconds
    /// after an empty poll.
    pub open spec fn standard() -> WorkerPolicy {
        WorkerPolicy { retry_delay_seconds: 1, error_backoff_seconds: 1, idle_backoff_seconds: 10 }
    }

    /// Whether the policy is valid: a failed delivery is tried again later
    /// and not at once, a failed poll is followed by a pause, and an empty
    /// queue is polled less often than a failing one.
    pub open spec fn wf(self) -> bool {
        &&& self.retry_delay_seconds >= 1
        &&& self.error_backoff_seconds >= 1
        &&& self.idle_backoff_seconds > self.error_backoff_seconds
    }

    /// Whether the policy is valid.
    pub fn is_valid(&self) -> (ok: bool)
        ensures
            ok == self.wf(),
    {
        self.retry_delay_seconds >= 1 && self.error_backoff_seconds >= 1
            && self.idle_backoff_seconds > self.error_backoff_seconds
    }

    /// The policy with these waits, in seconds, if it is a valid one.
    pub fn new(retry_delay_seconds: u64, error_backoff_seconds: u64, idle_backoff_seconds: u64)
        -> (policy: Option<WorkerPolicy>)
        ensures
            policy == (if (WorkerPolicy {
                retry_delay_seconds,
                error_backoff_seconds,
                idle_backoff_seconds,
            }).wf() {
                Some(
                    WorkerPolicy { retry_delay_seconds, error_backoff_seconds, idle_backoff_seconds },
                )
            } else {
                None::<WorkerPolicy>
            }),
    {
        let policy = WorkerPolicy {
            retry_delay_seconds,
            error_backoff_seconds,
            idle_backoff_seconds,
        };
        if policy.is_valid() {
            Some(policy)
        } else {
            None
        }
    }
}

impl Default for WorkerPolicy {
    fn default() -> (policy: WorkerPolicy)
        ensures
            policy == WorkerPolicy::standard(),
            policy.wf(),
    {
        WorkerPolicy { retry_delay_seconds: 1, error_backoff_seconds: 1, idle_backoff_seconds: 10 }
    }
}

/// What the worker does with a task it has taken, by the stored address.
#[derive(Debug)]
pub enum TaskPlan {
    /// The address is valid: fetch the issue and send it there.
    Deliver(SubscriberEmail),
    /// The address is no address: remove every task for it, send nothing.
    PurgeRecipient(String),
}

/// Decides by the stored address alone what to do with a task: deliver to a
/// valid address, purge one that is not valid.
pub fn plan_task(email: String) -> (plan: TaskPlan)
    ensures
        is_valid_email(email@) ==> (plan matches TaskPlan::Deliver(recipient) && recipient@
            == email@),
        !is_valid_email(email@) ==> (plan matches TaskPlan::PurgeRecipient(address) && address@
            == email@),
{
    let kept = email.clone();
    plan_parsed(kept, SubscriberEmail::parse(email))
}

/// Decides what to do with a task for the stored address `email`, once the
/// address was parsed: deliver to the address that came of it, or, where
/// it was refused, purge the stored one.
pub fn plan_parsed(email: String, parsed: Result<SubscriberEmail, String>) -> (plan: TaskPlan)
    ensures
        match parsed {
            Ok(recipient) => plan matches TaskPlan::Deliver(to) && to@ == recipient@,
            Err(_) => plan matches TaskPlan::PurgeRecipient(address) && address@ == email@,
        },
{
    match parsed {
        Ok(recipient) => TaskPlan::Deliver(recipient),
        Err(_) => TaskPlan::PurgeRecipient(email),
    }
}

/// How a task is settled once the sender has answered.
#[derive(Debug)]
pub enum Settlement {
    /// Delivered: remove the task.
    Complete,
    /// Not delivered: put the task back, due after the delay, and report
    /// the reason.
    Retry { delay_seconds: u64, reason: String },
}

/// Decides by the sender's answer how a task is settled: a delivered task is
/// complete, any failure means a retry after the policy's delay.
pub fn settle(outcome: SendOutcome, policy: &WorkerPolicy) -> (settlement: Settlement)
    requires
        policy.wf(),
    ensures
        match outcome@ {
            SendResult::Delivered => settlement matches Settlement::Complete,
            SendResult::Failed(why) => settlement matches Settlement::Retry {
                delay_seconds,
                reason,
            } && delay_seconds == policy.retry_delay_seconds && delay_seconds >= 1 && reason@
                == why,
        },
{
    match outcome {
        SendOutcome::Delivered => Settlement::Complete,
        SendOutcome::Failed(reason) => Settlement::Retry {
            delay_seconds: policy.retry_delay_seconds,
            reason,
        },
    }
}

/// The seconds to wait after a poll that ended as `result` says: none after
/// a completed task, the idle backoff after an empty poll, the error backoff
/// after any failure.
pub open spec fn pause_after(
    result: Result<ExecutionOutcome, ExecutionFailure>,
    policy: WorkerPolicy,
) -> Option<u64> {
    match result {
        Ok(ExecutionOutcome::TaskCompleted) => None,
        Ok(ExecutionOutcome::EmptyQueue) => Some(policy.idle_backoff_seconds),
        Err(_) => Some(policy.error_backoff_seconds),
    }
}

/// A poll's result as a mathematical value.
pub open spec fn result_view(result: Result<ExecutionOutcome, ExecutionError>) -> Result<
    ExecutionOutcome,
    ExecutionFailure,
> {
    match result {
        Ok(outcome) => Ok(outcome),
        Err(e) => Err(e@),
    }
}

/// Decides how long the worker loop sleeps before the next poll.
pub fn worker_loop_pause(
    result: &Result<ExecutionOutcome, ExecutionError>,
    policy: &WorkerPolicy,
) -> (pause: Option<u64>)
    requires
        policy.wf(),
    ensures
        pause == pause_after(result_view(*result), *policy),
        pause matches Some(seconds) ==> seconds >= 1,
{
    match result {
        Ok(ExecutionOutcome::TaskCompleted) => None,
        Ok(ExecutionOutcome::EmptyQueue) => Some(policy.idle_backoff_seconds),
        Err(_) => Some(policy.error_backoff_seconds),
    }
}

/// What the worker loop does between two polls.
#[derive(Debug, Clone, Copy, PartialEq, Eq, Structural)]
pub enum LoopStep {
    /// Shutdown was asked for: the loop ends.
    Stop,
    /// Poll again at once.
    Poll,
    /// Sleep for the seconds given, then poll again.
    SleepThenPoll(u64),
}

/// What the loop does after a poll that ended as `result` says: it stops
/// where shutdown was asked for, and else goes on after the pause that the
/// result calls for.
pub open spec fn loop_step(
    shutdown_requested: bool,
    result: Result<ExecutionOutcome, ExecutionFailure>,
    policy: WorkerPolicy,
) -> LoopStep {
    if shutdown_requested {
        LoopStep::Stop
    } else {
        match pause_after(result, policy) {
            None => LoopStep::Poll,
            Some(seconds) => LoopStep::SleepThenPoll(seconds),
        }
    }
}

/// Decides, between two polls, whether the worker loop goes on and when. The
/// loop never ends on its own: only a request to shut down, looked at here
/// and nowhere inside a poll, ends it.
pub fn worker_loop(
    shutdown_requested: bool,
    result: &Result<ExecutionOutcome, ExecutionError>,
    policy: &WorkerPolicy,
) -> (step: LoopStep)
    requires
        policy.wf(),
    ensures
        step == loop_step(shutdown_requested, result_view(*result), *policy),
        step matches LoopStep::SleepThenPoll(seconds) ==> seconds >= 1,
{
    if shutdown_requested {
        return LoopStep::Stop;
    }
    match worker_loop_pause(result, policy) {
        None => LoopStep::Poll,
        Some(seconds) => LoopStep::SleepThenPoll(seconds),
    }
}

/// The queue after the holder of `lease` has dealt with its task, the
/// sender having answered `sent` if it was asked: an invalid address is
/// purged; a delivered task is deleted; a failed one is put back, due
/// `retry_delay` after `now`, or let go as it was where the store cannot
/// hold that time.
pub open spec fn settled(
    q: Seq<TaskRow>,
    lease: Lease,
    sent: SendResult,
    now: u64,
    retry_delay: u64,
) -> Seq<TaskRow> {
    if !is_valid_email(lease.subscriber_email) {
        purged(q, lease)
    } else {
        match sent {
            SendResult::Delivered => deleted(q, lease),
            SendResult::Failed(_) => put_back(q, lease, now, retry_delay),
        }
    }
}

/// What a poll reports once the holder of `lease` has dealt with its task:
/// the invalid address; the completed task; or what the sender said, the
/// task being put back. Where the task could not be put back, because the
/// store cannot hold the time of the next attempt, that is reported instead.
pub open spec fn settled_result(lease: Lease, sent: SendResult, now: u64, retry_delay: u64)
    -> Result<ExecutionOutcome, ExecutionFailure> {
    if !is_valid_email(lease.subscriber_email) {
        Err(ExecutionFailure::WrongCredentials(lease.subscriber_email))
    } else {
        match sent {
            SendResult::Delivered => Ok(ExecutionOutcome::TaskCompleted),
            SendResult::Failed(why) => if retry_fits(now, retry_delay) {
                Err(ExecutionFailure::SendingError(why))
            } else {
                Err(ExecutionFailure::UnexpectedError(TIMESTAMP_OUT_OF_RANGE@))
            },
        }
    }
}

/// The queue after one poll at `now`.
pub open spec fn executed(q: Seq<TaskRow>, sent: SendResult, now: u64, retry_delay: u64) -> Seq<
    TaskRow,
> {
    if has_ready(q, now) {
        settled(dequeued(q, now), dequeued_lease(q, now), sent, now, retry_delay)
    } else {
        q
    }
}

/// What one poll at `now` reports.
pub open spec fn executed_result(q: Seq<TaskRow>, sent: SendResult, now: u64, retry_delay: u64)
    -> Result<ExecutionOutcome, ExecutionFailure> {
    if has_ready(q, now) {
        settled_result(dequeued_lease(q, now), sent, now, retry_delay)
    } else {
        Ok(ExecutionOutcome::EmptyQueue)
    }
}

/// The email that carries `issue` to `recipient`: the title is the subject,
/// the two forms of the content are the two bodies.
pub open spec fn issue_email(issue: IssueRow, recipient: Seq<char>) -> Email {
    Email {
        recipient,
        subject: issue.title,
        html_body: issue.html_content,
        text_body: issue.text_content,
    }
}

/// The email that carries `issue` to `recipient`.
pub fn delivery_email(recipient: SubscriberEmail, issue: &NewsletterIssue) -> (email: OutgoingEmail)
    ensures
        email@ == issue_email(issue@, recipient@),
{
    OutgoingEmail {
        recipient,
        subject: issue.title.clone(),
        html_body: issue.html_content.clone(),
        text_body: issue.text_content.clone(),
    }
}

/// What was handed to the sender once the holder of `lease` has dealt with
/// its task: to a valid address goes one email with the issue of the task;
/// to an address that is no address goes nothing.
pub open spec fn handed_over(log: Seq<Email>, issues: Seq<IssueRow>, lease: Lease) -> Seq<Email> {
    if is_valid_email(lease.subscriber_email) {
        log.push(
            issue_email(
                issue_with_id(issues, lease.newsletter_issue_id),
                lease.subscriber_email,
            ),
        )
    } else {
        log
    }
}

/// What was handed to the sender after one poll at `now`.
pub open spec fn handed_over_by_poll(log: Seq<Email>, tables: Tables, now: u64) -> Seq<Email> {
    if has_ready(tables.issue_delivery_queue, now) {
        handed_over(
            log,
            tables.newsletter_issues,
            dequeued_lease(tables.issue_delivery_queue, now),
        )
    } else {
        log
    }
}

/// Whether the issue of the task `lease` cannot be read, though the address
/// is one: the task is then let go, and the poll fails.
pub open spec fn issue_is_missing(tables: Tables, lease: Lease) -> bool {
    is_valid_email(lease.subscriber_email) && !has_issue(
        tables.newsletter_issues,
        lease.newsletter_issue_id,
    )
}

/// Deals with the task that `tx` holds: checks the address, reads the issue,
/// hands the email to the sender, and settles the task by what the sender
/// answers. `outbox` is what was handed to the sender so far, and `sent` is
/// the sender's answer to this email; nothing is handed over, and the answer
/// is not looked at, where the address is no address.
///
/// Where the issue cannot be read, nothing is handed over either: the task is
/// let go as it was and the poll fails. This cannot happen while the row of
/// `tx` is in the queue, as every row there is for an issue that exists.
pub fn execute_dequeued(
    store: &mut Store,
    tx: DeliveryTransaction,
    outbox: &mut Vec<OutgoingEmail>,
    sent: SendOutcome,
    now: u64,
    policy: &WorkerPolicy,
) -> (res: Result<ExecutionOutcome, ExecutionError>)
    requires
        old(store)@.wf(),
        policy.wf(),
    ensures
        final(store)@.wf(),
        !issue_is_missing(old(store)@, tx@) ==> {
            &&& final(store)@ == with_queue(
                old(store)@,
                settled(
                    old(store)@.issue_delivery_queue,
                    tx@,
                    sent@,
                    now,
                    policy.retry_delay_seconds,
                ),
            )
            &&& result_view(res) == settled_result(tx@, sent@, now, policy.retry_delay_seconds)
            &&& emails_view(final(outbox)@) == handed_over(
                emails_view(old(outbox)@),
                old(store)@.newsletter_issues,
                tx@,
            )
        },
        issue_is_missing(old(store)@, tx@) ==> {
            &&& final(store)@ == with_queue(
                old(store)@,
                released(old(store)@.issue_delivery_queue, tx@),
            )
            &&& result_view(res) == Err::<ExecutionOutcome, ExecutionFailure>(
                ExecutionFailure::UnexpectedError(ISSUE_NOT_FOUND@),
            )
            &&& emails_view(final(outbox)@) == emails_view(old(outbox)@)
        },
        has_task(old(store)@.issue_delivery_queue, tx@) ==> !issue_is_missing(old(store)@, tx@),
{
    match plan_task(tx.subscriber_email().clone()) {
        TaskPlan::PurgeRecipient(address) => {
            delete_tasks_for_subscriber(store, tx);
            Err(ExecutionError::WrongCredentials(address))
        },
        TaskPlan::Deliver(recipient) => {
            match get_issue(store, &tx, tx.newsletter_issue_id()) {
                None => {
                    release_task(store, tx);
                    Err(ExecutionError::UnexpectedError(String::from_str(ISSUE_NOT_FOUND)))
                },
                Some(issue) => {
                    outbox.push(delivery_email(recipient, &issue));
                    match settle(sent, policy) {
                        Settlement::Complete => {
                            delete_task(store, tx);
                            Ok(ExecutionOutcome::TaskCompleted)
                        },
                        Settlement::Retry { delay_seconds, reason } => {
                            match requeue_taks(store, tx, now, delay_seconds) {
                                Ok(_) => Err(ExecutionError::SendingError(reason)),
                                Err(_) => Err(
                                    ExecutionError::UnexpectedError(
                                        String::from_str(TIMESTAMP_OUT_OF_RANGE),
                                    ),
                                ),
                            }
                        },
                    }
                },
            }
        },
    }
}

/// One poll of the queue at `now`: takes the task that is due first, if one
/// is ready, and deals with it as [`execute_dequeued`] does.
pub fn try_execute_taks(
    store: &mut Store,
    outbox: &mut Vec<OutgoingEmail>,
    sent: SendOutcome,
    now: u64,
    policy: &WorkerPolicy,
) -> (res: Result<ExecutionOutcome, ExecutionError>)
    requires
        old(store)@.wf(),
        policy.wf(),
    ensures
        final(store)@.wf(),
        final(store)@ == with_queue(
            old(store)@,
            executed(old(store)@.issue_delivery_queue, sent@, now, policy.retry_delay_seconds),
        ),
        result_view(res) == executed_result(
            old(store)@.issue_delivery_queue,
            sent@,
            now,
            policy.retry_delay_seconds,
        ),
        emails_view(final(outbox)@) == handed_over_by_poll(
            emails_view(old(outbox)@),
            old(store)@,
            now,
        ),
{
    match dequeue_taks(store, now) {
        None => Ok(ExecutionOutcome::EmptyQueue),
        Some((tx, _, _)) => execute_dequeued(store, tx, outbox, sent, now, policy),
    }
}

} // verus!
