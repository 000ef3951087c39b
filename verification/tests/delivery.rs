use zero2prod::domain::SubscriberEmail;
use zero2prod::issue_delivery_worker::plan_parsed;
use zero2prod::delivery_queue::delete_task;
use zero2prod::delivery_queue::delete_tasks_for_subscriber;
use zero2prod::delivery_queue::dequeue_taks;
use zero2prod::delivery_queue::get_issue;
use zero2prod::delivery_queue::release_task;
use zero2prod::delivery_queue::requeue_taks;
use zero2prod::email_client::OutgoingEmail;
use zero2prod::idempotency::HttpResponse;
use zero2prod::issue_delivery_worker::execute_dequeued;
use zero2prod::issue_delivery_worker::plan_task;
use zero2prod::issue_delivery_worker::settle;
use zero2prod::issue_delivery_worker::try_execute_taks;
use zero2prod::issue_delivery_worker::worker_loop;
use zero2prod::issue_delivery_worker::LoopStep;
use zero2prod::issue_delivery_worker::worker_loop_pause;
use zero2prod::issue_delivery_worker::ExecutionError;
use zero2prod::issue_delivery_worker::ExecutionOutcome;
use zero2prod::issue_delivery_worker::SendOutcome;
use zero2prod::issue_delivery_worker::Settlement;
use zero2prod::issue_delivery_worker::TaskPlan;
use zero2prod::issue_delivery_worker::WorkerPolicy;
use zero2prod::newsletter::publish_newsletter_with_id;
use zero2prod::newsletter::BodyData;
use zero2prod::store::DeliveryTask;
use zero2prod::store::NewsletterIssue;
use zero2prod::store::StorageError;
use zero2prod::store::Store;
use zero2prod::store::Subscription;
use zero2prod::store::SubscriptionStatus;

fn issue(id: u128) -> NewsletterIssue {
    NewsletterIssue {
        newsletter_issue_id: id,
        title: "T".to_string(),
        text_content: "text".to_string(),
        html_content: "<p>html</p>".to_string(),
        published_at: 0,
    }
}

fn task(issue_id: u128, email: &str, next_retry: u64) -> DeliveryTask {
    DeliveryTask {
        newsletter_issue_id: issue_id,
        subscriber_email: email.to_string(),
        next_retry,
        locked: false,
    }
}

fn rows(store: &Store) -> Vec<(u128, String, u64, bool)> {
    store
        .issue_delivery_queue
        .iter()
        .map(|t| (t.newsletter_issue_id, t.subscriber_email.clone(), t.next_retry, t.locked))
        .collect()
}

fn row(issue_id: u128, email: &str, next_retry: u64, locked: bool) -> (u128, String, u64, bool) {
    (issue_id, email.to_string(), next_retry, locked)
}

fn queue_of(tasks: Vec<DeliveryTask>) -> Store {
    let mut store = Store::new();
    store.newsletter_issues.push(issue(1));
    store.newsletter_issues.push(issue(2));
    for t in tasks {
        store.issue_delivery_queue.push(t);
    }
    store
}

fn published_to(addresses: &[&str]) -> Store {
    let mut store = Store::new();
    for (n, address) in addresses.iter().enumerate() {
        store.subscriptions.push(Subscription {
            id: n as u128,
            email: address.to_string(),
            name: "someone".to_string(),
            subscribed_at: 0,
            status: SubscriptionStatus::Confirmed,
        });
    }
    let body = BodyData {
        title: "T".to_string(),
        html: "<p>html</p>".to_string(),
        text: "text".to_string(),
        idempotency_key: "K1".to_string(),
    };
    let response = HttpResponse::status_only(303).unwrap();
    publish_newsletter_with_id(&mut store, 9, body, 1, response, 0).unwrap();
    store
}

#[test]
fn empty_queue_gives_nothing() {
    let mut outbox: Vec<OutgoingEmail> = Vec::new();
    let mut store = Store::new();
    assert!(dequeue_taks(&mut store, 100).is_none());
    let policy = WorkerPolicy::default();
    let r = try_execute_taks(&mut store, &mut outbox, SendOutcome::Delivered, 100, &policy);
    assert!(matches!(r, Ok(ExecutionOutcome::EmptyQueue)));
}

#[test]
fn tasks_that_are_not_due_are_not_taken() {
    let mut store = queue_of(vec![task(1, "a@x.com", 50)]);
    assert!(dequeue_taks(&mut store, 49).is_none());
    assert_eq!(rows(&store), vec![row(1, "a@x.com", 50, false)]);
    let (tx, issue_id, email) = dequeue_taks(&mut store, 50).unwrap();
    assert_eq!((issue_id, email.as_str()), (1, "a@x.com"));
    assert_eq!(tx.newsletter_issue_id(), 1);
    assert_eq!(tx.subscriber_email(), "a@x.com");
    assert_eq!(rows(&store), vec![row(1, "a@x.com", 50, true)]);
}

#[test]
fn the_task_that_is_due_first_is_taken_first() {
    let mut store =
        queue_of(vec![task(1, "a@x.com", 30), task(1, "b@x.com", 10), task(1, "c@x.com", 20)]);
    let (_, _, first) = dequeue_taks(&mut store, 100).unwrap();
    let (_, _, second) = dequeue_taks(&mut store, 100).unwrap();
    let (_, _, third) = dequeue_taks(&mut store, 100).unwrap();
    assert_eq!((first.as_str(), second.as_str(), third.as_str()), ("b@x.com", "c@x.com", "a@x.com"));
    assert!(dequeue_taks(&mut store, 100).is_none());
}

#[test]
fn among_equally_due_tasks_the_first_row_is_taken() {
    let mut store = queue_of(vec![task(1, "a@x.com", 10), task(1, "b@x.com", 10)]);
    let (_, _, first) = dequeue_taks(&mut store, 10).unwrap();
    assert_eq!(first, "a@x.com");
}

#[test]
fn two_workers_never_hold_the_same_task() {
    let mut store = queue_of(vec![task(1, "a@x.com", 0), task(1, "b@x.com", 0)]);
    let (first, _, a) = dequeue_taks(&mut store, 0).unwrap();
    let (second, _, b) = dequeue_taks(&mut store, 0).unwrap();
    assert_ne!(a, b);
    assert!(dequeue_taks(&mut store, 0).is_none());
    delete_task(&mut store, first);
    assert_eq!(rows(&store), vec![row(1, "b@x.com", 0, true)]);
    delete_task(&mut store, second);
    assert!(store.issue_delivery_queue.is_empty());
}

#[test]
fn requeued_task_waits_for_its_time() {
    let mut store = queue_of(vec![task(1, "a@x.com", 0)]);
    let (tx, _, _) = dequeue_taks(&mut store, 100).unwrap();
    assert_eq!(requeue_taks(&mut store, tx, 100, 5), Ok(()));
    assert_eq!(rows(&store), vec![row(1, "a@x.com", 105, false)]);
    assert!(dequeue_taks(&mut store, 104).is_none());
    assert!(dequeue_taks(&mut store, 105).is_some());
}

#[test]
fn requeue_beyond_the_last_time_fails_and_lets_the_task_go() {
    let mut store = queue_of(vec![task(1, "a@x.com", 3), task(2, "a@x.com", 4)]);
    let (tx, _, _) = dequeue_taks(&mut store, u64::MAX).unwrap();
    assert_eq!(
        requeue_taks(&mut store, tx, u64::MAX, 1),
        Err(StorageError::TimestampOutOfRange)
    );
    assert_eq!(rows(&store), vec![row(1, "a@x.com", 3, false), row(2, "a@x.com", 4, false)]);
    // The last time itself can be held.
    let (tx, _, _) = dequeue_taks(&mut store, 10).unwrap();
    assert_eq!(requeue_taks(&mut store, tx, u64::MAX - 1, 1), Ok(()));
    assert_eq!(
        rows(&store),
        vec![row(1, "a@x.com", u64::MAX, false), row(2, "a@x.com", 4, false)]
    );
}

#[test]
fn failed_poll_at_the_last_time_reports_the_store() {
    let mut store = queue_of(vec![task(1, "a@x.com", 3)]);
    let policy = WorkerPolicy::default();
    let mut outbox: Vec<OutgoingEmail> = Vec::new();
    let res = try_execute_taks(
        &mut store,
        &mut outbox,
        SendOutcome::Failed("503".to_string()),
        u64::MAX,
        &policy,
    );
    assert!(
        matches!(res, Err(ExecutionError::UnexpectedError(ref e)) if e == "timestamp out of range")
    );
    assert_eq!(outbox.len(), 1);
    assert_eq!(rows(&store), vec![row(1, "a@x.com", 3, false)]);
}

#[test]
fn released_task_is_found_as_it_was() {
    let mut store = queue_of(vec![task(1, "a@x.com", 3)]);
    let (tx, _, _) = dequeue_taks(&mut store, 100).unwrap();
    release_task(&mut store, tx);
    assert_eq!(rows(&store), vec![row(1, "a@x.com", 3, false)]);
    assert!(dequeue_taks(&mut store, 100).is_some());
}

#[test]
fn purge_removes_every_task_of_the_recipient() {
    let mut store = queue_of(vec![
        task(1, "bad", 0),
        task(1, "a@x.com", 1),
        task(2, "bad", 2),
        task(2, "a@x.com", 3),
    ]);
    let (tx, issue_id, email) = dequeue_taks(&mut store, 0).unwrap();
    assert_eq!((issue_id, email.as_str()), (1, "bad"));
    delete_tasks_for_subscriber(&mut store, tx);
    assert_eq!(rows(&store), vec![row(1, "a@x.com", 1, false), row(2, "a@x.com", 3, false)]);
}

#[test]
fn purge_removes_rows_that_other_workers_hold() {
    let mut store = queue_of(vec![task(1, "bad", 0), task(2, "bad", 0), task(1, "a@x.com", 0)]);
    let (first, _, _) = dequeue_taks(&mut store, 0).unwrap();
    let (second, id, email) = dequeue_taks(&mut store, 0).unwrap();
    assert_eq!((id, email.as_str()), (2, "bad"));
    delete_tasks_for_subscriber(&mut store, first);
    assert_eq!(rows(&store), vec![row(1, "a@x.com", 0, false)]);
    // The second holder ends on a row that is gone: nothing changes.
    delete_tasks_for_subscriber(&mut store, second);
    assert_eq!(rows(&store), vec![row(1, "a@x.com", 0, false)]);
}

#[test]
fn holder_of_a_purged_row_ends_without_a_trace() {
    let queue = || queue_of(vec![task(1, "bad", 0), task(2, "bad", 0), task(1, "a@x.com", 7)]);
    let left = vec![row(1, "a@x.com", 7, false)];

    let mut store = queue();
    let (first, _, _) = dequeue_taks(&mut store, 0).unwrap();
    let (second, _, _) = dequeue_taks(&mut store, 0).unwrap();
    delete_tasks_for_subscriber(&mut store, first);
    delete_task(&mut store, second);
    assert_eq!(rows(&store), left);

    let mut store = queue();
    let (first, _, _) = dequeue_taks(&mut store, 0).unwrap();
    let (second, _, _) = dequeue_taks(&mut store, 0).unwrap();
    delete_tasks_for_subscriber(&mut store, first);
    assert_eq!(requeue_taks(&mut store, second, 10, 1), Ok(()));
    assert_eq!(rows(&store), left);

    let mut store = queue();
    let (first, _, _) = dequeue_taks(&mut store, 0).unwrap();
    let (second, _, _) = dequeue_taks(&mut store, 0).unwrap();
    delete_tasks_for_subscriber(&mut store, first);
    release_task(&mut store, second);
    assert_eq!(rows(&store), left);
}

#[test]
fn poll_on_a_purged_row_reports_the_address_and_sends_nothing() {
    let mut store = queue_of(vec![task(1, "bad", 0), task(2, "bad", 0), task(1, "a@x.com", 7)]);
    let policy = WorkerPolicy::default();
    let (first, _, _) = dequeue_taks(&mut store, 0).unwrap();
    let (second, _, _) = dequeue_taks(&mut store, 0).unwrap();
    let mut outbox: Vec<OutgoingEmail> = Vec::new();
    let res = execute_dequeued(&mut store, first, &mut outbox, SendOutcome::Delivered, 0, &policy);
    assert!(matches!(res, Err(ExecutionError::WrongCredentials(ref e)) if e == "bad"));
    assert_eq!(rows(&store), vec![row(1, "a@x.com", 7, false)]);
    let res = execute_dequeued(&mut store, second, &mut outbox, SendOutcome::Delivered, 0, &policy);
    assert!(matches!(res, Err(ExecutionError::WrongCredentials(ref e)) if e == "bad"));
    assert_eq!(rows(&store), vec![row(1, "a@x.com", 7, false)]);
    assert!(outbox.is_empty());
    // No later poll finds a task for the address.
    assert!(dequeue_taks(&mut store, 6).is_none());
    let (_, id, email) = dequeue_taks(&mut store, 7).unwrap();
    assert_eq!((id, email.as_str()), (1, "a@x.com"));
}

#[test]
fn task_without_an_issue_is_let_go() {
    // A transaction for a task of issue 2, used on a store that has neither
    // the issue nor the row.
    let mut other = queue_of(vec![task(2, "a@x.com", 3)]);
    let (tx, _, _) = dequeue_taks(&mut other, 3).unwrap();
    let mut store = Store::new();
    store.newsletter_issues.push(issue(1));
    store.issue_delivery_queue.push(task(1, "a@x.com", 3));
    let policy = WorkerPolicy::default();
    let mut outbox: Vec<OutgoingEmail> = Vec::new();
    let res = execute_dequeued(&mut store, tx, &mut outbox, SendOutcome::Delivered, 5, &policy);
    assert!(matches!(res, Err(ExecutionError::UnexpectedError(ref e)) if e == "no rows returned"));
    assert_eq!(rows(&store), vec![row(1, "a@x.com", 3, false)]);
    assert!(outbox.is_empty());
}

#[test]
fn get_issue_reads_the_issue_of_the_task() {
    let mut store = queue_of(vec![task(2, "a@x.com", 0)]);
    let (tx, issue_id, _) = dequeue_taks(&mut store, 0).unwrap();
    let found = get_issue(&store, &tx, issue_id).unwrap();
    assert_eq!(found.newsletter_issue_id, 2);
    assert_eq!(found.title, "T");
    assert_eq!(found.html_content, "<p>html</p>");
    assert_eq!(found.text_content, "text");
    assert!(get_issue(&store, &tx, 77).is_none());
}

#[test]
fn valid_address_is_planned_for_delivery() {
    match plan_task("a@x.com".to_string()) {
        TaskPlan::Deliver(recipient) => assert_eq!(recipient.as_ref(), "a@x.com"),
        TaskPlan::PurgeRecipient(_) => panic!("the address is valid"),
    }
}

#[test]
fn invalid_address_is_planned_for_purge() {
    match plan_task("not an address".to_string()) {
        TaskPlan::PurgeRecipient(address) => assert_eq!(address, "not an address"),
        TaskPlan::Deliver(_) => panic!("the address is not valid"),
    }
}

#[test]
fn settlement_follows_the_sender() {
    let policy = WorkerPolicy { retry_delay_seconds: 4, error_backoff_seconds: 2, idle_backoff_seconds: 9 };
    assert!(matches!(settle(SendOutcome::Delivered, &policy), Settlement::Complete));
    match settle(SendOutcome::Failed("500".to_string()), &policy) {
        Settlement::Retry { delay_seconds, reason } => {
            assert_eq!(delay_seconds, 4);
            assert_eq!(reason, "500");
        }
        Settlement::Complete => panic!("the sender failed"),
    }
}

#[test]
fn standard_policy_waits_one_one_and_ten_seconds() {
    let policy = WorkerPolicy::default();
    assert_eq!(
        (policy.retry_delay_seconds, policy.error_backoff_seconds, policy.idle_backoff_seconds),
        (1, 1, 10)
    );
}

#[test]
fn worker_pauses_by_outcome() {
    let policy = WorkerPolicy::default();
    assert_eq!(worker_loop_pause(&Ok(ExecutionOutcome::TaskCompleted), &policy), None);
    assert_eq!(worker_loop_pause(&Ok(ExecutionOutcome::EmptyQueue), &policy), Some(10));
    assert_eq!(
        worker_loop_pause(&Err(ExecutionError::SendingError("x".to_string())), &policy),
        Some(1)
    );
    assert_eq!(
        worker_loop_pause(&Err(ExecutionError::WrongCredentials("x".to_string())), &policy),
        Some(1)
    );
    assert_eq!(
        worker_loop_pause(&Err(ExecutionError::UnexpectedError("x".to_string())), &policy),
        Some(1)
    );
}

#[test]
fn execution_errors_tell_what_happened() {
    assert_eq!(
        ExecutionError::SendingError("x".to_string()).to_string(),
        "Failed to deliver issue to a confirmed subscriber"
    );
    assert_eq!(
        ExecutionError::WrongCredentials("x".to_string()).to_string(),
        "Subscriber stored contact deatails are invalid"
    );
    assert_eq!(ExecutionError::UnexpectedError("pool timed out".to_string()).to_string(), "pool timed out");
}

#[test]
fn delivered_task_is_completed_and_removed() {
    let mut outbox: Vec<OutgoingEmail> = Vec::new();
    let mut store = published_to(&["a@x.com"]);
    let policy = WorkerPolicy::default();
    let r = try_execute_taks(&mut store, &mut outbox, SendOutcome::Delivered, 0, &policy);
    assert!(matches!(r, Ok(ExecutionOutcome::TaskCompleted)));
    assert!(store.issue_delivery_queue.is_empty());
    assert_eq!(outbox.len(), 1);
    assert_eq!(outbox[0].recipient.as_ref(), "a@x.com");
    assert_eq!(outbox[0].subject, "T");
    assert_eq!(outbox[0].html_body, "<p>html</p>");
    assert_eq!(outbox[0].text_body, "text");
    let r = try_execute_taks(&mut store, &mut outbox, SendOutcome::Delivered, 0, &policy);
    assert!(matches!(r, Ok(ExecutionOutcome::EmptyQueue)));
    assert_eq!(outbox.len(), 1);
}

#[test]
fn failed_delivery_is_put_back_with_the_retry_delay() {
    let mut outbox: Vec<OutgoingEmail> = Vec::new();
    let mut store = published_to(&["a@x.com"]);
    let policy = WorkerPolicy::default();
    let r = try_execute_taks(&mut store, &mut outbox, SendOutcome::Failed("500".to_string()), 20, &policy);
    match r {
        Err(ExecutionError::SendingError(reason)) => assert_eq!(reason, "500"),
        _ => panic!("the sender failed"),
    }
    assert_eq!(rows(&store), vec![row(1, "a@x.com", 21, false)]);
    // Not due yet at the same instant.
    let r = try_execute_taks(&mut store, &mut outbox, SendOutcome::Delivered, 20, &policy);
    assert!(matches!(r, Ok(ExecutionOutcome::EmptyQueue)));
    let r = try_execute_taks(&mut store, &mut outbox, SendOutcome::Delivered, 21, &policy);
    assert!(matches!(r, Ok(ExecutionOutcome::TaskCompleted)));
    assert!(store.issue_delivery_queue.is_empty());
}

#[test]
fn transient_failure_delivers_each_recipient_exactly_once() {
    let mut outbox: Vec<OutgoingEmail> = Vec::new();
    // Two confirmed subscribers; the delivery to b@x.com fails once.
    let mut store = published_to(&["a@x.com", "b@x.com"]);
    let policy = WorkerPolicy::default();
    let mut delivered: Vec<String> = Vec::new();
    let mut b_failed = false;
    let mut now: u64 = 0;
    let mut polls = 0;
    loop {
        polls += 1;
        assert!(polls < 20);
        let taken = dequeue_taks(&mut store, now);
        let result = match taken {
            None => Ok(ExecutionOutcome::EmptyQueue),
            Some((tx, _, email)) => {
                let sent = if email == "b@x.com" && !b_failed {
                    b_failed = true;
                    SendOutcome::Failed("500".to_string())
                } else {
                    SendOutcome::Delivered
                };
                let result = execute_dequeued(&mut store, tx, &mut outbox, sent, now, &policy);
                if matches!(result, Ok(ExecutionOutcome::TaskCompleted)) {
                    delivered.push(email);
                }
                result
            }
        };
        if store.issue_delivery_queue.is_empty() {
            break;
        }
        now += worker_loop_pause(&result, &policy).unwrap_or(0);
    }
    delivered.sort();
    assert_eq!(delivered, vec!["a@x.com".to_string(), "b@x.com".to_string()]);
    assert!(b_failed);
    // Three emails were handed to the sender: one to a@x.com, and two to
    // b@x.com, of which the sender refused the first.
    let mut handed: Vec<&str> = outbox.iter().map(|e| e.recipient.as_ref()).collect();
    handed.sort();
    assert_eq!(handed, vec!["a@x.com", "b@x.com", "b@x.com"]);
    assert!(outbox.iter().all(|e| e.subject == "T"
        && e.html_body == "<p>html</p>"
        && e.text_body == "text"));
    let r = try_execute_taks(&mut store, &mut outbox, SendOutcome::Delivered, now + 100, &policy);
    assert!(matches!(r, Ok(ExecutionOutcome::EmptyQueue)));
}

#[test]
fn workers_complete_each_task_once() {
    let mut outbox: Vec<OutgoingEmail> = Vec::new();
    // Three workers against five tasks: five completions, never more.
    let mut store = published_to(&["a@x.com", "b@x.com", "c@x.com", "d@x.com", "e@x.com"]);
    let policy = WorkerPolicy::default();
    let mut completions = 0;
    let mut seen: Vec<String> = Vec::new();
    loop {
        let mut held = Vec::new();
        for _ in 0..3 {
            if let Some((tx, _, email)) = dequeue_taks(&mut store, 0) {
                assert!(!seen.contains(&email));
                seen.push(email);
                held.push(tx);
            }
        }
        if held.is_empty() {
            break;
        }
        for tx in held {
            let r = execute_dequeued(&mut store, tx, &mut outbox, SendOutcome::Delivered, 0, &policy);
            assert!(matches!(r, Ok(ExecutionOutcome::TaskCompleted)));
            completions += 1;
        }
    }
    assert_eq!(completions, 5);
    assert_eq!(outbox.len(), 5);
    assert!(store.issue_delivery_queue.is_empty());
}

#[test]
fn invalid_address_is_purged_and_blocks_nobody() {
    let mut outbox: Vec<OutgoingEmail> = Vec::new();
    let mut store = published_to(&["not-an-address", "a@x.com"]);
    store.newsletter_issues.push(issue(2));
    store.issue_delivery_queue.push(task(2, "not-an-address", 0));
    let policy = WorkerPolicy::default();
    // The sender would fail, but it is never asked.
    let r = try_execute_taks(&mut store, &mut outbox, SendOutcome::Failed("down".to_string()), 0, &policy);
    match r {
        Err(ExecutionError::WrongCredentials(address)) => assert_eq!(address, "not-an-address"),
        _ => panic!("the address is not valid"),
    }
    assert!(outbox.is_empty());
    assert_eq!(rows(&store), vec![row(1, "a@x.com", 0, false)]);
    let r = try_execute_taks(&mut store, &mut outbox, SendOutcome::Delivered, 0, &policy);
    assert!(matches!(r, Ok(ExecutionOutcome::TaskCompleted)));
    assert!(store.issue_delivery_queue.is_empty());
}

#[test]
fn worker_loop_stops_only_on_shutdown() {
    let policy = WorkerPolicy::default();
    assert_eq!(worker_loop(false, &Ok(ExecutionOutcome::TaskCompleted), &policy), LoopStep::Poll);
    assert_eq!(worker_loop(false, &Ok(ExecutionOutcome::EmptyQueue), &policy), LoopStep::SleepThenPoll(10));
    assert_eq!(
        worker_loop(false, &Err(ExecutionError::SendingError("x".to_string())), &policy),
        LoopStep::SleepThenPoll(1)
    );
    assert_eq!(worker_loop(true, &Ok(ExecutionOutcome::TaskCompleted), &policy), LoopStep::Stop);
    assert_eq!(worker_loop(true, &Ok(ExecutionOutcome::EmptyQueue), &policy), LoopStep::Stop);
}

#[test]
fn worker_policy_is_valid_or_refused() {
    assert!(WorkerPolicy::default().is_valid());
    assert_eq!(
        WorkerPolicy::new(4, 2, 9),
        Some(WorkerPolicy { retry_delay_seconds: 4, error_backoff_seconds: 2, idle_backoff_seconds: 9 })
    );
    assert!(WorkerPolicy::new(1, 1, 2).is_some());
    // No retry at once, no poll at once after a failure, and the idle wait
    // is the longer one.
    assert_eq!(WorkerPolicy::new(0, 1, 10), None);
    assert_eq!(WorkerPolicy::new(1, 0, 10), None);
    assert_eq!(WorkerPolicy::new(1, 5, 5), None);
    assert_eq!(WorkerPolicy::new(1, 5, 4), None);
    let lazy = WorkerPolicy { retry_delay_seconds: 0, error_backoff_seconds: 1, idle_backoff_seconds: 10 };
    assert!(!lazy.is_valid());
}

#[test]
fn plan_follows_the_parsed_address() {
    let parsed = SubscriberEmail::parse("a@x.com".to_string());
    match plan_parsed("stored".to_string(), parsed) {
        TaskPlan::Deliver(recipient) => assert_eq!(recipient.as_ref(), "a@x.com"),
        TaskPlan::PurgeRecipient(_) => panic!("the address was accepted"),
    }
    match plan_parsed("stored".to_string(), Err("refused".to_string())) {
        TaskPlan::PurgeRecipient(address) => assert_eq!(address, "stored"),
        TaskPlan::Deliver(_) => panic!("the address was refused"),
    }
}
