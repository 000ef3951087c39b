use zero2prod::idempotency::get_seved_response;
use zero2prod::idempotency::decide_claim;
use zero2prod::idempotency::insert_claim;
use zero2prod::idempotency::restore_saved;
use zero2prod::idempotency::rollback;
use zero2prod::idempotency::save_response;
use zero2prod::idempotency::saved_or_incomplete;
use zero2prod::idempotency::try_processing;
use zero2prod::idempotency::ClaimDecision;
use zero2prod::idempotency::HeaderPairRecord;
use zero2prod::idempotency::HttpResponse;
use zero2prod::idempotency::IdempotencyError;
use zero2prod::idempotency::IdempotencyKey;
use zero2prod::idempotency::IdempotencyKeyError;
use zero2prod::idempotency::NextAction;
use zero2prod::idempotency::ResponseError;
use zero2prod::idempotency::SavedResponse;
use zero2prod::newsletter::enqueue_delivery_tasks;
use zero2prod::newsletter::insert_issue_with_id;
use zero2prod::newsletter::insert_newsletter_issues;
use zero2prod::newsletter::publish_newsletter;
use zero2prod::newsletter::publish_newsletter_with_id;
use zero2prod::newsletter::BodyData;
use zero2prod::newsletter::NewsletterError;
use zero2prod::store::IdempotencyRecord;
use zero2prod::store::StorageError;
use zero2prod::store::Store;
use zero2prod::store::Subscription;
use zero2prod::store::SubscriptionStatus;

const USER: u128 = 7;

fn header(name: &str, value: &[u8]) -> HeaderPairRecord {
    HeaderPairRecord { name: name.to_string(), value: value.to_vec() }
}

fn redirect(to: &str) -> HttpResponse {
    HttpResponse::new(303, vec![header("location", to.as_bytes())], Vec::new()).unwrap()
}

fn form(title: &str, key: &str) -> BodyData {
    BodyData {
        title: title.to_string(),
        html: format!("<p>{}</p>", title),
        text: format!("{} as plain text", title),
        idempotency_key: key.to_string(),
    }
}

fn subscriber(id: u128, email: &str, status: SubscriptionStatus) -> Subscription {
    Subscription {
        id,
        email: email.to_string(),
        name: "le guin".to_string(),
        subscribed_at: 0,
        status,
    }
}

fn store_with_two_confirmed() -> Store {
    let mut store = Store::new();
    store.subscriptions.push(subscriber(1, "a@x.com", SubscriptionStatus::Confirmed));
    store.subscriptions.push(subscriber(2, "b@x.com", SubscriptionStatus::Confirmed));
    store.subscriptions.push(subscriber(3, "c@x.com", SubscriptionStatus::PendingConfirmation));
    store
}

fn parts(r: &HttpResponse) -> (u16, Vec<(String, Vec<u8>)>, Vec<u8>) {
    (
        r.status_code(),
        r.headers().iter().map(|h| (h.name.clone(), h.value.clone())).collect(),
        r.body().clone(),
    )
}

#[test]
fn empty_key_is_rejected() {
    let r = IdempotencyKey::try_from(String::new());
    assert!(matches!(r, Err(IdempotencyKeyError::Empty)));
    assert_eq!(IdempotencyKeyError::Empty.message(), "The idempotency key cannot be empty");
}

#[test]
fn key_of_49_characters_is_accepted() {
    let key = IdempotencyKey::try_from("k".repeat(49)).unwrap();
    assert_eq!(key.as_ref(), "k".repeat(49));
    assert_eq!(key.into_string(), "k".repeat(49));
}

#[test]
fn key_of_50_characters_is_rejected() {
    let r = IdempotencyKey::try_from("k".repeat(50));
    assert!(matches!(r, Err(IdempotencyKeyError::TooLong)));
    assert_eq!(
        IdempotencyKeyError::TooLong.message(),
        "The idempotency key must be shorter than 50 characters"
    );
}

#[test]
fn key_of_one_character_is_accepted() {
    assert!(IdempotencyKey::try_from("K".to_string()).is_ok());
}

#[test]
fn key_length_counts_characters() {
    // 49 characters, each of two bytes.
    assert!(IdempotencyKey::try_from("é".repeat(49)).is_ok());
    assert!(matches!(
        IdempotencyKey::try_from("é".repeat(50)),
        Err(IdempotencyKeyError::TooLong)
    ));
}

#[test]
fn response_keeps_status_headers_and_body() {
    let r = HttpResponse::new(
        200,
        vec![header("content-type", b"text/html"), header("set-cookie", b"a=1"), header("set-cookie", b"b=2")],
        b"hello".to_vec(),
    )
    .unwrap();
    assert_eq!(
        parts(&r),
        (
            200,
            vec![
                ("content-type".to_string(), b"text/html".to_vec()),
                ("set-cookie".to_string(), b"a=1".to_vec()),
                ("set-cookie".to_string(), b"b=2".to_vec()),
            ],
            b"hello".to_vec()
        )
    );
}

#[test]
fn header_names_are_put_in_lower_case() {
    let r = HttpResponse::new(200, vec![header("Content-Type", b"text/html")], Vec::new()).unwrap();
    assert_eq!(r.headers()[0].name, "content-type");
    assert_eq!(r.headers()[0].value, b"text/html".to_vec());
}

#[test]
fn status_code_below_100_is_rejected() {
    assert!(matches!(
        HttpResponse::new(99, Vec::new(), Vec::new()),
        Err(ResponseError::InvalidStatusCode)
    ));
    assert!(matches!(HttpResponse::status_only(99), Err(ResponseError::InvalidStatusCode)));
}

#[test]
fn status_code_above_999_is_rejected() {
    assert!(matches!(
        HttpResponse::new(1000, Vec::new(), Vec::new()),
        Err(ResponseError::InvalidStatusCode)
    ));
    assert!(HttpResponse::new(999, Vec::new(), Vec::new()).is_ok());
    assert!(HttpResponse::new(100, Vec::new(), Vec::new()).is_ok());
}

#[test]
fn first_invalid_header_name_is_reported() {
    let r = HttpResponse::new(
        200,
        vec![header("ok", b"1"), header("not ok", b"2"), header("", b"3")],
        Vec::new(),
    );
    assert!(matches!(r, Err(ResponseError::InvalidHeaderName { index: 1 })));
}

#[test]
fn empty_header_name_is_rejected() {
    let r = HttpResponse::new(200, vec![header("", b"1")], Vec::new());
    assert!(matches!(r, Err(ResponseError::InvalidHeaderName { index: 0 })));
}

#[test]
fn non_ascii_header_name_is_rejected() {
    let r = HttpResponse::new(200, vec![header("naïve", b"1")], Vec::new());
    assert!(matches!(r, Err(ResponseError::InvalidHeaderName { index: 0 })));
}

#[test]
fn invalid_header_value_is_reported() {
    let r = HttpResponse::new(200, vec![header("a", b"fine"), header("b", b"line\nbreak")], Vec::new());
    assert!(matches!(r, Err(ResponseError::InvalidHeaderValue { index: 1 })));
    let del = HttpResponse::new(200, vec![header("a", &[127u8])], Vec::new());
    assert!(matches!(del, Err(ResponseError::InvalidHeaderValue { index: 0 })));
}

#[test]
fn header_value_may_hold_tab_and_high_bytes() {
    let r = HttpResponse::new(200, vec![header("a", &[9u8, 32, 126, 128, 255])], Vec::new());
    assert!(r.is_ok());
}

#[test]
fn name_is_checked_before_value() {
    let r = HttpResponse::new(200, vec![header("bad name", b"bad\nvalue")], Vec::new());
    assert!(matches!(r, Err(ResponseError::InvalidHeaderName { index: 0 })));
}

#[test]
fn with_header_appends_and_checks() {
    let r = HttpResponse::status_only(401).unwrap();
    let r = r.with_header("WWW-Authenticate", b"Basic").unwrap();
    assert_eq!(parts(&r), (401, vec![("www-authenticate".to_string(), b"Basic".to_vec())], Vec::new()));
    let bad = r.duplicate().with_header("a b", b"x");
    assert!(matches!(bad, Err(ResponseError::InvalidHeaderName { index: 1 })));
    let bad = r.duplicate().with_header("a", b"\r");
    assert!(matches!(bad, Err(ResponseError::InvalidHeaderValue { index: 1 })));
    let with_body = r.with_body(b"body".to_vec());
    assert_eq!(with_body.body(), &b"body".to_vec());
}

#[test]
fn saved_response_round_trips() {
    let r = HttpResponse::new(
        303,
        vec![header("location", b"/admin/newsletter"), header("set-cookie", &[b'x', 0xfa])],
        vec![0, 1, 2, 255],
    )
    .unwrap();
    let saved = r.to_saved();
    assert_eq!(saved.response_status_code, 303);
    assert_eq!(saved.response_headers.len(), 2);
    assert_eq!(saved.response_body, vec![0, 1, 2, 255]);
    let back = HttpResponse::from_saved(saved).unwrap();
    assert_eq!(parts(&back), parts(&r));
}

#[test]
fn negative_saved_status_is_rejected() {
    let saved = SavedResponse {
        response_status_code: -1,
        response_headers: Vec::new(),
        response_body: Vec::new(),
    };
    assert!(matches!(HttpResponse::from_saved(saved), Err(ResponseError::StatusCodeOutOfRange)));
}

#[test]
fn saved_status_out_of_range_is_rejected() {
    let saved = SavedResponse {
        response_status_code: 42,
        response_headers: Vec::new(),
        response_body: Vec::new(),
    };
    assert!(matches!(HttpResponse::from_saved(saved), Err(ResponseError::InvalidStatusCode)));
}

#[test]
fn claim_decision_follows_inserted_rows() {
    assert_eq!(decide_claim(1), ClaimDecision::StartProcessing);
    assert_eq!(decide_claim(3), ClaimDecision::StartProcessing);
    assert_eq!(decide_claim(0), ClaimDecision::ReturnSavedResponse);
}

#[test]
fn restore_saved_gives_the_response_or_nothing() {
    assert!(matches!(restore_saved(None), Ok(None)));
    assert!(matches!(restore_saved(Some(None)), Err(IdempotencyError::NotYetCompleted)));
    let r = redirect("/x");
    let back = restore_saved(Some(Some(r.to_saved()))).unwrap().unwrap();
    assert_eq!(parts(&back), parts(&r));
    let corrupt = SavedResponse {
        response_status_code: 200,
        response_headers: vec![header("a b", b"")],
        response_body: Vec::new(),
    };
    assert!(matches!(
        restore_saved(Some(Some(corrupt))),
        Err(IdempotencyError::CorruptResponse(ResponseError::InvalidHeaderName { index: 0 }))
    ));
}

#[test]
fn missing_saved_response_is_not_yet_completed() {
    assert!(matches!(saved_or_incomplete(None), Err(IdempotencyError::NotYetCompleted)));
    let r = redirect("/x");
    let same = saved_or_incomplete(Some(r.duplicate())).unwrap();
    assert_eq!(parts(&same), parts(&r));
}

#[test]
fn first_request_claims_the_key() {
    let mut store = Store::new();
    let key = IdempotencyKey::try_from("K1".to_string()).unwrap();
    let action = try_processing(&mut store, &key, USER, 5).unwrap();
    assert!(matches!(action, NextAction::StartProcessing(_)));
    assert_eq!(store.idempotency.len(), 1);
    assert_eq!(store.idempotency[0].user_id, USER);
    assert_eq!(store.idempotency[0].idempotency_key, "K1");
    assert_eq!(store.idempotency[0].created_at, 5);
    assert!(store.idempotency[0].response.is_none());
}

#[test]
fn claim_without_a_response_cannot_be_read() {
    let mut store = Store::new();
    let key = IdempotencyKey::try_from("K1".to_string()).unwrap();
    // A key that nobody claimed has nothing saved.
    assert!(matches!(get_seved_response(&store, &key, USER), Ok(None)));
    try_processing(&mut store, &key, USER, 5).unwrap();
    // Claimed and not completed: the read fails, and changes nothing.
    assert!(matches!(
        get_seved_response(&store, &key, USER),
        Err(IdempotencyError::NotYetCompleted)
    ));
    assert_eq!(store.idempotency.len(), 1);
    assert!(store.idempotency[0].response.is_none());
    // Another user's key of the same text is still unclaimed.
    assert!(matches!(get_seved_response(&store, &key, USER + 1), Ok(None)));
}

#[test]
fn insert_claim_inserts_once() {
    let mut store = Store::new();
    let key = IdempotencyKey::try_from("K1".to_string()).unwrap();
    assert_eq!(insert_claim(&mut store, &key, USER, 1), 1);
    assert_eq!(insert_claim(&mut store, &key, USER, 2), 0);
    assert_eq!(store.idempotency.len(), 1);
    assert_eq!(store.idempotency[0].created_at, 1);
    // Another user may use the same key.
    assert_eq!(insert_claim(&mut store, &key, USER + 1, 3), 1);
    assert_eq!(store.idempotency.len(), 2);
}

#[test]
fn claim_left_behind_is_not_yet_completed() {
    let mut store = Store::new();
    let key = IdempotencyKey::try_from("K1".to_string()).unwrap();
    let _abandoned = try_processing(&mut store, &key, USER, 5).unwrap();
    let second = try_processing(&mut store, &key, USER, 6);
    assert!(matches!(second, Err(IdempotencyError::NotYetCompleted)));
    assert_eq!(store.idempotency.len(), 1);
}

#[test]
fn completed_key_is_replayed() {
    let mut store = Store::new();
    let key = IdempotencyKey::try_from("K1".to_string()).unwrap();
    let tx = match try_processing(&mut store, &key, USER, 5).unwrap() {
        NextAction::StartProcessing(tx) => tx,
        NextAction::ReturnSavedResponse(_) => panic!("the key was free"),
    };
    let answered = save_response(&mut store, tx, redirect("/admin/newsletter")).unwrap();
    assert_eq!(parts(&answered), parts(&redirect("/admin/newsletter")));
    match try_processing(&mut store, &key, USER, 9).unwrap() {
        NextAction::ReturnSavedResponse(saved) => assert_eq!(parts(&saved), parts(&answered)),
        NextAction::StartProcessing(_) => panic!("the key was claimed"),
    }
    let saved = get_seved_response(&store, &key, USER).unwrap().unwrap();
    assert_eq!(parts(&saved), parts(&answered));
}

#[test]
fn duplicates_after_the_commit_are_replayed() {
    let mut store = Store::new();
    let key = IdempotencyKey::try_from("K1".to_string()).unwrap();
    let tx = match try_processing(&mut store, &key, USER, 5).unwrap() {
        NextAction::StartProcessing(tx) => tx,
        NextAction::ReturnSavedResponse(_) => panic!("the key was free"),
    };
    let answered = save_response(&mut store, tx, redirect("/admin/newsletter")).unwrap();
    // Each duplicate is given the answer of the first, and none starts.
    for now in 9..14 {
        match try_processing(&mut store, &key, USER, now).unwrap() {
            NextAction::ReturnSavedResponse(saved) => assert_eq!(parts(&saved), parts(&answered)),
            NextAction::StartProcessing(_) => panic!("the key was claimed"),
        }
        assert_eq!(store.idempotency.len(), 1);
        assert_eq!(store.idempotency[0].created_at, 5);
    }
}

#[test]
fn duplicate_after_a_rollback_is_the_first() {
    let mut store = Store::new();
    let key = IdempotencyKey::try_from("K1".to_string()).unwrap();
    let tx = match try_processing(&mut store, &key, USER, 5).unwrap() {
        NextAction::StartProcessing(tx) => tx,
        NextAction::ReturnSavedResponse(_) => panic!("the key was free"),
    };
    rollback(&mut store, tx);
    let tx = match try_processing(&mut store, &key, USER, 6).unwrap() {
        NextAction::StartProcessing(tx) => tx,
        NextAction::ReturnSavedResponse(_) => panic!("the key was free again"),
    };
    let answered = save_response(&mut store, tx, redirect("/second")).unwrap();
    match try_processing(&mut store, &key, USER, 7).unwrap() {
        NextAction::ReturnSavedResponse(saved) => assert_eq!(parts(&saved), parts(&answered)),
        NextAction::StartProcessing(_) => panic!("the key was claimed"),
    }
    assert_eq!(store.idempotency.len(), 1);
    assert_eq!(store.idempotency[0].created_at, 6);
}

#[test]
fn rollback_frees_the_key() {
    let mut store = Store::new();
    let key = IdempotencyKey::try_from("K1".to_string()).unwrap();
    let tx = match try_processing(&mut store, &key, USER, 5).unwrap() {
        NextAction::StartProcessing(tx) => tx,
        NextAction::ReturnSavedResponse(_) => panic!("the key was free"),
    };
    rollback(&mut store, tx);
    assert!(store.idempotency.is_empty());
    assert!(matches!(
        try_processing(&mut store, &key, USER, 6).unwrap(),
        NextAction::StartProcessing(_)
    ));
}

#[test]
fn writes_are_invisible_until_commit() {
    let mut store = store_with_two_confirmed();
    let key = IdempotencyKey::try_from("K1".to_string()).unwrap();
    let mut tx = match try_processing(&mut store, &key, USER, 5).unwrap() {
        NextAction::StartProcessing(tx) => tx,
        NextAction::ReturnSavedResponse(_) => panic!("the key was free"),
    };
    assert_eq!(insert_issue_with_id(&mut tx, &store, 100, "T", "text", "<p>html</p>", 5), Ok(100));
    assert_eq!(enqueue_delivery_tasks(&mut tx, &store, 100, 5), Ok(()));
    assert!(store.newsletter_issues.is_empty());
    assert!(store.issue_delivery_queue.is_empty());
    save_response(&mut store, tx, redirect("/admin/newsletter")).unwrap();
    assert_eq!(store.newsletter_issues.len(), 1);
    assert_eq!(store.newsletter_issues[0].newsletter_issue_id, 100);
    assert_eq!(store.newsletter_issues[0].title, "T");
    assert_eq!(store.newsletter_issues[0].text_content, "text");
    assert_eq!(store.newsletter_issues[0].html_content, "<p>html</p>");
    assert_eq!(store.newsletter_issues[0].published_at, 5);
    let queued: Vec<(u128, String, u64, bool)> = store
        .issue_delivery_queue
        .iter()
        .map(|t| (t.newsletter_issue_id, t.subscriber_email.clone(), t.next_retry, t.locked))
        .collect();
    assert_eq!(
        queued,
        vec![(100, "a@x.com".to_string(), 5, false), (100, "b@x.com".to_string(), 5, false)]
    );
}

#[test]
fn commit_fails_when_the_identifier_was_taken_meanwhile() {
    let mut store = store_with_two_confirmed();
    let key = IdempotencyKey::try_from("K1".to_string()).unwrap();
    let mut tx = match try_processing(&mut store, &key, USER, 5).unwrap() {
        NextAction::StartProcessing(tx) => tx,
        NextAction::ReturnSavedResponse(_) => panic!("the key was free"),
    };
    assert_eq!(insert_issue_with_id(&mut tx, &store, 100, "T", "t", "h", 5), Ok(100));
    assert_eq!(enqueue_delivery_tasks(&mut tx, &store, 100, 5), Ok(()));
    // Another request publishes an issue with the same identifier first.
    publish_newsletter_with_id(&mut store, USER, form("Other", "K2"), 100, redirect("/other"), 6).unwrap();
    let r = save_response(&mut store, tx, redirect("/admin/newsletter"));
    assert!(matches!(r, Err(IdempotencyError::Storage(StorageError::DuplicateIssue))));
    // Nothing of the transaction is left, not even its claim.
    assert_eq!(store.idempotency.len(), 1);
    assert_eq!(store.idempotency[0].idempotency_key, "K2");
    assert_eq!(store.newsletter_issues.len(), 1);
    assert_eq!(store.newsletter_issues[0].title, "Other");
    assert_eq!(store.issue_delivery_queue.len(), 2);
}

#[test]
fn enqueue_needs_an_issue_of_the_transaction() {
    let mut store = store_with_two_confirmed();
    let key = IdempotencyKey::try_from("K1".to_string()).unwrap();
    let mut tx = match try_processing(&mut store, &key, USER, 5).unwrap() {
        NextAction::StartProcessing(tx) => tx,
        NextAction::ReturnSavedResponse(_) => panic!("the key was free"),
    };
    assert_eq!(
        enqueue_delivery_tasks(&mut tx, &store, 100, 5),
        Err(StorageError::IssueNotInTransaction)
    );
    assert_eq!(insert_issue_with_id(&mut tx, &store, 100, "T", "t", "h", 5), Ok(100));
    assert_eq!(
        insert_issue_with_id(&mut tx, &store, 100, "T", "t", "h", 5),
        Err(StorageError::DuplicateIssue)
    );
    assert_eq!(enqueue_delivery_tasks(&mut tx, &store, 100, 5), Ok(()));
    assert_eq!(enqueue_delivery_tasks(&mut tx, &store, 100, 5), Err(StorageError::DuplicateTask));
    assert_eq!(tx.tasks.len(), 2);
}

#[test]
fn issue_identifiers_are_random_uuids() {
    let mut store = Store::new();
    let key = IdempotencyKey::try_from("K1".to_string()).unwrap();
    let mut tx = match try_processing(&mut store, &key, USER, 5).unwrap() {
        NextAction::StartProcessing(tx) => tx,
        NextAction::ReturnSavedResponse(_) => panic!("the key was free"),
    };
    let first = insert_newsletter_issues(&mut tx, &store, "T", "t", "h", 5).unwrap();
    let second = insert_newsletter_issues(&mut tx, &store, "T", "t", "h", 5).unwrap();
    assert_ne!(first, second);
    for id in [first, second] {
        assert_eq!((id >> 76) & 0xf, 4);
        assert_eq!((id >> 62) & 0x3, 2);
    }
    assert_eq!(tx.issues.len(), 2);
}

#[test]
fn publish_enqueues_one_task_per_confirmed_subscriber() {
    let mut store = store_with_two_confirmed();
    let answer =
        publish_newsletter_with_id(&mut store, USER, form("T", "K1"), 100, redirect("/admin/newsletter"), 7)
            .unwrap();
    assert_eq!(parts(&answer), parts(&redirect("/admin/newsletter")));
    assert_eq!(store.newsletter_issues.len(), 1);
    assert_eq!(store.newsletter_issues[0].title, "T");
    assert_eq!(store.newsletter_issues[0].html_content, "<p>T</p>");
    assert_eq!(store.newsletter_issues[0].text_content, "T as plain text");
    let recipients: Vec<&str> =
        store.issue_delivery_queue.iter().map(|t| t.subscriber_email.as_str()).collect();
    assert_eq!(recipients, vec!["a@x.com", "b@x.com"]);
    assert!(store.issue_delivery_queue.iter().all(|t| t.newsletter_issue_id == 100 && t.next_retry == 7));
}

#[test]
fn publishing_twice_under_one_key_publishes_once() {
    let mut store = store_with_two_confirmed();
    let first =
        publish_newsletter_with_id(&mut store, USER, form("T", "K1"), 100, redirect("/first"), 7).unwrap();
    let second =
        publish_newsletter_with_id(&mut store, USER, form("T", "K1"), 101, redirect("/second"), 8).unwrap();
    assert_eq!(parts(&second), parts(&first));
    assert_eq!(parts(&second), parts(&redirect("/first")));
    assert_eq!(store.newsletter_issues.len(), 1);
    assert_eq!(store.issue_delivery_queue.len(), 2);
    assert_eq!(store.idempotency.len(), 1);
}

#[test]
fn replay_ignores_the_body_of_the_second_request() {
    let mut store = store_with_two_confirmed();
    let first =
        publish_newsletter_with_id(&mut store, USER, form("T", "K1"), 100, redirect("/first"), 7).unwrap();
    let second = publish_newsletter_with_id(
        &mut store,
        USER,
        form("Another title", "K1"),
        101,
        HttpResponse::new(200, Vec::new(), b"other".to_vec()).unwrap(),
        8,
    )
    .unwrap();
    assert_eq!(parts(&second), parts(&first));
    assert_eq!(store.newsletter_issues.len(), 1);
    assert_eq!(store.newsletter_issues[0].title, "T");
    assert_eq!(store.newsletter_issues[0].html_content, "<p>T</p>");
}

#[test]
fn many_duplicates_converge_on_the_first() {
    let mut store = store_with_two_confirmed();
    let first =
        publish_newsletter_with_id(&mut store, USER, form("T", "K1"), 100, redirect("/first"), 7).unwrap();
    for n in 0..5u128 {
        let again = publish_newsletter_with_id(
            &mut store,
            USER,
            form("T", "K1"),
            200 + n,
            redirect("/later"),
            8,
        )
        .unwrap();
        assert_eq!(parts(&again), parts(&first));
    }
    assert_eq!(store.newsletter_issues.len(), 1);
    assert_eq!(store.issue_delivery_queue.len(), 2);
    assert_eq!(store.idempotency.len(), 1);
}

#[test]
fn different_keys_publish_different_issues() {
    let mut store = store_with_two_confirmed();
    publish_newsletter_with_id(&mut store, USER, form("T", "K1"), 100, redirect("/a"), 7).unwrap();
    publish_newsletter_with_id(&mut store, USER, form("T", "K2"), 101, redirect("/b"), 8).unwrap();
    assert_eq!(store.newsletter_issues.len(), 2);
    assert_eq!(store.issue_delivery_queue.len(), 4);
}

#[test]
fn same_key_of_another_user_is_another_operation() {
    let mut store = store_with_two_confirmed();
    publish_newsletter_with_id(&mut store, USER, form("T", "K1"), 100, redirect("/a"), 7).unwrap();
    let other =
        publish_newsletter_with_id(&mut store, USER + 1, form("T", "K1"), 101, redirect("/b"), 8).unwrap();
    assert_eq!(parts(&other), parts(&redirect("/b")));
    assert_eq!(store.newsletter_issues.len(), 2);
}

#[test]
fn invalid_key_is_a_client_error_without_side_effects() {
    let mut store = store_with_two_confirmed();
    let empty = publish_newsletter_with_id(&mut store, USER, form("T", ""), 100, redirect("/a"), 7);
    assert!(matches!(
        empty,
        Err(NewsletterError::InvalidIdempotencyKey(IdempotencyKeyError::Empty))
    ));
    let long =
        publish_newsletter_with_id(&mut store, USER, form("T", &"k".repeat(50)), 100, redirect("/a"), 7);
    assert!(matches!(
        long,
        Err(NewsletterError::InvalidIdempotencyKey(IdempotencyKeyError::TooLong))
    ));
    assert_eq!(long.unwrap_err().status_code(), 400);
    assert!(store.idempotency.is_empty());
    assert!(store.newsletter_issues.is_empty());
    assert!(store.issue_delivery_queue.is_empty());
}

#[test]
fn taken_issue_identifier_rolls_everything_back() {
    let mut store = store_with_two_confirmed();
    publish_newsletter_with_id(&mut store, USER, form("T", "K1"), 100, redirect("/a"), 7).unwrap();
    let clash = publish_newsletter_with_id(&mut store, USER, form("T", "K2"), 100, redirect("/b"), 8);
    assert!(matches!(clash, Err(NewsletterError::Storage(StorageError::DuplicateIssue))));
    assert_eq!(clash.unwrap_err().status_code(), 500);
    assert_eq!(store.idempotency.len(), 1);
    assert_eq!(store.newsletter_issues.len(), 1);
    assert_eq!(store.issue_delivery_queue.len(), 2);
    // The key is free again: the retry with another identifier publishes.
    assert!(publish_newsletter_with_id(&mut store, USER, form("T", "K2"), 101, redirect("/b"), 9).is_ok());
    assert_eq!(store.newsletter_issues.len(), 2);
}

#[test]
fn incomplete_claim_is_a_server_error() {
    let mut store = store_with_two_confirmed();
    store.idempotency.push(IdempotencyRecord {
        user_id: USER,
        idempotency_key: "K1".to_string(),
        response: None,
        created_at: 1,
    });
    let r = publish_newsletter_with_id(&mut store, USER, form("T", "K1"), 100, redirect("/a"), 7);
    assert!(matches!(r, Err(NewsletterError::Idempotency(IdempotencyError::NotYetCompleted))));
    assert_eq!(r.unwrap_err().status_code(), 500);
    assert!(store.newsletter_issues.is_empty());
}

#[test]
fn corrupt_saved_response_is_a_server_error() {
    let mut store = store_with_two_confirmed();
    store.idempotency.push(IdempotencyRecord {
        user_id: USER,
        idempotency_key: "K1".to_string(),
        response: Some(SavedResponse {
            response_status_code: 200,
            response_headers: vec![header("x", b"\n")],
            response_body: Vec::new(),
        }),
        created_at: 1,
    });
    let r = publish_newsletter_with_id(&mut store, USER, form("T", "K1"), 100, redirect("/a"), 7);
    assert!(matches!(
        r,
        Err(NewsletterError::Idempotency(IdempotencyError::CorruptResponse(
            ResponseError::InvalidHeaderValue { index: 0 }
        )))
    ));
}

#[test]
fn publish_with_a_fresh_identifier() {
    let mut store = store_with_two_confirmed();
    let answer = publish_newsletter(&mut store, USER, form("T", "K1"), redirect("/a"), 7).unwrap();
    assert_eq!(parts(&answer), parts(&redirect("/a")));
    assert_eq!(store.newsletter_issues.len(), 1);
    let id = store.newsletter_issues[0].newsletter_issue_id;
    assert_eq!((id >> 76) & 0xf, 4);
    assert!(store.issue_delivery_queue.iter().all(|t| t.newsletter_issue_id == id));
    let again = publish_newsletter(&mut store, USER, form("T", "K1"), redirect("/b"), 8).unwrap();
    assert_eq!(parts(&again), parts(&answer));
    assert_eq!(store.newsletter_issues.len(), 1);
}

#[test]
fn accepted_issue_redirects_to_the_form() {
    let redirect = zero2prod::newsletter::accepted_redirect();
    assert_eq!(
        redirect.message,
        "The newsletter issue has been accepted - emails will go out shortly."
    );
    assert_eq!(redirect.location, "/admin/newsletter");
}

#[test]
fn no_confirmed_subscribers_means_no_tasks() {
    let mut store = Store::new();
    store.subscriptions.push(subscriber(1, "a@x.com", SubscriptionStatus::PendingConfirmation));
    publish_newsletter_with_id(&mut store, USER, form("T", "K1"), 100, redirect("/a"), 7).unwrap();
    assert_eq!(store.newsletter_issues.len(), 1);
    assert!(store.issue_delivery_queue.is_empty());
}
