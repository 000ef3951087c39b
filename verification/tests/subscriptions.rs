use zero2prod::domain::subscriber_name::name_verdict;
use zero2prod::domain::NameValidationError;
use zero2prod::domain::NewSubscriber;
use zero2prod::domain::SubscriberEmail;
use zero2prod::domain::SubscriberName;
use zero2prod::routes::confirm_subscriber;
use zero2prod::routes::confirmation_email;
use zero2prod::routes::generate_subscription_token;
use zero2prod::routes::get_subscriber_id_by_token;
use zero2prod::routes::insert_subscriber;
use zero2prod::routes::insert_subscriber_with_id;
use zero2prod::routes::store_token;
use zero2prod::routes::subscribe;
use zero2prod::routes::subscribe_with;
use zero2prod::routes::subscribtion_confirm;
use zero2prod::routes::QueryParams;
use zero2prod::startup::ApplicationBaseUrl;
use zero2prod::store::StorageError;
use zero2prod::store::Store;
use zero2prod::store::SubscriptionStatus;

fn le_guin() -> NewSubscriber {
    NewSubscriber {
        email: SubscriberEmail::parse("ursula_le_guin@gmail.com".to_string()).unwrap(),
        name: SubscriberName::parse("le guin".to_string()).unwrap(),
    }
}

fn someone(email: &str) -> NewSubscriber {
    NewSubscriber {
        email: SubscriberEmail::parse(email.to_string()).unwrap(),
        name: SubscriberName::parse("someone".to_string()).unwrap(),
    }
}

fn base() -> ApplicationBaseUrl {
    ApplicationBaseUrl("http://127.0.0.1".to_string())
}

#[test]
fn valid_emails_are_parsed() {
    for address in ["ursula_le_guin@gmail.com", "a@x.com", "email@[127.0.0.1]", "abc@bar"] {
        let email = SubscriberEmail::parse(address.to_string()).unwrap();
        assert_eq!(email.as_ref(), address);
        assert_eq!(email.to_string(), address);
        assert_eq!(email.clone().as_ref(), address);
    }
}

#[test]
fn rejected_email_says_which() {
    let r = SubscriberEmail::parse("definitely-not-an-email".to_string());
    assert_eq!(r.unwrap_err(), "definitely-not-an-email is not a valid subscriber email");
    let r = SubscriberEmail::try_from("a@b@".to_string());
    assert_eq!(r.unwrap_err(), "a@b@ is not a valid subscriber email");
}

#[test]
fn name_of_257_graphemes_counts_graphemes_not_bytes() {
    // 256 graphemes of two code points each.
    let name = "e\u{301}".repeat(256);
    assert!(SubscriberName::parse(name).is_ok());
    let name = "e\u{301}".repeat(257);
    assert!(SubscriberName::parse(name).is_err());
}

#[test]
fn name_of_unicode_white_space_is_empty() {
    for name in ["\u{a0}", "\t\n ", "\u{2003}\u{3000}"] {
        let r = SubscriberName::parse(name.to_string());
        assert!(r.is_err());
        assert_eq!(r.unwrap_err().to_string(), "Invalid name: name is empty");
    }
}

#[test]
fn name_errors_tell_what_is_wrong() {
    let r = SubscriberName::parse("a".repeat(257));
    assert_eq!(r.unwrap_err().to_string(), "Invalid name: name is too long");
    let r = SubscriberName::parse("a<b".to_string());
    assert_eq!(r.unwrap_err().to_string(), "Invalid name: name contains forbidden character");
}

#[test]
fn blank_is_looked_for_before_length() {
    let r = SubscriberName::parse(" ".repeat(300));
    assert_eq!(r.unwrap_err().to_string(), "Invalid name: name is empty");
    let r = SubscriberName::parse("/".repeat(300));
    assert_eq!(r.unwrap_err().to_string(), "Invalid name: name is too long");
}

#[test]
fn valid_name_keeps_its_text() {
    let name = SubscriberName::parse("Poppy Bowling".to_string()).unwrap();
    assert_eq!(name.as_ref(), "Poppy Bowling");
    assert_eq!(name.to_string(), "Poppy Bowling");
    assert_eq!(SubscriberName::try_from("Ursula".to_string()).unwrap().inner(), "Ursula");
}

#[test]
fn token_has_25_letters_and_digits() {
    let token = generate_subscription_token();
    assert_eq!(token.chars().count(), 25);
    assert!(token.chars().all(|c| c.is_ascii_alphanumeric()));
    assert_ne!(token, generate_subscription_token());
}

#[test]
fn confirmation_email_carries_the_link() {
    let email = confirmation_email(
        SubscriberEmail::parse("ursula_le_guin@gmail.com".to_string()).unwrap(),
        "http://127.0.0.1",
        "abc",
    );
    assert_eq!(email.recipient.as_ref(), "ursula_le_guin@gmail.com");
    assert_eq!(email.subject, "Welcome!");
    assert_eq!(
        email.text_body,
        "Welcome to our newsletter!\nVisit http://127.0.0.1/subscriptions/confirm?subscription_token=abc to confirm your subscription."
    );
    assert_eq!(
        email.html_body,
        "Welcome to our newsletter!<br />Click <a href=\"http://127.0.0.1/subscriptions/confirm?subscription_token=abc\">here</a> to confirm your subscription."
    );
}

#[test]
fn subscribe_stores_a_pending_subscriber_and_a_token() {
    let mut store = Store::new();
    let email = subscribe_with(&mut store, &base(), le_guin(), 11, "tok".to_string(), 3).unwrap();
    assert_eq!(email.recipient.as_ref(), "ursula_le_guin@gmail.com");
    assert!(email.text_body.contains("http://127.0.0.1/subscriptions/confirm?subscription_token=tok"));
    assert_eq!(store.subscriptions.len(), 1);
    assert_eq!(store.subscriptions[0].id, 11);
    assert_eq!(store.subscriptions[0].email, "ursula_le_guin@gmail.com");
    assert_eq!(store.subscriptions[0].name, "le guin");
    assert_eq!(store.subscriptions[0].subscribed_at, 3);
    assert_eq!(store.subscriptions[0].status, SubscriptionStatus::PendingConfirmation);
    assert_eq!(store.subscription_tokens.len(), 1);
    assert_eq!(store.subscription_tokens[0].subscription_token, "tok");
    assert_eq!(store.subscription_tokens[0].subscriber_id, 11);
}

#[test]
fn subscribing_twice_with_one_address_is_refused() {
    let mut store = Store::new();
    subscribe_with(&mut store, &base(), le_guin(), 11, "tok".to_string(), 3).unwrap();
    let again = subscribe_with(&mut store, &base(), le_guin(), 12, "tok2".to_string(), 4);
    assert!(matches!(again, Err(StorageError::DuplicateSubscriber)));
    assert_eq!(store.subscriptions.len(), 1);
    assert_eq!(store.subscription_tokens.len(), 1);
}

#[test]
fn taken_token_stores_nothing() {
    let mut store = Store::new();
    subscribe_with(&mut store, &base(), le_guin(), 11, "tok".to_string(), 3).unwrap();
    let other = subscribe_with(&mut store, &base(), someone("a@x.com"), 12, "tok".to_string(), 4);
    assert!(matches!(other, Err(StorageError::DuplicateToken)));
    assert_eq!(store.subscriptions.len(), 1);
    let other = subscribe_with(&mut store, &base(), someone("a@x.com"), 11, "tok3".to_string(), 4);
    assert!(matches!(other, Err(StorageError::DuplicateSubscriber)));
    assert_eq!(store.subscriptions.len(), 1);
}

#[test]
fn subscribe_with_fresh_identifier_and_token() {
    let mut store = Store::new();
    let email = subscribe(&mut store, &base(), le_guin(), 3).unwrap();
    assert_eq!(store.subscriptions.len(), 1);
    assert_eq!(store.subscription_tokens.len(), 1);
    let token = store.subscription_tokens[0].subscription_token.clone();
    assert_eq!(token.len(), 25);
    assert_eq!(store.subscription_tokens[0].subscriber_id, store.subscriptions[0].id);
    assert_eq!((store.subscriptions[0].id >> 76) & 0xf, 4);
    assert_eq!(
        email.text_body,
        format!(
            "Welcome to our newsletter!\nVisit http://127.0.0.1/subscriptions/confirm?subscription_token={} to confirm your subscription.",
            token
        )
    );
    assert!(subscribe(&mut store, &base(), le_guin(), 4).is_err());
    assert_eq!(store.subscriptions.len(), 1);
}

#[test]
fn insert_and_token_statements() {
    let mut store = Store::new();
    assert_eq!(insert_subscriber_with_id(&mut store, &le_guin(), 1, 0), Ok(1));
    assert_eq!(
        insert_subscriber_with_id(&mut store, &someone("a@x.com"), 1, 0),
        Err(StorageError::DuplicateSubscriber)
    );
    let id = insert_subscriber(&mut store, &someone("a@x.com"), 0).unwrap();
    assert_eq!(store.subscriptions[1].id, id);
    assert_eq!(store_token(&mut store, 99, "t"), Err(StorageError::UnknownSubscriber));
    assert_eq!(store_token(&mut store, 1, "t"), Ok(()));
    assert_eq!(store_token(&mut store, id, "t"), Err(StorageError::DuplicateToken));
    assert_eq!(store_token(&mut store, id, "u"), Ok(()));
    assert_eq!(get_subscriber_id_by_token(&store, "t"), Some(1));
    assert_eq!(get_subscriber_id_by_token(&store, "u"), Some(id));
    assert_eq!(get_subscriber_id_by_token(&store, "v"), None);
}

#[test]
fn following_the_link_confirms_the_subscriber() {
    let mut store = Store::new();
    subscribe_with(&mut store, &base(), le_guin(), 11, "tok".to_string(), 3).unwrap();
    subscribe_with(&mut store, &base(), someone("a@x.com"), 12, "other".to_string(), 3).unwrap();
    let status = subscribtion_confirm(&mut store, QueryParams { subscription_token: "tok".to_string() });
    assert_eq!(status, 200);
    assert_eq!(store.subscriptions[0].status, SubscriptionStatus::Confirmed);
    assert_eq!(store.subscriptions[0].email, "ursula_le_guin@gmail.com");
    assert_eq!(store.subscriptions[0].name, "le guin");
    assert_eq!(store.subscriptions[1].status, SubscriptionStatus::PendingConfirmation);
}

#[test]
fn unknown_token_is_unauthorized() {
    let mut store = Store::new();
    subscribe_with(&mut store, &base(), le_guin(), 11, "tok".to_string(), 3).unwrap();
    let status = subscribtion_confirm(&mut store, QueryParams { subscription_token: "nope".to_string() });
    assert_eq!(status, 401);
    assert_eq!(store.subscriptions[0].status, SubscriptionStatus::PendingConfirmation);
}

#[test]
fn confirming_an_unknown_subscriber_changes_nothing() {
    let mut store = Store::new();
    subscribe_with(&mut store, &base(), le_guin(), 11, "tok".to_string(), 3).unwrap();
    confirm_subscriber(&mut store, 99);
    assert_eq!(store.subscriptions[0].status, SubscriptionStatus::PendingConfirmation);
    confirm_subscriber(&mut store, 11);
    assert_eq!(store.subscriptions[0].status, SubscriptionStatus::Confirmed);
}

#[test]
fn name_of_white_space_alone_is_empty() {
    let white: [u32; 25] = [
        0x9, 0xA, 0xB, 0xC, 0xD, 0x20, 0x85, 0xA0, 0x1680, 0x2000, 0x2001, 0x2002, 0x2003,
        0x2004, 0x2005, 0x2006, 0x2007, 0x2008, 0x2009, 0x200A, 0x2028, 0x2029, 0x202F, 0x205F,
        0x3000,
    ];
    for code in white {
        let c = char::from_u32(code).unwrap();
        let name = format!("{c}{c}");
        assert!(
            matches!(SubscriberName::parse(name), Err(NameValidationError::Empty)),
            "U+{code:04X}"
        );
    }
}

#[test]
fn name_of_other_invisible_characters_is_not_empty() {
    for code in [0x8u32, 0xE, 0x1F, 0x84, 0x86, 0x180E, 0x200B, 0x200C, 0x2060, 0xFEFF] {
        let c = char::from_u32(code).unwrap();
        assert!(SubscriberName::parse(c.to_string()).is_ok(), "U+{code:04X}");
    }
}

#[test]
fn name_is_judged_blank_first_then_length_then_characters() {
    assert_eq!(name_verdict(true, 0, false), Err(NameValidationError::Empty));
    assert_eq!(name_verdict(true, 300, true), Err(NameValidationError::Empty));
    assert_eq!(name_verdict(false, 257, true), Err(NameValidationError::TooLong));
    assert_eq!(name_verdict(false, 257, false), Err(NameValidationError::TooLong));
    assert_eq!(name_verdict(false, 256, true), Err(NameValidationError::ForbiddenCharacter));
    assert_eq!(name_verdict(false, 256, false), Ok(()));
    assert_eq!(name_verdict(false, 1, false), Ok(()));
}
