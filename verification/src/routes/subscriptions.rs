//! Subscribing: the subscriber is stored as pending, together with the token
//! of the link that confirms the subscription.
use crate::domain::new_subscriber::NewSubscriber;
use crate::domain::subscriber_email::SubscriberEmail;
use crate::email_client::Email;
use crate::email_client::OutgoingEmail;
use crate::identifiers::is_random_uuid;
use crate::identifiers::new_uuid;
use crate::startup::ApplicationBaseUrl;
use crate::store::has_subscriber;
use crate::store::subscriptions_view;
use crate::store::tokens_view;
use crate::store::StorageError;
use crate::store::Store;
use crate::store::Subscription;
use crate::store::SubscriptionRow;
use crate::store::SubscriptionStatus;
use crate::store::SubscriptionToken;
use crate::store::Tables;
use crate::store::TokenRow;
use vstd::prelude::*;
use vstd::string::StringExecFns;
use rand::Rng;

verus! {

/// The number of characters of a subscription token.
pub const TOKEN_CHARS: usize = 25;

/// Whether `c` is an ASCII letter or digit.
pub open spec fn is_ascii_alphanumeric(c: char) -> bool {
    ('a' <= c <= 'z') || ('A' <= c <= 'Z') || ('0' <= c <= '9')
}

/// Whether `token` has the shape of a subscription token: 25 ASCII letters
/// and digits.
pub open spec fn is_token(token: Seq<char>) -> bool {
    &&& token.len() == TOKEN_CHARS
    &&& forall|i: int| 0 <= i < token.len() ==> is_ascii_alphanumeric(#[trigger] token[i])
}

/// Draws one character from [`rand::distributions::Alphanumeric`] with the
/// thread's generator. Which one comes is left to chance; every one is an
/// ASCII letter or digit.
#[verifier::external_body]
fn random_alphanumeric() -> (c: char)
    ensures
        is_ascii_alphanumeric(c),
{
    char::from(rand::thread_rng().sample(rand::distributions::Alphanumeric))
}

/// Calls [`String::push`]: `c` is put at the end of `s`.
#[verifier::external_body]
fn push_char(s: &mut String, c: char)
    ensures
        final(s)@ == old(s)@.push(c),
{
    s.push(c)
}

/// A fresh token for a confirmation link: 25 random ASCII letters and
/// digits.
pub fn generate_subscription_token() -> (token: String)
    ensures
        is_token(token@),
{
    let mut token = String::new();
    let mut i: usize = 0;
    while i < TOKEN_CHARS
        invariant
            i <= TOKEN_CHARS,
            token@.len() == i,
            forall|j: int| 0 <= j < i ==> is_ascii_alphanumeric(#[trigger] token@[j]),
        decreases TOKEN_CHARS - i,
    {
        let c = random_alphanumeric();
        push_char(&mut token, c);
        i += 1;
    }
    token
}

/// Whether a subscription with the address `email` is among `rows`.
pub open spec fn has_subscriber_email(rows: Seq<SubscriptionRow>, email: Seq<char>) -> bool {
    exists|k: int| 0 <= k < rows.len() && (#[trigger] rows[k]).email == email
}

/// Whether `token` is among `rows`.
pub open spec fn has_token(rows: Seq<TokenRow>, token: Seq<char>) -> bool {
    exists|k: int| 0 <= k < rows.len() && (#[trigger] rows[k]).subscription_token == token
}

/// The row of someone who has just subscribed and not confirmed yet.
pub open spec fn pending_row(id: u128, email: Seq<char>, name: Seq<char>, now: u64)
    -> SubscriptionRow {
    SubscriptionRow {
        id,
        email,
        name,
        subscribed_at: now,
        status: SubscriptionStatus::PendingConfirmation,
    }
}

/// `tables` with `rows` as its subscriptions.
pub open spec fn with_subscriptions(tables: Tables, rows: Seq<SubscriptionRow>) -> Tables {
    Tables { subscriptions: rows, ..tables }
}

/// `tables` with `rows` as its tokens.
pub open spec fn with_tokens(tables: Tables, rows: Seq<TokenRow>) -> Tables {
    Tables { subscription_tokens: rows, ..tables }
}

/// Whether a subscription with the address `email` is among `rows`.
fn email_exists(rows: &Vec<Subscription>, email: &String) -> (found: bool)
    ensures
        found == has_subscriber_email(subscriptions_view(rows@), email@),
{
    let mut i: usize = 0;
    while i < rows.len()
        invariant
            i <= rows.len(),
            forall|j: int| 0 <= j < i ==> (#[trigger] subscriptions_view(rows@)[j]).email != email@,
        decreases rows.len() - i,
    {
        if rows[i].email == *email {
            assert(subscriptions_view(rows@)[i as int].email == email@);
            return true;
        }
        i += 1;
    }
    false
}

/// Whether a subscription with the identifier `id` is among `rows`.
pub fn subscriber_exists(rows: &Vec<Subscription>, id: u128) -> (found: bool)
    ensures
        found == has_subscriber(subscriptions_view(rows@), id),
{
    let mut i: usize = 0;
    while i < rows.len()
        invariant
            i <= rows.len(),
            forall|j: int| 0 <= j < i ==> (#[trigger] subscriptions_view(rows@)[j]).id != id,
        decreases rows.len() - i,
    {
        if rows[i].id == id {
            assert(subscriptions_view(rows@)[i as int].id == id);
            return true;
        }
        i += 1;
    }
    false
}

/// Whether `token` is among `rows`.
fn token_exists(rows: &Vec<SubscriptionToken>, token: &String) -> (found: bool)
    ensures
        found == has_token(tokens_view(rows@), token@),
{
    let mut i: usize = 0;
    while i < rows.len()
        invariant
            i <= rows.len(),
            forall|j: int|
                0 <= j < i ==> (#[trigger] tokens_view(rows@)[j]).subscription_token != token@,
        decreases rows.len() - i,
    {
        if rows[i].subscription_token == *token {
            assert(tokens_view(rows@)[i as int].subscription_token == token@);
            return true;
        }
        i += 1;
    }
    false
}

/// Whether `subscriber` can be stored under `subscriber_id`: neither the
/// address nor the identifier is taken.
pub open spec fn subscriber_check(
    rows: Seq<SubscriptionRow>,
    subscriber_id: u128,
    email: Seq<char>,
) -> Result<(), StorageError> {
    if has_subscriber_email(rows, email) || has_subscriber(rows, subscriber_id) {
        Err(StorageError::DuplicateSubscriber)
    } else {
        Ok(())
    }
}

/// Whether `token` can be stored for `subscriber_id`: the subscription
/// exists and the token is not taken.
pub open spec fn token_check(tables: Tables, subscriber_id: u128, token: Seq<char>) -> Result<
    (),
    StorageError,
> {
    if !has_subscriber(tables.subscriptions, subscriber_id) {
        Err(StorageError::UnknownSubscriber)
    } else if has_token(tables.subscription_tokens, token) {
        Err(StorageError::DuplicateToken)
    } else {
        Ok(())
    }
}

/// Stores the subscriber under `subscriber_id`, pending confirmation. An
/// address or identifier that is taken is refused, and nothing is written.
pub fn insert_subscriber_with_id(
    store: &mut Store,
    subscriber: &NewSubscriber,
    subscriber_id: u128,
    now: u64,
) -> (res: Result<u128, StorageError>)
    requires
        old(store)@.wf(),
    ensures
        final(store)@.wf(),
        match subscriber_check(old(store)@.subscriptions, subscriber_id, subscriber.email@) {
            Err(e) => res == Err::<u128, StorageError>(e) && final(store)@ == old(store)@,
            Ok(_) => res == Ok::<u128, StorageError>(subscriber_id) && final(store)@
                == with_subscriptions(
                old(store)@,
                old(store)@.subscriptions.push(
                    pending_row(subscriber_id, subscriber.email@, subscriber.name@, now),
                ),
            ),
        },
{
    let email = subscriber.email.to_string();
    if email_exists(&store.subscriptions, &email) || subscriber_exists(
        &store.subscriptions,
        subscriber_id,
    ) {
        return Err(StorageError::DuplicateSubscriber);
    }
    let ghost before = store@;
    store.subscriptions.push(
        Subscription {
            id: subscriber_id,
            email,
            name: subscriber.name.to_string(),
            subscribed_at: now,
            status: SubscriptionStatus::PendingConfirmation,
        },
    );
    proof {
        let rows = before.subscriptions;
        let after = store@.subscriptions;
        let row = pending_row(subscriber_id, subscriber.email@, subscriber.name@, now);
        assert(after =~= rows.push(row));
        assert forall|i: int| 0 <= i < before.subscription_tokens.len() implies has_subscriber(
            after,
            (#[trigger] before.subscription_tokens[i]).subscriber_id,
        ) by {
            let k = choose|k: int|
                0 <= k < rows.len() && (#[trigger] rows[k]).id
                    == before.subscription_tokens[i].subscriber_id;
            assert(after[k].id == before.subscription_tokens[i].subscriber_id);
        }
    }
    Ok(subscriber_id)
}

/// The subscriptions after a subscriber was stored under `subscriber_id`:
/// the pending row comes last, unless the address or the identifier is
/// taken, and then nothing changes.
pub open spec fn subscriber_inserted(
    tables: Tables,
    subscriber_id: u128,
    email: Seq<char>,
    name: Seq<char>,
    now: u64,
) -> Tables {
    match subscriber_check(tables.subscriptions, subscriber_id, email) {
        Err(_) => tables,
        Ok(_) => with_subscriptions(
            tables,
            tables.subscriptions.push(pending_row(subscriber_id, email, name, now)),
        ),
    }
}

/// What storing a subscriber under `subscriber_id` answers: the identifier,
/// unless the address or the identifier is taken.
pub open spec fn subscriber_inserted_result(
    tables: Tables,
    subscriber_id: u128,
    email: Seq<char>,
) -> Result<u128, StorageError> {
    match subscriber_check(tables.subscriptions, subscriber_id, email) {
        Err(e) => Err(e),
        Ok(_) => Ok(subscriber_id),
    }
}

/// Stores the subscriber under a fresh random identifier, pending
/// confirmation, and returns the identifier. Which identifier is drawn is
/// left to chance; what follows is what [`insert_subscriber_with_id`] does
/// with it. So the call succeeds wherever nothing is stored yet; an address
/// that is taken is refused, and so is, in the unlikely case, an identifier
/// that is.
pub fn insert_subscriber(store: &mut Store, subscriber: &NewSubscriber, now: u64) -> (res: Result<
    u128,
    StorageError,
>)
    requires
        old(store)@.wf(),
    ensures
        final(store)@.wf(),
        exists|id: u128|
            {
                &&& is_random_uuid(id)
                &&& res == #[trigger] subscriber_inserted_result(
                    old(store)@,
                    id,
                    subscriber.email@,
                )
                &&& final(store)@ == subscriber_inserted(
                    old(store)@,
                    id,
                    subscriber.email@,
                    subscriber.name@,
                    now,
                )
            },
        res matches Ok(id) ==> {
            &&& is_random_uuid(id)
            &&& subscriber_check(old(store)@.subscriptions, id, subscriber.email@) is Ok
            &&& final(store)@ == with_subscriptions(
                old(store)@,
                old(store)@.subscriptions.push(
                    pending_row(id, subscriber.email@, subscriber.name@, now),
                ),
            )
        },
        res matches Err(e) ==> e == StorageError::DuplicateSubscriber && final(store)@ == old(
            store,
        )@,
        has_subscriber_email(old(store)@.subscriptions, subscriber.email@) ==> res is Err,
{
    let subscriber_id: u128 = new_uuid();
    let ghost before = store@;
    let res = insert_subscriber_with_id(store, subscriber, subscriber_id, now);
    proof {
        assert(res == subscriber_inserted_result(before, subscriber_id, subscriber.email@));
    }
    res
}

/// Stores `token` as the token that confirms the subscription
/// `subscriber_id`. A token that is taken, or one for a subscription that
/// does not exist, is refused, and nothing is written.
pub fn store_token(store: &mut Store, subscriber_id: u128, token: &str) -> (res: Result<
    (),
    StorageError,
>)
    requires
        old(store)@.wf(),
    ensures
        final(store)@.wf(),
        match token_check(old(store)@, subscriber_id, token@) {
            Err(e) => res == Err::<(), StorageError>(e) && final(store)@ == old(store)@,
            Ok(_) => res == Ok::<(), StorageError>(()) && final(store)@ == with_tokens(
                old(store)@,
                old(store)@.subscription_tokens.push(
                    TokenRow { subscription_token: token@, subscriber_id },
                ),
            ),
        },
{
    let token = token.to_owned();
    if !subscriber_exists(&store.subscriptions, subscriber_id) {
        return Err(StorageError::UnknownSubscriber);
    }
    if token_exists(&store.subscription_tokens, &token) {
        return Err(StorageError::DuplicateToken);
    }
    let ghost before = store@;
    store.subscription_tokens.push(SubscriptionToken { subscription_token: token, subscriber_id });
    proof {
        let rows = before.subscription_tokens;
        let after = store@.subscription_tokens;
        assert(after =~= rows.push(TokenRow { subscription_token: token@, subscriber_id }));
    }
    Ok(())
}

/// The subject of the email that asks a new subscriber to confirm.
pub const WELCOME: &'static str = "Welcome!";

/// The link that confirms the subscription with `token`.
pub open spec fn confirmation_link(base_url: Seq<char>, token: Seq<char>) -> Seq<char> {
    base_url + "/subscriptions/confirm?subscription_token="@ + token
}

/// The plain text of the email that carries `link`.
pub open spec fn confirmation_text(link: Seq<char>) -> Seq<char> {
    "Welcome to our newsletter!\nVisit "@ + link + " to confirm your subscription."@
}

/// The HTML of the email that carries `link`.
pub open spec fn confirmation_html(link: Seq<char>) -> Seq<char> {
    "Welcome to our newsletter!<br />Click <a href=\""@ + link
        + "\">here</a> to confirm your subscription."@
}

/// The email that asks the subscriber at `recipient` to confirm, as a
/// mathematical value.
pub open spec fn welcome_email(recipient: Seq<char>, base_url: Seq<char>, token: Seq<char>)
    -> Email {
    Email {
        recipient,
        subject: WELCOME@,
        html_body: confirmation_html(confirmation_link(base_url, token)),
        text_body: confirmation_text(confirmation_link(base_url, token)),
    }
}

/// The email that asks `recipient` to confirm: it welcomes them and carries
/// the link made of the base address and the token.
pub fn confirmation_email(recipient: SubscriberEmail, base_url: &str, conformation_token: &str) -> (email:
    OutgoingEmail)
    ensures
        email@ == welcome_email(recipient@, base_url@, conformation_token@),
{
    let link = String::from_str(base_url).concat(
        "/subscriptions/confirm?subscription_token=",
    ).concat(conformation_token);
    let text_body = String::from_str("Welcome to our newsletter!\nVisit ").concat(
        link.as_str(),
    ).concat(" to confirm your subscription.");
    let html_body = String::from_str("Welcome to our newsletter!<br />Click <a href=\"").concat(
        link.as_str(),
    ).concat("\">here</a> to confirm your subscription.");
    OutgoingEmail { recipient, subject: String::from_str(WELCOME), html_body, text_body }
}

/// The store after `email` and `name` have subscribed under `subscriber_id`
/// with `token`, and whether they could: the subscription and its token are
/// stored together, or, where either is refused, nothing is.
pub open spec fn subscribed(
    tables: Tables,
    subscriber_id: u128,
    email: Seq<char>,
    name: Seq<char>,
    token: Seq<char>,
    now: u64,
) -> (Tables, Result<(), StorageError>) {
    match subscriber_check(tables.subscriptions, subscriber_id, email) {
        Err(e) => (tables, Err(e)),
        Ok(_) => if has_token(tables.subscription_tokens, token) {
            (tables, Err(StorageError::DuplicateToken))
        } else {
            (
                Tables {
                    subscriptions: tables.subscriptions.push(
                        pending_row(subscriber_id, email, name, now),
                    ),
                    subscription_tokens: tables.subscription_tokens.push(
                        TokenRow { subscription_token: token, subscriber_id },
                    ),
                    ..tables
                },
                Ok(()),
            )
        },
    }
}

/// Subscribes `subscriber` under `subscriber_id` with `token`, and hands out
/// the email that is to be sent to them.
pub fn subscribe_with(
    store: &mut Store,
    base_url: &ApplicationBaseUrl,
    subscriber: NewSubscriber,
    subscriber_id: u128,
    token: String,
    now: u64,
) -> (res: Result<OutgoingEmail, StorageError>)
    requires
        old(store)@.wf(),
    ensures
        final(store)@.wf(),
        final(store)@ == subscribed(
            old(store)@,
            subscriber_id,
            subscriber.email@,
            subscriber.name@,
            token@,
            now,
        ).0,
        match subscribed(
            old(store)@,
            subscriber_id,
            subscriber.email@,
            subscriber.name@,
            token@,
            now,
        ).1 {
            Err(e) => res matches Err(failure) && failure == e,
            Ok(_) => res matches Ok(email) && email@ == welcome_email(
                subscriber.email@,
                base_url.0@,
                token@,
            ),
        },
{
    if token_exists(&store.subscription_tokens, &token) {
        let email = subscriber.email.to_string();
        if email_exists(&store.subscriptions, &email) || subscriber_exists(
            &store.subscriptions,
            subscriber_id,
        ) {
            return Err(StorageError::DuplicateSubscriber);
        }
        return Err(StorageError::DuplicateToken);
    }
    match insert_subscriber_with_id(store, &subscriber, subscriber_id, now) {
        Err(e) => {
            return Err(e);
        },
        Ok(_) => {},
    }
    proof {
        let rows = store@.subscriptions;
        assert(rows[rows.len() - 1].id == subscriber_id);
    }
    match store_token(store, subscriber_id, token.as_str()) {
        Err(e) => {
            return Err(e);
        },
        Ok(_) => {},
    }
    Ok(confirmation_email(subscriber.email, base_url.0.as_str(), token.as_str()))
}

/// Whether a subscription of `email` succeeds whatever identifier and token
/// are drawn: none that can be drawn is taken, and the address is free.
pub open spec fn is_sure_to_subscribe(tables: Tables, email: Seq<char>, name: Seq<char>, now: u64)
    -> bool {
    forall|subscriber_id: u128, token: Seq<char>|
        is_random_uuid(subscriber_id) && is_token(token) ==> (#[trigger] subscribed(
            tables,
            subscriber_id,
            email,
            name,
            token,
            now,
        )).1 is Ok
}

/// Subscribes `subscriber` under a fresh random identifier and token, and
/// hands out the email that is to be sent to them.
///
/// Which identifier and token are drawn is left to chance; what happens then
/// is what [`subscribe_with`] does with them: the subscription and its token
/// are stored and the email carries the link with that token, or, where the
/// address, the identifier or the token is taken, the refusal says which and
/// nothing is written. An address that is taken is always refused; where no
/// identifier and no token that can be drawn is taken, the subscription
/// always succeeds.
pub fn subscribe(
    store: &mut Store,
    base_url: &ApplicationBaseUrl,
    subscriber: NewSubscriber,
    now: u64,
) -> (res: Result<OutgoingEmail, StorageError>)
    requires
        old(store)@.wf(),
    ensures
        final(store)@.wf(),
        exists|subscriber_id: u128, token: Seq<char>|
            {
                &&& is_random_uuid(subscriber_id)
                &&& is_token(token)
                &&& final(store)@ == (#[trigger] subscribed(
                    old(store)@,
                    subscriber_id,
                    subscriber.email@,
                    subscriber.name@,
                    token,
                    now,
                )).0
                &&& match subscribed(
                    old(store)@,
                    subscriber_id,
                    subscriber.email@,
                    subscriber.name@,
                    token,
                    now,
                ).1 {
                    Err(e) => res matches Err(failure) && failure == e,
                    Ok(_) => res matches Ok(email) && email@ == welcome_email(
                        subscriber.email@,
                        base_url.0@,
                        token,
                    ),
                }
            },
        has_subscriber_email(old(store)@.subscriptions, subscriber.email@) ==> (res matches Err(
            failure,
        ) && failure == StorageError::DuplicateSubscriber) && final(store)@ == old(store)@,
        is_sure_to_subscribe(old(store)@, subscriber.email@, subscriber.name@, now) ==> res is Ok,
        res is Err ==> final(store)@ == old(store)@,
{
    let subscriber_id: u128 = new_uuid();
    let token = generate_subscription_token();
    let ghost drawn = token@;
    let ghost outcome = subscribed(
        store@,
        subscriber_id,
        subscriber.email@,
        subscriber.name@,
        drawn,
        now,
    );
    let res = subscribe_with(store, base_url, subscriber, subscriber_id, token, now);
    proof {
        assert(store@ == outcome.0);
    }
    res
}

} // verus!
