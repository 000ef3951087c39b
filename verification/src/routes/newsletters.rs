//! Publishing through the API: the caller names itself with Basic
//! credentials, and the issue goes to every confirmed subscriber with a
//! valid address, at once.
use crate::authentication::credentials::expected_password_hash;
use crate::authentication::credentials::fallback_hash;
use crate::authentication::credentials::get_stored_credentials;
use crate::authentication::credentials::checked;
use crate::authentication::credentials::stored_credentials;
use crate::authentication::credentials::verify_password_hash;
use crate::authentication::credentials::AuthError;
use crate::authentication::credentials::Credentials;
use crate::domain::subscriber_email::is_valid_email;
use crate::domain::subscriber_email::rejection_message;
use crate::domain::subscriber_email::SubscriberEmail;
use crate::email_client::emails_view;
use crate::email_client::Email;
use crate::email_client::OutgoingEmail;
use crate::newsletter::confirmed_filter;
use crate::newsletter::is_confirmed;
use crate::routes::error_handlers::PublishError;
use crate::routes::error_handlers::PublishFailure;
use crate::store::subscriptions_view;
use crate::store::Store;
use crate::store::SubscriptionRow;
use crate::store::SubscriptionStatus;
use crate::store::User;
use crate::store::UserRow;
use vstd::prelude::*;
use vstd::string::StrSliceExecFns;
use vstd::string::StringExecFns;
use vstd::utf8::decode_utf8;
use vstd::utf8::encode_utf8;
use vstd::utf8::valid_utf8;

verus! {

/// The issue that the API is asked to publish.
#[derive(Debug)]
pub struct BodyData {
    pub title: String,
    pub content: Content,
}

/// The two forms of an issue.
#[derive(Debug)]
pub struct Content {
    pub html: String,
    pub text: String,
}

/// A subscriber who has confirmed and whose address is valid.
#[derive(Debug)]
pub struct ConfirmedSubscriber {
    pub email: SubscriberEmail,
}

/// The `Authorization` header of a request, as far as it can be read. It
/// holds a password, so the type cannot be printed.
pub enum AuthorizationHeader {
    /// The request has no such header.
    Missing,
    /// The header holds bytes that are no visible text.
    NotText,
    /// The header's value.
    Text(String),
}

/// The header as a mathematical value.
pub enum Authorization {
    Missing,
    NotText,
    Text(Seq<char>),
}

impl View for AuthorizationHeader {
    type V = Authorization;

    open spec fn view(&self) -> Authorization {
        match self {
            AuthorizationHeader::Missing => Authorization::Missing,
            AuthorizationHeader::NotText => Authorization::NotText,
            AuthorizationHeader::Text(value) => Authorization::Text(value@),
        }
    }
}

/// What a header value must begin with to carry Basic credentials.
pub const BASIC_PREFIX: &'static str = "Basic ";

/// What is told about a request without the header.
pub const NO_AUTH_HEADER: &'static str = "No Auth header present";

/// What is told about a header that is no text.
pub const HEADER_NOT_TEXT: &'static str = "Auth header is not UTF-8";

/// What is told about a header that does not begin with `Basic `.
pub const NOT_BASIC: &'static str = "Auth is not Basi";

/// What is told about credentials that are no base64.
pub const NOT_BASE64: &'static str = "Unable to decode Basic creds";

/// What is told about credentials that decode to no text.
pub const NOT_UTF8: &'static str = "Credentials are not valid UTF8";

/// What is told about credentials without a colon.
pub const NO_PASSWORD: &'static str = "A password must be provided in 'Basic' auth.";

/// What is told about a password that does not match.
pub const INVALID_PASSWORD: &'static str = "Ivalid password";

/// What is told about a name that nobody has.
pub const UNKNOWN_USERNAME: &'static str = "Uknown username.";

/// What is told about a stored hash that is no PHC string.
pub const MALFORMED_HASH: &'static str = "Failed to parse hash PHC string";

/// The bytes that `text` stands for in standard base64 with padding, as
/// [`base64::decode`] reads it; nothing where it reads none.
pub uninterp spec fn base64_decoded(text: Seq<char>) -> Option<Seq<u8>>;

/// Calls [`base64::decode`], which reads standard base64 with padding.
#[verifier::external_body]
#[allow(deprecated)]
fn decode_base64(text: &str) -> (bytes: Option<Vec<u8>>)
    ensures
        match bytes {
            Some(decoded) => base64_decoded(text@) == Some(decoded@),
            None => base64_decoded(text@) is None,
        },
{
    match base64::decode(text) {
        Ok(decoded) => Some(decoded),
        Err(_) => None,
    }
}

/// Calls [`String::from_utf8`]: the text that `bytes` encode in UTF-8, or
/// nothing where they encode none.
#[verifier::external_body]
fn string_from_utf8(bytes: Vec<u8>) -> (text: Option<String>)
    ensures
        text is Some <==> valid_utf8(bytes@),
        text matches Some(s) ==> s@ == decode_utf8(bytes@),
{
    match String::from_utf8(bytes) {
        Ok(s) => Some(s),
        Err(_) => None,
    }
}

/// Whether `i` is the place of the first colon of `s`.
pub open spec fn is_first_colon(s: Seq<char>, i: int) -> bool {
    &&& 0 <= i < s.len()
    &&& s[i] == ':'
    &&& forall|j: int| 0 <= j < i ==> #[trigger] s[j] != ':'
}

/// Whether `s` holds a colon.
pub open spec fn has_colon(s: Seq<char>) -> bool {
    exists|i: int| 0 <= i < s.len() && #[trigger] s[i] == ':'
}

/// The place of the first colon of `s`.
pub open spec fn first_colon(s: Seq<char>) -> int {
    choose|i: int| is_first_colon(s, i)
}

/// A name and a password as mathematical values.
pub struct NameAndPassword {
    pub username: Seq<char>,
    pub password: Seq<char>,
}

impl View for Credentials {
    type V = NameAndPassword;

    open spec fn view(&self) -> NameAndPassword {
        NameAndPassword { username: self.username@, password: self.password@ }
    }
}

/// The name and the password that decoded credentials hold: what stands
/// before the first colon and what stands after it.
pub open spec fn split_credentials(decoded: Seq<char>) -> Result<NameAndPassword, Seq<char>> {
    if has_colon(decoded) {
        Ok(
            NameAndPassword {
                username: decoded.subrange(0, first_colon(decoded)),
                password: decoded.subrange(first_colon(decoded) + 1, decoded.len() as int),
            },
        )
    } else {
        Err(NO_PASSWORD@)
    }
}

/// Whether `value` begins with `Basic `.
pub open spec fn is_basic(value: Seq<char>) -> bool {
    value.len() >= BASIC_PREFIX@.len() && value.subrange(0, BASIC_PREFIX@.len() as int)
        == BASIC_PREFIX@
}

/// The credentials that a header carries, or why it carries none. The
/// header must be there and be text, begin with `Basic `, go on in base64
/// that decodes to UTF-8, and hold a colon.
pub open spec fn basic_credentials(header: Authorization) -> Result<NameAndPassword, Seq<char>> {
    match header {
        Authorization::Missing => Err(NO_AUTH_HEADER@),
        Authorization::NotText => Err(HEADER_NOT_TEXT@),
        Authorization::Text(value) => if !is_basic(value) {
            Err(NOT_BASIC@)
        } else {
            decoded_credentials(
                base64_decoded(value.subrange(BASIC_PREFIX@.len() as int, value.len() as int)),
            )
        },
    }
}

/// The credentials that come of what was decoded from base64, or why none
/// come: nothing was decoded, or bytes that are no UTF-8, or text without a
/// colon.
pub open spec fn decoded_credentials(decoded: Option<Seq<u8>>) -> Result<
    NameAndPassword,
    Seq<char>,
> {
    match decoded {
        None => Err(NOT_BASE64@),
        Some(bytes) => if !valid_utf8(bytes) {
            Err(NOT_UTF8@)
        } else {
            split_credentials(decode_utf8(bytes))
        },
    }
}

/// Optional bytes as a mathematical value.
pub open spec fn bytes_view(bytes: Option<Vec<u8>>) -> Option<Seq<u8>> {
    match bytes {
        Some(b) => Some(b@),
        None => None,
    }
}

/// Whether `value` begins with `Basic `.
fn starts_with_basic(value: &str) -> (b: bool)
    ensures
        b == is_basic(value@),
        BASIC_PREFIX@.len() == 6,
{
    proof {
        reveal_strlit("Basic ");
    }
    let n: usize = value.unicode_len();
    if n < 6 {
        return false;
    }
    let b = value.get_char(0) == 'B' && value.get_char(1) == 'a' && value.get_char(2) == 's'
        && value.get_char(3) == 'i' && value.get_char(4) == 'c' && value.get_char(5) == ' ';
    proof {
        let head = value@.subrange(0, 6);
        if b {
            assert(head =~= BASIC_PREFIX@);
        } else {
            assert(head[0] == value@[0] && head[1] == value@[1] && head[2] == value@[2]
                && head[3] == value@[3] && head[4] == value@[4] && head[5] == value@[5]);
        }
    }
    b
}

/// The place of the first colon of `s`, if it holds one.
fn find_colon(s: &str) -> (found: Option<usize>)
    ensures
        found is Some <==> has_colon(s@),
        found matches Some(i) ==> is_first_colon(s@, i as int) && first_colon(s@) == i,
{
    let n: usize = s.unicode_len();
    let mut i: usize = 0;
    let mut chars = s.chars();
    for c in it: chars
        invariant
            it.seq() == s@,
            n == s@.len(),
            i == it.index(),
            forall|j: int| 0 <= j < i ==> #[trigger] s@[j] != ':',
    {
        if c == ':' {
            proof {
                assert(is_first_colon(s@, i as int));
            }
            return Some(i);
        }
        i += 1;
    }
    None
}

/// Reads the credentials out of the `Authorization` header.
pub fn basic_auth(header: AuthorizationHeader) -> (res: Result<Credentials, String>)
    ensures
        match basic_credentials(header@) {
            Ok(credentials) => res matches Ok(found) && found@ == credentials,
            Err(why) => res matches Err(message) && message@ == why,
        },
{
    let header_val = match header {
        AuthorizationHeader::Missing => {
            return Err(String::from_str(NO_AUTH_HEADER));
        },
        AuthorizationHeader::NotText => {
            return Err(String::from_str(HEADER_NOT_TEXT));
        },
        AuthorizationHeader::Text(value) => value,
    };
    if !starts_with_basic(header_val.as_str()) {
        return Err(String::from_str(NOT_BASIC));
    }
    let b64_segment = header_val.as_str().substring_char(6, header_val.as_str().unicode_len());
    credentials_from_decoded(decode_base64(b64_segment))
}

/// Reads the credentials out of what was decoded from the base64 of the
/// header: the bytes must be UTF-8 and hold a colon; the name stands before
/// the first colon, the password after it. `decoded` is nothing where the
/// header held no base64.
pub fn credentials_from_decoded(decoded: Option<Vec<u8>>) -> (res: Result<Credentials, String>)
    ensures
        match decoded_credentials(bytes_view(decoded)) {
            Ok(credentials) => res matches Ok(found) && found@ == credentials,
            Err(why) => res matches Err(message) && message@ == why,
        },
{
    let decoded = match decoded {
        None => {
            return Err(String::from_str(NOT_BASE64));
        },
        Some(decoded) => decoded,
    };
    let decoded_creds = match string_from_utf8(decoded) {
        None => {
            return Err(String::from_str(NOT_UTF8));
        },
        Some(text) => text,
    };
    let text = decoded_creds.as_str();
    match find_colon(text) {
        None => Err(String::from_str(NO_PASSWORD)),
        Some(i) => {
            let n: usize = text.unicode_len();
            let username = String::from_str(text.substring_char(0, i));
            let password = String::from_str(text.substring_char(i + 1, n));
            Ok(Credentials { username, password })
        },
    }
}

/// Whom credentials name through the API: the identifier of the user whose
/// name and password they are. A password that does not pass, and a name
/// that nobody has, are failures to authenticate; a stored hash that does
/// not parse is an unexpected failure.
pub open spec fn api_user(rows: Seq<UserRow>, username: Seq<char>, password: Seq<u8>) -> Result<
    u128,
    PublishFailure,
> {
    let stored = stored_credentials(rows, username);
    let expected = match stored {
        Some(user) => user.password_hash,
        None => fallback_hash(),
    };
    match checked(expected, password) {
        None => Err(PublishFailure::UnexpectedError(MALFORMED_HASH@)),
        Some(false) => Err(PublishFailure::AuthError(INVALID_PASSWORD@)),
        Some(true) => match stored {
            Some(user) => Ok(user.user_id),
            None => Err(PublishFailure::AuthError(UNKNOWN_USERNAME@)),
        },
    }
}

/// What the validation through the API gives once the password was
/// checked: the identifier of the user that was found where the password
/// passed; a failure to authenticate where it did not, or where nobody has
/// the name; an unexpected failure where the check itself failed.
pub open spec fn api_verdict(stored: Option<UserRow>, check: Option<bool>) -> Result<
    u128,
    PublishFailure,
> {
    match check {
        None => Err(PublishFailure::UnexpectedError(MALFORMED_HASH@)),
        Some(false) => Err(PublishFailure::AuthError(INVALID_PASSWORD@)),
        Some(true) => match stored {
            Some(user) => Ok(user.user_id),
            None => Err(PublishFailure::AuthError(UNKNOWN_USERNAME@)),
        },
    }
}

/// What a check of a password said, as a mathematical value: nothing where
/// the check itself failed, else whether the password passed.
pub open spec fn passed(check: Result<(), AuthError>) -> Option<bool> {
    match check {
        Ok(_) => Some(true),
        Err(AuthError::InvalidCredentials(_)) => Some(false),
        Err(AuthError::UnexpectedError(_)) => None,
    }
}

/// Decides what the validation through the API gives once the password was
/// checked.
pub fn api_credentials_verdict(stored: Option<User>, check: Result<(), AuthError>) -> (res: Result<
    u128,
    PublishError,
>)
    ensures
        match api_verdict(crate::authentication::credentials::user_view(stored), passed(check)) {
            Ok(user_id) => res matches Ok(found) && found == user_id,
            Err(e) => res matches Err(failure) && failure@ == e,
        },
{
    match check {
        Err(AuthError::UnexpectedError(_)) => Err(
            PublishError::UnexpectedError(String::from_str(MALFORMED_HASH)),
        ),
        Err(AuthError::InvalidCredentials(_)) => Err(
            PublishError::AuthError(String::from_str(INVALID_PASSWORD)),
        ),
        Ok(_) => match stored {
            Some(user) => Ok(user.user_id),
            None => Err(PublishError::AuthError(String::from_str(UNKNOWN_USERNAME))),
        },
    }
}

/// Validates credentials that came through the API. The password is
/// checked even when the name is unknown.
pub fn validate_credentials(credentials: Credentials, store: &Store) -> (res: Result<
    u128,
    PublishError,
>)
    requires
        store@.wf(),
    ensures
        match api_user(store@.users, credentials.username@, encode_utf8(credentials.password@)) {
            Ok(user_id) => res matches Ok(found) && found == user_id,
            Err(e) => res matches Err(failure) && failure@ == e,
        },
{
    let stored = get_stored_credentials(credentials.username.as_str(), store);
    let expected = expected_password_hash(&stored);
    let check = verify_password_hash(expected.as_str(), credentials.password.as_str());
    api_credentials_verdict(stored, check)
}

/// What a stored address gives when it is read: a subscriber where it is
/// valid, the refusal where it is not.
pub open spec fn subscriber_read(email: Seq<char>, read: Result<ConfirmedSubscriber, String>)
    -> bool {
    match read {
        Ok(subscriber) => is_valid_email(email) && subscriber.email@ == email,
        Err(message) => !is_valid_email(email) && message@ == rejection_message(email),
    }
}

/// The confirmed subscriptions, in the order of the table.
pub open spec fn confirmed_rows(rows: Seq<SubscriptionRow>) -> Seq<SubscriptionRow> {
    rows.filter(confirmed_filter())
}

/// The confirmed subscribers, in the order of the table: each with its
/// address where the stored address is valid, and as a refusal where it is
/// not.
pub fn get_confirmed_subscribers(store: &Store) -> (subscribers: Vec<
    Result<ConfirmedSubscriber, String>,
>)
    ensures
        subscribers@.len() == confirmed_rows(store@.subscriptions).len(),
        forall|i: int|
            0 <= i < subscribers@.len() ==> subscriber_read(
                confirmed_rows(store@.subscriptions)[i].email,
                #[trigger] subscribers@[i],
            ),
{
    let ghost rows = store@.subscriptions;
    let mut subscribers: Vec<Result<ConfirmedSubscriber, String>> = Vec::new();
    let n: usize = store.subscriptions.len();
    let mut i: usize = 0;
    while i < n
        invariant
            i <= n,
            n == store.subscriptions.len(),
            rows == subscriptions_view(store.subscriptions@),
            subscribers@.len() == confirmed_rows(rows.take(i as int)).len(),
            forall|k: int|
                0 <= k < subscribers@.len() ==> subscriber_read(
                    confirmed_rows(rows.take(i as int))[k].email,
                    #[trigger] subscribers@[k],
                ),
        decreases n - i,
    {
        proof {
            assert(rows.take(i as int + 1) =~= rows.take(i as int).push(rows[i as int]));
            rows.take(i as int).lemma_filter_push(rows[i as int], confirmed_filter());
        }
        match store.subscriptions[i].status {
            SubscriptionStatus::Confirmed => {
                let read = match SubscriberEmail::parse(store.subscriptions[i].email.clone()) {
                    Ok(email) => Ok(ConfirmedSubscriber { email }),
                    Err(message) => Err(message),
                };
                subscribers.push(read);
            },
            SubscriptionStatus::PendingConfirmation => {},
        }
        i += 1;
    }
    proof {
        assert(rows.take(n as int) =~= rows);
    }
    subscribers
}

/// The status code of a request that was carried out.
pub const OK: u16 = 200;

/// What is told when the sender refused an email.
pub open spec fn send_failure(recipient: Seq<char>) -> Seq<char> {
    "Failed to send newsletter issue to "@ + recipient
}

/// What the API answers once the emails were handed to the sender, one
/// after the other, up to the first that the sender refused: 200 where it
/// refused none, else a failure that names the recipient.
pub fn publish_outcome(refused: Option<&SubscriberEmail>) -> (res: Result<u16, PublishError>)
    ensures
        match refused {
            None => res matches Ok(code) && code == OK,
            Some(recipient) => res matches Err(e) && e@ == PublishFailure::UnexpectedError(
                send_failure(recipient@),
            ),
        },
{
    match refused {
        None => Ok(OK),
        Some(recipient) => Err(
            PublishError::UnexpectedError(
                String::from_str("Failed to send newsletter issue to ").concat(recipient.as_ref()),
            ),
        ),
    }
}

/// Whether `s` is sent the issue: they have confirmed and their stored
/// address is valid.
pub open spec fn receives(s: SubscriptionRow) -> bool {
    is_confirmed(s) && is_valid_email(s.email)
}

/// [`receives`] as a predicate on rows.
pub open spec fn receiving_filter() -> spec_fn(SubscriptionRow) -> bool {
    |s: SubscriptionRow| receives(s)
}

/// The subscriptions that are sent the issue, in the order of the table.
pub open spec fn recipients(rows: Seq<SubscriptionRow>) -> Seq<SubscriptionRow> {
    rows.filter(receiving_filter())
}

/// The email that carries the issue `body` to `to`.
pub open spec fn issue_email(body: &BodyData, to: SubscriptionRow) -> Email {
    Email {
        recipient: to.email,
        subject: body.title@,
        html_body: body.content.html@,
        text_body: body.content.text@,
    }
}

/// The function that makes, from a subscription, the email that carries the
/// issue `body` to it.
pub open spec fn email_maker(body: &BodyData) -> spec_fn(SubscriptionRow) -> Email {
    |to: SubscriptionRow| issue_email(body, to)
}

/// The emails that carry the issue `body` to `to`, one for each, in the same
/// order.
pub open spec fn emails_for(body: &BodyData, to: Seq<SubscriptionRow>) -> Seq<Email> {
    to.map_values(email_maker(body))
}

/// Handles a request to publish through the API, up to the sending: checks
/// the credentials of the header and lists the emails that are to be sent,
/// one for each confirmed subscriber with a valid address, in the order of
/// the table. Subscribers whose stored address is not valid are passed
/// over.
pub fn publish_newsletter(store: &Store, header: AuthorizationHeader, body: &BodyData) -> (res:
    Result<Vec<OutgoingEmail>, PublishError>)
    requires
        store@.wf(),
    ensures
        match basic_credentials(header@) {
            Err(why) => res matches Err(e) && e@ == PublishFailure::AuthError(why),
            Ok(credentials) => match api_user(
                store@.users,
                credentials.username,
                encode_utf8(credentials.password),
            ) {
                Err(failure) => res matches Err(e) && e@ == failure,
                Ok(_) => res matches Ok(emails) && emails_view(emails@) == emails_for(
                    body,
                    recipients(store@.subscriptions),
                ),
            },
        },
{
    let credentials = match basic_auth(header) {
        Ok(credentials) => credentials,
        Err(why) => {
            return Err(PublishError::AuthError(why));
        },
    };
    match validate_credentials(credentials, store) {
        Err(e) => {
            return Err(e);
        },
        Ok(_) => {},
    }
    let ghost rows = store@.subscriptions;
    let mut emails: Vec<OutgoingEmail> = Vec::new();
    let n: usize = store.subscriptions.len();
    let mut i: usize = 0;
    while i < n
        invariant
            i <= n,
            n == store.subscriptions.len(),
            rows == subscriptions_view(store.subscriptions@),
            emails_view(emails@) == emails_for(body, recipients(rows.take(i as int))),
        decreases n - i,
    {
        proof {
            assert(rows.take(i as int + 1) =~= rows.take(i as int).push(rows[i as int]));
            rows.take(i as int).lemma_filter_push(rows[i as int], receiving_filter());
        }
        let ghost so_far = emails_view(emails@);
        match store.subscriptions[i].status {
            SubscriptionStatus::Confirmed => {
                match SubscriberEmail::parse(store.subscriptions[i].email.clone()) {
                    Ok(recipient) => {
                        emails.push(
                            OutgoingEmail {
                                recipient,
                                subject: body.title.clone(),
                                html_body: body.content.html.clone(),
                                text_body: body.content.text.clone(),
                            },
                        );
                        proof {
                            assert(emails_view(emails@) =~= so_far.push(
                                issue_email(body, rows[i as int]),
                            ));
                        }
                    },
                    Err(_) => {},
                }
            },
            SubscriptionStatus::PendingConfirmation => {},
        }
        i += 1;
    }
    proof {
        assert(rows.take(n as int) =~= rows);
    }
    Ok(emails)
}

} // verus!
