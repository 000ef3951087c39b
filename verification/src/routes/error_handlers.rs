//! The failures of the handlers, and what the client is answered for each.
use crate::authentication::credentials::AuthError;
use crate::authentication::credentials::AuthFailure;
use crate::domain::subscriber_name::NameValidationError;
use crate::idempotency::response::is_header_value;
use crate::idempotency::response::normalized_name;
use crate::idempotency::response::HeaderPair;
use crate::idempotency::response::HttpResponse;
use crate::idempotency::response::Response;
use vstd::prelude::*;
use vstd::string::StringExecFns;
use vstd::utf8::encode_utf8;

verus! {

/// The status code for a request that is not understood.
pub const BAD_REQUEST: u16 = 400;

/// The status code for a request without valid credentials.
pub const UNAUTHORIZED: u16 = 401;

/// The status code that sends the client to another page.
pub const SEE_OTHER: u16 = 303;

/// The status code for a failure that is not the client's.
pub const INTERNAL_SERVER_ERROR: u16 = 500;

/// What a failed publication through the API tells.
pub const AUTHENTICATION_FAILED: &'static str = "Authentication failed";

/// What a failed login tells when the failure is not the user's.
pub const SOMETHING_WENT_WRONG: &'static str = "Something went wrong";

/// The name of the header that asks for credentials.
pub const WWW_AUTHENTICATE: &'static str = "www-authenticate";

/// The value of the header that asks for credentials.
pub const BASIC_REALM: &'static str = "Basic realm=\"publish\"";

/// The name of the header that names where to go.
pub const LOCATION: &'static str = "location";

/// The name of the header that names the kind of the body.
pub const CONTENT_TYPE: &'static str = "content-type";

/// The kind of a body of plain text.
pub const TEXT_PLAIN: &'static str = "text/plain; charset=utf-8";

/// The path of the login page.
pub const LOGIN_PATH: &'static str = "/login";

/// Why a request to the publishing API failed.
#[derive(Debug)]
pub enum PublishError {
    /// The credentials were not accepted. Holds the cause.
    AuthError(String),
    /// Something else failed. Holds the cause.
    UnexpectedError(String),
}

/// A failed request to the publishing API as a mathematical value.
pub enum PublishFailure {
    AuthError(Seq<char>),
    UnexpectedError(Seq<char>),
}

impl View for PublishError {
    type V = PublishFailure;

    open spec fn view(&self) -> PublishFailure {
        match self {
            PublishError::AuthError(cause) => PublishFailure::AuthError(cause@),
            PublishError::UnexpectedError(cause) => PublishFailure::UnexpectedError(cause@),
        }
    }
}

impl PublishFailure {
    /// The text that tells of this failure.
    pub open spec fn message(self) -> Seq<char> {
        match self {
            PublishFailure::AuthError(_) => AUTHENTICATION_FAILED@,
            PublishFailure::UnexpectedError(cause) => cause,
        }
    }

    /// The failure that a failure to authenticate becomes.
    pub open spec fn of(failure: AuthFailure) -> PublishFailure {
        match failure {
            AuthFailure::InvalidCredentials(cause) => PublishFailure::AuthError(cause),
            AuthFailure::UnexpectedError(cause) => PublishFailure::UnexpectedError(cause),
        }
    }
}

/// Why a login failed.
#[derive(Debug)]
pub enum LoginError {
    /// The credentials were not accepted. Holds the cause.
    AuthError(String),
    /// Something else failed. Holds the cause.
    UnexpectedError(String),
}

/// A failed login as a mathematical value.
pub enum LoginFailure {
    AuthError(Seq<char>),
    UnexpectedError(Seq<char>),
}

impl View for LoginError {
    type V = LoginFailure;

    open spec fn view(&self) -> LoginFailure {
        match self {
            LoginError::AuthError(cause) => LoginFailure::AuthError(cause@),
            LoginError::UnexpectedError(cause) => LoginFailure::UnexpectedError(cause@),
        }
    }
}

impl LoginFailure {
    /// The text that tells of this failure.
    pub open spec fn message(self) -> Seq<char> {
        match self {
            LoginFailure::AuthError(_) => AUTHENTICATION_FAILED@,
            LoginFailure::UnexpectedError(_) => SOMETHING_WENT_WRONG@,
        }
    }

    /// The failure that a failure to authenticate becomes.
    pub open spec fn of(failure: AuthFailure) -> LoginFailure {
        match failure {
            AuthFailure::InvalidCredentials(cause) => LoginFailure::AuthError(cause),
            AuthFailure::UnexpectedError(cause) => LoginFailure::UnexpectedError(cause),
        }
    }
}

/// The header `name: value`, the value as the bytes of a text.
pub open spec fn text_header(name: Seq<char>, value: Seq<char>) -> HeaderPair {
    HeaderPair { name, value: encode_utf8(value) }
}

/// The response that asks for credentials: 401, naming the realm.
pub open spec fn unauthorized_response() -> Response {
    Response {
        status_code: UNAUTHORIZED,
        headers: seq![text_header(WWW_AUTHENTICATE@, BASIC_REALM@)],
        body: Seq::empty(),
    }
}

/// The response of a failure that is not the client's: 500, and no more.
pub open spec fn server_error_response() -> Response {
    Response { status_code: INTERNAL_SERVER_ERROR, headers: Seq::empty(), body: Seq::empty() }
}

/// The response that sends the client to the login page: 303.
pub open spec fn login_redirect_response() -> Response {
    Response {
        status_code: SEE_OTHER,
        headers: seq![text_header(LOCATION@, LOGIN_PATH@)],
        body: Seq::empty(),
    }
}

/// The response that refuses a request with a text: 400, the text as body.
pub open spec fn bad_request_response(text: Seq<char>) -> Response {
    Response {
        status_code: BAD_REQUEST,
        headers: seq![text_header(CONTENT_TYPE@, TEXT_PLAIN@)],
        body: encode_utf8(text),
    }
}

/// A text of visible ASCII characters and spaces is a header value, byte
/// for character.
pub proof fn lemma_visible_ascii_is_header_value(text: Seq<char>)
    requires
        forall|i: int| 0 <= i < text.len() ==> ' ' <= #[trigger] text[i] <= '~',
    ensures
        is_header_value(encode_utf8(text)),
        encode_utf8(text).len() == text.len(),
{
    vstd::utf8::is_ascii_chars_encode_utf8(text);
}

/// The response with the given status code and nothing else.
fn bare_response(status_code: u16) -> (r: HttpResponse)
    requires
        100 <= status_code <= 999,
    ensures
        r@ == (Response { status_code, headers: Seq::empty(), body: Seq::empty() }),
{
    match HttpResponse::status_only(status_code) {
        Ok(r) => r,
        Err(_) => vstd::pervasive::unreached(),
    }
}

impl PublishError {
    /// The failure that a failure to authenticate becomes: credentials that
    /// were not accepted stay that, everything else is unexpected. The cause
    /// is kept.
    pub fn from(value: AuthError) -> (e: PublishError)
        ensures
            e@ == PublishFailure::of(value@),
    {
        match value {
            AuthError::InvalidCredentials(cause) => PublishError::AuthError(cause),
            AuthError::UnexpectedError(cause) => PublishError::UnexpectedError(cause),
        }
    }

    /// The text that tells of this failure.
    pub fn to_string(&self) -> (text: String)
        ensures
            text@ == self@.message(),
    {
        match self {
            PublishError::AuthError(_) => String::from_str(AUTHENTICATION_FAILED),
            PublishError::UnexpectedError(cause) => cause.clone(),
        }
    }

    /// What the client is answered: 401 with a request for credentials
    /// where they were not accepted, 500 for everything else.
    pub fn into_response(self) -> (response: HttpResponse)
        ensures
            response@ == match self@ {
                PublishFailure::AuthError(_) => unauthorized_response(),
                PublishFailure::UnexpectedError(_) => server_error_response(),
            },
    {
        match self {
            PublishError::UnexpectedError(_) => bare_response(INTERNAL_SERVER_ERROR),
            PublishError::AuthError(_) => {
                proof {
                    reveal_strlit("www-authenticate");
                    reveal_strlit("Basic realm=\"publish\"");
                    lemma_visible_ascii_is_header_value(BASIC_REALM@);
                    assert(normalized_name(WWW_AUTHENTICATE@) =~= WWW_AUTHENTICATE@);
                }
                match bare_response(UNAUTHORIZED).with_header(
                    WWW_AUTHENTICATE,
                    BASIC_REALM.as_bytes(),
                ) {
                    Ok(response) => {
                        response
                    },
                    Err(_) => vstd::pervasive::unreached(),
                }
            },
        }
    }
}

impl LoginError {
    /// The failure that a failure to authenticate becomes: credentials that
    /// were not accepted stay that, everything else is unexpected. The cause
    /// is kept.
    pub fn from(value: AuthError) -> (e: LoginError)
        ensures
            e@ == LoginFailure::of(value@),
    {
        match value {
            AuthError::InvalidCredentials(cause) => LoginError::AuthError(cause),
            AuthError::UnexpectedError(cause) => LoginError::UnexpectedError(cause),
        }
    }

    /// The text that tells of this failure.
    pub fn to_string(&self) -> (text: String)
        ensures
            text@ == self@.message(),
    {
        match self {
            LoginError::AuthError(_) => String::from_str(AUTHENTICATION_FAILED),
            LoginError::UnexpectedError(_) => String::from_str(SOMETHING_WENT_WRONG),
        }
    }

    /// What the client is answered: a redirect to the login page where the
    /// credentials were not accepted, 500 for everything else.
    pub fn into_response(self) -> (response: HttpResponse)
        ensures
            response@ == match self@ {
                LoginFailure::AuthError(_) => login_redirect_response(),
                LoginFailure::UnexpectedError(_) => server_error_response(),
            },
    {
        match self {
            LoginError::UnexpectedError(_) => bare_response(INTERNAL_SERVER_ERROR),
            LoginError::AuthError(_) => {
                proof {
                    reveal_strlit("location");
                    reveal_strlit("/login");
                    lemma_visible_ascii_is_header_value(LOGIN_PATH@);
                    assert(normalized_name(LOCATION@) =~= LOCATION@);
                }
                match bare_response(SEE_OTHER).with_header(LOCATION, LOGIN_PATH.as_bytes()) {
                    Ok(response) => {
                        response
                    },
                    Err(_) => vstd::pervasive::unreached(),
                }
            },
        }
    }
}

impl NameValidationError {
    /// What the client is answered for a name that was refused: 400, with
    /// the refusal as plain text.
    pub fn into_response(self) -> (response: HttpResponse)
        ensures
            response@ == bad_request_response(self.spec_message()),
    {
        proof {
            reveal_strlit("content-type");
            reveal_strlit("text/plain; charset=utf-8");
            lemma_visible_ascii_is_header_value(TEXT_PLAIN@);
            assert(normalized_name(CONTENT_TYPE@) =~= CONTENT_TYPE@);
        }
        let text = self.to_string();
        match bare_response(BAD_REQUEST).with_header(CONTENT_TYPE, TEXT_PLAIN.as_bytes()) {
            Ok(response) => {
                let response = response.with_body(text.as_str().as_bytes_vec());
                response
            },
            Err(_) => vstd::pervasive::unreached(),
        }
    }
}

/// A redirect that carries a message to be shown on the page it leads to.
#[derive(Debug)]
pub struct FlashRedirect {
    pub message: String,
    pub location: String,
}

/// The redirect to `location` that carries `msg`.
pub fn flash_redirect(msg: &str, location: &str) -> (redirect: FlashRedirect)
    ensures
        redirect.message@ == msg@,
        redirect.location@ == location@,
{
    FlashRedirect { message: msg.to_owned(), location: location.to_owned() }
}

/// The messages of a page as HTML, one paragraph and one line for each.
pub open spec fn flash_lines(messages: Seq<Seq<char>>) -> Seq<char>
    decreases messages.len(),
{
    if messages.len() == 0 {
        Seq::empty()
    } else {
        flash_lines(messages.drop_last()) + "<p><i>"@ + messages.last() + "</i></p>\n"@
    }
}

/// Writes out the messages of a page as HTML, one paragraph and one line
/// for each.
pub fn flash_html(messages: &Vec<String>) -> (html: String)
    ensures
        html@ == flash_lines(texts(messages@)),
{
    let mut html = String::new();
    let mut i: usize = 0;
    while i < messages.len()
        invariant
            i <= messages.len(),
            html@ == flash_lines(texts(messages@).take(i as int)),
        decreases messages.len() - i,
    {
        proof {
            let all = texts(messages@);
            assert(all.take(i as int + 1).drop_last() =~= all.take(i as int));
        }
        html = html.concat("<p><i>").concat(messages[i].as_str()).concat("</i></p>\n");
        i += 1;
    }
    assert(texts(messages@).take(messages@.len() as int) =~= texts(messages@));
    html
}

/// One line for each cause of a failure.
pub open spec fn cause_lines(causes: Seq<Seq<char>>) -> Seq<char>
    decreases causes.len(),
{
    if causes.len() == 0 {
        Seq::empty()
    } else {
        cause_lines(causes.drop_last()) + "Caused by: \n\t"@ + causes.last() + "\n"@
    }
}

/// A failure with the chain of its causes, as text: the failure, an empty
/// line, and then each cause in turn under `Caused by:`.
pub open spec fn error_chain(message: Seq<char>, causes: Seq<Seq<char>>) -> Seq<char> {
    message + "\n\n"@ + cause_lines(causes)
}

/// The texts of a list of strings.
pub open spec fn texts(strings: Seq<String>) -> Seq<Seq<char>> {
    strings.map_values(|s: String| s@)
}

/// Writes out a failure with the chain of its causes, the nearest first.
pub fn error_chain_fmt(message: &str, causes: &Vec<String>) -> (text: String)
    ensures
        text@ == error_chain(message@, texts(causes@)),
{
    let mut text = String::from_str(message).concat("\n\n");
    let ghost head = text@;
    let mut i: usize = 0;
    while i < causes.len()
        invariant
            i <= causes.len(),
            head == message@ + "\n\n"@,
            text@ == head + cause_lines(texts(causes@).take(i as int)),
        decreases causes.len() - i,
    {
        proof {
            let all = texts(causes@);
            assert(all.take(i as int + 1).drop_last() =~= all.take(i as int));
        }
        text = text.concat("Caused by: \n\t").concat(causes[i].as_str()).concat("\n");
        i += 1;
    }
    assert(texts(causes@).take(causes@.len() as int) =~= texts(causes@));
    text
}

} // verus!
