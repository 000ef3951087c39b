//! Logging in.
use crate::authentication::credentials::validate_credentials;
use crate::authentication::credentials::validated;
use crate::authentication::credentials::AuthError;
use crate::authentication::credentials::AuthFailure;
use crate::authentication::credentials::Credentials;
use crate::routes::error_handlers::LoginError;
use crate::routes::error_handlers::LoginFailure;
use crate::store::Store;
use crate::store::User;
use crate::store::UserRow;
use vstd::prelude::*;
use vstd::string::StringExecFns;
use vstd::utf8::encode_utf8;

verus! {

/// The login form as it comes in. The password is kept out of every log:
/// the type cannot be printed.
pub struct FormData {
    pub username: String,
    pub password: String,
}

/// Where a user goes after logging in.
pub const DASHBOARD_PATH: &'static str = "/admin/dashboard";

/// What is told when nobody has the name and password given.
pub const UNKNOWN_USERNAME: &'static str = "Unknown username.";

/// The login page before the place of the message.
pub const LOGIN_PAGE_HEAD: &'static str = "\n<!DOCTYPE html>\n<html lang=\"en\">\n\n<head>\n    <meta http-equiv=\"content-type\" content=\"text/html; charset=utf-8\">\n    <title>Login</title>\n</head>\n\n<body>\n    ";

/// The login page after the place of the message.
pub const LOGIN_PAGE_TAIL: &'static str = "\n    <form action=\"/login\" method=\"post\">\n        <label>Username\n            <input type=\"text\" placeholder=\"Enter Username\" name=\"username\">\n        </label>\n        <label>Password\n            <input type=\"password\" placeholder=\"Enter Password\" name=\"password\">\n        </label>\n        <button type=\"submit\">Login</button>\n    </form>\n</body>\n\n</html>";

/// The message of the login page as HTML: one paragraph, or nothing.
pub open spec fn error_html(message: Option<Seq<char>>) -> Seq<char> {
    match message {
        None => Seq::empty(),
        Some(text) => "<p><i>"@ + text + "</i></p>"@,
    }
}

/// The text of an optional string.
pub open spec fn optional_text(s: Option<&str>) -> Option<Seq<char>> {
    match s {
        None => None,
        Some(text) => Some(text@),
    }
}

/// The login page, showing `message` if there is one.
pub fn login_form(message: Option<&str>) -> (page: String)
    ensures
        page@ == LOGIN_PAGE_HEAD@ + error_html(optional_text(message)) + LOGIN_PAGE_TAIL@,
{
    let shown = match message {
        None => String::new(),
        Some(text) => String::from_str("<p><i>").concat(text).concat("</i></p>"),
    };
    String::from_str(LOGIN_PAGE_HEAD).concat(shown.as_str()).concat(LOGIN_PAGE_TAIL)
}

/// What comes of a login by what the validation of the credentials gave:
/// the user that was found; a failure to authenticate where nobody was
/// found, or where the validation failed, whatever its failure was.
pub open spec fn login_verdict(validation: Result<Option<UserRow>, AuthFailure>) -> Result<
    UserRow,
    LoginFailure,
> {
    match validation {
        Ok(Some(user)) => Ok(user),
        Ok(None) => Err(LoginFailure::AuthError(UNKNOWN_USERNAME@)),
        Err(e) => Err(LoginFailure::AuthError(e.message())),
    }
}

/// An optional user as a mathematical value, or the failure.
pub open spec fn validation_view(validation: Result<Option<User>, AuthError>) -> Result<
    Option<UserRow>,
    AuthFailure,
> {
    match validation {
        Ok(Some(user)) => Ok(Some(user@)),
        Ok(None) => Ok(None),
        Err(e) => Err(e@),
    }
}

/// Decides what comes of a login by what the validation of the credentials
/// gave: the user who is to be attached to the session and where they go
/// next, or the failure to authenticate that they are told.
pub fn login_outcome(validation: Result<Option<User>, AuthError>) -> (res: Result<
    (User, &'static str),
    LoginError,
>)
    ensures
        match login_verdict(validation_view(validation)) {
            Ok(user) => res matches Ok((found, next)) && found@ == user && next@
                == DASHBOARD_PATH@,
            Err(e) => res matches Err(failure) && failure@ == e,
        },
{
    match validation {
        Ok(Some(user)) => Ok((user, DASHBOARD_PATH)),
        Ok(None) => Err(LoginError::AuthError(String::from_str(UNKNOWN_USERNAME))),
        Err(e) => Err(LoginError::AuthError(e.to_string())),
    }
}

/// Logs in with the name and password of the form: gives the user who is
/// to be attached to the session, and where they go next. Whatever goes
/// wrong is told to the user as a failure to authenticate.
pub fn login(store: &Store, form: FormData) -> (res: Result<(User, &'static str), LoginError>)
    requires
        store@.wf(),
    ensures
        match login_verdict(
            validated(store@.users, form.username@, encode_utf8(form.password@)),
        ) {
            Ok(user) => res matches Ok((found, next)) && found@ == user && next@
                == DASHBOARD_PATH@,
            Err(e) => res matches Err(failure) && failure@ == e,
        },
{
    let credentials = Credentials { username: form.username, password: form.password };
    login_outcome(validate_credentials(credentials, store))
}

} // verus!
