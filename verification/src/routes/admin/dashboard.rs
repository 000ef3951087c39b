use crate::authentication::middleware::user_by_id;
use crate::authentication::middleware::get_user;
use crate::routes::error_handlers::INTERNAL_SERVER_ERROR;
use crate::store::StorageError;
use crate::store::Store;
use crate::store::User;
use vstd::prelude::*;
use vstd::string::StringExecFns;

verus! {

/// The dashboard before the name of the user.
pub const DASHBOARD_HEAD: &'static str = "<!DOCTYPE html>\n<html lang=\"en\">\n<head>\n    <meta http-equiv=\"content-type\" content=\"text/html; charset=utf-8\">\n    <title>Admin dashboard</title>\n</head>\n<body>\n    <p>Welcome ";

/// The dashboard after the name of the user.
pub const DASHBOARD_TAIL: &'static str = "!</p>\n    <p>Available actions:</p>\n    <ol>\n        <li><a href=\"/admin/password\">Change password</a></li>\n    </ol>\n    <ol>\n        <li><a href=\"/admin/password\">Change password</a></li>\n        <li>\n            <form name=\"logoutForm\" action=\"/admin/logout\" method=\"post\">\n                <input type=\"submit\" value=\"Logout\">\n            </form>\n        </li>\n    </ol>\n</body>\n</html>";

/// The dashboard of the user named `username`.
pub open spec fn dashboard_page(username: Seq<char>) -> Seq<char> {
    DASHBOARD_HEAD@ + username + DASHBOARD_TAIL@
}

/// The dashboard of the user of the session, welcoming them by name; 500
/// where the session has no user.
pub fn admin_dashboard(session_user: Option<&User>) -> (res: Result<String, u16>)
    ensures
        match session_user {
            Some(user) => res matches Ok(page) && page@ == dashboard_page(user@.username),
            None => res == Err::<String, u16>(INTERNAL_SERVER_ERROR),
        },
{
    match session_user {
        None => Err(INTERNAL_SERVER_ERROR),
        Some(user) => Ok(
            String::from_str(DASHBOARD_HEAD).concat(user.username.as_str()).concat(DASHBOARD_TAIL),
        ),
    }
}

/// The name of the user `user_id`; a failure where there is no such user.
pub fn get_username(user_id: u128, store: &Store) -> (res: Result<String, StorageError>)
    requires
        store@.wf(),
    ensures
        match user_by_id(store@.users, user_id) {
            Some(user) => res matches Ok(name) && name@ == user.username,
            None => res == Err::<String, StorageError>(StorageError::RowNotFound),
        },
{
    match get_user(store, user_id) {
        Some(user) => Ok(user.username),
        None => Err(StorageError::RowNotFound),
    }
}

} // verus!
