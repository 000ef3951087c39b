use crate::routes::error_handlers::flash_redirect;
use crate::routes::error_handlers::FlashRedirect;
use crate::routes::error_handlers::INTERNAL_SERVER_ERROR;
use crate::routes::error_handlers::LOGIN_PATH;
use vstd::prelude::*;

verus! {

/// What a user is told once they are logged out.
pub const LOGGED_OUT: &'static str = "You have successfully logged out.";

/// What the client is answered once the session was asked to end: a
/// redirect to the login page that says so where it did end, 500 where it
/// did not.
pub fn log_out(session_ended: bool) -> (res: Result<FlashRedirect, u16>)
    ensures
        session_ended ==> (res matches Ok(redirect) && redirect.message@ == LOGGED_OUT@
            && redirect.location@ == LOGIN_PATH@),
        !session_ended ==> res == Err::<FlashRedirect, u16>(INTERNAL_SERVER_ERROR),
{
    if session_ended {
        Ok(flash_redirect(LOGGED_OUT, LOGIN_PATH))
    } else {
        Err(INTERNAL_SERVER_ERROR)
    }
}

} // verus!
