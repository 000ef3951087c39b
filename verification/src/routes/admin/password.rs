use crate::authentication::credentials::change_password as change_pass;
use crate::authentication::credentials::checked;
use crate::authentication::credentials::password_length_check;
use crate::authentication::credentials::rehashed;
use crate::authentication::credentials::validate_credentials;
use crate::authentication::credentials::validate_password;
use crate::authentication::credentials::validated;
use crate::authentication::credentials::with_users;
use crate::authentication::credentials::AuthError;
use crate::authentication::credentials::AuthFailure;
use crate::authentication::credentials::Credentials;
use crate::authentication::credentials::HashingPolicy;
use crate::routes::error_handlers::flash_html;
use crate::routes::error_handlers::flash_lines;
use crate::routes::error_handlers::flash_redirect;
use crate::routes::error_handlers::texts;
use crate::routes::error_handlers::FlashRedirect;
use crate::store::Store;
use crate::store::User;
use vstd::prelude::*;
use vstd::string::StringExecFns;
use vstd::utf8::encode_utf8;

verus! {

/// The form that changes a password, as it comes in. The passwords are kept
/// out of every log: the type cannot be printed.
pub struct FormData {
    pub current_password: String,
    pub new_password: String,
    pub new_password_check: String,
}

/// The path of the page that changes a password.
pub const PASSWORD_PATH: &'static str = "/admin/password";

/// What is told when the new password was typed in two ways.
pub const PASSWORDS_DIFFER: &'static str =
    "You entered two different new passwords - the field values must match.";

/// What is told when the current password is not the user's.
pub const CURRENT_PASSWORD_INCORRECT: &'static str = "The current password is incorrect.";

/// What is told when the password was changed.
pub const PASSWORD_CHANGED: &'static str = "Your password has been changed.";

/// The page before the place of the messages.
pub const PASSWORD_FORM_HEAD: &'static str = "<!DOCTYPE html>\n    <html lang=\"en\">\n    \n    <head>\n        <meta http-equiv=\"content-type\" content=\"text/html; charset=utf-8\">\n        <title>Change Password</title>\n    </head>\n    \n    <body>\n        ";

/// The page after the place of the messages.
pub const PASSWORD_FORM_TAIL: &'static str = "\n        <form action=\"/admin/password\" method=\"post\">\n            <label>Current password\n                <input type=\"password\" placeholder=\"Enter current password\" name=\"current_password\">\n            </label>\n            <br>\n            <label>New password\n                <input type=\"password\" placeholder=\"Enter new password\" name=\"new_password\">\n            </label>\n            <br>\n            <label>Confirm new password\n                <input type=\"password\" placeholder=\"Type the new password again\" name=\"new_password_check\">\n            </label>\n            <br>\n            <button type=\"submit\">Change password</button>\n        </form>\n        <p><a href=\"/admin/dashboard\">&lt;- Back</a></p>\n    </body>\n    </html>";

/// The page with the form that changes a password, the messages at the top.
pub fn change_passord_form(messages: &Vec<String>) -> (page: String)
    ensures
        page@ == PASSWORD_FORM_HEAD@ + flash_lines(texts(messages@)) + PASSWORD_FORM_TAIL@,
{
    String::from_str(PASSWORD_FORM_HEAD).concat(flash_html(messages).as_str()).concat(
        PASSWORD_FORM_TAIL,
    )
}

/// What the user is told about a form before anything is looked up: that
/// the new password is too short or too long, or that its two copies
/// differ; nothing where the form is in order.
pub open spec fn form_objection(new_password: Seq<char>, new_password_check: Seq<char>) -> Option<
    Seq<char>,
> {
    match password_length_check(encode_utf8(new_password).len()) {
        Err(e) => Some(e.spec_message()),
        Ok(_) => if new_password != new_password_check {
            Some(PASSWORDS_DIFFER@)
        } else {
            None
        },
    }
}

/// What the user is told about the new password before anything is looked
/// up, if there is an objection to it.
pub fn new_password_objection(new_password: &String, new_password_check: &String) -> (objection:
    Option<String>)
    ensures
        match form_objection(new_password@, new_password_check@) {
            Some(text) => objection matches Some(told) && told@ == text,
            None => objection is None,
        },
{
    match validate_password(new_password.as_str()) {
        Err(e) => Some(e.to_string()),
        Ok(_) => if *new_password != *new_password_check {
            Some(String::from_str(PASSWORDS_DIFFER))
        } else {
            None
        },
    }
}

/// Changes the password of `user`, who is logged in, as the form asks.
///
/// The new password must have the right length and be typed the same way
/// twice, and the current password must be the user's; where one of these
/// fails, the user is told which, and nothing is stored. Else the new
/// password is hashed and stored, and the user is told so. Every answer
/// leads back to the page of the form. A failure of the check or of the
/// hashing is reported as it is.
pub fn change_password(store: &mut Store, user: &User, form: FormData, policy: &HashingPolicy) -> (res:
    Result<FlashRedirect, AuthError>)
    requires
        old(store)@.wf(),
    ensures
        final(store)@.wf(),
        res matches Ok(redirect) ==> redirect.location@ == PASSWORD_PATH@,
        match form_objection(form.new_password@, form.new_password_check@) {
            Some(objection) => res matches Ok(redirect) && redirect.message@ == objection
                && final(store)@ == old(store)@,
            None => match validated(
                old(store)@.users,
                user@.username,
                encode_utf8(form.current_password@),
            ) {
                Err(e) => res matches Err(failure) && failure@ == e && final(store)@ == old(
                    store,
                )@,
                Ok(None) => res matches Ok(redirect) && redirect.message@
                    == CURRENT_PASSWORD_INCORRECT@ && final(store)@ == old(store)@,
                Ok(Some(_)) => match res {
                    Ok(redirect) => redirect.message@ == PASSWORD_CHANGED@ && exists|
                        hash: Seq<char>,
                    |
                        checked(hash, encode_utf8(form.new_password@)) == Some(true)
                            && final(store)@ == with_users(
                            old(store)@,
                            #[trigger] rehashed(old(store)@.users, user@.user_id, hash),
                        ),
                    Err(failure) => failure@ == AuthFailure::UnexpectedError(
                        crate::authentication::credentials::HASHING_FAILED@,
                    ) && final(store)@ == old(store)@,
                },
            },
        },
{
    match new_password_objection(&form.new_password, &form.new_password_check) {
        Some(objection) => {
            return Ok(flash_redirect(objection.as_str(), PASSWORD_PATH));
        },
        None => {},
    }
    let credentials = Credentials {
        username: user.username.clone(),
        password: form.current_password,
    };
    match validate_credentials(credentials, store) {
        Err(e) => {
            return Err(e);
        },
        Ok(None) => {
            return Ok(flash_redirect(CURRENT_PASSWORD_INCORRECT, PASSWORD_PATH));
        },
        Ok(Some(_)) => {},
    }
    let ghost before = store@;
    let ghost wanted = encode_utf8(form.new_password@);
    match change_pass(user.user_id, form.new_password, store, policy) {
        Err(e) => Err(e),
        Ok(_) => {
            proof {
                let hash = choose|hash: Seq<char>|
                    checked(hash, wanted) == Some(true) && store@ == with_users(
                        before,
                        #[trigger] rehashed(before.users, user.user_id, hash),
                    );
                assert(store@ == with_users(
                    before,
                    rehashed(before.users, user@.user_id, hash),
                ));
            }
            Ok(flash_redirect(PASSWORD_CHANGED, PASSWORD_PATH))
        },
    }
}

} // verus!
