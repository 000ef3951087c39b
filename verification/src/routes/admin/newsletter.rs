use crate::idempotency::key::is_valid_key;
use crate::identifiers::hyphenated;
use crate::identifiers::is_random_uuid;
use crate::identifiers::new_uuid;
use crate::identifiers::to_hyphenated;
use crate::routes::error_handlers::flash_html;
use crate::routes::error_handlers::flash_lines;
use crate::routes::error_handlers::texts;
use vstd::prelude::*;
use vstd::string::StringExecFns;

verus! {

/// The page with the form, before the place of the messages.
pub const NEWSLETTER_FORM_HEAD: &'static str = "<!DOCTYPE html>\n    <html lang=\"en\">\n    \n    <head>\n        <meta http-equiv=\"content-type\" content=\"text/html; charset=utf-8\">\n        <title>Create newsletter</title>\n    </head>\n    \n    <body>\n        ";

/// The page with the form, between the messages and the idempotency key.
pub const NEWSLETTER_FORM_MIDDLE: &'static str = "\n        <form action=\"/admin/newsletter\" method=\"post\">\n            <label>Newsletter title\n                <input type=\"text\" name=\"title\" required>\n            </label>\n            <br>\n            <label>HTML\n                <input type=\"text\" name=\"html\" required>\n            </label>\n            <br>\n            <label>Plain Text\n                <input type=\"text\" name=\"text\" required>\n            </label>\n            <input type=\"text\" hidden name=\"idempotency_key\" value=\"";

/// The page with the form, after the idempotency key.
pub const NEWSLETTER_FORM_TAIL: &'static str = "\"\n            <br>\n            <button type=\"submit\">Create Newsletter</button>\n        </form>\n        <p><a href=\"/admin/dashboard\">&lt;- Back</a></p>\n    </body>\n    </html>";

/// A fresh idempotency key for a form: a random UUID written with hyphens,
/// which is a valid key.
pub fn new_idempotency_key() -> (key: String)
    ensures
        is_valid_key(key@),
        exists|id: u128| is_random_uuid(id) && key@ == #[trigger] hyphenated(id),
{
    let id: u128 = new_uuid();
    to_hyphenated(id)
}

/// The page with the form that publishes an issue: the messages at the
/// top, `idempotency_key` in the hidden field.
pub fn publish_newsletter_form(messages: &Vec<String>, idempotency_key: &str) -> (page: String)
    ensures
        page@ == NEWSLETTER_FORM_HEAD@ + flash_lines(texts(messages@)) + NEWSLETTER_FORM_MIDDLE@
            + idempotency_key@ + NEWSLETTER_FORM_TAIL@,
{
    String::from_str(NEWSLETTER_FORM_HEAD).concat(flash_html(messages).as_str()).concat(
        NEWSLETTER_FORM_MIDDLE,
    ).concat(idempotency_key).concat(NEWSLETTER_FORM_TAIL)
}

} // verus!
