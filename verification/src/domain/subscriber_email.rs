use vstd::prelude::*;
use vstd::string::StringExecFns;

verus! {

/// Whether [`validator::validate_email`] accepts `s` as an address.
pub uninterp spec fn is_valid_email(s: Seq<char>) -> bool;

/// Calls [`validator::validate_email`], which checks `s` against the HTML5
/// rules for an address. Whatever else it looks at, it refuses the empty
/// string and every string without an `@`.
#[verifier::external_body]
fn validate_email(s: &str) -> (ok: bool)
    ensures
        ok == is_valid_email(s@),
        s@.len() == 0 ==> !ok,
        !s@.contains('@') ==> !ok,
{
    validator::validate_email(s)
}

/// What follows the text that was refused as an address.
pub const IS_NOT_VALID: &'static str = " is not a valid subscriber email";

/// What is answered when `s` is refused as an address.
pub open spec fn rejection_message(s: Seq<char>) -> Seq<char> {
    s + IS_NOT_VALID@
}

/// An address that has passed validation.
#[derive(Debug)]
pub struct SubscriberEmail(String);

impl View for SubscriberEmail {
    type V = Seq<char>;

    closed spec fn view(&self) -> Seq<char> {
        self.0@
    }
}

impl Clone for SubscriberEmail {
    fn clone(&self) -> (copy: SubscriberEmail)
        ensures
            copy@ == self@,
    {
        proof {
            use_type_invariant(self);
        }
        SubscriberEmail(self.0.clone())
    }
}

impl SubscriberEmail {
    #[verifier::type_invariant]
    spec fn inv(self) -> bool {
        is_valid_email(self.0@)
    }

    /// Accepts `s` exactly when it is a valid address, and says so in the
    /// refusal when it is not.
    pub fn parse(s: String) -> (res: Result<SubscriberEmail, String>)
        ensures
            res is Ok <==> is_valid_email(s@),
            res matches Ok(email) ==> email@ == s@,
            res matches Err(message) ==> message@ == rejection_message(s@),
            s@.len() == 0 || !s@.contains('@') ==> res is Err,
    {
        if validate_email(s.as_str()) {
            Ok(SubscriberEmail(s))
        } else {
            Err(s.concat(IS_NOT_VALID))
        }
    }

    /// The same as [`SubscriberEmail::parse`].
    pub fn try_from(value: String) -> (res: Result<SubscriberEmail, String>)
        ensures
            res is Ok <==> is_valid_email(value@),
            res matches Ok(email) ==> email@ == value@,
            res matches Err(message) ==> message@ == rejection_message(value@),
    {
        SubscriberEmail::parse(value)
    }

    /// The address as text.
    pub fn as_ref(&self) -> (s: &str)
        ensures
            s@ == self@,
            is_valid_email(s@),
    {
        proof {
            use_type_invariant(self);
        }
        self.0.as_str()
    }

    /// The address as a string of its own.
    pub fn to_string(&self) -> (s: String)
        ensures
            s@ == self@,
            is_valid_email(s@),
    {
        proof {
            use_type_invariant(self);
        }
        self.0.clone()
    }
}

} // verus!
