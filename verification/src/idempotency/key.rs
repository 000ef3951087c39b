use vstd::prelude::*;
use vstd::string::StrSliceExecFns;
use vstd::string::StringExecFns;

verus! {

/// The greatest number of characters an idempotency key may have.
pub const MAX_KEY_CHARS: usize = 49;

/// What a client is told about an empty key.
pub const KEY_IS_EMPTY: &'static str = "The idempotency key cannot be empty";

/// What a client is told about a key that is too long.
pub const KEY_IS_TOO_LONG: &'static str = "The idempotency key must be shorter than 50 characters";

/// Why a string was refused as an idempotency key.
#[derive(Debug, Clone, Copy, PartialEq, Eq, Structural)]
pub enum IdempotencyKeyError {
    /// The string has no characters.
    Empty,
    /// The string has more than [`MAX_KEY_CHARS`] characters.
    TooLong,
}

impl IdempotencyKeyError {
    /// The text shown to the client for this refusal.
    pub open spec fn spec_message(self) -> Seq<char> {
        match self {
            IdempotencyKeyError::Empty => KEY_IS_EMPTY@,
            IdempotencyKeyError::TooLong => KEY_IS_TOO_LONG@,
        }
    }

    /// The text shown to the client for this refusal.
    pub fn message(&self) -> (text: String)
        ensures
            text@ == self.spec_message(),
    {
        match self {
            IdempotencyKeyError::Empty => String::from_str(KEY_IS_EMPTY),
            IdempotencyKeyError::TooLong => String::from_str(KEY_IS_TOO_LONG),
        }
    }
}

/// Whether `s` may serve as an idempotency key: between 1 and
/// [`MAX_KEY_CHARS`] characters.
pub open spec fn is_valid_key(s: Seq<char>) -> bool {
    1 <= s.len() <= MAX_KEY_CHARS
}

/// What [`IdempotencyKey::try_from`] answers for `s`.
pub open spec fn key_check(s: Seq<char>) -> Result<(), IdempotencyKeyError> {
    if s.len() == 0 {
        Err(IdempotencyKeyError::Empty)
    } else if s.len() > MAX_KEY_CHARS {
        Err(IdempotencyKeyError::TooLong)
    } else {
        Ok(())
    }
}

/// A client-supplied token that names one logical operation.
#[derive(Debug)]
pub struct IdempotencyKey(String);

impl View for IdempotencyKey {
    type V = Seq<char>;

    closed spec fn view(&self) -> Seq<char> {
        self.0@
    }
}

impl IdempotencyKey {
    /// Every key that exists is valid.
    #[verifier::type_invariant]
    spec fn inv(self) -> bool {
        is_valid_key(self.0@)
    }

    /// Accepts `value` exactly when it has between 1 and 49 characters.
    pub fn try_from(value: String) -> (res: Result<IdempotencyKey, IdempotencyKeyError>)
        ensures
            res is Ok <==> is_valid_key(value@),
            res matches Ok(key) ==> key@ == value@,
            res matches Err(e) ==> key_check(value@) == Err::<(), IdempotencyKeyError>(e),
    {
        let n: usize = value.as_str().unicode_len();
        if n == 0 {
            Err(IdempotencyKeyError::Empty)
        } else if n > MAX_KEY_CHARS {
            Err(IdempotencyKeyError::TooLong)
        } else {
            Ok(IdempotencyKey(value))
        }
    }

    /// The key's text.
    pub fn as_ref(&self) -> (s: &str)
        ensures
            s@ == self@,
            is_valid_key(s@),
    {
        proof {
            use_type_invariant(self);
        }
        self.0.as_str()
    }

    /// The key's text, as the string that holds it.
    pub fn as_string(&self) -> (s: &String)
        ensures
            s@ == self@,
            is_valid_key(s@),
    {
        proof {
            use_type_invariant(self);
        }
        &self.0
    }

    /// Gives the key's text back.
    pub fn into_string(self) -> (s: String)
        ensures
            s@ == self@,
            is_valid_key(s@),
    {
        proof {
            use_type_invariant(&self);
        }
        self.0
    }
}

} // verus!
