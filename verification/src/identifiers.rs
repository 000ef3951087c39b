//! Identifiers of rows: random UUIDs, held as numbers.
use vstd::prelude::*;

verus! {

/// Whether `id` has the shape of a random (version 4) UUID: the version
/// bits say 4, the variant bits say RFC 4122.
pub open spec fn is_random_uuid(id: u128) -> bool {
    id & 0xF000_C000_0000_0000_0000u128 == 0x4000_8000_0000_0000_0000u128
}

/// Calls [`uuid::Uuid::new_v4`] and gives the identifier as a number. Which
/// one comes is left to chance; every one has the version and variant bits
/// of a random UUID.
#[verifier::external_body]
pub(crate) fn new_uuid() -> (id: u128)
    ensures
        is_random_uuid(id),
{
    uuid::Uuid::new_v4().as_u128()
}

/// The number of characters of a UUID written with hyphens.
pub const HYPHENATED_UUID_CHARS: usize = 36;

/// The identifier `id` as [`uuid::Uuid`] writes it: in lower-case
/// hexadecimal digits, in five groups with hyphens between them.
pub uninterp spec fn hyphenated(id: u128) -> Seq<char>;

/// Writes the identifier with [`uuid::Uuid::to_string`], which always takes
/// 36 characters.
#[verifier::external_body]
pub(crate) fn to_hyphenated(id: u128) -> (text: String)
    ensures
        text@ == hyphenated(id),
        text@.len() == HYPHENATED_UUID_CHARS,
{
    uuid::Uuid::from_u128(id).to_string()
}

} // verus!
