//! Query strings that may be missing.
use vstd::prelude::*;

verus! {

/// The parameters of a query string, or nothing where the address has no
/// query string.
#[derive(Debug)]
pub struct OptionalQuery<T>(pub Option<T>);

} // verus!
