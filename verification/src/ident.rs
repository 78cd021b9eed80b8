//! Identifiers of books: 128 bits, drawn at random.

use vstd::prelude::*;

verus! {

/// Whether `id` has the version and variant bits of a random identifier
/// (a version 4 UUID).
pub open spec fn is_random_id(id: u128) -> bool {
    id & 0x0000_0000_0000_F000_C000_0000_0000_0000 == 0x0000_0000_0000_4000_8000_0000_0000_0000
}

/// Calls `uuid::Uuid::new_v4` and gives the identifier as the number that
/// `as_u128` makes of it. Which number comes is left to chance; its version and
/// variant bits are those of a random identifier.
#[verifier::external_body]
pub(crate) fn fresh_id() -> (id: u128)
    ensures
        is_random_id(id),
{
    uuid::Uuid::new_v4().as_u128()
}

} // verus!
