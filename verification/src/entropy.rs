//! The library's sources of chance: the thread-local generator of `rand`
//! and the random identifiers of `uuid`. Nothing here is proved; each
//! contract states only what holds of every outcome.

use rand::Rng;
use vstd::prelude::*;

verus! {

/// Calls `rand::Rng::gen_range` on `rand::thread_rng()` with the range
/// `0..bound`. The contract claims that the sample lies in that range, for
/// every non-empty range; an empty range makes `gen_range` panic and is
/// excluded.
#[verifier::external_body]
pub(crate) fn random_below(bound: usize) -> (n: usize)
    requires
        bound > 0,
    ensures
        n < bound,
{
    rand::thread_rng().gen_range(0..bound)
}

/// Calls `rand::Rng::gen_ratio(1, 2)` on `rand::thread_rng()`: a fair coin.
/// Nothing is claimed of the outcome.
#[verifier::external_body]
pub(crate) fn coin_flip() -> (heads: bool) {
    rand::thread_rng().gen_ratio(1, 2)
}

/// Calls `uuid::Uuid::new_v4` and renders the identifier with its
/// `Display` impl, the hyphenated form of 32 hexadecimal digits and four
/// hyphens. The contract claims only the length of that form.
#[verifier::external_body]
pub(crate) fn fresh_match_id() -> (id: String)
    ensures
        id@.len() == 36,
{
    uuid::Uuid::new_v4().to_string()
}

} // verus!
