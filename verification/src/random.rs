//! Random bytes.

use vstd::prelude::*;

verus! {

/// Calls `getrandom::fill`, which fills a buffer from the system's random source, or fails.
/// Nothing is claimed of the bytes, which are random.
#[verifier::external_body]
pub(crate) fn random_bytes(n: usize) -> (r: Option<Vec<u8>>)
    ensures
        r matches Some(v) ==> v@.len() == n,
{
    let mut bytes = vec![0u8; n];
    getrandom::fill(&mut bytes).ok().map(|_| bytes)
}

} // verus!
