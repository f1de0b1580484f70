//! Random bytes.

use rand_core::RngCore;
use vstd::prelude::*;

verus! {

/// `rand_core::OsRng::try_fill_bytes`: as many bytes as were asked for, from the source of
/// randomness of the operating system; nothing where that source fails. Any bytes may come.
#[verifier::external_body]
pub(crate) fn random_bytes(count: usize) -> (bytes: Option<Vec<u8>>)
    ensures
        bytes is Some ==> bytes->0@.len() == count,
{
    let mut bytes = vec![0u8; count];
    rand_core::OsRng.try_fill_bytes(&mut bytes).ok()?;
    Some(bytes)
}

} // verus!
