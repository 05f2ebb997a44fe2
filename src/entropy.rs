//! The operating system's entropy source.
use vstd::prelude::*;

verus! {

/// The error of `getrandom::getrandom`, carried through as it is.
#[verifier::external_type_specification]
#[verifier::external_body]
pub struct ExEntropyError(getrandom::Error);

/// Relies on `getrandom::getrandom`: it writes into `dest` in place, so the
/// length is kept, and returns `Ok` only when every byte was filled (an error
/// on any failure, partial reads included). An empty `dest` succeeds at once.
#[verifier::external_body]
pub(crate) fn fill_from_entropy(dest: &mut Vec<u8>) -> (r: Result<(), getrandom::Error>)
    ensures
        final(dest)@.len() == old(dest)@.len(),
        old(dest)@.len() == 0 ==> r is Ok,
{
    getrandom::getrandom(dest.as_mut_slice())
}

} // verus!
