//! Random bytes.

use rand_core::RngCore;
use vstd::prelude::*;

verus! {

/// `fill_bytes` of `rand_core::OsRng` overwrites a buffer with random bytes, and
/// panics if the operating system has none to give. Nothing is claimed of the
/// bytes but their number.
#[verifier::external_body]
fn filled(buf: Vec<u8>) -> (r: Vec<u8>)
    ensures
        r@.len() == buf@.len(),
{
    let mut buf = buf;
    rand_core::OsRng.fill_bytes(&mut buf);
    buf
}

/// Generate random bytes of the given size.
pub fn random_bytes(size: usize) -> (r: Vec<u8>)
    ensures
        r@.len() == size,
{
    let mut buf: Vec<u8> = Vec::new();
    while buf.len() < size
        invariant
            buf@.len() <= size,
        decreases size - buf@.len(),
    {
        buf.push(0);
    }
    filled(buf)
}

} // verus!
