//! The connection gate: authentication of a decoded credential against the
//! deployment's configured one.
//!
//! The comparison runs in constant time over the whole credential — it never
//! returns early on the first differing byte — because a credential mismatch
//! is an authentication boundary probed by adversaries, and an early exit
//! would leak how long a matching prefix was.

use vstd::prelude::*;

verus! {

/// Compares two equal-length credentials byte by byte, accumulating the
/// differences bitwise so that the running time does not depend on where the
/// first mismatch sits.  Returns whether the credentials are identical.
pub fn credentials_match(a: &[u8], b: &[u8]) -> (r: bool)
    requires
        a@.len() == b@.len(),
    ensures
        r == (a@ == b@),
{
    let n = a.len();
    let mut acc: u8 = 0;
    let mut i: usize = 0;
    while i < n
        invariant
            n == a@.len() == b@.len(),
            i <= n,
            (acc == 0) <==> (forall|j: int| 0 <= j < i ==> a@[j] == b@[j]),
        decreases n - i,
    {
        let d = a[i] ^ b[i];
        proof {
            let x = a@[i as int];
            let y = b@[i as int];
            assert((x ^ y) == 0 <==> x == y) by (bit_vector);
            let acc0 = acc;
            let d0 = d;
            assert((acc0 | d0) == 0 <==> acc0 == 0 && d0 == 0) by (bit_vector);
        }
        acc = acc | d;
        i = i + 1;
    }
    if acc == 0 {
        proof {
            assert(a@ =~= b@);
        }
        true
    } else {
        false
    }
}

} // verus!
