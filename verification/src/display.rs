//! The boot framebuffer.

use vstd::prelude::*;

verus! {

/// Clears the framebuffer's bytes: every pixel becomes black.
pub fn clear(buffer: &mut [u8])
    ensures
        final(buffer)@.len() == old(buffer)@.len(),
        forall|i: int| 0 <= i < final(buffer)@.len() ==> final(buffer)@[i] == 0,
{
    let len = buffer.len();
    let mut i: usize = 0;
    while i < len
        invariant
            i <= len,
            len == buffer@.len(),
            buffer@.len() == old(buffer)@.len(),
            forall|j: int| 0 <= j < i ==> buffer@[j] == 0,
        decreases len - i,
    {
        buffer[i] = 0;
        i = i + 1;
    }
}

} // verus!
