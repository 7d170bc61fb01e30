//! Index bookkeeping for mapping a vector in parallel.
//!
//! Work items are popped off the input's tail and tagged with a running
//! count, so the tag of an item and the slot its result belongs to mirror
//! each other around the end of the vector.  The callers that spread the
//! items over threads live outside the library; the arithmetic that puts
//! every result back where its input was is here.

use vstd::prelude::*;

verus! {

/// The output slot for the result tagged `tag` out of `len` items: the
/// item popped `tag`-th from the tail came from this index.
pub fn output_slot(len: usize, tag: usize) -> (r: usize)
    requires
        tag < len,
    ensures
        r == len - 1 - tag,
{
    len - 1 - tag
}

} // verus!
