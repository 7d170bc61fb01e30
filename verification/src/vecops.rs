//! Small vector utilities.

use vstd::prelude::*;

verus! {

/// The sequence with only the first occurrence of each value kept, in
/// order of first appearance.
pub open spec fn dedup_keep_first(s: Seq<i32>) -> Seq<i32>
    decreases s.len(),
{
    if s.len() == 0 {
        Seq::empty()
    } else {
        let prefix = dedup_keep_first(s.drop_last());
        if s.drop_last().contains(s.last()) {
            prefix
        } else {
            prefix.push(s.last())
        }
    }
}

/// A fresh vector with `n` added to every element.
pub fn add_n(v: Vec<i32>, n: i32) -> (r: Vec<i32>)
    requires
        forall|i: int| 0 <= i < v@.len() ==> i32::MIN <= #[trigger] v@[i] + n <= i32::MAX,
    ensures
        r@.len() == v@.len(),
        forall|i: int| 0 <= i < v@.len() ==> #[trigger] r@[i] == v@[i] + n,
{
    let mut new_v: Vec<i32> = Vec::new();
    let len = v.len();
    let mut i: usize = 0;
    while i < len
        invariant
            i <= len,
            len == v@.len(),
            new_v@.len() == i,
            forall|j: int| 0 <= j < v@.len() ==> i32::MIN <= #[trigger] v@[j] + n <= i32::MAX,
            forall|j: int| 0 <= j < i ==> #[trigger] new_v@[j] == v@[j] + n,
        decreases len - i,
    {
        new_v.push(v[i] + n);
        i += 1;
    }
    new_v
}

/// Adds `n` to every element in place.
pub fn add_n_inplace(v: &mut Vec<i32>, n: i32)
    requires
        forall|i: int| 0 <= i < old(v)@.len() ==> i32::MIN <= #[trigger] old(v)@[i] + n <= i32::MAX,
    ensures
        final(v)@.len() == old(v)@.len(),
        forall|i: int| 0 <= i < old(v)@.len() ==> #[trigger] final(v)@[i] == old(v)@[i] + n,
{
    let len = v.len();
    let mut i: usize = 0;
    while i < len
        invariant
            i <= len,
            len == v@.len(),
            v@.len() == old(v)@.len(),
            forall|j: int| 0 <= j < v@.len() ==> i32::MIN <= #[trigger] old(v)@[j] + n <= i32::MAX,
            forall|j: int| i <= j < v@.len() ==> #[trigger] v@[j] == old(v)@[j],
            forall|j: int| 0 <= j < i ==> #[trigger] v@[j] == old(v)@[j] + n,
        decreases len - i,
    {
        let x = v[i] + n;
        v[i] = x;
        i += 1;
    }
}

/// Removes every repeated value, keeping the first occurrence of each in
/// its place.
pub fn dedup(v: &mut Vec<i32>)
    ensures
        final(v)@ == dedup_keep_first(old(v)@),
{
    let n = v.len();
    let mut out: Vec<i32> = Vec::new();
    let mut i: usize = 0;
    while i < n
        invariant
            i <= n,
            n == v@.len(),
            v@ == old(v)@,
            out@ == dedup_keep_first(v@.take(i as int)),
        decreases n - i,
    {
        let x = v[i];
        let mut dup = false;
        let mut j: usize = 0;
        while j < i
            invariant
                j <= i,
                i < n,
                n == v@.len(),
                v@ == old(v)@,
                x == v@[i as int],
                dup == exists|k: int| 0 <= k < j && #[trigger] v@[k] == x,
            decreases i - j,
        {
            if v[j] == x {
                dup = true;
            }
            j += 1;
        }
        proof {
            if dup {
                let k = choose|k: int| 0 <= k < i && #[trigger] v@[k] == x;
                assert(v@.take(i as int)[k] == x);
            }
            if v@.take(i as int).contains(x) {
                let k = choose|k: int| 0 <= k < i && #[trigger] v@.take(i as int)[k] == x;
                assert(v@[k] == x);
            }
            assert(v@.take(i as int + 1).drop_last() =~= v@.take(i as int));
        }
        if !dup {
            out.push(x);
        }
        i += 1;
    }
    proof {
        assert(v@.take(n as int) =~= v@);
    }
    *v = out;
}

} // verus!
