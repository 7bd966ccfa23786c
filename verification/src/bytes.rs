use vstd::prelude::*;

verus! {

/// Whether `a[a_start..a_start + len]` and `b[b_start..b_start + len]` hold the same bytes.
pub fn ranges_equal(a: &[u8], a_start: usize, b: &[u8], b_start: usize, len: usize) -> (r: bool)
    requires
        a_start + len <= a@.len(),
        b_start + len <= b@.len(),
    ensures
        r == (a@.subrange(a_start as int, a_start + len) == b@.subrange(
            b_start as int,
            b_start + len,
        )),
{
    let mut k: usize = 0;
    while k < len
        invariant
            k <= len,
            a_start + len <= a.len(),
            b_start + len <= b.len(),
            forall|j: int| a_start <= j < a_start + k ==> #[trigger] a@[j] == b@[j - a_start + b_start],
        decreases len - k,
    {
        if a[a_start + k] != b[b_start + k] {
            assert(a@.subrange(a_start as int, a_start + len)[k as int] != b@.subrange(
                b_start as int,
                b_start + len,
            )[k as int]);
            return false;
        }
        k = k + 1;
    }
    assert(a@.subrange(a_start as int, a_start + len) =~= b@.subrange(
        b_start as int,
        b_start + len,
    ));
    true
}

/// Whether every byte of `a[start..end]` equals `value`.
pub fn range_all(a: &[u8], start: usize, end: usize, value: u8) -> (r: bool)
    requires
        start <= end <= a@.len(),
    ensures
        r == (forall|j: int| start <= j < end ==> a@[j] == value),
{
    let mut k: usize = start;
    while k < end
        invariant
            start <= k <= end,
            end <= a.len(),
            forall|j: int| start <= j < k ==> a@[j] == value,
        decreases end - k,
    {
        if a[k] != value {
            return false;
        }
        k = k + 1;
    }
    true
}

} // verus!
