//! Block operations on byte vectors.

use vstd::prelude::*;

verus! {

/// Overwrites `buf[start..start + src.len()]` with `src`.
pub(crate) fn write_block(buf: &mut Vec<u8>, start: usize, src: &[u8])
    requires
        start + src@.len() <= old(buf)@.len(),
    ensures
        final(buf)@.len() == old(buf)@.len(),
        forall|i: int|
            0 <= i < old(buf)@.len() ==> #[trigger] final(buf)@[i] == if start <= i < start
                + src@.len() {
                src@[i - start]
            } else {
                old(buf)@[i]
            },
{
    let n: usize = src.len();
    let total: usize = buf.len();
    let mut k: usize = 0;
    while k < n
        invariant
            n == src@.len(),
            k <= n,
            total == buf@.len(),
            start + n <= total,
            buf@.len() == old(buf)@.len(),
            forall|i: int|
                0 <= i < buf@.len() ==> #[trigger] buf@[i] == if start <= i < start + k {
                    src@[i - start]
                } else {
                    old(buf)@[i]
                },
        decreases n - k,
    {
        buf[start + k] = src[k];
        k += 1;
    }
}

/// Appends `src[start..start + count]` to `out`.
pub(crate) fn append_block(out: &mut Vec<u8>, src: &Vec<u8>, start: usize, count: usize)
    requires
        start + count <= src@.len(),
    ensures
        final(out)@ == old(out)@ + src@.subrange(start as int, start + count),
{
    let total: usize = src.len();
    let mut k: usize = 0;
    while k < count
        invariant
            k <= count,
            total == src@.len(),
            start + count <= total,
            out@ == old(out)@ + src@.subrange(start as int, start + k),
        decreases count - k,
    {
        out.push(src[start + k]);
        k += 1;
        assert(out@ =~= old(out)@ + src@.subrange(start as int, start + k));
    }
    assert(out@ =~= old(out)@ + src@.subrange(start as int, start + count));
}

/// A vector of `count` zero bytes.
pub(crate) fn zeros(count: usize) -> (out: Vec<u8>)
    ensures
        out@ == Seq::new(count as nat, |i: int| 0u8),
{
    let out = vec![0u8; count];
    assert(out@ =~= Seq::new(count as nat, |i: int| 0u8));
    out
}

} // verus!
