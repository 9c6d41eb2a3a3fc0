//! Copying between byte strings, vectors and arrays.

use vstd::prelude::*;

verus! {

/// Appends `bytes` to `out`.
pub fn append(out: &mut Vec<u8>, bytes: &[u8])
    ensures
        final(out)@ == old(out)@ + bytes@,
{
    let mut i: usize = 0;
    while i < bytes.len()
        invariant
            i <= bytes@.len(),
            out@ == old(out)@ + bytes@.subrange(0, i as int),
        decreases bytes@.len() - i,
    {
        out.push(bytes[i]);
        i = i + 1;
        assert(out@ =~= old(out)@ + bytes@.subrange(0, i as int));
    }
    assert(bytes@.subrange(0, i as int) =~= bytes@);
}

/// The `N` bytes of `bytes` that start at `offset`.
pub fn array_at<const N: usize>(bytes: &[u8], offset: usize) -> (array: [u8; N])
    requires
        offset + N <= bytes.len(),
    ensures
        array@ == bytes@.subrange(offset as int, offset + N),
{
    let mut array: [u8; N] = [0u8; N];
    let mut i: usize = 0;
    while i < N
        invariant
            i <= N,
            offset + N <= bytes.len(),
            forall|j: int| 0 <= j < i ==> array@[j] == bytes@[offset + j],
        decreases N - i,
    {
        array[i] = bytes[offset + i];
        i = i + 1;
    }
    assert(array@ =~= bytes@.subrange(offset as int, offset + N));
    array
}

/// `bytes` followed by as many zero bytes as it takes to reach `len` bytes.
pub open spec fn zero_padded(bytes: Seq<u8>, len: nat) -> Seq<u8>
    recommends
        bytes.len() <= len,
{
    Seq::new(
        len,
        |i: int|
            if i < bytes.len() {
                bytes[i]
            } else {
                0u8
            },
    )
}

/// Padding keeps the bytes in front and their number can be chosen freely.
pub proof fn lemma_zero_padded_prefix(bytes: Seq<u8>, len: nat)
    requires
        bytes.len() <= len,
    ensures
        zero_padded(bytes, len).len() == len,
        zero_padded(bytes, len).subrange(0, bytes.len() as int) == bytes,
        forall|i: int| bytes.len() <= i < len ==> zero_padded(bytes, len)[i] == 0,
{
    assert(zero_padded(bytes, len).subrange(0, bytes.len() as int) =~= bytes);
}

/// `bytes`, zero-padded to an array of `N` bytes.
pub fn padded<const N: usize>(bytes: &[u8]) -> (array: [u8; N])
    requires
        bytes.len() <= N,
    ensures
        array@ == zero_padded(bytes@, N as nat),
{
    let mut array: [u8; N] = [0u8; N];
    let mut i: usize = 0;
    while i < bytes.len()
        invariant
            i <= bytes@.len() <= N,
            forall|j: int| 0 <= j < i ==> array@[j] == bytes@[j],
            forall|j: int| i <= j < N ==> array@[j] == 0,
        decreases bytes@.len() - i,
    {
        array[i] = bytes[i];
        i = i + 1;
    }
    assert(array@ =~= zero_padded(bytes@, N as nat));
    array
}

} // verus!
