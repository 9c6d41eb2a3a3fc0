//! Little-endian integers as byte strings.

use vstd::prelude::*;

verus! {

/// The number that a byte string denotes when it is read least significant
/// byte first.
pub open spec fn le_value(bytes: Seq<u8>) -> nat
    decreases bytes.len(),
{
    if bytes.len() == 0 {
        0
    } else {
        bytes[0] as nat + 256 * le_value(bytes.drop_first())
    }
}

/// The `width` low-order bytes of `value`, least significant byte first.
pub open spec fn le_bytes(value: nat, width: nat) -> Seq<u8>
    decreases width,
{
    if width == 0 {
        Seq::empty()
    } else {
        seq![(value % 256) as u8].add(le_bytes(value / 256, (width - 1) as nat))
    }
}

/// The number of values that `n` bytes can tell apart.
pub open spec fn pow256(n: nat) -> nat
    decreases n,
{
    if n == 0 {
        1
    } else {
        256 * pow256((n - 1) as nat)
    }
}

/// `le_bytes` yields exactly `width` bytes.
pub proof fn lemma_le_bytes_len(value: nat, width: nat)
    ensures
        le_bytes(value, width).len() == width,
    decreases width,
{
    if width > 0 {
        lemma_le_bytes_len(value / 256, (width - 1) as nat);
    }
}

/// A string of `n` bytes denotes a number below `256^n`.
pub proof fn lemma_le_value_bound(bytes: Seq<u8>)
    ensures
        le_value(bytes) < pow256(bytes.len()),
    decreases bytes.len(),
{
    if bytes.len() > 0 {
        lemma_le_value_bound(bytes.drop_first());
    }
}

/// Decoding inverts encoding for every value that fits in `width` bytes.
pub proof fn lemma_le_value_of_le_bytes(value: nat, width: nat)
    requires
        value < pow256(width),
    ensures
        le_value(le_bytes(value, width)) == value,
    decreases width,
{
    if width > 0 {
        let rest = le_bytes(value / 256, (width - 1) as nat);
        let all = le_bytes(value, width);
        lemma_le_value_of_le_bytes(value / 256, (width - 1) as nat);
        assert(all.drop_first() =~= rest);
        assert(all[0] == (value % 256) as u8);
    }
}

/// Encoding inverts decoding, at the width of the decoded string.
pub proof fn lemma_le_bytes_of_le_value(bytes: Seq<u8>)
    ensures
        le_bytes(le_value(bytes), bytes.len()) == bytes,
    decreases bytes.len(),
{
    if bytes.len() > 0 {
        let rest = bytes.drop_first();
        lemma_le_bytes_of_le_value(rest);
        let value = le_value(bytes);
        assert(value % 256 == bytes[0] as nat);
        assert(value / 256 == le_value(rest));
        assert(le_bytes(value, bytes.len()) =~= bytes);
    } else {
        assert(le_bytes(le_value(bytes), bytes.len()) =~= bytes);
    }
}

/// Zero is written as zero bytes.
pub proof fn lemma_le_bytes_zero(width: nat)
    ensures
        le_bytes(0, width).len() == width,
        forall|i: int| 0 <= i < width ==> le_bytes(0, width)[i] == 0,
    decreases width,
{
    if width > 0 {
        lemma_le_bytes_zero((width - 1) as nat);
    }
}

/// Zero bytes denote zero.
pub proof fn lemma_le_value_zero(bytes: Seq<u8>)
    requires
        forall|i: int| 0 <= i < bytes.len() ==> bytes[i] == 0,
    ensures
        le_value(bytes) == 0,
    decreases bytes.len(),
{
    if bytes.len() > 0 {
        lemma_le_value_zero(bytes.drop_first());
    }
}

/// Sixteen bytes fill a `u128` exactly, eight a `u64`, four a `u32`, two
/// a `u16`.
pub proof fn lemma_pow256_widths()
    ensures
        pow256(1) == 0x100,
        pow256(2) == 0x1_0000,
        pow256(4) == 0x1_0000_0000,
        pow256(8) == 0x1_0000_0000_0000_0000,
        pow256(16) == 0x1_0000_0000_0000_0000_0000_0000_0000_0000,
{
    reveal_with_fuel(pow256, 17);
}

/// `256^n` grows with `n`.
pub proof fn lemma_pow256_monotonic(m: nat, n: nat)
    requires
        m <= n,
    ensures
        0 < pow256(m) <= pow256(n),
    decreases n,
{
    if m < n {
        lemma_pow256_monotonic(m, (n - 1) as nat);
    } else if n > 0 {
        lemma_pow256_monotonic((m - 1) as nat, (n - 1) as nat);
    }
}

/// Reads the `width` bytes at `offset` as a little-endian number.
pub fn read_le(bytes: &[u8], offset: usize, width: usize) -> (value: u128)
    requires
        width <= 16,
        offset + width <= bytes.len(),
    ensures
        value == le_value(bytes@.subrange(offset as int, offset + width)),
{
    let end: usize = offset + width;
    let mut value: u128 = 0;
    let mut i: usize = width;
    while i > 0
        invariant
            i <= width <= 16,
            end == offset + width,
            end <= bytes@.len(),
            value == le_value(bytes@.subrange(offset + i, end as int)),
            value < pow256((width - i) as nat),
        decreases i,
    {
        i = i - 1;
        let byte: u8 = bytes[offset + i];
        proof {
            let tail = bytes@.subrange(offset + i, end as int);
            assert(tail.drop_first() =~= bytes@.subrange(offset + i + 1, end as int));
            assert(tail[0] == byte);
            lemma_pow256_monotonic((width - i) as nat, 16);
            lemma_pow256_widths();
        }
        value = value * 256 + byte as u128;
    }
    value
}

/// Writes the `width` low-order bytes of `value`, least significant first.
pub fn write_le(value: u128, width: usize) -> (bytes: Vec<u8>)
    ensures
        bytes@ == le_bytes(value as nat, width as nat),
{
    let mut bytes: Vec<u8> = Vec::new();
    let mut rest: u128 = value;
    let mut i: usize = 0;
    while i < width
        invariant
            i <= width,
            bytes@.len() == i,
            le_bytes(value as nat, width as nat) == bytes@.add(
                le_bytes(rest as nat, (width - i) as nat),
            ),
        decreases width - i,
    {
        proof {
            let tail = le_bytes(rest as nat / 256, (width - i - 1) as nat);
            assert(bytes@.push((rest % 256) as u8).add(tail) =~= bytes@.add(
                le_bytes(rest as nat, (width - i) as nat),
            ));
        }
        bytes.push((rest % 256) as u8);
        rest = rest / 256;
        i = i + 1;
    }
    assert(bytes@.add(le_bytes(rest as nat, 0)) =~= bytes@);
    bytes
}

} // verus!
