//! The 128-bit tags that tell the entries of an image apart.

use crate::endian::{
    le_bytes, le_value, lemma_le_bytes_len, lemma_le_bytes_of_le_value, lemma_le_bytes_zero,
    lemma_le_value_bound, lemma_le_value_of_le_bytes, lemma_le_value_zero, lemma_pow256_widths,
    read_le, write_le,
};
use vstd::prelude::*;

verus! {

/// The number whose sixteen bytes are those of `value` in the opposite order.
pub open spec fn swap_bytes(value: u128) -> u128 {
    le_value(le_bytes(value as nat, 16).reverse()) as u128
}

/// Reversing the bytes twice gives the number back.
pub proof fn lemma_swap_bytes_involutive(value: u128)
    ensures
        swap_bytes(swap_bytes(value)) == value,
{
    let bytes = le_bytes(value as nat, 16);
    let reversed = bytes.reverse();
    lemma_le_bytes_len(value as nat, 16);
    lemma_pow256_widths();
    lemma_le_value_bound(reversed);
    lemma_le_bytes_of_le_value(reversed);
    assert(reversed.reverse() =~= bytes);
    lemma_le_value_of_le_bytes(value as nat, 16);
}

/// Only zero has all its bytes zero.
pub proof fn lemma_swap_bytes_zero(value: u128)
    ensures
        swap_bytes(value) == 0 <==> value == 0,
{
    lemma_swap_bytes_involutive(value);
    lemma_le_bytes_zero(16);
    lemma_le_value_zero(le_bytes(0, 16).reverse());
}

/// A universally unique identifier: sixteen bytes, held as the number that
/// they denote most significant byte first.
#[derive(Clone, Copy, Debug, PartialEq, Eq, Structural)]
pub struct Uuid {
    pub bits: u128,
}

impl Uuid {
    /// The identifier whose bytes, most significant first, denote `value`.
    pub fn from_u128(value: u128) -> (uuid: Uuid)
        ensures
            uuid.bits == value,
    {
        Uuid { bits: value }
    }

    /// The identifier whose bytes, least significant first, denote `value`.
    pub fn from_u128_le(value: u128) -> (uuid: Uuid)
        ensures
            uuid.bits == swap_bytes(value),
    {
        Uuid { bits: swap_u128(value) }
    }

    /// The number that the bytes denote most significant byte first.
    pub fn as_u128(&self) -> (value: u128)
        ensures
            value == self.bits,
    {
        self.bits
    }

    /// The number that the bytes denote least significant byte first.
    pub fn to_u128_le(&self) -> (value: u128)
        ensures
            value == swap_bytes(self.bits),
    {
        swap_u128(self.bits)
    }

    /// Whether all sixteen bytes are zero.
    pub fn is_nil(&self) -> (nil: bool)
        ensures
            nil == (self.bits == 0),
    {
        self.bits == 0
    }
}

/// Reverses the sixteen bytes of `value`.
fn swap_u128(value: u128) -> (swapped: u128)
    ensures
        swapped == swap_bytes(value),
{
    let bytes = write_le(value, 16);
    proof {
        lemma_le_bytes_len(value as nat, 16);
    }
    let mut reversed: Vec<u8> = Vec::new();
    let mut i: usize = 16;
    while i > 0
        invariant
            i <= 16,
            bytes@.len() == 16,
            reversed@.len() == 16 - i,
            forall|j: int| 0 <= j < 16 - i ==> reversed@[j] == bytes@[15 - j],
        decreases i,
    {
        i = i - 1;
        reversed.push(bytes[i]);
    }
    assert(reversed@ =~= bytes@.reverse());
    proof {
        assert(reversed@.subrange(0, 16) =~= reversed@);
        lemma_le_value_bound(reversed@);
        lemma_pow256_widths();
    }
    read_le(reversed.as_slice(), 0, 16)
}

} // verus!
