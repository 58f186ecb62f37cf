//! The permission rule: clear the three execute bits, keep every other bit.

use vstd::prelude::*;

verus! {

/// The execute bits of owner, group and others.
pub const EXECUTE_BITS: u32 = 0o111;

/// The mode `mode` with the three execute bits cleared.
pub open spec fn stripped(mode: u32) -> u32 {
    mode & !EXECUTE_BITS
}

/// Whether bit `bit`, counted from the low end, is set in `mode`.
pub open spec fn bit_set(mode: u32, bit: u32) -> bool {
    (mode >> bit) & 1 == 1
}

/// Whether bit `bit`, counted from the low end, is one of the execute bits:
/// bit 0 for others, bit 3 for the group, bit 6 for the owner.
pub open spec fn is_execute_bit(bit: u32) -> bool {
    bit == 0 || bit == 3 || bit == 6
}

/// Clears the execute bits of owner, group and others in `mode`.
pub fn strip_execute(mode: u32) -> (stripped_mode: u32)
    ensures
        stripped_mode == stripped(mode),
{
    mode & !EXECUTE_BITS
}

/// Stripping twice gives what stripping once gives.
pub proof fn lemma_strip_idempotent(mode: u32)
    ensures
        stripped(stripped(mode)) == stripped(mode),
{
    assert((mode & !0o111u32) & !0o111u32 == mode & !0o111u32) by (bit_vector);
}

/// Stripping clears the three execute bits and leaves every other bit as it
/// was: a bit is set afterwards exactly if it was set before and is none of
/// the execute bits.
pub proof fn lemma_strip_selective(mode: u32, bit: u32)
    requires
        bit < 32,
    ensures
        bit_set(stripped(mode), bit) == (bit_set(mode, bit) && !is_execute_bit(bit)),
{
    assert(bit < 32 ==> ((((mode & !0o111u32) >> bit) & 1 == 1) == (((mode >> bit) & 1 == 1) && !(
    bit == 0 || bit == 3 || bit == 6)))) by (bit_vector);
}

/// Stripping sets no bit that was clear.
pub proof fn lemma_strip_only_clears(mode: u32)
    ensures
        stripped(mode) & !mode == 0,
{
    assert((mode & !0o111u32) & !mode == 0) by (bit_vector);
}

} // verus!
