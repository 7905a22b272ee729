//! The pure target selector: external entropy and a count of eligible
//! indices in, one position out.
//!
//! Only the leading 8 of the 32 entropy bytes are consumed, read as a
//! big-endian unsigned 64-bit value and reduced modulo the count; the
//! remaining bytes stay in the record purely as an auditable proof of which
//! entropy produced the result. The modulo bias against the full 64-bit
//! range is an accepted design tradeoff and is deliberately not corrected.

use vstd::prelude::*;

verus! {

/// The big-endian value of the first `n` bytes of `s`.
pub open spec fn be_prefix_value(s: Seq<u8>, n: int) -> int
    recommends
        0 <= n <= s.len(),
    decreases n,
{
    if n <= 0 {
        0
    } else {
        be_prefix_value(s, n - 1) * 256 + s[n - 1]
    }
}

/// The 64-bit entropy word: the big-endian value of the leading 8 bytes.
pub open spec fn entropy_word(s: Seq<u8>) -> int {
    be_prefix_value(s, 8)
}

/// The selected position for a given entropy value and count of eligible
/// indices.
pub open spec fn spec_select(s: Seq<u8>, count: u16) -> int
    recommends
        count > 0,
{
    entropy_word(s) % (count as int)
}

/// The big-endian value of an `n`-byte prefix is below 256^n; spelled out
/// here only as far as the 8 bytes the selector reads.
proof fn lemma_be_prefix_bound_8(s: Seq<u8>)
    requires
        s.len() >= 8,
    ensures
        0 <= be_prefix_value(s, 8) < 0x1_0000_0000_0000_0000,
{
    assert(be_prefix_value(s, 0) == 0);
    assert(be_prefix_value(s, 1) < 0x100);
    assert(be_prefix_value(s, 2) < 0x1_0000);
    assert(be_prefix_value(s, 3) < 0x100_0000);
    assert(be_prefix_value(s, 4) < 0x1_0000_0000);
    assert(be_prefix_value(s, 5) < 0x100_0000_0000);
    assert(be_prefix_value(s, 6) < 0x1_0000_0000_0000);
    assert(be_prefix_value(s, 7) < 0x100_0000_0000_0000);
    assert(be_prefix_value(s, 8) < 0x1_0000_0000_0000_0000);
}

/// Chooses the position of the assigned target among `target_count`
/// eligible indices: the leading 8 entropy bytes, read big-endian, reduced
/// modulo the count.
pub fn calculate_target_index(blockhash: &[u8; 32], target_count: u16) -> (idx: u16)
    requires
        target_count > 0,
    ensures
        idx == spec_select(blockhash@, target_count),
        idx < target_count,
{
    proof {
        lemma_be_prefix_bound_8(blockhash@);
        assert(be_prefix_value(blockhash@, 0) == 0);
    }
    let mut value: u64 = blockhash[0] as u64;
    assert(value == be_prefix_value(blockhash@, 1));
    value = value * 256 + (blockhash[1] as u64);
    assert(value == be_prefix_value(blockhash@, 2));
    value = value * 256 + (blockhash[2] as u64);
    assert(value == be_prefix_value(blockhash@, 3));
    value = value * 256 + (blockhash[3] as u64);
    assert(value == be_prefix_value(blockhash@, 4));
    value = value * 256 + (blockhash[4] as u64);
    assert(value == be_prefix_value(blockhash@, 5));
    value = value * 256 + (blockhash[5] as u64);
    assert(value == be_prefix_value(blockhash@, 6));
    value = value * 256 + (blockhash[6] as u64);
    assert(value == be_prefix_value(blockhash@, 7));
    value = value * 256 + (blockhash[7] as u64);
    assert(value == be_prefix_value(blockhash@, 8));
    (value % (target_count as u64)) as u16
}

/// The selector is deterministic: the same entropy bytes and the same
/// count always give the same position, and the position always lies below
/// the count.
pub proof fn lemma_select_deterministic(e1: Seq<u8>, e2: Seq<u8>, count: u16)
    requires
        e1 == e2,
        count > 0,
    ensures
        spec_select(e1, count) == spec_select(e2, count),
        0 <= spec_select(e1, count) < count,
{
}

} // verus!
