//! Little-endian numbers: what a run of bytes is worth, and how to compute it.

use vstd::prelude::*;

verus! {

/// The number that `bytes` spell in little-endian order: the first byte counts
/// ones, the second counts 256s, and so on.
pub open spec fn le_value(bytes: Seq<u8>) -> nat
    decreases bytes.len(),
{
    if bytes.len() == 0 {
        0
    } else {
        bytes[0] as nat + 256 * le_value(bytes.drop_first())
    }
}

/// 256 to the power `n`: the number of values that `n` bytes can spell.
pub open spec fn span_limit(n: nat) -> nat
    decreases n,
{
    if n == 0 {
        1
    } else {
        256 * span_limit((n - 1) as nat)
    }
}

/// `n` bytes spell a number below 256 to the power `n`.
pub proof fn lemma_le_value_below_limit(bytes: Seq<u8>)
    ensures
        le_value(bytes) < span_limit(bytes.len()),
    decreases bytes.len(),
{
    if bytes.len() > 0 {
        lemma_le_value_below_limit(bytes.drop_first());
    }
}

/// One byte spells itself.
pub proof fn lemma_le_value_of_one(bytes: Seq<u8>)
    requires
        bytes.len() == 1,
    ensures
        le_value(bytes) == bytes[0],
{
    assert(le_value(bytes.drop_first()) == 0);
}

/// The limits of the widths that the reader decodes.
pub proof fn lemma_span_limits()
    ensures
        span_limit(0) == 1,
        span_limit(1) == 0x100,
        span_limit(2) == 0x1_0000,
        span_limit(4) == 0x1_0000_0000,
        span_limit(8) == 0x1_0000_0000_0000_0000,
{
    reveal_with_fuel(span_limit, 9);
}

/// Computes the little-endian value of at most eight bytes.
pub(crate) fn decode_le(bytes: &[u8]) -> (value: u64)
    requires
        bytes@.len() <= 8,
    ensures
        value == le_value(bytes@),
{
    let n: usize = bytes.len();
    let mut value: u64 = 0;
    let mut i: usize = n;
    while i > 0
        invariant
            n == bytes@.len(),
            n <= 8,
            i <= n,
            value == le_value(bytes@.subrange(i as int, n as int)),
        decreases i,
    {
        let ghost tail = bytes@.subrange(i as int, n as int);
        let ghost longer = bytes@.subrange(i - 1, n as int);
        proof {
            assert(longer.drop_first() == tail);
            lemma_le_value_below_limit(tail);
            lemma_span_limit_grows(tail.len(), 7);
            lemma_span_limits();
            assert(span_limit(7) * 256 == span_limit(8)) by {
                reveal_with_fuel(span_limit, 2);
            }
        }
        i = i - 1;
        value = value * 256 + bytes[i] as u64;
    }
    assert(bytes@.subrange(0, n as int) == bytes@);
    value
}

/// A longer span has a larger limit.
proof fn lemma_span_limit_grows(m: nat, n: nat)
    requires
        m <= n,
    ensures
        span_limit(m) <= span_limit(n),
    decreases n,
{
    if m < n {
        lemma_span_limit_grows(m, (n - 1) as nat);
    }
}

} // verus!
