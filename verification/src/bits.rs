//! Facts about shifts and masks of 128-bit values, proved once by bit blasting.
use vstd::prelude::*;

verus! {

/// Masking never exceeds the mask.
pub proof fn lemma_and_le(x: u128, m: u128)
    ensures
        x & m <= m,
{
    assert(x & m <= m) by (bit_vector);
}

/// Shifting by nothing keeps a value; shifting by its width clears it.
pub proof fn lemma_shr_ends(x: u128)
    ensures
        x >> 0u128 == x,
        x >> 128u128 == 0,
{
    assert(x >> 0u128 == x && x >> 128u128 == 0) by (bit_vector);
}

/// The bits of `x` from `s` on are those from `s + k` on, times `2^k`, plus the `k`
/// bits at `s` (for digits of 4, 6 and 8 bits).
pub proof fn lemma_split_digit(x: u128, s: u128)
    requires
        s <= 124,
    ensures
        x >> (s + 4) < 0x10000000000000000000000000000000,
        (x >> (s + 4)) * 16 + ((x >> s) & 15) == x >> s,
        s <= 122 ==> (x >> (s + 6)) * 64 + ((x >> s) & 63) == x >> s,
        s <= 120 ==> (x >> (s + 8)) * 256 + ((x >> s) & 255) == x >> s,
{
    assert(x >> (s + 4) < 0x10000000000000000000000000000000 && (x >> (s + 4)) * 16 + ((x >> s)
        & 15) == x >> s && (s <= 122 ==> (x >> (s + 6)) * 64
        + ((x >> s) & 63) == x >> s) && (s <= 120 ==> (x >> (s + 8)) * 256 + ((x >> s) & 255) == x
        >> s)) by (bit_vector)
        requires
            s <= 124,
    ;
}

/// Appending a digit below a value that has room for it is arithmetic.
pub proof fn lemma_append_digit(y: u128, d: u128)
    ensures
        y < 0x10000000000000000000000000000000 && d < 16 ==> (y << 4u128) | d == y * 16 + d,
        y < 0x4000000000000000000000000000000 && d < 64 ==> (y << 6u128) | d == y * 64 + d,
{
    assert((y < 0x10000000000000000000000000000000 && d < 16 ==> (y << 4u128) | d == y * 16
        + d) && (y < 0x4000000000000000000000000000000 && d < 64 ==> (y << 6u128) | d == y * 64
        + d)) by (bit_vector);
}

/// Shifting twice is shifting by the sum, and shifting keeps order.
pub proof fn lemma_shr_facts(x: u128, y: u128, a: u128, b: u128)
    requires
        a + b < 128,
    ensures
        (x >> a) >> b == x >> (a + b),
        x <= y ==> x >> a <= y >> a,
{
    let pa = vstd::arithmetic::power2::pow2(a as nat);
    let pb = vstd::arithmetic::power2::pow2(b as nat);
    vstd::arithmetic::power2::lemma_pow2_pos(a as nat);
    vstd::arithmetic::power2::lemma_pow2_pos(b as nat);
    vstd::arithmetic::power2::lemma_pow2_adds(a as nat, b as nat);
    vstd::bits::lemma_u128_shr_is_div(x, a);
    vstd::bits::lemma_u128_shr_is_div(x >> a, b);
    vstd::bits::lemma_u128_shr_is_div(x, (a + b) as u128);
    vstd::arithmetic::div_mod::lemma_div_denominator(x as int, pa as int, pb as int);
    if x <= y {
        vstd::bits::lemma_u128_shr_is_div(y, a);
        vstd::arithmetic::div_mod::lemma_div_is_ordered(x as int, y as int, pa as int);
    }
}

} // verus!
