//! Bit masks shared by the TNID layouts, hex digits and UUID strings.
use vstd::prelude::*;

use crate::bits::{lemma_and_le};

use crate::text::push_char;
use crate::tnid_variant::{spec_variant_value, TNIDVariant};

verus! {

/// The hex digit for a value below 16, in the given case.
pub open spec fn hex_digit_char(v: int, upper: bool) -> char {
    if v < 10 {
        (v + 48) as char
    } else if upper {
        (v + 55) as char
    } else {
        (v + 87) as char
    }
}

/// The value of a hex digit character, if it is one (`0-9`, `a-f`, `A-F`).
pub open spec fn hex_value(c: int) -> Option<u8> {
    if 48 <= c <= 57 {
        Some((c - 48) as u8)
    } else if 97 <= c <= 102 {
        Some((c - 87) as u8)
    } else if 65 <= c <= 70 {
        Some((c - 55) as u8)
    } else {
        None
    }
}

/// The hex digit character for `v` (below 16).
pub(crate) fn hex_digit(v: u8, upper: bool) -> (c: char)
    requires
        v < 16,
    ensures
        c == hex_digit_char(v as int, upper),
        c as int <= 127,
{
    if v < 10 {
        (v + 48) as char
    } else if upper {
        (v + 55) as char
    } else {
        (v + 87) as char
    }
}

/// Converts a hexadecimal character byte to its numeric value.
///
/// Returns `Some(0-15)` if the byte is a hex digit (`0-9`, `a-f`, `A-F`), otherwise `None`.
pub fn hex_char_to_nibble(c: u8) -> (r: Option<u8>)
    ensures
        r == hex_value(c as int),
{
    if 48 <= c && c <= 57 {
        Some(c - 48)
    } else if 97 <= c && c <= 102 {
        Some(c - 97 + 10)
    } else if 65 <= c && c <= 70 {
        Some(c - 65 + 10)
    } else {
        None
    }
}

/// Mask for the UUID version (8) and variant (RFC 4122) bits.
pub const UUID_V8_MASK: u128 = 0x00000000_0000_8000_8000_000000000000;

/// Mask for the TNID variant bits (60-61).
pub const TNID_VARIANT_MASK: u128 = 0x00000000_0000_0000_3000_000000000000;

/// Letter case for hex digits.
#[derive(Debug, Clone, Copy, PartialEq, Eq)]
pub enum Case {
    /// `A-F`
    Upper,
    /// `a-f`
    Lower,
}

/// The UUID version/variant bits together with a TNID variant.
pub open spec fn spec_uuid_and_variant_mask(tnid_variant: u8) -> u128 {
    UUID_V8_MASK | ((tnid_variant as u128) << 60u128)
}

/// `id` with its TNID variant bits replaced by `variant` (0-3).
pub open spec fn spec_change_variant(id: u128, variant: u8) -> u128 {
    (id & !(3u128 << 60u128)) | ((variant as u128) << 60u128)
}

/// Returns the complete bitmask for UUID version/variant and TNID variant.
///
/// The variant must fit in 2 bits.
pub fn uuid_and_variant_mask(tnid_variant: u8) -> (r: u128)
    requires
        tnid_variant < 4,
    ensures
        r == spec_uuid_and_variant_mask(tnid_variant),
{
    let variant = tnid_variant as u128;
    UUID_V8_MASK | (variant << 60u128)
}

/// Changes the TNID variant bits in a 128-bit ID.
pub fn change_variant(id: u128, to_variant: TNIDVariant) -> (r: u128)
    ensures
        r == spec_change_variant(id, spec_variant_value(to_variant)),
{
    let variant_mask = 0b11u128 << 60u128;
    let id_without_variant = id & !variant_mask;
    let new_variant = to_variant.as_u8() as u128;
    id_without_variant | (new_variant << 60u128)
}

/// Law: changing the variant sets the variant bits and keeps every other bit.
pub proof fn lemma_change_variant(id: u128, variant: u8)
    requires
        variant < 4,
    ensures
        (spec_change_variant(id, variant) >> 60u128) & 3 == variant as u128,
        spec_change_variant(id, variant) & !TNID_VARIANT_MASK == id & !TNID_VARIANT_MASK,
{
    assert(((((id & !(3u128 << 60u128)) | ((variant as u128) << 60u128)) >> 60u128) & 3
        == variant as u128) && ((id & !(3u128 << 60u128)) | ((variant as u128) << 60u128))
        & !0x00000000_0000_0000_3000_000000000000u128 == id
        & !0x00000000_0000_0000_3000_000000000000u128) by (bit_vector)
        requires
            variant < 4,
    ;
}

/// Whether string position `p` of a UUID string holds a hyphen.
pub open spec fn uuid_hyphen_pos(p: int) -> bool {
    p == 8 || p == 13 || p == 18 || p == 23
}

/// Number of hex digits before string position `p` of a UUID string.
pub open spec fn uuid_digits_before(p: int) -> int {
    p - (if p > 8 {
        1int
    } else {
        0
    }) - (if p > 13 {
        1int
    } else {
        0
    }) - (if p > 18 {
        1int
    } else {
        0
    }) - (if p > 23 {
        1int
    } else {
        0
    })
}

/// Nibble `k` of `id`, counting from the most significant (0) to the least (31).
pub open spec fn spec_nibble(id: u128, k: int) -> u128 {
    (id >> ((31 - k) * 4) as u128) & 15
}

/// `id` as a UUID string: 32 hex digits, most significant first, with hyphens
/// after the 8th, 12th, 16th and 20th digit.
pub open spec fn spec_uuid_string(id: u128, upper: bool) -> Seq<char> {
    Seq::new(
        36,
        |p: int|
            if uuid_hyphen_pos(p) {
                '-'
            } else {
                hex_digit_char(spec_nibble(id, uuid_digits_before(p)) as int, upper)
            },
    )
}

/// Formats a 128-bit value as a standard UUID hex string
/// (`xxxxxxxx-xxxx-xxxx-xxxx-xxxxxxxxxxxx`).
pub fn u128_to_uuid_string(id: u128, case: Case) -> (r: String)
    ensures
        r@ == spec_uuid_string(id, case == Case::Upper),
{
    let upper = match case {
        Case::Upper => true,
        Case::Lower => false,
    };
    let mut s = String::new();
    let mut p: usize = 0;
    let mut k: usize = 0;
    while p < 36
        invariant
            p <= 36,
            k == uuid_digits_before(p as int),
            upper == (case == Case::Upper),
            s@ == spec_uuid_string(id, upper).take(p as int),
        decreases 36 - p,
    {
        if p == 8 || p == 13 || p == 18 || p == 23 {
            push_char(&mut s, '-');
        } else {
            let shift = ((31 - k) * 4) as u128;
            let nibble = ((id >> shift) & 15) as u8;
            assert((id >> shift) & 15 < 16) by { lemma_and_le(id >> shift, 15); }
            push_char(&mut s, hex_digit(nibble, upper));
            k += 1;
        }
        proof {
            assert(s@ =~= spec_uuid_string(id, upper).take(p + 1));
        }
        p += 1;
    }
    proof {
        assert(s@ =~= spec_uuid_string(id, upper));
    }
    s
}

/// `16` to the power `i`.
pub open spec fn pow16(i: nat) -> int
    decreases i,
{
    if i == 0 {
        1
    } else {
        pow16((i - 1) as nat) * 16
    }
}

/// Powers of 16 grow with the exponent.
pub proof fn lemma_pow16_mono(a: nat, b: nat)
    requires
        a <= b,
    ensures
        pow16(a) <= pow16(b),
        pow16(a) >= 1,
    decreases b,
{
    if a < b {
        lemma_pow16_mono(a, (b - 1) as nat);
    } else if a > 0 {
        lemma_pow16_mono((a - 1) as nat, (a - 1) as nat);
    }
}

} // verus!
