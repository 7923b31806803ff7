//! Sort order of the string forms.
//!
//! Data strings, UUID strings and TNID strings sort as the values they encode: the
//! digits are written most significant first, and the character maps keep order.
use vstd::prelude::*;

use crate::bits::{lemma_and_le, lemma_shr_ends, lemma_shr_facts, lemma_split_digit};
use crate::data_encoding::{
    data_char, data_digit, lemma_extract_data_bound, spec_compact_data_string, spec_data_string,
    spec_extract_data_bits, COMPACT_DATA_MASK,
};
use crate::layout::{is_exact_uuid_v8, is_tnid_bits, lemma_v0_id_valid, lemma_v0_time_ordered};
use crate::v0::spec_v0_id;
use crate::name_encoding::{
    is_name_char, is_valid_name, lemma_extract_name_valid, lemma_name_mask_injective, name_bits_len,
    name_char_code,
    name_code_at, name_field, spec_extract_name,
};
use crate::typed::spec_tnid_string;
use crate::utils::{hex_digit_char, spec_nibble, spec_uuid_string, uuid_digits_before, uuid_hyphen_pos};

verus! {

/// `a` and `b` agree before position `i`, and there `a` comes first: either `a` ends
/// while `b` goes on, or `a` holds the smaller character.
pub open spec fn lt_at(a: Seq<char>, b: Seq<char>, i: int) -> bool {
    &&& 0 <= i <= a.len()
    &&& i <= b.len()
    &&& a.subrange(0, i) == b.subrange(0, i)
    &&& (i == a.len() && i < b.len()) || (i < a.len() && i < b.len() && (a[i] as int) < (
    b[i] as int))
}

/// Lexicographic order of character sequences, as `<` orders strings.
pub open spec fn chars_lt(a: Seq<char>, b: Seq<char>) -> bool {
    exists|i: int| #[trigger] lt_at(a, b, i)
}

/// The top `k` of the `n` digits of `w` bits of `x`.
spec fn top(x: u128, w: int, n: int, k: int) -> u128 {
    x >> (w * (n - k)) as u128
}

/// The mask of a digit of `w` bits (4 or 6).
spec fn digit_mask(w: int) -> u128 {
    if w == 4 {
        15
    } else {
        63
    }
}

/// Digit `i` (0 is the most significant) of the `n` digits of `w` bits of `x`.
spec fn digit(x: u128, w: int, n: int, i: int) -> u128 {
    (x >> (w * (n - 1 - i)) as u128) & digit_mask(w)
}

/// The digits of `x1` and `x2` agree before digit `i`.
spec fn digits_agree_before(x1: u128, x2: u128, w: int, n: int, i: int) -> bool {
    forall|j: int| 0 <= j < i ==> #[trigger] digit(x1, w, n, j) == digit(x2, w, n, j)
}

/// The digit layouts used here: 17 digits of 6 bits, or 32 digits of 4 bits.
spec fn is_layout(w: int, n: int) -> bool {
    (w == 6 && n == 17) || (w == 4 && n == 32)
}

proof fn lemma_top_step(x: u128, w: int, n: int, k: int)
    requires
        is_layout(w, n),
        1 <= k <= n,
    ensures
        top(x, w, n, k) == top(x, w, n, k - 1) * (digit_mask(w) + 1) + digit(x, w, n, k - 1),
        digit(x, w, n, k - 1) <= digit_mask(w),
{
    let s = (w * (n - k)) as u128;
    assert(w * (n - k) <= 124) by (nonlinear_arith)
        requires
            is_layout(w, n),
            1 <= k <= n,
    ;
    assert(w * (n - (k - 1)) == w * (n - k) + w) by (nonlinear_arith);
    assert(w * (n - 1 - (k - 1)) == w * (n - k)) by (nonlinear_arith);
    lemma_split_digit(x, s);
    lemma_and_le(x >> s, digit_mask(w));
}

proof fn lemma_top_eq_digits(x1: u128, x2: u128, w: int, n: int, k: int)
    requires
        is_layout(w, n),
        0 <= k <= n,
        top(x1, w, n, k) == top(x2, w, n, k),
    ensures
        digits_agree_before(x1, x2, w, n, k),
{
    assert forall|j: int| 0 <= j < k implies #[trigger] digit(x1, w, n, j) == digit(x2, w, n, j) by {
        let a = (w * (n - k)) as u128;
        let b = (w * (k - 1 - j)) as u128;
        assert(w * (n - k) + w * (k - 1 - j) == w * (n - 1 - j)) by (nonlinear_arith);
        assert(0 <= w * (k - 1 - j)) by (nonlinear_arith)
            requires
                is_layout(w, n),
                j < k,
        ;
        assert(w * (n - k) + w * (k - 1 - j) <= 128) by (nonlinear_arith)
            requires
                is_layout(w, n),
                0 <= j < k <= n,
        ;
        lemma_shr_facts(x1, x2, a, b);
        lemma_shr_facts(x2, x1, a, b);
    }
}

/// Of two values whose top `k` digits compare, the first digit where they differ
/// is smaller in the smaller value.
proof fn lemma_first_digit_diff(x1: u128, x2: u128, w: int, n: int, k: int)
    requires
        is_layout(w, n),
        0 <= k <= n,
        top(x2, w, n, 0) == 0,
        top(x1, w, n, k) < top(x2, w, n, k),
    ensures
        exists|i: int|
            0 <= i < k && #[trigger] digits_agree_before(x1, x2, w, n, i) && digit(x1, w, n, i)
                < digit(x2, w, n, i),
    decreases k,
{
    if k > 0 {
        lemma_top_step(x1, w, n, k);
        lemma_top_step(x2, w, n, k);
        let t1 = top(x1, w, n, k - 1);
        let t2 = top(x2, w, n, k - 1);
        let d1 = digit(x1, w, n, k - 1);
        let d2 = digit(x2, w, n, k - 1);
        if t1 < t2 {
            lemma_first_digit_diff(x1, x2, w, n, k - 1);
            let i = choose|i: int|
                0 <= i < k - 1 && #[trigger] digits_agree_before(x1, x2, w, n, i) && digit(
                    x1,
                    w,
                    n,
                    i,
                ) < digit(x2, w, n, i);
            assert(digits_agree_before(x1, x2, w, n, i));
        } else if t1 == t2 {
            lemma_top_eq_digits(x1, x2, w, n, k - 1);
            assert(d1 < d2);
            assert(digits_agree_before(x1, x2, w, n, k - 1));
        } else {
            assert(false) by (nonlinear_arith)
                requires
                    t1 > t2,
                    d1 <= digit_mask(w),
                    d2 <= digit_mask(w),
                    digit_mask(w) == 15 || digit_mask(w) == 63,
                    t1 * (digit_mask(w) + 1) + d1 < t2 * (digit_mask(w) + 1) + d2,
            ;
        }
    }
}

/// A smaller data digit has a smaller character.
proof fn lemma_data_char_order(v1: int, v2: int)
    requires
        0 <= v1 < v2 < 64,
    ensures
        (data_char(v1) as int) < (data_char(v2) as int),
{
}

/// A smaller hex digit has a smaller character, in either case.
proof fn lemma_hex_char_order(v1: int, v2: int, upper: bool)
    requires
        0 <= v1 < v2 < 16,
    ensures
        (hex_digit_char(v1, upper) as int) < (hex_digit_char(v2, upper) as int),
{
}

/// Law: data strings sort as the data they encode.
pub proof fn lemma_data_string_order(x1: u128, x2: u128)
    requires
        x1 < x2 <= COMPACT_DATA_MASK,
    ensures
        chars_lt(spec_compact_data_string(x1), spec_compact_data_string(x2)),
{
    assert(x2 >> 102u128 == 0) by (bit_vector)
        requires
            x2 <= 0x0000003f_ffff_ffff_ffff_ffffffffffffu128,
    ;
    lemma_shr_ends(x1);
    lemma_shr_ends(x2);
    assert(top(x1, 6, 17, 17) == x1 && top(x2, 6, 17, 17) == x2);
    lemma_first_digit_diff(x1, x2, 6, 17, 17);
    let i = choose|i: int|
        0 <= i < 17 && #[trigger] digits_agree_before(x1, x2, 6, 17, i) && digit(x1, 6, 17, i)
            < digit(x2, 6, 17, i);
    let a = spec_compact_data_string(x1);
    let b = spec_compact_data_string(x2);
    assert forall|j: int| 0 <= j < i implies #[trigger] a.subrange(0, i)[j] == b.subrange(0, i)[j] by {
        assert(digit(x1, 6, 17, j) == digit(x2, 6, 17, j));
        assert(data_digit(x1, j) == digit(x1, 6, 17, j));
        assert(data_digit(x2, j) == digit(x2, 6, 17, j));
    }
    assert(a.subrange(0, i) =~= b.subrange(0, i));
    assert(data_digit(x1, i) == digit(x1, 6, 17, i));
    assert(data_digit(x2, i) == digit(x2, 6, 17, i));
    lemma_and_le(x2 >> ((16 - i) * 6) as u128, 63);
    lemma_data_char_order(data_digit(x1, i) as int, data_digit(x2, i) as int);
    assert(lt_at(a, b, i));
}

/// The string position of hex digit `k` of a UUID string.
spec fn uuid_digit_pos(k: int) -> int {
    k + (if k >= 8 {
        1int
    } else {
        0
    }) + (if k >= 12 {
        1int
    } else {
        0
    }) + (if k >= 16 {
        1int
    } else {
        0
    }) + (if k >= 20 {
        1int
    } else {
        0
    })
}

/// Law: UUID strings, in either case, sort as the 128-bit values they hold.
pub proof fn lemma_uuid_string_order(a: u128, b: u128, upper: bool)
    requires
        a < b,
    ensures
        chars_lt(spec_uuid_string(a, upper), spec_uuid_string(b, upper)),
{
    lemma_shr_ends(a);
    lemma_shr_ends(b);
    assert(top(a, 4, 32, 32) == a && top(b, 4, 32, 32) == b && top(b, 4, 32, 0) == 0);
    lemma_first_digit_diff(a, b, 4, 32, 32);
    let k = choose|k: int|
        0 <= k < 32 && #[trigger] digits_agree_before(a, b, 4, 32, k) && digit(a, 4, 32, k) < digit(
            b,
            4,
            32,
            k,
        );
    let sa = spec_uuid_string(a, upper);
    let sb = spec_uuid_string(b, upper);
    let p = uuid_digit_pos(k);
    assert(!uuid_hyphen_pos(p) && uuid_digits_before(p) == k && p < 36);
    assert forall|q: int| 0 <= q < p implies #[trigger] sa.subrange(0, p)[q] == sb.subrange(0, p)[q] by {
        if !uuid_hyphen_pos(q) {
            let j = uuid_digits_before(q);
            assert(0 <= j < k);
            assert(digit(a, 4, 32, j) == digit(b, 4, 32, j));
            assert(spec_nibble(a, j) == digit(a, 4, 32, j));
            assert(spec_nibble(b, j) == digit(b, 4, 32, j));
        }
    }
    assert(sa.subrange(0, p) =~= sb.subrange(0, p));
    assert(spec_nibble(a, k) == digit(a, 4, 32, k));
    assert(spec_nibble(b, k) == digit(b, 4, 32, k));
    lemma_and_le(b >> ((31 - k) * 4) as u128, 15);
    lemma_hex_char_order(spec_nibble(a, k) as int, spec_nibble(b, k) as int, upper);
    assert(lt_at(sa, sb, p));
}

/// Ordering at a differing character survives appending anything to both sides.
proof fn lemma_lt_at_append(a: Seq<char>, b: Seq<char>, c: Seq<char>, d: Seq<char>, i: int)
    requires
        lt_at(a, b, i),
        i < a.len(),
    ensures
        lt_at(a + c, b + d, i),
{
    assert((a + c).subrange(0, i) =~= a.subrange(0, i));
    assert((b + d).subrange(0, i) =~= b.subrange(0, i));
}

/// Ordering survives putting the same prefix before both sides.
proof fn lemma_lt_at_prefix(p: Seq<char>, a: Seq<char>, b: Seq<char>, i: int)
    requires
        lt_at(a, b, i),
    ensures
        lt_at(p + a, p + b, p.len() + i),
{
    assert((p + a).subrange(0, p.len() + i) =~= p + a.subrange(0, i));
    assert((p + b).subrange(0, p.len() + i) =~= p + b.subrange(0, i));
}

/// A smaller code of the name alphabet stands for a smaller character.
proof fn lemma_name_code_order(c: char, d: char)
    requires
        is_name_char(c),
        is_name_char(d),
    ensures
        1 <= name_char_code(c) <= 31,
        name_char_code(c) < name_char_code(d) ==> (c as int) < (d as int),
        name_char_code(c) == name_char_code(d) ==> c == d,
{
}

/// Names followed by a dot, at the first code where their fields differ.
proof fn lemma_name_dot_order_at(n1: Seq<char>, n2: Seq<char>, j: int)
    requires
        is_valid_name(n1),
        is_valid_name(n2),
        0 <= j < 4,
        forall|k: int| 0 <= k < j ==> name_code_at(n1, k) == name_code_at(n2, k),
        name_code_at(n1, j) < name_code_at(n2, j),
    ensures
        lt_at(n1 + seq!['.'], n2 + seq!['.'], j),
        j < n1.len() + 1,
{
    let a = n1 + seq!['.'];
    let b = n2 + seq!['.'];
    assert(j < n2.len()) by {
        if j >= n2.len() {
            assert(name_code_at(n2, j) == 0);
        }
    }
    lemma_name_code_order(n2[j], n2[j]);
    assert forall|k: int| 0 <= k < j implies k < n1.len() && k < n2.len() && n1[k] == n2[k] by {
        assert(name_code_at(n1, k) == name_code_at(n2, k));
        assert(k < n2.len());
        if k >= n1.len() {
            assert(name_code_at(n1, k) == 0);
            lemma_name_code_order(n2[k], n2[k]);
        }
        assert(k < n1.len());
        lemma_name_code_order(n1[k], n1[k]);
        assert(k < n2.len());
        lemma_name_code_order(n1[k], n2[k]);
    }
    if j < n1.len() {
        lemma_name_code_order(n1[j], n2[j]);
    } else {
        assert(j == n1.len()) by {
            if j > n1.len() {
                assert(name_code_at(n1, n1.len() as int) == 0);
                assert(n1.len() < j);
                lemma_name_code_order(n2[n1.len() as int], n2[n1.len() as int]);
            }
        }
        assert(a[j] == '.');
        assert(is_name_char(n2[j]));
    }
    assert(a.subrange(0, j) =~= b.subrange(0, j));
}

/// Names followed by a dot sort as their name fields.
proof fn lemma_name_dot_order(n1: Seq<char>, n2: Seq<char>)
    requires
        is_valid_name(n1),
        is_valid_name(n2),
        name_field(n1) < name_field(n2),
    ensures
        exists|i: int| #[trigger] lt_at(n1 + seq!['.'], n2 + seq!['.'], i) && i < n1.len() + 1,
{
    assert(forall|k: int| 0 <= k < 4 ==> 0 <= #[trigger] name_code_at(n1, k) <= 31) by {
        assert forall|k: int| 0 <= k < 4 implies 0 <= #[trigger] name_code_at(n1, k) <= 31 by {
            if k < n1.len() {
                lemma_name_code_order(n1[k], n1[k]);
            }
        }
    }
    assert(forall|k: int| 0 <= k < 4 ==> 0 <= #[trigger] name_code_at(n2, k) <= 31) by {
        assert forall|k: int| 0 <= k < 4 implies 0 <= #[trigger] name_code_at(n2, k) <= 31 by {
            if k < n2.len() {
                lemma_name_code_order(n2[k], n2[k]);
            }
        }
    }
    let a0 = name_code_at(n1, 0);
    let a1 = name_code_at(n1, 1);
    let a2 = name_code_at(n1, 2);
    let a3 = name_code_at(n1, 3);
    let b0 = name_code_at(n2, 0);
    let b1 = name_code_at(n2, 1);
    let b2 = name_code_at(n2, 2);
    let b3 = name_code_at(n2, 3);
    if a0 < b0 {
        lemma_name_dot_order_at(n1, n2, 0);
    } else if a0 == b0 && a1 < b1 {
        lemma_name_dot_order_at(n1, n2, 1);
    } else if a0 == b0 && a1 == b1 && a2 < b2 {
        lemma_name_dot_order_at(n1, n2, 2);
    } else {
        assert(a0 == b0 && a1 == b1 && a2 == b2 && a3 < b3);
        lemma_name_dot_order_at(n1, n2, 3);
    }
}

/// A smaller name field gives a smaller name.
proof fn lemma_name_field_order(n1: Seq<char>, n2: Seq<char>)
    requires
        is_valid_name(n1),
        is_valid_name(n2),
        name_field(n1) < name_field(n2),
    ensures
        chars_lt(n1, n2),
{
    lemma_name_dot_order(n1, n2);
    let a = n1 + seq!['.'];
    let b = n2 + seq!['.'];
    let i = choose|i: int| #[trigger] lt_at(a, b, i) && i < n1.len() + 1;
    assert(a.subrange(0, i) =~= n1.subrange(0, i));
    if i < n1.len() {
        if i == n2.len() {
            assert(is_name_char(n1[i]));
            assert(false);
        }
        assert(b.subrange(0, i) =~= n2.subrange(0, i));
        assert(lt_at(n1, n2, i));
    } else {
        if i == n2.len() {
            assert(false);
        }
        assert(b.subrange(0, i) =~= n2.subrange(0, i));
        assert(lt_at(n1, n2, i));
    }
}

/// Two sequences are never each before the other.
proof fn lemma_lt_at_asym(a: Seq<char>, b: Seq<char>, i: int, j: int)
    ensures
        !(lt_at(a, b, i) && lt_at(b, a, j)),
{
    if !(lt_at(a, b, i) && lt_at(b, a, j)) {
    } else if i < j {
        assert(a.subrange(0, j)[i] == b.subrange(0, j)[i]);
    } else if j < i {
        assert(a.subrange(0, i)[j] == b.subrange(0, i)[j]);
    }
}

/// Law: of two character sequences, at most one comes before the other, and none
/// comes before itself.
pub proof fn lemma_chars_lt_asym(a: Seq<char>, b: Seq<char>)
    ensures
        !(chars_lt(a, b) && chars_lt(b, a)),
        !chars_lt(a, a),
{
    if chars_lt(a, b) && chars_lt(b, a) {
        let i = choose|i: int| #[trigger] lt_at(a, b, i);
        let j = choose|j: int| #[trigger] lt_at(b, a, j);
        lemma_lt_at_asym(a, b, i, j);
    }
    if chars_lt(a, a) {
        let i = choose|i: int| #[trigger] lt_at(a, a, i);
        lemma_lt_at_asym(a, a, i, i);
    }
}

/// Law: data strings sort exactly as the data they encode.
pub proof fn lemma_data_string_order_iff(x1: u128, x2: u128)
    requires
        x1 <= COMPACT_DATA_MASK,
        x2 <= COMPACT_DATA_MASK,
    ensures
        chars_lt(spec_compact_data_string(x1), spec_compact_data_string(x2)) <==> x1 < x2,
{
    lemma_chars_lt_asym(spec_compact_data_string(x1), spec_compact_data_string(x2));
    if x1 < x2 {
        lemma_data_string_order(x1, x2);
    } else if x2 < x1 {
        lemma_data_string_order(x2, x1);
    }
}

/// Law: UUID strings in one case sort exactly as the 128-bit values they hold.
pub proof fn lemma_uuid_string_order_iff(a: u128, b: u128, upper: bool)
    ensures
        chars_lt(spec_uuid_string(a, upper), spec_uuid_string(b, upper)) <==> a < b,
{
    lemma_chars_lt_asym(spec_uuid_string(a, upper), spec_uuid_string(b, upper));
    if a < b {
        lemma_uuid_string_order(a, b, upper);
    } else if b < a {
        lemma_uuid_string_order(b, a, upper);
    }
}

/// Law: TNID strings sort exactly as the TNIDs they stand for.
pub proof fn lemma_tnid_string_order_iff(a: u128, b: u128)
    requires
        is_tnid_bits(a),
        is_tnid_bits(b),
    ensures
        chars_lt(spec_tnid_string(a), spec_tnid_string(b)) <==> a < b,
{
    lemma_chars_lt_asym(spec_tnid_string(a), spec_tnid_string(b));
    if a < b {
        lemma_tnid_string_order(a, b);
    } else if b < a {
        lemma_tnid_string_order(b, a);
    }
}

/// Law: names sort as strings exactly as their encoded name fields sort.
pub proof fn lemma_name_order(n1: Seq<char>, n2: Seq<char>)
    requires
        is_valid_name(n1),
        is_valid_name(n2),
    ensures
        chars_lt(n1, n2) <==> name_field(n1) < name_field(n2),
{
    if name_field(n1) < name_field(n2) {
        lemma_name_field_order(n1, n2);
    } else {
        if chars_lt(n1, n2) {
            let i = choose|i: int| #[trigger] lt_at(n1, n2, i);
            if name_field(n2) < name_field(n1) {
                lemma_name_field_order(n2, n1);
                let j = choose|j: int| #[trigger] lt_at(n2, n1, j);
                lemma_lt_at_asym(n1, n2, i, j);
            } else {
                lemma_name_mask_injective(n1, n2);
                lemma_lt_at_asym(n1, n2, i, i);
            }
        }
    }
}

/// Same name field and exact UUIDv8 bits: the id order is the data order.
proof fn lemma_same_name_data_order(a: u128, b: u128)
    requires
        a >> 108u128 == b >> 108u128,
        is_exact_uuid_v8(a),
        is_exact_uuid_v8(b),
        a < b,
    ensures
        spec_extract_data_bits(a) < spec_extract_data_bits(b),
{
    assert((a & 0x00000000_0000_0000_3fff_ffffffffffffu128) | ((a
        & 0x00000000_0000_0fff_0000_000000000000u128) >> 2u128) | ((a
        & 0x00000fff_ffff_0000_0000_000000000000u128) >> 6u128) < (b
        & 0x00000000_0000_0000_3fff_ffffffffffffu128) | ((b
        & 0x00000000_0000_0fff_0000_000000000000u128) >> 2u128) | ((b
        & 0x00000fff_ffff_0000_0000_000000000000u128) >> 6u128)) by (bit_vector)
        requires
            a >> 108u128 == b >> 108u128,
            a & 0x00000000_0000_f000_c000_000000000000u128
                == 0x00000000_0000_8000_8000_000000000000u128,
            b & 0x00000000_0000_f000_c000_000000000000u128
                == 0x00000000_0000_8000_8000_000000000000u128,
            a < b,
    ;
}

/// Ids with the same name field hold the same name.
proof fn lemma_same_field_same_name(a: u128, b: u128)
    requires
        a >> 108u128 == b >> 108u128,
    ensures
        spec_extract_name(a) == spec_extract_name(b),
{
    lemma_shr_facts(a, b, 108, 15);
    lemma_shr_facts(b, a, 108, 15);
    lemma_shr_facts(a, b, 108, 10);
    lemma_shr_facts(b, a, 108, 10);
    lemma_shr_facts(a, b, 108, 5);
    lemma_shr_facts(b, a, 108, 5);
    assert(name_bits_len(a) == name_bits_len(b));
    assert(spec_extract_name(a) =~= spec_extract_name(b));
}

/// Law: TNID strings sort as the TNIDs they stand for.
pub proof fn lemma_tnid_string_order(a: u128, b: u128)
    requires
        is_tnid_bits(a),
        is_tnid_bits(b),
        a < b,
    ensures
        chars_lt(spec_tnid_string(a), spec_tnid_string(b)),
{
    let na = spec_extract_name(a);
    let nb = spec_extract_name(b);
    lemma_extract_name_valid(a);
    lemma_extract_name_valid(b);
    lemma_shr_facts(a, b, 108, 0);
    let pa = na + seq!['.'];
    let pb = nb + seq!['.'];
    let da = spec_data_string(a);
    let db = spec_data_string(b);
    assert(spec_tnid_string(a) == pa + da);
    assert(spec_tnid_string(b) == pb + db);
    if a >> 108u128 == b >> 108u128 {
        lemma_same_field_same_name(a, b);
        lemma_same_name_data_order(a, b);
        lemma_extract_data_bound(b);
        lemma_data_string_order(spec_extract_data_bits(a), spec_extract_data_bits(b));
        let i = choose|i: int| #[trigger] lt_at(da, db, i);
        lemma_lt_at_prefix(pa, da, db, i);
        assert(lt_at(pa + da, pb + db, pa.len() + i));
    } else {
        lemma_name_dot_order(na, nb);
        let i = choose|i: int| #[trigger] lt_at(pa, pb, i) && i < na.len() + 1;
        lemma_lt_at_append(pa, pb, da, db, i);
    }
}

/// Law: v0 TNIDs with the same name sort by creation time in every form (the 128-bit
/// value, the UUID string in either case, the TNID string), for times before 2^43 ms
/// after the Unix epoch (about the year 2248), whatever their random bits.
pub proof fn lemma_v0_sorted_in_all_forms(
    n: Seq<char>,
    m1: u64,
    r1: u64,
    m2: u64,
    r2: u64,
    upper: bool,
)
    requires
        is_valid_name(n),
        m1 < m2 < 0x800_0000_0000,
    ensures
        spec_v0_id(n, m1, r1) < spec_v0_id(n, m2, r2),
        chars_lt(spec_uuid_string(spec_v0_id(n, m1, r1), upper), spec_uuid_string(spec_v0_id(n, m2, r2), upper)),
        chars_lt(spec_tnid_string(spec_v0_id(n, m1, r1)), spec_tnid_string(spec_v0_id(n, m2, r2))),
{
    let a = spec_v0_id(n, m1, r1);
    let b = spec_v0_id(n, m2, r2);
    lemma_v0_time_ordered(n, m1, r1, m2, r2);
    lemma_v0_id_valid(n, m1, r1);
    lemma_v0_id_valid(n, m2, r2);
    lemma_uuid_string_order(a, b, upper);
    lemma_tnid_string_order(a, b);
}

} // verus!
