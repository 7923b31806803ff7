//! Building strings: characters, and numbers written in decimal or hex.
use vstd::prelude::*;

use crate::utils::{hex_digit, hex_digit_char};
use vstd::string::StringExecFns;

verus! {

/// Calls `String::push`, which appends `c` to the end of `s`.
#[verifier::external_body]
pub(crate) fn push_char(s: &mut String, c: char)
    ensures
        final(s)@ == old(s)@.push(c),
{
    s.push(c);
}

/// The digits of `v` in base 10 or 16, most significant first, with no leading zeros
/// (`0` for zero); hex letters in the given case.
pub open spec fn spec_digits(v: nat, base: nat, upper: bool) -> Seq<char>
    decreases v,
{
    if v < base || base < 2 {
        seq![hex_digit_char(v as int, upper)]
    } else {
        proof {
            vstd::arithmetic::div_mod::lemma_div_decreases(v as int, base as int);
        }
        spec_digits(v / base, base, upper).push(hex_digit_char((v % base) as int, upper))
    }
}

/// `s` padded on the left with `c` to at least `width` characters.
pub open spec fn pad_left(s: Seq<char>, width: nat, c: char) -> Seq<char> {
    if s.len() >= width {
        s
    } else {
        Seq::new((width - s.len()) as nat, |i: int| c) + s
    }
}

/// Appends the digits of `v` in base 10 or 16 to `out`.
fn digits_into(out: &mut Vec<char>, v: u128, base: u128, upper: bool)
    requires
        base == 10 || base == 16,
    ensures
        final(out)@ == old(out)@ + spec_digits(v as nat, base as nat, upper),
    decreases v,
{
    if v >= base {
        digits_into(out, v / base, base, upper);
    }
    let d = (v % base) as u8;
    out.push(hex_digit(d, upper));
    proof {
        assert(final(out)@ =~= old(out)@ + spec_digits(v as nat, base as nat, upper));
    }
}

/// Appends the digits of `v` in base 10 or 16, padded on the left with `pad` to at
/// least `width` characters.
pub(crate) fn push_padded(s: &mut String, v: u128, base: u128, upper: bool, width: usize, pad: char)
    requires
        base == 10 || base == 16,
    ensures
        final(s)@ == old(s)@ + pad_left(spec_digits(v as nat, base as nat, upper), width as nat, pad),
{
    let mut ds: Vec<char> = Vec::new();
    digits_into(&mut ds, v, base, upper);
    let ghost digits = spec_digits(v as nat, base as nat, upper);
    assert(ds@ =~= digits);
    let ghost start = s@;
    let n = ds.len();
    let mut i: usize = n;
    while i < width
        invariant
            n <= i,
            i <= width || i == n,
            n == digits.len(),
            s@ == start + Seq::new((i - n) as nat, |k: int| pad),
        decreases width - i,
    {
        push_char(s, pad);
        i += 1;
        proof {
            assert(s@ =~= start + Seq::new((i - n) as nat, |k: int| pad));
        }
    }
    let ghost padded = s@;
    let mut j: usize = 0;
    while j < n
        invariant
            j <= n,
            n == ds@.len(),
            ds@ == digits,
            s@ == padded + digits.take(j as int),
        decreases n - j,
    {
        push_char(s, ds[j]);
        j += 1;
        proof {
            assert(s@ =~= padded + digits.take(j as int));
        }
    }
    proof {
        assert(digits.take(n as int) =~= digits);
        if n >= width {
            assert(Seq::new((i - n) as nat, |k: int| pad) =~= Seq::<char>::empty());
            assert(s@ =~= start + pad_left(digits, width as nat, pad));
        } else {
            assert(s@ =~= start + pad_left(digits, width as nat, pad));
        }
    }
}

/// The decimal digits of `v`.
pub open spec fn spec_decimal(v: nat) -> Seq<char> {
    spec_digits(v, 10, false)
}

/// Appends the decimal digits of `v`.
pub(crate) fn push_decimal(s: &mut String, v: u128)
    ensures
        final(s)@ == old(s)@ + spec_decimal(v as nat),
{
    push_padded(s, v, 10, false, 0, ' ');
}

/// Appends the hex digits of `v` in the given case, padded with zeros to `width`.
pub(crate) fn push_hex(s: &mut String, v: u128, width: usize, upper: bool)
    ensures
        final(s)@ == old(s)@ + pad_left(spec_digits(v as nat, 16, upper), width as nat, '0'),
{
    push_padded(s, v, 16, upper, width, '0');
}

/// Appends `t`.
pub(crate) fn push_str(s: &mut String, t: &str)
    ensures
        final(s)@ == old(s)@ + t@,
{
    s.append(t);
}

} // verus!
