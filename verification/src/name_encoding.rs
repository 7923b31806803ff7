//! TNID name encoding and validation.
//!
//! A name is 1 to 4 characters drawn from `0`-`4` and `a`-`z`. Each character is
//! stored as a 5-bit code (`0`-`4` as 1-5, `a`-`z` as 6-31) in the top 20 bits of
//! the 128-bit id, first character most significant, with the code 0 (null)
//! filling the positions after a shorter name. The codes follow ASCII order, so
//! names sort the same way as bits and as strings.
use vstd::prelude::*;

use crate::text::{pad_left, push_char, push_decimal, push_hex, push_str, spec_decimal, spec_digits};

use crate::bits::{lemma_and_le};

use vstd::string::StringSliceAdditionalSpecFns;
use crate::utils::{hex_digit, hex_digit_char};

verus! {

broadcast use vstd::string::is_ascii_spec_bytes;

pub const NAME_MIN_CHARS: usize = 1;

pub const NAME_MAX_CHARS: usize = 4;

pub const CHAR_BIT_LENGTH: u8 = 5;

pub const CHAR_MASK: u8 = 0x1F;

/// Number of bits below the name field.
pub const NON_NAME_BITS: u8 = 108;

/// The name alphabet: each 5-bit code (1-31) with the ASCII byte it stands for.
/// Code 0 is the null that pads names shorter than four characters.
pub const CHAR_MAPPING: [(u8, u8); 31] = [
    (1, 48), (2, 49), (3, 50), (4, 51), (5, 52), (6, 97), (7, 98), (8, 99),
    (9, 100), (10, 101), (11, 102), (12, 103), (13, 104), (14, 105), (15, 106), (16, 107),
    (17, 108), (18, 109), (19, 110), (20, 111), (21, 112), (22, 113), (23, 114), (24, 115),
    (25, 116), (26, 117), (27, 118), (28, 119), (29, 120), (30, 121), (31, 122),
];

/// Whether `c` belongs to the name alphabet (`0`-`4`, `a`-`z`).
pub open spec fn is_name_char(c: char) -> bool {
    (48 <= c as int <= 52) || (97 <= c as int <= 122)
}

/// The 5-bit code of a character of the name alphabet.
pub open spec fn name_char_code(c: char) -> int {
    if c as int <= 52 {
        c as int - 47
    } else {
        c as int - 91
    }
}

/// The character that a code in 1..=31 stands for.
pub open spec fn name_code_char(v: int) -> char {
    if v <= 5 {
        (v + 47) as char
    } else {
        (v + 91) as char
    }
}

/// Every character is in the name alphabet.
pub open spec fn is_name_chars(n: Seq<char>) -> bool {
    forall|i: int| 0 <= i < n.len() ==> is_name_char(#[trigger] n[i])
}

/// A valid TNID name: 1 to 4 characters of the name alphabet.
pub open spec fn is_valid_name(n: Seq<char>) -> bool {
    1 <= n.len() <= 4 && is_name_chars(n)
}

/// The code at position `i` of the name field (0 past the end of the name).
pub open spec fn name_code_at(n: Seq<char>, i: int) -> int {
    if 0 <= i < n.len() {
        name_char_code(n[i])
    } else {
        0
    }
}

/// The 20-bit name field of a name of at most 4 characters.
pub open spec fn name_field(n: Seq<char>) -> int {
    name_code_at(n, 0) * 32768 + name_code_at(n, 1) * 1024 + name_code_at(n, 2) * 32
        + name_code_at(n, 3)
}

/// The name field placed in the top 20 bits of an id.
pub open spec fn spec_name_mask(n: Seq<char>) -> u128 {
    (name_field(n) as u128) << 108u128
}

/// The code stored at position `j` (0 is the most significant) of the name field of `id`.
pub open spec fn name_digit(id: u128, j: int) -> u128 {
    if j == 0 {
        (id >> 123u128) & 31
    } else if j == 1 {
        (id >> 118u128) & 31
    } else if j == 2 {
        (id >> 113u128) & 31
    } else {
        (id >> 108u128) & 31
    }
}

/// The name field of `id` holds 1 to 4 codes followed only by nulls.
pub open spec fn name_bits_well_formed(id: u128) -> bool {
    &&& name_digit(id, 0) != 0
    &&& name_digit(id, 1) == 0 ==> name_digit(id, 2) == 0
    &&& name_digit(id, 2) == 0 ==> name_digit(id, 3) == 0
}

/// Number of codes before the first null in the name field of `id`.
pub open spec fn name_bits_len(id: u128) -> nat {
    if name_digit(id, 0) == 0 {
        0
    } else if name_digit(id, 1) == 0 {
        1
    } else if name_digit(id, 2) == 0 {
        2
    } else if name_digit(id, 3) == 0 {
        3
    } else {
        4
    }
}

/// The characters stored in the name field of `id`, up to the first null.
pub open spec fn spec_extract_name(id: u128) -> Seq<char> {
    Seq::new(name_bits_len(id), |j: int| name_code_char(name_digit(id, j) as int))
}

/// The 20-bit name field of `id` as five lowercase hex digits.
pub open spec fn spec_name_hex(id: u128) -> Seq<char> {
    Seq::new(5, |k: int| hex_digit_char((((id >> 108u128) >> ((4 - k) * 4) as u128) & 15) as int, false))
}

/// Position of the first character outside the name alphabet (the length if there is none).
pub open spec fn first_non_name_char(n: Seq<char>, from: int) -> int
    decreases n.len() - from,
{
    if from >= n.len() || from < 0 {
        n.len() as int
    } else if !is_name_char(n[from]) {
        from
    } else {
        first_non_name_char(n, from + 1)
    }
}

/// The outcome of validating the characters `c` as a name, in the order the checks
/// are made.
pub open spec fn name_check_of(c: Seq<char>) -> Result<(), NameError> {
    let b = vstd::utf8::encode_utf8(c);
    if c.len() == 0 {
        Err(NameError::Empty)
    } else if b.len() > 4 {
        Err(NameError::TooLong(b.len() as usize))
    } else if !vstd::utf8::is_ascii_chars(c) {
        Err(NameError::NonAscii)
    } else if !is_name_chars(c) {
        Err(NameError::InvalidChar(c[first_non_name_char(c, 0)] as u8))
    } else {
        Ok(())
    }
}

/// The outcome of validating `s` as a name, in the order the checks are made.
pub open spec fn spec_name_check(s: &str) -> Result<(), NameError> {
    name_check_of(s@)
}

/// Result of validating the name bits in a TNID.
#[derive(Debug, Clone, Copy, PartialEq, Eq)]
pub enum NameBitsValidation {
    /// The name encoding is valid (1-4 characters, properly null-padded).
    Valid,
    /// The name encoding is invalid (empty, improperly padded, or invalid encoding).
    Invalid,
}

/// Error when creating a [`NameStr`] from a string.
#[derive(Debug, Clone, Copy, PartialEq, Eq)]
pub enum NameError {
    /// The name string is empty (must be at least 1 character).
    Empty,
    /// The name string exceeds the maximum length of 4 characters (holds the byte length).
    TooLong(usize),
    /// The name contains non-ASCII characters.
    NonAscii,
    /// The name contains a character not in the allowed set (0-4, a-z).
    InvalidChar(u8),
}

/// The description of a name error.
pub open spec fn spec_name_error_message(e: NameError) -> Seq<char> {
    match e {
        NameError::Empty => "name cannot be empty"@,
        NameError::TooLong(len) => "name length "@ + spec_decimal(len as nat)
            + " exceeds maximum of 4 characters"@,
        NameError::NonAscii => "name must contain only ASCII characters"@,
        NameError::InvalidChar(b) => "invalid character '"@ + seq![b as char] + "' (0x"@
            + pad_left(spec_digits(b as nat, 16, false), 2, '0')
            + ") in name; only 0-4 and a-z are allowed"@,
    }
}

impl NameError {
    /// A description of the error.
    pub fn message(&self) -> (r: String)
        ensures
            r@ == spec_name_error_message(*self),
    {
        let mut s = String::new();
        match self {
            NameError::Empty => push_str(&mut s, "name cannot be empty"),
            NameError::TooLong(len) => {
                push_str(&mut s, "name length ");
                push_decimal(&mut s, *len as u128);
                push_str(&mut s, " exceeds maximum of 4 characters");
            },
            NameError::NonAscii => push_str(&mut s, "name must contain only ASCII characters"),
            NameError::InvalidChar(b) => {
                push_str(&mut s, "invalid character '");
                push_char(&mut s, *b as char);
                push_str(&mut s, "' (0x");
                push_hex(&mut s, *b as u128, 2, false);
                push_str(&mut s, ") in name; only 0-4 and a-z are allowed");
            },
        }
        proof {
            assert(s@ =~= spec_name_error_message(*self));
        }
        s
    }
}

/// 5-bit code of an ASCII byte of the name alphabet.
fn name_byte_code(b: u8) -> (r: Option<u8>)
    ensures
        r is Some <==> is_name_char(b as char),
        r matches Some(v) ==> v as int == name_char_code(b as char) && 1 <= v <= 31,
{
    if 48 <= b && b <= 52 {
        Some(b - 47)
    } else if 97 <= b && b <= 122 {
        Some(b - 91)
    } else {
        None
    }
}

/// The name field built from the first `i` characters of `n`, without padding.
pub open spec fn name_prefix(n: Seq<char>, i: int) -> int
    decreases i,
{
    if i <= 0 {
        0
    } else {
        name_prefix(n, i - 1) * 32 + name_char_code(n[i - 1])
    }
}

proof fn lemma_first_non_name_char(n: Seq<char>, from: int, i: int)
    requires
        0 <= from <= i < n.len(),
        forall|k: int| from <= k < i ==> is_name_char(#[trigger] n[k]),
        !is_name_char(n[i]),
    ensures
        first_non_name_char(n, from) == i,
    decreases i - from,
{
    if from < i {
        lemma_first_non_name_char(n, from + 1, i);
    }
}

/// Names of the alphabet are ASCII, and their byte length is their character length.
pub proof fn lemma_name_chars_ascii(s: &str)
    requires
        is_name_chars(s@),
    ensures
        vstd::string::is_ascii(s),
        s.spec_bytes().len() == s@.len(),
        forall|i: int| 0 <= i < s@.len() ==> #[trigger] s.spec_bytes()[i] == s@[i] as u8,
{
    assert forall|i: int| 0 <= i < s@.len() implies '\0' <= #[trigger] s@[i] <= '\u{7f}' by {
        assert(is_name_char(s@[i]));
    }
    assert(vstd::string::is_ascii(s));
    vstd::string::is_ascii_spec_bytes(s);
}

/// An ASCII character keeps its value through a byte cast.
pub proof fn lemma_ascii_cast(c: char)
    requires
        c as int <= 127,
    ensures
        (c as u8) as int == c as int,
        ((c as u8) as char) == c,
{
}

/// A successful name check leaves a valid name.
pub proof fn lemma_name_check_valid(s: &str)
    requires
        spec_name_check(s) is Ok,
    ensures
        is_valid_name(s@),
        s.spec_bytes().len() == s@.len(),
{
    vstd::string::is_ascii_spec_bytes(s);
}

/// A valid name passes the name check.
pub proof fn lemma_valid_name_check(s: &str)
    requires
        is_valid_name(s@),
    ensures
        spec_name_check(s) is Ok,
{
    lemma_name_chars_ascii(s);
}

/// The name field of a name of the alphabet, as the prefix value shifted past the padding.
proof fn lemma_name_field(n: Seq<char>)
    requires
        n.len() <= 4,
        is_name_chars(n),
    ensures
        n.len() == 0 ==> name_field(n) == name_prefix(n, 0) * 1048576,
        n.len() == 1 ==> name_field(n) == name_prefix(n, 1) * 32768,
        n.len() == 2 ==> name_field(n) == name_prefix(n, 2) * 1024,
        n.len() == 3 ==> name_field(n) == name_prefix(n, 3) * 32,
        n.len() == 4 ==> name_field(n) == name_prefix(n, 4),
        0 <= name_field(n) < 1048576,
{
    reveal_with_fuel(name_prefix, 5);
    assert(forall|i: int| 0 <= i < n.len() ==> 1 <= name_char_code(#[trigger] n[i]) <= 31);
}

/// A validated TNID name string: 1-4 characters from `0`-`4` and `a`-`z`.
#[derive(Debug, Clone, Copy)]
pub struct NameStr<'a>(&'a str);

impl<'a> NameStr<'a> {
    #[verifier::type_invariant]
    pub(crate) open spec fn wf(self) -> bool {
        is_valid_name(self@)
    }
}

impl<'a> View for NameStr<'a> {
    type V = Seq<char>;

    closed spec fn view(&self) -> Seq<char> {
        self.0@
    }
}

impl<'a> NameStr<'a> {
    /// Creates a `NameStr` from a name known to be valid.
    ///
    /// An invalid name here is a programming error, so the name must pass the check.
    pub fn new_const(s: &'static str) -> (r: Self)
        requires
            spec_name_check(s) is Ok,
        ensures
            r@ == s@,
    {
        name_valid_check(s);
        proof {
            lemma_name_check_valid(s);
        }
        NameStr(s)
    }

    /// Creates a new `NameStr` with runtime validation.
    pub fn new(s: &'a str) -> (r: Result<Self, NameError>)
        ensures
            match r {
                Ok(n) => spec_name_check(s) is Ok && n@ == s@,
                Err(e) => spec_name_check(s) == Err::<(), NameError>(e),
            },
    {
        let bytes = s.as_bytes();
        if s.is_empty() {
            return Err(NameError::Empty);
        }
        if bytes.len() > NAME_MAX_CHARS {
            return Err(NameError::TooLong(bytes.len()));
        }
        if !s.is_ascii() {
            return Err(NameError::NonAscii);
        }
        proof {
            vstd::string::is_ascii_spec_bytes(s);
        }
        let mut i: usize = 0;
        while i < bytes.len()
            invariant
                bytes@ == s.spec_bytes(),
                vstd::string::is_ascii(s),
                bytes@.len() == s@.len(),
                1 <= bytes@.len() <= 4,
                i <= bytes@.len(),
                forall|k: int| 0 <= k < i ==> is_name_char(#[trigger] s@[k]),
            decreases bytes@.len() - i,
        {
            let b = bytes[i];
            if name_byte_code(b).is_none() {
                proof {
                    vstd::string::is_ascii_spec_bytes(s);
                    assert(b == s@[i as int] as u8);
                    assert('\0' <= s@[i as int] <= '\u{7f}');
                    lemma_ascii_cast(s@[i as int]);
                    assert(!is_name_char(s@[i as int]));
                    lemma_first_non_name_char(s@, 0, i as int);
                    assert(!is_name_chars(s@));
                }
                return Err(NameError::InvalidChar(b));
            }
            i += 1;
        }
        proof {
            assert(is_name_chars(s@));
        }
        Ok(NameStr(s))
    }

    /// Returns the validated name as a string slice.
    pub fn as_str(&self) -> (r: &'a str)
        ensures
            r@ == self@,
            is_valid_name(r@),
    {
        proof {
            use_type_invariant(self);
        }
        self.0
    }
}

/// Checks that `name` is a valid TNID name.
///
/// An invalid name here is a programming error, so the name must pass the check.
pub fn name_valid_check(name: &str)
    requires
        spec_name_check(name) is Ok,
{
    match NameStr::new(name) {
        Ok(_) => {},
        Err(_) => {
            proof {
                assert(false);
            }
        },
    }
}

/// The name field of `name` in the top 20 bits, or `None` if `name` is not ASCII,
/// is empty or longer than 4 characters, or holds a character outside the alphabet.
pub fn id_name_mask(name: &str) -> (r: Option<u128>)
    ensures
        r is Some <==> (vstd::string::is_ascii(name) && 1 <= name@.len() <= 4 && is_name_chars(
            name@,
        )),
        r matches Some(m) ==> m == spec_name_mask(name@),
{
    if !name.is_ascii() {
        return None;
    }
    let bytes = name.as_bytes();
    if bytes.len() == 0 || bytes.len() > NAME_MAX_CHARS {
        return None;
    }
    let mut mask: u128 = 0;
    let mut i: usize = 0;
    while i < bytes.len()
        invariant
            bytes@ == name.spec_bytes(),
            vstd::string::is_ascii(name),
            bytes@.len() == name@.len(),
            bytes@.len() <= 4,
            i <= bytes@.len(),
            forall|k: int| 0 <= k < i ==> is_name_char(#[trigger] name@[k]),
            mask == name_prefix(name@, i as int),
            mask < pow32(i as nat),
        decreases bytes@.len() - i,
    {
        let b = bytes[i];
        proof {
            vstd::string::is_ascii_spec_bytes(name);
            assert(b == name@[i as int] as u8);
            assert('\0' <= name@[i as int] <= '\u{7f}');
            lemma_ascii_cast(name@[i as int]);
            reveal_with_fuel(pow32, 5);
        }
        match name_byte_code(b) {
            None => {
                return None;
            },
            Some(code) => {
                assert(mask * 32 + code < pow32((i + 1) as nat)) by (nonlinear_arith)
                    requires
                        mask < pow32(i as nat),
                        code < 32,
                        pow32((i + 1) as nat) == pow32(i as nat) * 32,
                {}
                mask = mask * 32 + code as u128;
            },
        }
        i += 1;
    }
    proof {
        assert(is_name_chars(name@));
        lemma_name_field(name@);
        reveal_with_fuel(pow32, 5);
    }
    let len = bytes.len();
    if len == 0 {
        mask = 0;
    } else if len == 1 {
        mask = mask * 32768;
    } else if len == 2 {
        mask = mask * 1024;
    } else if len == 3 {
        mask = mask * 32;
    }
    Some(mask << 108u128)
}

/// `32` to the power `i`.
pub open spec fn pow32(i: nat) -> int
    decreases i,
{
    if i == 0 {
        1
    } else {
        pow32((i - 1) as nat) * 32
    }
}

/// The name field of a valid name in the top 20 bits.
pub fn name_mask(name: NameStr) -> (r: u128)
    ensures
        r == spec_name_mask(name@),
{
    let s = name.as_str();
    proof {
        lemma_name_chars_ascii(s);
    }
    match id_name_mask(s) {
        Some(m) => m,
        None => {
            proof {
                assert(false);
            }
            0
        },
    }
}

proof fn lemma_name_digit(id: u128, i: usize)
    requires
        i < 4,
    ensures
        ((((id >> 108u128) as u32) >> ((i * 5) as u32)) as u8) & 31u8 == name_digit(id, 3 - i) as u8,
        name_digit(id, 3 - i) < 32,
{
    assert(((((id >> 108u128) as u32) >> 0u32) as u8) & 31u8 == ((id >> 108u128) & 31) as u8
        && ((((id >> 108u128) as u32) >> 5u32) as u8) & 31u8 == ((id >> 113u128) & 31) as u8
        && ((((id >> 108u128) as u32) >> 10u32) as u8) & 31u8 == ((id >> 118u128) & 31) as u8
        && ((((id >> 108u128) as u32) >> 15u32) as u8) & 31u8 == ((id >> 123u128) & 31) as u8)
        by (bit_vector);
    lemma_and_le(id >> 108u128, 31);
    lemma_and_le(id >> 113u128, 31);
    lemma_and_le(id >> 118u128, 31);
    lemma_and_le(id >> 123u128, 31);
}

/// Checks that the name field of `id` holds 1-4 codes followed only by nulls.
pub fn validate_name_bits(id: u128) -> (r: NameBitsValidation)
    ensures
        r == (if name_bits_well_formed(id) {
            NameBitsValidation::Valid
        } else {
            NameBitsValidation::Invalid
        }),
{
    let name_bits = (id >> 108u128) as u32;
    let mut found_char = false;
    let mut found_null = false;
    let mut i: usize = NAME_MAX_CHARS;
    while i > 0
        invariant
            i <= 4,
            name_bits == (id >> 108u128) as u32,
            found_null <==> exists|j: int| 0 <= j < 4 - i && #[trigger] name_digit(id, j) == 0,
            found_char <==> exists|j: int| 0 <= j < 4 - i && #[trigger] name_digit(id, j) != 0,
            forall|a: int, b: int|
                0 <= a < b < 4 - i && #[trigger] name_digit(id, a) == 0 ==> #[trigger] name_digit(
                    id,
                    b,
                ) == 0,
        decreases i,
    {
        i -= 1;
        let shift = (i * 5) as u32;
        let encoded = ((name_bits >> shift) as u8) & CHAR_MASK;
        proof {
            lemma_name_digit(id, i);
            assert(encoded == name_digit(id, 3 - i));
        }
        if encoded == 0 {
            found_null = true;
            continue;
        }
        if found_null {
            return NameBitsValidation::Invalid;
        }
        found_char = true;
    }
    if found_char {
        NameBitsValidation::Valid
    } else {
        NameBitsValidation::Invalid
    }
}

/// The character byte of a code in 1..=31.
fn name_code_byte(v: u8) -> (b: u8)
    requires
        1 <= v <= 31,
    ensures
        b as char == name_code_char(v as int),
{
    if v <= 5 {
        v + 47
    } else {
        v + 91
    }
}

/// The 20-bit name field of `id` as five lowercase hex digits.
pub fn name_bits_to_hex(id: u128) -> (r: String)
    ensures
        r@ == spec_name_hex(id),
{
    let field: u128 = id >> 108u128;
    let mut s = String::new();
    let mut k: usize = 0;
    while k < 5
        invariant
            k <= 5,
            field == id >> 108u128,
            s@ == spec_name_hex(id).take(k as int),
        decreases 5 - k,
    {
        let shift = ((4 - k) * 4) as u128;
        let nibble = ((field >> shift) & 15) as u8;
        assert((field >> shift) & 15 < 16) by { lemma_and_le(field >> shift, 15); }
        push_char(&mut s, hex_digit(nibble, false));
        proof {
            assert(s@ =~= spec_name_hex(id).take(k + 1));
        }
        k += 1;
    }
    proof {
        assert(s@ =~= spec_name_hex(id));
    }
    s
}

/// The name stored in the bits of `id` (the characters up to the first null),
/// or `None` if the first code is null.
pub fn extract_name_string(id: u128) -> (r: Option<String>)
    ensures
        r is None <==> name_bits_len(id) == 0,
        r matches Some(s) ==> s@ == spec_extract_name(id),
{
    let name_bits = (id >> 108u128) as u32;
    let mut s = String::new();
    let mut i: usize = NAME_MAX_CHARS;
    let mut done = false;
    while i > 0 && !done
        invariant
            i <= 4,
            name_bits == (id >> 108u128) as u32,
            done ==> name_bits_len(id) == 4 - i,
            !done ==> 4 - i <= name_bits_len(id),
            s@ == spec_extract_name(id).take(4 - i),
        decreases i as int + (if done { 0int } else { 1int }),
    {
        let shift = ((i - 1) * 5) as u32;
        let encoded = ((name_bits >> shift) as u8) & CHAR_MASK;
        proof {
            lemma_name_digit(id, (i - 1) as usize);
        }
        if encoded == 0 {
            done = true;
        } else {
            push_char(&mut s, name_code_byte(encoded) as char);
            proof {
                assert(s@ =~= spec_extract_name(id).take(4 - i + 1));
            }
            i -= 1;
        }
    }
    proof {
        assert(s@ =~= spec_extract_name(id));
    }
    if s.as_str().is_empty() {
        None
    } else {
        Some(s)
    }
}

proof fn lemma_name_digits_of_field(id: u128, c0: u128, c1: u128, c2: u128, c3: u128)
    requires
        c0 < 32,
        c1 < 32,
        c2 < 32,
        c3 < 32,
        id >> 108u128 == c0 * 32768 + c1 * 1024 + c2 * 32 + c3,
    ensures
        name_digit(id, 0) == c0,
        name_digit(id, 1) == c1,
        name_digit(id, 2) == c2,
        name_digit(id, 3) == c3,
{
    assert((id >> 123u128) & 31 == c0 && (id >> 118u128) & 31 == c1 && (id >> 113u128) & 31 == c2
        && (id >> 108u128) & 31 == c3) by (bit_vector)
        requires
            c0 < 32 && c1 < 32 && c2 < 32 && c3 < 32,
            id >> 108u128 == c0 * 32768 + c1 * 1024 + c2 * 32 + c3,
    ;
}

/// The top 20 bits of the name mask are the name field.
pub proof fn lemma_name_mask_field(n: Seq<char>)
    requires
        is_valid_name(n),
    ensures
        spec_name_mask(n) >> 108u128 == name_field(n) as u128,
        spec_name_mask(n) & 0xFFFFF000000000000000000000000000u128 == spec_name_mask(n),
        0 < name_field(n) < 1048576,
{
    lemma_name_field(n);
    assert(forall|i: int| 0 <= i < n.len() ==> 1 <= name_char_code(#[trigger] n[i]) <= 31);
    let f = name_field(n) as u128;
    assert(f < 1048576 ==> (f << 108u128) >> 108u128 == f && (f << 108u128)
        & 0xFFFFF000000000000000000000000000u128 == (f << 108u128)) by (bit_vector);
}

/// Law: an id whose name field holds a valid name has well-formed name bits, and
/// decoding them gives the name back.
pub proof fn lemma_name_roundtrip(n: Seq<char>, id: u128)
    requires
        is_valid_name(n),
        id >> 108u128 == name_field(n) as u128,
    ensures
        name_bits_well_formed(id),
        name_bits_len(id) == n.len(),
        spec_extract_name(id) == n,
{
    lemma_name_field(n);
    assert(forall|i: int| 0 <= i < n.len() ==> 1 <= name_char_code(#[trigger] n[i]) <= 31);
    lemma_name_digits_of_field(
        id,
        name_code_at(n, 0) as u128,
        name_code_at(n, 1) as u128,
        name_code_at(n, 2) as u128,
        name_code_at(n, 3) as u128,
    );
    assert forall|j: int| 0 <= j < n.len() implies #[trigger] name_code_char(
        name_char_code(n[j]),
    ) == n[j] by {
        assert(is_name_char(n[j]));
    }
    assert(spec_extract_name(id) =~= n);
}

/// Law: well-formed name bits hold a valid name, the one decoded from them.
pub proof fn lemma_extract_name_valid(id: u128)
    requires
        name_bits_well_formed(id),
    ensures
        is_valid_name(spec_extract_name(id)),
        id >> 108u128 == name_field(spec_extract_name(id)) as u128,
{
    let n = spec_extract_name(id);
    let d0 = name_digit(id, 0);
    let d1 = name_digit(id, 1);
    let d2 = name_digit(id, 2);
    let d3 = name_digit(id, 3);
    assert(d0 < 32 && d1 < 32 && d2 < 32 && d3 < 32 && id >> 108u128 == d0 * 32768 + d1 * 1024 + d2
        * 32 + d3) by (bit_vector)
        requires
            d0 == (id >> 123u128) & 31,
            d1 == (id >> 118u128) & 31,
            d2 == (id >> 113u128) & 31,
            d3 == (id >> 108u128) & 31,
    ;
    assert forall|j: int| 0 <= j < n.len() implies is_name_char(#[trigger] n[j]) && name_char_code(
        n[j],
    ) == name_digit(id, j) by {
        assert(1 <= name_digit(id, j) < 32);
    }
    assert(name_code_at(n, 0) == d0);
    assert(name_code_at(n, 1) == d1);
    assert(name_code_at(n, 2) == d2);
    assert(name_code_at(n, 3) == d3);
}

/// Law: the name mask determines the name.
pub proof fn lemma_name_mask_injective(n1: Seq<char>, n2: Seq<char>)
    requires
        is_valid_name(n1),
        is_valid_name(n2),
        spec_name_mask(n1) == spec_name_mask(n2),
    ensures
        n1 == n2,
{
    lemma_name_mask_field(n1);
    lemma_name_mask_field(n2);
    lemma_name_roundtrip(n1, spec_name_mask(n1));
    lemma_name_roundtrip(n2, spec_name_mask(n2));
}

/// Law: the name alphabet table lists each code with the character it encodes, in
/// increasing order of both.
pub proof fn lemma_char_mapping_matches()
    ensures
        forall|i: int|
            0 <= i < 31 ==> (#[trigger] CHAR_MAPPING@[i]).0 == i + 1 && CHAR_MAPPING@[i].1 as int
                == name_code_char(i + 1) as int,
        forall|i: int, j: int|
            0 <= i < j < 31 ==> (#[trigger] CHAR_MAPPING@[i]).1 < (#[trigger] CHAR_MAPPING@[j]).1,
{
}

} // verus!
