//! The commands of the `tnid` program, and what each one prints.
//!
//! Running a command gives the text for standard output and standard error and
//! whether it succeeded; the program around this module prints them.
use vstd::prelude::*;

use crate::dynamic_tnid::{spec_parse_dynamic_tnid_string, spec_parse_dynamic_uuid_string, DynamicTnid};
use crate::encryption::{
    spec_decrypt_id, spec_encrypt_id, key_from_hex_of, spec_key_error_message, spec_variant_label,
    EncryptionKey, EncryptionKeyError,
};
use crate::name_encoding::{name_check_of, spec_extract_name, spec_name_error_message, spec_name_hex, NameStr};
use crate::tnid_variant::{spec_variant_of_id, TNIDVariant};
use crate::typed::spec_tnid_string;
use crate::data_encoding::{
    expand_data_bits, extract_data_bits, id_data_to_string, spec_data_error_message,
    spec_data_string, spec_expand_data_bits, spec_extract_data_bits, spec_string_to_id_data,
    string_to_id_data,
};
use crate::encryption::{
    decrypt as decrypt_raw, encrypt as encrypt_raw, expand_secret_data_bits,
    extract_secret_data_bits, spec_decrypt, spec_encrypt, spec_expand_secret_data_bits,
    spec_extract_secret_data_bits,
};
use crate::layout::{is_tnid_bits, lemma_same_kept_bits};
use crate::name_encoding::{
    extract_name_string, name_bits_len, name_bits_to_hex, name_mask, spec_name_mask,
};
use crate::utils::{change_variant, lemma_change_variant, spec_change_variant, u128_to_uuid_string, Case};
use crate::v0::{millis_mask, spec_millis_mask, spec_v0_random_bits};
use crate::v1::spec_v1_random_bits;
use crate::utils::spec_uuid_string;
use crate::v0::spec_v0_id;
use crate::v1::spec_v1_id;
use vstd::string::StringExecFns;
use crate::text::{pad_left, push_char, push_decimal, push_hex, push_padded, push_str, spec_decimal, spec_digits};
use crate::typed::{find_dot, first_dot};
use crate::utils::hex_value;
use vstd::string::StringSliceAdditionalSpecFns;

verus! {

/// Output format for generated TNIDs.
#[derive(Debug, Clone, Copy, PartialEq, Eq)]
pub enum OutputFormat {
    /// TNID string format: name.encodeddata
    Tnid,
    /// UUID hex format: xxxxxxxx-xxxx-xxxx-xxxx-xxxxxxxxxxxx
    Uuid,
    /// Raw 128-bit hex: 0x00000000000000000000000000000000
    U128,
}

/// The commands of the `tnid` program: generate, parse, and manipulate TNIDs.
#[derive(Debug)]
pub enum Cli {
    /// Generate a new TNID of the given name and variant.
    Generate {
        /// The TNID name (1-4 characters, digits 0-4 and lowercase a-z only)
        name: String,
        /// Which variant to generate (0-3)
        variant: u8,
        /// Output format
        output: OutputFormat,
    },
    /// Encrypt a V0 TNID to V1.
    Encrypt {
        /// The TNID to encrypt
        id: String,
        /// 32-character hex encryption key
        key: String,
        /// Pass through V1 TNIDs unchanged instead of erroring
        passthrough: bool,
    },
    /// Decrypt a V1 TNID to V0.
    Decrypt {
        /// The TNID to decrypt
        id: String,
        /// 32-character hex encryption key
        key: String,
        /// Pass through V0 TNIDs unchanged instead of erroring
        passthrough: bool,
    },
    /// Show detailed TNID information (TNID or UUID format).
    Inspect {
        /// The TNID to inspect
        id: String,
    },
    /// Validate a TNID name string.
    ValidateName {
        /// The name to validate
        name: String,
    },
    /// Internal debug and verification commands.
    Internals(InternalCli),
}

/// Low-level commands for debugging the TNID layout.
#[derive(Debug)]
pub enum InternalCli {
    /// Convert a TNID name to its hex encoding.
    EncodeName {
        /// The name to encode
        name: String,
    },
    /// Convert a hex encoding to its TNID name.
    DecodeName {
        /// The hex encoding to decode (5 hex characters)
        name_hex: String,
    },
    /// Manually construct a V0 TNID from parts.
    MakeV0 {
        /// The TNID name
        name: String,
        /// Epoch milliseconds (hex)
        timestamp: String,
        /// Random bits (hex)
        random: String,
    },
    /// Manually construct a V1 TNID from parts.
    MakeV1 {
        /// The TNID name
        name: String,
        /// Random bits (u128 hex)
        random: String,
    },
    /// Extract the Data bits (102 bits) from a TNID.
    ExtractDataBits {
        /// The TNID to extract from
        id: String,
    },
    /// Expand compact Data bits (102 bits) to their position in a 128-bit TNID.
    ExpandDataBits {
        /// Compact Data bits (hex)
        bits: String,
    },
    /// Extract the Payload bits (100 bits) from a TNID.
    ExtractSecretDataBits {
        /// The TNID to extract from
        id: String,
    },
    /// Expand compact Payload bits (100 bits) to their position in a 128-bit TNID.
    ExpandSecretDataBits {
        /// Compact Payload bits (hex)
        bits: String,
    },
    /// Decode a data string to its raw bits.
    StringToIdData {
        /// The data string (part after the dot)
        string: String,
    },
    /// Encrypt raw Payload bits (100 bits) using FF1.
    EncryptRaw {
        /// Payload bits to encrypt (hex)
        data: String,
        /// 32-character hex encryption key
        key: String,
    },
    /// Decrypt raw Payload bits (100 bits) using FF1.
    DecryptRaw {
        /// Payload bits to decrypt (hex)
        data: String,
        /// 32-character hex encryption key
        key: String,
    },
    /// Change the variant of a TNID.
    ChangeVariant {
        /// The TNID to modify
        id: String,
        /// The new variant (0-3)
        variant: u8,
    },
    /// Encode a V0 timestamp to its scattered bit positions.
    EncodeV0Timestamp {
        /// Timestamp in milliseconds since epoch (hex)
        millis: String,
    },
    /// Encode V0 random bits to their scattered bit positions.
    EncodeV0Random {
        /// Random bits (hex)
        random: String,
    },
    /// Encode V1 random bits to their scattered bit positions.
    EncodeV1Random {
        /// Random bits (u128 hex)
        random: String,
    },
    /// Convert compact Data bits (102 bits) to a TNID data string.
    CompactDataToString {
        /// Compact Data bits (hex)
        bits: String,
    },
    /// Convert a 128-bit value to a standard UUID string.
    U128ToUuid {
        /// The u128 value to format (hex)
        u128_hex: String,
        /// Use uppercase hex digits (A-F)
        upper: bool,
    },
    /// Show all internal constants (masks, mappings, etc.).
    ShowConstants,
}

/// What a command prints, and whether it succeeded.
#[derive(Debug)]
pub struct CommandOutput {
    /// Text for standard output
    pub stdout: String,
    /// Text for standard error
    pub stderr: String,
    /// Whether the command succeeded (the exit status is 0 exactly then)
    pub success: bool,
}

/// A successful command that printed `out`.
pub open spec fn prints(r: CommandOutput, out: Seq<char>) -> bool {
    r.success && r.stdout@ == out && r.stderr@ == Seq::<char>::empty()
}

/// A failed command that printed `err` to standard error.
pub open spec fn fails_with(r: CommandOutput, err: Seq<char>) -> bool {
    !r.success && r.stdout@ == Seq::<char>::empty() && r.stderr@ == err
}

/// A line of text.
pub open spec fn line(s: Seq<char>) -> Seq<char> {
    s.push('\n')
}

fn output(text: String) -> (r: CommandOutput)
    ensures
        prints(r, text@),
{
    CommandOutput { stdout: text, stderr: String::new(), success: true }
}

fn failure(text: String) -> (r: CommandOutput)
    ensures
        fails_with(r, text@),
{
    CommandOutput { stdout: String::new(), stderr: text, success: false }
}

/// A string holding `t` and a line break.
fn text_line(t: &str) -> (r: String)
    ensures
        r@ == line(t@),
{
    let mut s = String::new();
    push_str(&mut s, t);
    push_char(&mut s, '\n');
    proof {
        assert(s@ =~= line(t@));
    }
    s
}

/// Why a hex number did not parse.
#[derive(Debug, Clone, Copy, PartialEq, Eq)]
pub enum HexError {
    /// Nothing to parse
    Empty,
    /// A character that is not a hex digit
    InvalidDigit,
    /// The value does not fit
    TooLarge,
}

/// The description of a hex parsing error.
pub open spec fn spec_hex_error_message(e: HexError) -> Seq<char> {
    match e {
        HexError::Empty => "cannot parse integer from empty string"@,
        HexError::InvalidDigit => "invalid digit found in string"@,
        HexError::TooLarge => "number too large to fit in target type"@,
    }
}

/// The bytes with every leading `0x` removed.
pub open spec fn strip_0x(b: Seq<u8>) -> Seq<u8>
    decreases b.len(),
{
    if b.len() >= 2 && b[0] == 48 && b[1] == 120 {
        strip_0x(b.subrange(2, b.len() as int))
    } else {
        b
    }
}

/// Reading the first `k` of the digits `d` most significant first, failing on the
/// first byte that is not a hex digit or as soon as the value passes `max`.
pub open spec fn hex_fold(d: Seq<u8>, k: int, max: int) -> Result<int, HexError>
    decreases k,
{
    if k <= 0 {
        Ok(0)
    } else {
        match hex_fold(d, k - 1, max) {
            Err(e) => Err(e),
            Ok(v) => match hex_value(d[k - 1] as int) {
                None => Err(HexError::InvalidDigit),
                Some(x) => if v * 16 + x > max {
                    Err(HexError::TooLarge)
                } else {
                    Ok(v * 16 + x)
                },
            },
        }
    }
}

/// Parsing a hex number of at most `max`: leading `0x` prefixes are dropped, then an
/// optional `+`, then at least one hex digit (either case).
pub open spec fn spec_parse_hex(b: Seq<u8>, max: int) -> Result<int, HexError> {
    let s = strip_0x(b);
    if s.len() == 0 {
        Err(HexError::Empty)
    } else {
        let d = if s[0] == 43 {
            s.subrange(1, s.len() as int)
        } else {
            s
        };
        if d.len() == 0 {
            Err(HexError::InvalidDigit)
        } else {
            hex_fold(d, d.len() as int, max)
        }
    }
}

/// `0x` and the lowercase hex digits of `v`, padded with zeros to `width`.
pub open spec fn hex_text(v: u128, width: nat) -> Seq<char> {
    "0x"@ + pad_left(spec_digits(v as nat, 16, false), width, '0')
}

/// The position after the leading `0x` prefixes.
fn skip_0x(b: &[u8]) -> (r: usize)
    ensures
        r <= b@.len(),
        strip_0x(b@) == b@.subrange(r as int, b@.len() as int),
{
    let mut i: usize = 0;
    proof {
        assert(b@.subrange(0, b@.len() as int) =~= b@);
    }
    while b.len() - i >= 2 && b[i] == 48 && b[i + 1] == 120
        invariant
            i <= b@.len(),
            strip_0x(b@) == strip_0x(b@.subrange(i as int, b@.len() as int)),
        decreases b@.len() - i,
    {
        proof {
            let rest = b@.subrange(i as int, b@.len() as int);
            assert(rest.subrange(2, rest.len() as int) =~= b@.subrange(i + 2, b@.len() as int));
        }
        i += 2;
    }
    i
}

/// Parses a hex number of at most `max` (see [`spec_parse_hex`]).
fn parse_hex(arg: &str, max: u128) -> (r: Result<u128, HexError>)
    requires
        max >= 15,
    ensures
        match r {
            Ok(v) => spec_parse_hex(arg.spec_bytes(), max as int) == Ok::<int, HexError>(v as int),
            Err(e) => spec_parse_hex(arg.spec_bytes(), max as int) == Err::<int, HexError>(e),
        },
{
    let b = arg.as_bytes();
    let start = skip_0x(b);
    let ghost s = strip_0x(b@);
    if start == b.len() {
        return Err(HexError::Empty);
    }
    proof {
        assert(s.len() > 0 && s[0] == b@[start as int]);
    }
    let first = if b[start] == 43 {
        start + 1
    } else {
        start
    };
    let ghost d = b@.subrange(first as int, b@.len() as int);
    proof {
        if b[start as int] == 43 {
            assert(s.subrange(1, s.len() as int) =~= d);
        } else {
            assert(s =~= d);
        }
    }
    if first == b.len() {
        return Err(HexError::InvalidDigit);
    }
    assert(spec_parse_hex(b@, max as int) == hex_fold(d, d.len() as int, max as int));
    let mut v: u128 = 0;
    let mut i: usize = first;
    while i < b.len()
        invariant
            first <= i <= b@.len(),
            d == b@.subrange(first as int, b@.len() as int),
            hex_fold(d, i - first, max as int) == Ok::<int, HexError>(v as int),
            spec_parse_hex(b@, max as int) == hex_fold(d, d.len() as int, max as int),
            b@ == arg.spec_bytes(),
            v <= max,
            max >= 15,
        decreases b@.len() - i,
    {
        let c = b[i];
        assert(c == d[i - first]);
        let x = match crate::utils::hex_char_to_nibble(c) {
            Some(x) => x,
            None => {
                proof {
                    assert(hex_fold(d, (i - first + 1) as int, max as int) == Err::<int, HexError>(
                        HexError::InvalidDigit,
                    ));
                    lemma_hex_fold_stays_err(d, (i - first + 1) as int, d.len() as int, max as int);
                }
                return Err(HexError::InvalidDigit);
            },
        };
        assert(x < 16);
        let limit = (max - x as u128) / 16;
        assert((v as int) * 16 + (x as int) <= max as int <==> v <= limit) by (nonlinear_arith)
            requires
                limit == (max - x as u128) / 16,
                x < 16,
                x <= max,
        ;
        if v > limit {
            proof {
                assert(hex_fold(d, (i - first + 1) as int, max as int) == Err::<int, HexError>(
                    HexError::TooLarge,
                ));
                lemma_hex_fold_stays_err(d, (i - first + 1) as int, d.len() as int, max as int);
            }
            return Err(HexError::TooLarge);
        }
        v = v * 16 + x as u128;
        i += 1;
    }
    Ok(v)
}

/// Once reading fails, reading more digits fails the same way.
proof fn lemma_hex_fold_stays_err(d: Seq<u8>, k: int, n: int, max: int)
    requires
        0 <= k <= n,
        hex_fold(d, k, max) is Err,
    ensures
        hex_fold(d, n, max) == hex_fold(d, k, max),
    decreases n - k,
{
    if k < n {
        lemma_hex_fold_stays_err(d, k, n - 1, max);
    }
}

/// The line for a TNID argument that holds a `.` but is no TNID string.
pub open spec fn bad_tnid_string_line() -> Seq<char> {
    line("Error parsing TNID string: not a valid TNID string"@)
}

/// The line for a TNID argument that holds a `-` but is no TNID in UUID form.
pub open spec fn bad_uuid_string_line() -> Seq<char> {
    line("Error parsing UUID string: not a valid TNID in UUID format"@)
}

/// The line for a TNID argument that holds neither a `.` nor a `-`.
pub open spec fn unknown_form_line() -> Seq<char> {
    line(
        "Error: input doesn't look like a TNID string (expected format: name.data) or UUID (expected format: xxxxxxxx-xxxx-xxxx-xxxx-xxxxxxxxxxxx)"@,
    )
}

/// What the TNID argument of a command reads as: a TNID string when it holds a `.`,
/// else a UUID string when it holds a `-`; on failure, the error line.
pub open spec fn spec_parse_tnid_arg(b: Seq<u8>) -> Result<u128, Seq<char>> {
    if b.contains(46u8) {
        match spec_parse_dynamic_tnid_string(b) {
            Some(id) => Ok(id),
            None => Err(bad_tnid_string_line()),
        }
    } else if b.contains(45u8) {
        match spec_parse_dynamic_uuid_string(b) {
            Some(id) => Ok(id),
            None => Err(bad_uuid_string_line()),
        }
    } else {
        Err(unknown_form_line())
    }
}

/// Whether the byte `x` occurs in `b`.
fn contains_byte(b: &[u8], x: u8) -> (r: bool)
    ensures
        r == b@.contains(x),
{
    let mut i: usize = 0;
    while i < b.len()
        invariant
            i <= b@.len(),
            forall|k: int| 0 <= k < i ==> b@[k] != x,
        decreases b@.len() - i,
    {
        if b[i] == x {
            proof {
                assert(b@[i as int] == x);
            }
            return true;
        }
        i += 1;
    }
    false
}

/// Reads the TNID argument of a command (see [`spec_parse_tnid_arg`]).
fn parse_tnid_arg(id: &str) -> (r: Result<DynamicTnid, String>)
    ensures
        match r {
            Ok(d) => spec_parse_tnid_arg(id.spec_bytes()) == Ok::<u128, Seq<char>>(d@),
            Err(e) => spec_parse_tnid_arg(id.spec_bytes()) == Err::<u128, Seq<char>>(e@),
        },
{
    let b = id.as_bytes();
    if contains_byte(b, 46) {
        match DynamicTnid::parse_tnid_string(id) {
            Some(d) => Ok(d),
            None => {
                Err(text_line("Error parsing TNID string: not a valid TNID string"))
            },
        }
    } else if contains_byte(b, 45) {
        match DynamicTnid::parse_uuid_string(id) {
            Some(d) => Ok(d),
            None => {
                Err(text_line("Error parsing UUID string: not a valid TNID in UUID format"))
            },
        }
    } else {
        Err(
            text_line(
                "Error: input doesn't look like a TNID string (expected format: name.data) or UUID (expected format: xxxxxxxx-xxxx-xxxx-xxxx-xxxxxxxxxxxx)",
            ),
        )
    }
}

/// A string holding `prefix`, `msg` and a line break.
fn message_line(prefix: &str, msg: String) -> (r: String)
    ensures
        r@ == line(prefix@ + msg@),
{
    let mut s = String::new();
    push_str(&mut s, prefix);
    push_str(&mut s, msg.as_str());
    push_char(&mut s, '\n');
    proof {
        assert(s@ =~= line(prefix@ + msg@));
    }
    s
}

/// `0x` and the lowercase hex digits of `v` padded to `width`, with a line break.
fn hex_line(v: u128, width: usize) -> (r: String)
    ensures
        r@ == line(hex_text(v, width as nat)),
{
    let mut s = String::new();
    push_str(&mut s, "0x");
    push_hex(&mut s, v, width, false);
    push_char(&mut s, '\n');
    proof {
        assert(s@ =~= line(hex_text(v, width as nat)));
    }
    s
}

/// `t` and a line break.
fn owned_line(t: String) -> (r: String)
    ensures
        r@ == line(t@),
{
    let mut s = t;
    push_char(&mut s, '\n');
    s
}

/// What `validate-name` gives: `valid`, or `invalid:` and the reason (a failure).
pub open spec fn validate_name_outcome(name: Seq<char>, r: CommandOutput) -> bool {
    match name_check_of(name) {
        Ok(_) => prints(r, line("valid"@)),
        Err(e) => !r.success && r.stdout@ == line("invalid: "@ + spec_name_error_message(e))
            && r.stderr@ == Seq::<char>::empty(),
    }
}

/// Runs `validate-name`.
pub fn validate_name(name: &str) -> (r: CommandOutput)
    ensures
        validate_name_outcome(name@, r),
{
    match NameStr::new(name) {
        Ok(_) => output(text_line("valid")),
        Err(e) => CommandOutput {
            stdout: message_line("invalid: ", e.message()),
            stderr: String::new(),
            success: false,
        },
    }
}

/// The name of a variant.
fn variant_label(v: TNIDVariant) -> (r: &'static str)
    ensures
        r@ == spec_variant_label(v),
{
    match v {
        TNIDVariant::V0 => "V0",
        TNIDVariant::V1 => "V1",
        TNIDVariant::V2 => "V2",
        TNIDVariant::V3 => "V3",
    }
}

/// What `inspect` prints for a TNID.
pub open spec fn inspect_text(v: u128) -> Seq<char> {
    line("name: "@ + spec_extract_name(v)) + line("name_hex: "@ + spec_name_hex(v)) + line(
        "variant: "@ + spec_variant_label(spec_variant_of_id(v)),
    ) + line("tnid_string: "@ + spec_tnid_string(v)) + line(
        "uuid_string: "@ + spec_uuid_string(v, false),
    )
}

/// What `inspect` gives.
pub open spec fn inspect_outcome(id: Seq<char>, r: CommandOutput) -> bool {
    match spec_parse_tnid_arg(vstd::utf8::encode_utf8(id)) {
        Err(m) => fails_with(r, m),
        Ok(v) => prints(r, inspect_text(v)),
    }
}

/// Runs `inspect`.
pub fn inspect(id: &str) -> (r: CommandOutput)
    ensures
        inspect_outcome(id@, r),
{
    let d = match parse_tnid_arg(id) {
        Ok(d) => d,
        Err(m) => {
            return failure(m);
        },
    };
    let mut s = message_line("name: ", d.name());
    s.append(message_line("name_hex: ", d.name_hex()).as_str());
    let mut label = String::new();
    push_str(&mut label, variant_label(d.variant()));
    s.append(message_line("variant: ", label).as_str());
    s.append(message_line("tnid_string: ", d.to_tnid_string()).as_str());
    s.append(message_line("uuid_string: ", d.to_uuid_string(false)).as_str());
    proof {
        assert(s@ =~= inspect_text(d@));
    }
    output(s)
}

/// An id written in the given output format.
pub open spec fn id_text(id: u128, format: OutputFormat) -> Seq<char> {
    match format {
        OutputFormat::Tnid => spec_tnid_string(id),
        OutputFormat::Uuid => spec_uuid_string(id, false),
        OutputFormat::U128 => hex_text(id, 32),
    }
}

fn id_line(d: DynamicTnid, format: OutputFormat) -> (r: String)
    ensures
        r@ == line(id_text(d@, format)),
{
    match format {
        OutputFormat::Tnid => owned_line(d.to_tnid_string()),
        OutputFormat::Uuid => owned_line(d.to_uuid_string(false)),
        OutputFormat::U128 => hex_line(d.as_u128(), 32),
    }
}

/// What `generate` gives: after the name check, a new v0 or v1 id of that name in the
/// output format; variants 2 and 3 are reserved, and others do not exist.
pub open spec fn generate_outcome(name: Seq<char>, variant: u8, format: OutputFormat, r: CommandOutput) -> bool {
    match name_check_of(name) {
        Err(e) => fails_with(r, line("Error: "@ + spec_name_error_message(e))),
        Ok(_) => if variant == 0 {
            exists|m: u64, rb: u64|
                #![trigger spec_v0_id(name, m, rb)]
                prints(r, line(id_text(spec_v0_id(name, m, rb), format)))
        } else if variant == 1 {
            exists|rb: u128| #![trigger spec_v1_id(name, rb)] prints(r, line(id_text(spec_v1_id(name, rb), format)))
        } else if variant <= 3 {
            fails_with(
                r,
                line("Error: variant "@ + spec_decimal(variant as nat) + " is reserved for future use"@),
            )
        } else {
            fails_with(r, line("Error: variant must be 0-3, got "@ + spec_decimal(variant as nat)))
        },
    }
}

/// Runs `generate`.
///
/// Which id comes out is not stated: it rests on the clock and the random source, of
/// which nothing is claimed; its name, variant and output form are.
pub fn generate(name: &str, variant: u8, format: OutputFormat) -> (r: CommandOutput)
    ensures
        generate_outcome(name@, variant, format, r),
{
    let n = match NameStr::new(name) {
        Ok(n) => n,
        Err(e) => {
            return failure(message_line("Error: ", e.message()));
        },
    };
    if variant == 0 {
        match DynamicTnid::new_v0(n) {
            Some(d) => output(id_line(d, format)),
            None => {
                proof {
                    assert(false);
                }
                failure(String::new())
            },
        }
    } else if variant == 1 {
        match DynamicTnid::new_v1(n) {
            Some(d) => output(id_line(d, format)),
            None => {
                proof {
                    assert(false);
                }
                failure(String::new())
            },
        }
    } else {
        let mut s = String::new();
        if variant <= 3 {
            push_str(&mut s, "Error: variant ");
            push_decimal(&mut s, variant as u128);
            push_str(&mut s, " is reserved for future use");
        } else {
            push_str(&mut s, "Error: variant must be 0-3, got ");
            push_decimal(&mut s, variant as u128);
        }
        push_char(&mut s, '\n');
        proof {
            if variant <= 3 {
                assert(s@ =~= line(
                    "Error: variant "@ + spec_decimal(variant as nat) + " is reserved for future use"@,
                ));
            } else {
                assert(s@ =~= line("Error: variant must be 0-3, got "@ + spec_decimal(variant as nat)));
            }
        }
        failure(s)
    }
}

/// The line for a key argument that does not parse.
pub open spec fn bad_key_line(e: EncryptionKeyError) -> Seq<char> {
    line("Error parsing encryption key: "@ + spec_key_error_message(e))
}

/// What `encrypt` gives: a v0 TNID encrypted under the key; a v1 TNID passed through
/// only when asked; other variants refused.
pub open spec fn encrypt_outcome(id: Seq<char>, key: Seq<char>, passthrough: bool, r: CommandOutput) -> bool {
    match spec_parse_tnid_arg(vstd::utf8::encode_utf8(id)) {
        Err(m) => fails_with(r, m),
        Ok(v) => match key_from_hex_of(key) {
            Err(e) => fails_with(r, bad_key_line(e)),
            Ok(k) => match spec_variant_of_id(v) {
                TNIDVariant::V0 => prints(r, line(spec_tnid_string(spec_encrypt_id(v, k)))),
                TNIDVariant::V1 => if passthrough {
                    prints(r, line(spec_tnid_string(v)))
                } else {
                    fails_with(r, line("Error: TNID is already V1"@))
                },
                other => fails_with(r, line("Error: cannot encrypt variant "@ + spec_variant_label(other))),
            },
        },
    }
}

/// Runs `encrypt`.
pub fn encrypt(id: &str, key: &str, passthrough: bool) -> (r: CommandOutput)
    ensures
        encrypt_outcome(id@, key@, passthrough, r),
{
    let d = match parse_tnid_arg(id) {
        Ok(d) => d,
        Err(m) => {
            return failure(m);
        },
    };
    let k = match EncryptionKey::from_hex(key) {
        Ok(k) => k,
        Err(e) => {
            return failure(message_line("Error parsing encryption key: ", e.message()));
        },
    };
    match d.variant() {
        TNIDVariant::V0 => match d.encrypt_v0_to_v1(k) {
            Some(e) => output(owned_line(e.to_tnid_string())),
            None => {
                proof {
                    assert(false);
                }
                failure(String::new())
            },
        },
        TNIDVariant::V1 => if passthrough {
            output(owned_line(d.to_tnid_string()))
        } else {
            failure(text_line("Error: TNID is already V1"))
        },
        other => {
            let mut label = String::new();
            push_str(&mut label, variant_label(other));
            failure(message_line("Error: cannot encrypt variant ", label))
        },
    }
}

/// What `decrypt` gives: a v1 TNID decrypted under the key; a v0 TNID passed through
/// only when asked; other variants refused.
pub open spec fn decrypt_outcome(id: Seq<char>, key: Seq<char>, passthrough: bool, r: CommandOutput) -> bool {
    match spec_parse_tnid_arg(vstd::utf8::encode_utf8(id)) {
        Err(m) => fails_with(r, m),
        Ok(v) => match key_from_hex_of(key) {
            Err(e) => fails_with(r, bad_key_line(e)),
            Ok(k) => match spec_variant_of_id(v) {
                TNIDVariant::V1 => prints(r, line(spec_tnid_string(spec_decrypt_id(v, k)))),
                TNIDVariant::V0 => if passthrough {
                    prints(r, line(spec_tnid_string(v)))
                } else {
                    fails_with(r, line("Error: TNID is already V0"@))
                },
                other => fails_with(r, line("Error: cannot decrypt variant "@ + spec_variant_label(other))),
            },
        },
    }
}

/// Runs `decrypt`.
pub fn decrypt(id: &str, key: &str, passthrough: bool) -> (r: CommandOutput)
    ensures
        decrypt_outcome(id@, key@, passthrough, r),
{
    let d = match parse_tnid_arg(id) {
        Ok(d) => d,
        Err(m) => {
            return failure(m);
        },
    };
    let k = match EncryptionKey::from_hex(key) {
        Ok(k) => k,
        Err(e) => {
            return failure(message_line("Error parsing encryption key: ", e.message()));
        },
    };
    match d.variant() {
        TNIDVariant::V1 => match d.decrypt_v1_to_v0(k) {
            Some(e) => output(owned_line(e.to_tnid_string())),
            None => {
                proof {
                    assert(false);
                }
                failure(String::new())
            },
        },
        TNIDVariant::V0 => if passthrough {
            output(owned_line(d.to_tnid_string()))
        } else {
            failure(text_line("Error: TNID is already V0"))
        },
        other => {
            let mut label = String::new();
            push_str(&mut label, variant_label(other));
            failure(message_line("Error: cannot decrypt variant ", label))
        },
    }
}

/// A mapping entry line: the value right-aligned in two columns and its character.
pub open spec fn mapping_line(entry: (u8, u8)) -> Seq<char> {
    line("  "@ + pad_left(spec_decimal(entry.0 as nat), 2, ' ') + ": '"@ + seq![entry.1 as char]
        + "'"@)
}

/// The lines of the first `k` entries of a mapping table.
pub open spec fn mapping_text(m: Seq<(u8, u8)>, k: int) -> Seq<char>
    decreases k,
{
    if k <= 0 {
        Seq::empty()
    } else {
        mapping_text(m, k - 1) + mapping_line(m[k - 1])
    }
}

fn mapping_lines(m: &[(u8, u8)]) -> (r: String)
    ensures
        r@ == mapping_text(m@, m@.len() as int),
{
    let mut s = String::new();
    let mut i: usize = 0;
    while i < m.len()
        invariant
            i <= m@.len(),
            s@ == mapping_text(m@, i as int),
        decreases m@.len() - i,
    {
        let (v, c) = m[i];
        let mut l = String::new();
        push_str(&mut l, "  ");
        push_padded(&mut l, v as u128, 10, false, 2, ' ');
        push_str(&mut l, ": '");
        push_char(&mut l, c as char);
        push_str(&mut l, "'");
        push_char(&mut l, '\n');
        proof {
            assert(l@ =~= mapping_line(m@[i as int]));
        }
        s.append(l.as_str());
        i += 1;
    }
    s
}

fn blank_then_line(t: &str) -> (r: String)
    ensures
        r@ == blank_line(t@),
{
    let mut s = String::new();
    push_char(&mut s, '\n');
    push_str(&mut s, t);
    push_char(&mut s, '\n');
    proof {
        assert(s@ =~= blank_line(t@));
    }
    s
}

fn decimal_const_line(label: &str, v: u128) -> (r: String)
    ensures
        r@ == line(label@ + spec_decimal(v as nat)),
{
    let mut s = String::new();
    push_str(&mut s, label);
    push_decimal(&mut s, v);
    push_char(&mut s, '\n');
    proof {
        assert(s@ =~= line(label@ + spec_decimal(v as nat)));
    }
    s
}

fn hex_const_line(label: &str, v: u128, width: usize) -> (r: String)
    ensures
        r@ == line(label@ + hex_text(v, width as nat)),
{
    let mut s = String::new();
    push_str(&mut s, label);
    push_str(&mut s, "0x");
    push_hex(&mut s, v, width, false);
    push_char(&mut s, '\n');
    proof {
        assert(s@ =~= line(label@ + hex_text(v, width as nat)));
    }
    s
}

/// An empty line followed by the line `t`.
pub open spec fn blank_line(t: Seq<char>) -> Seq<char> {
    seq!['\n'] + line(t)
}

/// What `internals show-constants` prints: the layout constants and alphabets.
pub open spec fn constants_text() -> Seq<char> {
    Seq::<char>::empty()
        + line("--- Name Encoding ---"@)
        + line("NAME_MIN_CHARS:        "@ + spec_decimal(crate::name_encoding::NAME_MIN_CHARS as nat))
        + line("NAME_MAX_CHARS:        "@ + spec_decimal(crate::name_encoding::NAME_MAX_CHARS as nat))
        + line("NAME_CHAR_BIT_LENGTH:  "@ + spec_decimal(crate::name_encoding::CHAR_BIT_LENGTH as nat))
        + line("NON_NAME_BITS:         "@ + spec_decimal(crate::name_encoding::NON_NAME_BITS as nat))
        + line("NAME_CHAR_MAPPING:"@)
        + mapping_text(crate::name_encoding::CHAR_MAPPING@, 31)
        + blank_line("--- Data Encoding ---"@)
        + line("DATA_BIT_NUM:           "@ + spec_decimal(crate::data_encoding::DATA_BIT_NUM as nat))
        + line("DATA_CHAR_ENCODING_LEN: "@ + spec_decimal(crate::data_encoding::DATA_CHAR_ENCODING_LEN as nat))
        + line("DATA_CHAR_BIT_LENGTH:   "@ + spec_decimal(crate::data_encoding::CHAR_BIT_LENGTH as nat))
        + line("RIGHT_DATA_SECTION_MASK:  "@ + hex_text(crate::data_encoding::RIGHT_DATA_SECTION_MASK as u128, 32))
        + line("MIDDLE_DATA_SECTION_MASK: "@ + hex_text(crate::data_encoding::MIDDLE_DATA_SECTION_MASK as u128, 32))
        + line("LEFT_DATA_SECTION_MASK:   "@ + hex_text(crate::data_encoding::LEFT_DATA_SECTION_MASK as u128, 32))
        + line("DATA_CHAR_MAPPING:"@)
        + mapping_text(crate::data_encoding::CHAR_MAPPING@, 64)
        + blank_line("--- UUID / Variant Metadata ---"@)
        + line("UUID_V8_MASK:             "@ + hex_text(crate::utils::UUID_V8_MASK as u128, 32))
        + blank_line("--- Encryption ---"@)
        + line("RIGHT_SECRET_DATA_SECTION_MASK:  "@ + hex_text(crate::encryption::RIGHT_SECRET_DATA_SECTION_MASK as u128, 32))
        + line("MIDDLE_SECRET_DATA_SECTION_MASK: "@ + hex_text(crate::encryption::MIDDLE_SECRET_DATA_SECTION_MASK as u128, 32))
        + line("LEFT_SECRET_DATA_SECTION_MASK:   "@ + hex_text(crate::encryption::LEFT_SECRET_DATA_SECTION_MASK as u128, 32))
        + line("COMPLETE_SECRET_DATA_MASK:       "@ + hex_text(crate::encryption::COMPLETE_SECRET_DATA_MASK as u128, 32))
        + blank_line("--- V0 ---"@)
        + line("V0_TIMESTAMP_FIRST_28_MASK:  "@ + hex_text(crate::v0::TIMESTAMP_FIRST_28_MASK as u128, 16))
        + line("V0_TIMESTAMP_SECOND_12_MASK: "@ + hex_text(crate::v0::TIMESTAMP_SECOND_12_MASK as u128, 16))
        + line("V0_TIMESTAMP_LAST_3_MASK:    "@ + hex_text(crate::v0::TIMESTAMP_LAST_3_MASK as u128, 16))
        + line("V0_RANDOM_MASK:              "@ + hex_text(crate::v0::RANDOM_MASK as u128, 32))
        + blank_line("--- V1 ---"@)
        + line("V1_RANDOM_MASK:              "@ + hex_text(crate::v1::RANDOM_MASK as u128, 32))
}

/// Runs `internals show-constants`.
pub fn show_constants() -> (r: CommandOutput)
    ensures
        prints(r, constants_text()),
{
    let mut s = String::new();
    s.append(text_line("--- Name Encoding ---").as_str());
    s.append(decimal_const_line("NAME_MIN_CHARS:        ", crate::name_encoding::NAME_MIN_CHARS as u128).as_str());
    s.append(decimal_const_line("NAME_MAX_CHARS:        ", crate::name_encoding::NAME_MAX_CHARS as u128).as_str());
    s.append(decimal_const_line("NAME_CHAR_BIT_LENGTH:  ", crate::name_encoding::CHAR_BIT_LENGTH as u128).as_str());
    s.append(decimal_const_line("NON_NAME_BITS:         ", crate::name_encoding::NON_NAME_BITS as u128).as_str());
    s.append(text_line("NAME_CHAR_MAPPING:").as_str());
    s.append(mapping_lines(&crate::name_encoding::CHAR_MAPPING).as_str());
    s.append(blank_then_line("--- Data Encoding ---").as_str());
    s.append(decimal_const_line("DATA_BIT_NUM:           ", crate::data_encoding::DATA_BIT_NUM as u128).as_str());
    s.append(decimal_const_line("DATA_CHAR_ENCODING_LEN: ", crate::data_encoding::DATA_CHAR_ENCODING_LEN as u128).as_str());
    s.append(decimal_const_line("DATA_CHAR_BIT_LENGTH:   ", crate::data_encoding::CHAR_BIT_LENGTH as u128).as_str());
    s.append(hex_const_line("RIGHT_DATA_SECTION_MASK:  ", crate::data_encoding::RIGHT_DATA_SECTION_MASK as u128, 32).as_str());
    s.append(hex_const_line("MIDDLE_DATA_SECTION_MASK: ", crate::data_encoding::MIDDLE_DATA_SECTION_MASK as u128, 32).as_str());
    s.append(hex_const_line("LEFT_DATA_SECTION_MASK:   ", crate::data_encoding::LEFT_DATA_SECTION_MASK as u128, 32).as_str());
    s.append(text_line("DATA_CHAR_MAPPING:").as_str());
    s.append(mapping_lines(&crate::data_encoding::CHAR_MAPPING).as_str());
    s.append(blank_then_line("--- UUID / Variant Metadata ---").as_str());
    s.append(hex_const_line("UUID_V8_MASK:             ", crate::utils::UUID_V8_MASK as u128, 32).as_str());
    s.append(blank_then_line("--- Encryption ---").as_str());
    s.append(hex_const_line("RIGHT_SECRET_DATA_SECTION_MASK:  ", crate::encryption::RIGHT_SECRET_DATA_SECTION_MASK as u128, 32).as_str());
    s.append(hex_const_line("MIDDLE_SECRET_DATA_SECTION_MASK: ", crate::encryption::MIDDLE_SECRET_DATA_SECTION_MASK as u128, 32).as_str());
    s.append(hex_const_line("LEFT_SECRET_DATA_SECTION_MASK:   ", crate::encryption::LEFT_SECRET_DATA_SECTION_MASK as u128, 32).as_str());
    s.append(hex_const_line("COMPLETE_SECRET_DATA_MASK:       ", crate::encryption::COMPLETE_SECRET_DATA_MASK as u128, 32).as_str());
    s.append(blank_then_line("--- V0 ---").as_str());
    s.append(hex_const_line("V0_TIMESTAMP_FIRST_28_MASK:  ", crate::v0::TIMESTAMP_FIRST_28_MASK as u128, 16).as_str());
    s.append(hex_const_line("V0_TIMESTAMP_SECOND_12_MASK: ", crate::v0::TIMESTAMP_SECOND_12_MASK as u128, 16).as_str());
    s.append(hex_const_line("V0_TIMESTAMP_LAST_3_MASK:    ", crate::v0::TIMESTAMP_LAST_3_MASK as u128, 16).as_str());
    s.append(hex_const_line("V0_RANDOM_MASK:              ", crate::v0::RANDOM_MASK as u128, 32).as_str());
    s.append(blank_then_line("--- V1 ---").as_str());
    s.append(hex_const_line("V1_RANDOM_MASK:              ", crate::v1::RANDOM_MASK as u128, 32).as_str());
    output(s)
}

/// The largest 64-bit value.
pub const U64_MAX: u128 = 0xffff_ffff_ffff_ffff;

/// The largest 128-bit value.
pub const U128_MAX: u128 = 0xffff_ffff_ffff_ffff_ffff_ffff_ffff_ffff;

/// Reading a hex argument of at most `max`; on failure, the error line.
pub open spec fn spec_hex_arg(arg: Seq<char>, max: int) -> Result<int, Seq<char>> {
    match spec_parse_hex(vstd::utf8::encode_utf8(arg), max) {
        Ok(v) => Ok(v),
        Err(e) => Err(line("Error parsing hex string '"@ + arg + "': "@ + spec_hex_error_message(e))),
    }
}

fn hex_error_message(e: HexError) -> (r: &'static str)
    ensures
        r@ == spec_hex_error_message(e),
{
    match e {
        HexError::Empty => "cannot parse integer from empty string",
        HexError::InvalidDigit => "invalid digit found in string",
        HexError::TooLarge => "number too large to fit in target type",
    }
}

/// Reads a hex argument of at most `max` (see [`spec_hex_arg`]).
fn hex_arg(arg: &str, max: u128) -> (r: Result<u128, String>)
    requires
        max >= 15,
    ensures
        match r {
            Ok(v) => spec_hex_arg(arg@, max as int) == Ok::<int, Seq<char>>(v as int),
            Err(m) => spec_hex_arg(arg@, max as int) == Err::<int, Seq<char>>(m@),
        },
{
    match parse_hex(arg, max) {
        Ok(v) => Ok(v),
        Err(e) => {
            let mut s = String::new();
            push_str(&mut s, "Error parsing hex string '");
            push_str(&mut s, arg);
            push_str(&mut s, "': ");
            push_str(&mut s, hex_error_message(e));
            push_char(&mut s, '\n');
            proof {
                assert(s@ =~= line("Error parsing hex string '"@ + arg@ + "': "@ + spec_hex_error_message(e)));
            }
            Err(s)
        },
    }
}

/// The name argument of an internal command; on failure, the error line.
pub open spec fn spec_name_arg(name: Seq<char>) -> Result<(), Seq<char>> {
    match name_check_of(name) {
        Ok(_) => Ok(()),
        Err(e) => Err(line("Error: invalid name: "@ + spec_name_error_message(e))),
    }
}

fn name_arg(name: &str) -> (r: Result<NameStr, String>)
    ensures
        match r {
            Ok(n) => spec_name_arg(name@) is Ok && n@ == name@,
            Err(m) => spec_name_arg(name@) == Err::<(), Seq<char>>(m@),
        },
{
    match NameStr::new(name) {
        Ok(n) => Ok(n),
        Err(e) => Err(message_line("Error: invalid name: ", e.message())),
    }
}

/// A hex argument turned into output text by `f`, or its error.
pub open spec fn hex_command(arg: Seq<char>, max: int, f: spec_fn(int) -> Seq<char>, r: CommandOutput) -> bool {
    match spec_hex_arg(arg, max) {
        Err(m) => fails_with(r, m),
        Ok(v) => prints(r, line(f(v))),
    }
}

/// A TNID argument turned into output text by `f`, or its error.
pub open spec fn tnid_command(arg: Seq<char>, f: spec_fn(u128) -> Seq<char>, r: CommandOutput) -> bool {
    match spec_parse_tnid_arg(vstd::utf8::encode_utf8(arg)) {
        Err(m) => fails_with(r, m),
        Ok(v) => prints(r, line(f(v))),
    }
}

/// What an internal command gives.
pub open spec fn internal_outcome(cmd: InternalCli, r: CommandOutput) -> bool {
    match cmd {
        InternalCli::EncodeName { name } => match spec_name_arg(name@) {
            Err(m) => fails_with(r, m),
            Ok(_) => prints(r, line(spec_name_hex(spec_name_mask(name@)))),
        },
        InternalCli::DecodeName { name_hex } => match spec_hex_arg(name_hex@, U128_MAX as int) {
            Err(m) => fails_with(r, m),
            Ok(v) => if name_bits_len((v as u128) << 108u128) == 0 {
                fails_with(r, line("Error: invalid name bits"@))
            } else {
                prints(r, line(spec_extract_name((v as u128) << 108u128)))
            },
        },
        InternalCli::MakeV0 { name, timestamp, random } => match spec_name_arg(name@) {
            Err(m) => fails_with(r, m),
            Ok(_) => match spec_hex_arg(timestamp@, U64_MAX as int) {
                Err(m) => fails_with(r, m),
                Ok(t) => match spec_hex_arg(random@, U64_MAX as int) {
                    Err(m) => fails_with(r, m),
                    Ok(rb) => prints(r, line(spec_tnid_string(spec_v0_id(name@, t as u64, rb as u64)))),
                },
            },
        },
        InternalCli::MakeV1 { name, random } => match spec_name_arg(name@) {
            Err(m) => fails_with(r, m),
            Ok(_) => hex_command(
                random@,
                U128_MAX as int,
                |rb: int| spec_tnid_string(spec_v1_id(name@, rb as u128)),
                r,
            ),
        },
        InternalCli::ExtractDataBits { id } => tnid_command(
            id@,
            |v: u128| hex_text(spec_extract_data_bits(v), 26),
            r,
        ),
        InternalCli::ExpandDataBits { bits } => hex_command(
            bits@,
            U128_MAX as int,
            |b: int| hex_text(spec_expand_data_bits(b as u128), 32),
            r,
        ),
        InternalCli::ExtractSecretDataBits { id } => tnid_command(
            id@,
            |v: u128| hex_text(spec_extract_secret_data_bits(v), 25),
            r,
        ),
        InternalCli::ExpandSecretDataBits { bits } => hex_command(
            bits@,
            U128_MAX as int,
            |b: int| hex_text(spec_expand_secret_data_bits(b as u128), 32),
            r,
        ),
        InternalCli::StringToIdData { string } => match spec_string_to_id_data(
            vstd::utf8::encode_utf8(string@),
        ) {
            Ok(x) => prints(r, line(hex_text(x, 26))),
            Err(e) => fails_with(r, line("Error decoding data string: "@ + spec_data_error_message(e))),
        },
        InternalCli::EncryptRaw { data, key } => match spec_hex_arg(data@, U128_MAX as int) {
            Err(m) => fails_with(r, m),
            Ok(d) => match key_from_hex_of(key@) {
                Err(e) => fails_with(r, bad_key_line(e)),
                Ok(k) => prints(r, line(hex_text(spec_encrypt(d as u128, k), 25))),
            },
        },
        InternalCli::DecryptRaw { data, key } => match spec_hex_arg(data@, U128_MAX as int) {
            Err(m) => fails_with(r, m),
            Ok(d) => match key_from_hex_of(key@) {
                Err(e) => fails_with(r, bad_key_line(e)),
                Ok(k) => prints(r, line(hex_text(spec_decrypt(d as u128, k), 25))),
            },
        },
        InternalCli::ChangeVariant { id, variant } => match spec_parse_tnid_arg(
            vstd::utf8::encode_utf8(id@),
        ) {
            Err(m) => fails_with(r, m),
            Ok(v) => if variant > 3 {
                fails_with(r, line("Error: variant must be 0-3"@))
            } else {
                prints(r, line(spec_tnid_string(spec_change_variant(v, variant))))
            },
        },
        InternalCli::EncodeV0Timestamp { millis } => hex_command(
            millis@,
            U64_MAX as int,
            |m: int| hex_text(spec_millis_mask(m as u64), 32),
            r,
        ),
        InternalCli::EncodeV0Random { random } => hex_command(
            random@,
            U64_MAX as int,
            |rb: int| hex_text(spec_v0_random_bits(rb as u64), 32),
            r,
        ),
        InternalCli::EncodeV1Random { random } => hex_command(
            random@,
            U128_MAX as int,
            |rb: int| hex_text(spec_v1_random_bits(rb as u128), 32),
            r,
        ),
        InternalCli::CompactDataToString { bits } => hex_command(
            bits@,
            U128_MAX as int,
            |b: int| spec_data_string(spec_expand_data_bits(b as u128)),
            r,
        ),
        InternalCli::U128ToUuid { u128_hex, upper } => hex_command(
            u128_hex@,
            U128_MAX as int,
            |v: int| spec_uuid_string(v as u128, upper),
            r,
        ),
        InternalCli::ShowConstants => prints(r, constants_text()),
    }
}

/// Runs an internal command.
pub fn run_internal(cmd: InternalCli) -> (r: CommandOutput)
    ensures
        internal_outcome(cmd, r),
{
    match cmd {
        InternalCli::EncodeName { name } => {
            let n = match name_arg(name.as_str()) {
                Ok(n) => n,
                Err(m) => {
                    return failure(m);
                },
            };
            output(owned_line(name_bits_to_hex(name_mask(n))))
        },
        InternalCli::DecodeName { name_hex } => {
            let v = match hex_arg(name_hex.as_str(), U128_MAX) {
                Ok(v) => v,
                Err(m) => {
                    return failure(m);
                },
            };
            let id = v << 108u128;
            match extract_name_string(id) {
                Some(n) => output(owned_line(n)),
                None => failure(text_line("Error: invalid name bits")),
            }
        },
        InternalCli::MakeV0 { name, timestamp, random } => {
            let n = match name_arg(name.as_str()) {
                Ok(n) => n,
                Err(m) => {
                    return failure(m);
                },
            };
            let t = match hex_arg(timestamp.as_str(), U64_MAX) {
                Ok(t) => t,
                Err(m) => {
                    return failure(m);
                },
            };
            let rb = match hex_arg(random.as_str(), U64_MAX) {
                Ok(rb) => rb,
                Err(m) => {
                    return failure(m);
                },
            };
            match DynamicTnid::new_v0_with_parts(n, t as u64, rb as u64) {
                Some(d) => output(owned_line(d.to_tnid_string())),
                None => {
                    proof {
                        assert(false);
                    }
                    failure(String::new())
                },
            }
        },
        InternalCli::MakeV1 { name, random } => {
            let n = match name_arg(name.as_str()) {
                Ok(n) => n,
                Err(m) => {
                    return failure(m);
                },
            };
            let rb = match hex_arg(random.as_str(), U128_MAX) {
                Ok(rb) => rb,
                Err(m) => {
                    return failure(m);
                },
            };
            match DynamicTnid::new_v1_with_random(n, rb) {
                Some(d) => output(owned_line(d.to_tnid_string())),
                None => {
                    proof {
                        assert(false);
                    }
                    failure(String::new())
                },
            }
        },
        InternalCli::ExtractDataBits { id } => match parse_tnid_arg(id.as_str()) {
            Ok(d) => output(hex_line(extract_data_bits(d.as_u128()), 26)),
            Err(m) => failure(m),
        },
        InternalCli::ExpandDataBits { bits } => match hex_arg(bits.as_str(), U128_MAX) {
            Ok(b) => output(hex_line(expand_data_bits(b), 32)),
            Err(m) => failure(m),
        },
        InternalCli::ExtractSecretDataBits { id } => match parse_tnid_arg(id.as_str()) {
            Ok(d) => output(hex_line(extract_secret_data_bits(d.as_u128()), 25)),
            Err(m) => failure(m),
        },
        InternalCli::ExpandSecretDataBits { bits } => match hex_arg(bits.as_str(), U128_MAX) {
            Ok(b) => output(hex_line(expand_secret_data_bits(b), 32)),
            Err(m) => failure(m),
        },
        InternalCli::StringToIdData { string } => match string_to_id_data(string.as_str()) {
            Ok(x) => output(hex_line(x, 26)),
            Err(e) => failure(message_line("Error decoding data string: ", e.message())),
        },
        InternalCli::EncryptRaw { data, key } => {
            let d = match hex_arg(data.as_str(), U128_MAX) {
                Ok(d) => d,
                Err(m) => {
                    return failure(m);
                },
            };
            match EncryptionKey::from_hex(key.as_str()) {
                Ok(k) => output(hex_line(encrypt_raw(d, &k), 25)),
                Err(e) => failure(message_line("Error parsing encryption key: ", e.message())),
            }
        },
        InternalCli::DecryptRaw { data, key } => {
            let d = match hex_arg(data.as_str(), U128_MAX) {
                Ok(d) => d,
                Err(m) => {
                    return failure(m);
                },
            };
            match EncryptionKey::from_hex(key.as_str()) {
                Ok(k) => output(hex_line(decrypt_raw(d, &k), 25)),
                Err(e) => failure(message_line("Error parsing encryption key: ", e.message())),
            }
        },
        InternalCli::ChangeVariant { id, variant } => {
            let d = match parse_tnid_arg(id.as_str()) {
                Ok(d) => d,
                Err(m) => {
                    return failure(m);
                },
            };
            let to = match variant {
                0 => TNIDVariant::V0,
                1 => TNIDVariant::V1,
                2 => TNIDVariant::V2,
                3 => TNIDVariant::V3,
                _ => {
                    return failure(text_line("Error: variant must be 0-3"));
                },
            };
            let changed = change_variant(d.as_u128(), to);
            proof {
                lemma_change_variant(d@, variant);
                lemma_variant_kept_bits(d@, variant);
            }
            match DynamicTnid::from_u128(changed) {
                Some(t) => output(owned_line(t.to_tnid_string())),
                None => output(hex_line(changed, 32)),
            }
        },
        InternalCli::EncodeV0Timestamp { millis } => match hex_arg(millis.as_str(), U64_MAX) {
            Ok(m) => output(hex_line(millis_mask(m as u64), 32)),
            Err(m) => failure(m),
        },
        InternalCli::EncodeV0Random { random } => match hex_arg(random.as_str(), U64_MAX) {
            Ok(rb) => output(hex_line(crate::v0::random_bits_mask(rb as u64), 32)),
            Err(m) => failure(m),
        },
        InternalCli::EncodeV1Random { random } => match hex_arg(random.as_str(), U128_MAX) {
            Ok(rb) => output(hex_line(crate::v1::random_bits_mask(rb), 32)),
            Err(m) => failure(m),
        },
        InternalCli::CompactDataToString { bits } => match hex_arg(bits.as_str(), U128_MAX) {
            Ok(b) => output(owned_line(id_data_to_string(expand_data_bits(b)))),
            Err(m) => failure(m),
        },
        InternalCli::U128ToUuid { u128_hex, upper } => match hex_arg(u128_hex.as_str(), U128_MAX) {
            Ok(v) => {
                let case = if upper {
                    Case::Upper
                } else {
                    Case::Lower
                };
                output(owned_line(u128_to_uuid_string(v, case)))
            },
            Err(m) => failure(m),
        },
        InternalCli::ShowConstants => show_constants(),
    }
}

/// Changing the variant of a TNID keeps it a TNID.
proof fn lemma_variant_kept_bits(id: u128, variant: u8)
    requires
        is_tnid_bits(id),
        variant < 4,
    ensures
        is_tnid_bits(spec_change_variant(id, variant)),
{
    lemma_change_variant(id, variant);
    let x = spec_change_variant(id, variant);
    assert(x & 0xfffff000_0000_f000_c000_000000000000u128 == id
        & 0xfffff000_0000_f000_c000_000000000000u128) by (bit_vector)
        requires
            x & !0x00000000_0000_0000_3000_000000000000u128 == id
                & !0x00000000_0000_0000_3000_000000000000u128,
    ;
    lemma_same_kept_bits(x, id, seq![]);
}

/// What running a command gives.
pub open spec fn run_outcome(cli: Cli, r: CommandOutput) -> bool {
    match cli {
        Cli::Generate { name, variant, output } => generate_outcome(name@, variant, output, r),
        Cli::Encrypt { id, key, passthrough } => encrypt_outcome(id@, key@, passthrough, r),
        Cli::Decrypt { id, key, passthrough } => decrypt_outcome(id@, key@, passthrough, r),
        Cli::Inspect { id } => inspect_outcome(id@, r),
        Cli::ValidateName { name } => validate_name_outcome(name@, r),
        Cli::Internals(cmd) => internal_outcome(cmd, r),
    }
}

/// Runs a command of the `tnid` program.
pub fn run(cli: Cli) -> (r: CommandOutput)
    ensures
        run_outcome(cli, r),
{
    match cli {
        Cli::Generate { name, variant, output } => generate(name.as_str(), variant, output),
        Cli::Encrypt { id, key, passthrough } => encrypt(id.as_str(), key.as_str(), passthrough),
        Cli::Decrypt { id, key, passthrough } => decrypt(id.as_str(), key.as_str(), passthrough),
        Cli::Inspect { id } => inspect(id.as_str()),
        Cli::ValidateName { name } => validate_name(name.as_str()),
        Cli::Internals(cmd) => run_internal(cmd),
    }
}

} // verus!
