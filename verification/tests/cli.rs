use tnid::cli::{run, Cli, InternalCli, OutputFormat};

fn internal(cmd: InternalCli) -> tnid::cli::CommandOutput {
    run(Cli::Internals(cmd))
}

#[test]
fn cli_validate_name() {
    let out = run(Cli::ValidateName {
        name: "user".to_string(),
    });
    assert!(out.success);
    assert_eq!(out.stdout, "valid\n");
    let out = run(Cli::ValidateName {
        name: "User".to_string(),
    });
    assert!(!out.success);
    assert_eq!(
        out.stdout,
        "invalid: invalid character 'U' (0x55) in name; only 0-4 and a-z are allowed\n"
    );
    assert_eq!(out.stderr, "");
}

#[test]
fn cli_encode_and_decode_name() {
    let out = internal(InternalCli::EncodeName {
        name: "user".to_string(),
    });
    assert_eq!(out.stdout, "d6157\n");
    let out = internal(InternalCli::DecodeName {
        name_hex: "d6157".to_string(),
    });
    assert_eq!(out.stdout, "user\n");
    let out = internal(InternalCli::DecodeName {
        name_hex: "0".to_string(),
    });
    assert!(!out.success);
    assert_eq!(out.stderr, "Error: invalid name bits\n");
}

#[test]
fn cli_inspect_documented_example() {
    let out = run(Cli::Inspect {
        id: "user.BsOdOgguzJorJeVH7".to_string(),
    });
    assert!(out.success, "{}", out.stderr);
    assert_eq!(
        out.stdout,
        "name: user\nname_hex: d6157\nvariant: V0\ntnid_string: user.BsOdOgguzJorJeVH7\nuuid_string: d6157338-6696-86cb-8ebf-534dd4aa0488\n"
    );
    let by_uuid = run(Cli::Inspect {
        id: "d6157338-6696-86cb-8ebf-534dd4aa0488".to_string(),
    });
    assert_eq!(by_uuid.stdout, out.stdout);
}

#[test]
fn cli_encrypt_decrypt_documented_example() {
    let key = "0102030405060708090a0b0c0d0e0f10".to_string();
    let out = run(Cli::Encrypt {
        id: "user.BsOdOgguzJorJeVH7".to_string(),
        key: key.clone(),
        passthrough: false,
    });
    assert!(out.success, "{}", out.stderr);
    assert_eq!(out.stdout, "user.-8hAMlKY0mjrmzQHv\n");
    let out = run(Cli::Decrypt {
        id: "user.-8hAMlKY0mjrmzQHv".to_string(),
        key: key.clone(),
        passthrough: false,
    });
    assert_eq!(out.stdout, "user.BsOdOgguzJorJeVH7\n");

    let out = run(Cli::Encrypt {
        id: "user.-8hAMlKY0mjrmzQHv".to_string(),
        key: key.clone(),
        passthrough: false,
    });
    assert!(!out.success);
    assert_eq!(out.stderr, "Error: TNID is already V1\n");
    let out = run(Cli::Encrypt {
        id: "user.-8hAMlKY0mjrmzQHv".to_string(),
        key,
        passthrough: true,
    });
    assert_eq!(out.stdout, "user.-8hAMlKY0mjrmzQHv\n");
}

#[test]
fn cli_bad_key_and_bad_id() {
    let out = run(Cli::Encrypt {
        id: "user.BsOdOgguzJorJeVH7".to_string(),
        key: "0102".to_string(),
        passthrough: false,
    });
    assert!(!out.success);
    assert_eq!(
        out.stderr,
        "Error parsing encryption key: encryption key hex string must be 32 characters, got 4\n"
    );
    let out = run(Cli::Inspect {
        id: "nothing".to_string(),
    });
    assert!(!out.success);
    assert!(out.stderr.starts_with("Error: input doesn't look like a TNID string"));
}

#[test]
fn cli_generate() {
    let out = run(Cli::Generate {
        name: "user".to_string(),
        variant: 0,
        output: OutputFormat::Tnid,
    });
    assert!(out.success);
    assert!(out.stdout.starts_with("user."));
    assert_eq!(out.stdout.len(), "user.".len() + 17 + 1);
    let out = run(Cli::Generate {
        name: "user".to_string(),
        variant: 1,
        output: OutputFormat::Uuid,
    });
    assert!(out.stdout.starts_with("d6157"));
    assert_eq!(out.stdout.len(), 37);
    let out = run(Cli::Generate {
        name: "user".to_string(),
        variant: 1,
        output: OutputFormat::U128,
    });
    assert!(out.stdout.starts_with("0xd6157"));
    assert_eq!(out.stdout.len(), 35);
    let out = run(Cli::Generate {
        name: "user".to_string(),
        variant: 2,
        output: OutputFormat::Tnid,
    });
    assert_eq!(out.stderr, "Error: variant 2 is reserved for future use\n");
    let out = run(Cli::Generate {
        name: "user".to_string(),
        variant: 9,
        output: OutputFormat::Tnid,
    });
    assert_eq!(out.stderr, "Error: variant must be 0-3, got 9\n");
    let out = run(Cli::Generate {
        name: "".to_string(),
        variant: 0,
        output: OutputFormat::Tnid,
    });
    assert_eq!(out.stderr, "Error: name cannot be empty\n");
}

#[test]
fn cli_hex_commands() {
    let out = internal(InternalCli::ExpandDataBits {
        bits: "0x3f".to_string(),
    });
    assert_eq!(out.stdout, "0x0000000000000000000000000000003f\n");
    let out = internal(InternalCli::ExtractDataBits {
        id: "user.BsOdOgguzJorJeVH7".to_string(),
    });
    assert!(out.stdout.starts_with("0x"));
    assert_eq!(out.stdout.len(), 2 + 26 + 1);
    let out = internal(InternalCli::U128ToUuid {
        u128_hex: "0x0x123".to_string(),
        upper: true,
    });
    assert_eq!(out.stdout, "00000000-0000-0000-0000-000000000123\n");
    let out = internal(InternalCli::U128ToUuid {
        u128_hex: "+abcDEF".to_string(),
        upper: false,
    });
    assert_eq!(out.stdout, "00000000-0000-0000-0000-000000abcdef\n");
    let out = internal(InternalCli::ExpandDataBits {
        bits: "xyz".to_string(),
    });
    assert_eq!(
        out.stderr,
        "Error parsing hex string 'xyz': invalid digit found in string\n"
    );
    let out = internal(InternalCli::ExpandDataBits {
        bits: "0x".to_string(),
    });
    assert_eq!(
        out.stderr,
        "Error parsing hex string '0x': cannot parse integer from empty string\n"
    );
    let out = internal(InternalCli::EncodeV0Timestamp {
        millis: "10000000000000000".to_string(),
    });
    assert_eq!(
        out.stderr,
        "Error parsing hex string '10000000000000000': number too large to fit in target type\n"
    );
    let out = internal(InternalCli::EncodeV0Timestamp {
        millis: "7".to_string(),
    });
    assert_eq!(out.stdout, "0x00000000000000000e00000000000000\n");
}

#[test]
fn cli_make_and_change_variant() {
    let out = internal(InternalCli::MakeV0 {
        name: "test".to_string(),
        timestamp: "0".to_string(),
        random: "0".to_string(),
    });
    assert_eq!(out.stdout, "test.-----------------\n");
    let out = internal(InternalCli::MakeV1 {
        name: "test".to_string(),
        random: "0".to_string(),
    });
    assert_eq!(out.stdout, "test.------0----------\n");
    let out = internal(InternalCli::ChangeVariant {
        id: "test.-----------------".to_string(),
        variant: 7,
    });
    assert_eq!(out.stderr, "Error: variant must be 0-3\n");
    let out = internal(InternalCli::ChangeVariant {
        id: "test.-----------------".to_string(),
        variant: 1,
    });
    assert!(out.success);
    assert_eq!(out.stdout, "test.------0----------\n");
    let back = internal(InternalCli::ChangeVariant {
        id: out.stdout.trim_end().to_string(),
        variant: 0,
    });
    assert_eq!(back.stdout, "test.-----------------\n");
}

#[test]
fn cli_string_to_id_data_and_back() {
    let out = internal(InternalCli::StringToIdData {
        string: "zzzzzzzzzzzzzzzzz".to_string(),
    });
    assert_eq!(out.stdout, "0x3fffffffffffffffffffffffff\n");
    let out = internal(InternalCli::CompactDataToString {
        bits: "3fffffffffffffffffffffffff".to_string(),
    });
    assert_eq!(out.stdout, "zzzzzzzzzzzzzzzzz\n");
    let out = internal(InternalCli::StringToIdData {
        string: "abc".to_string(),
    });
    assert_eq!(
        out.stderr,
        "Error decoding data string: data string must be 17 characters, got 3\n"
    );
}

#[test]
fn cli_raw_encryption_roundtrip() {
    let key = "0102030405060708090a0b0c0d0e0f10".to_string();
    let enc = internal(InternalCli::EncryptRaw {
        data: "123456789".to_string(),
        key: key.clone(),
    });
    assert!(enc.success);
    assert_eq!(enc.stdout.len(), 2 + 25 + 1);
    let dec = internal(InternalCli::DecryptRaw {
        data: enc.stdout.trim_end().to_string(),
        key,
    });
    assert_eq!(dec.stdout, "0x0000000000000000123456789\n");
}

#[test]
fn cli_show_constants() {
    let out = internal(InternalCli::ShowConstants);
    assert!(out.success);
    assert!(out.stdout.starts_with("--- Name Encoding ---\nNAME_MIN_CHARS:        1\n"));
    assert!(out.stdout.contains("\n   1: '0'\n"));
    assert!(out.stdout.contains("\n  31: 'z'\n"));
    assert!(out.stdout.contains("\n   0: '-'\n"));
    assert!(out.stdout.contains("\n--- V1 ---\nV1_RANDOM_MASK:              0x00000fffffff0fff0fffffffffffffff\n"));
    assert!(out.stdout.contains("V0_TIMESTAMP_FIRST_28_MASK:  0x000007ffffff8000\n"));
}
