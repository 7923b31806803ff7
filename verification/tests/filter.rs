use tnid::filter::{
    find_first_match, match_touches_random_portion, timestamp_bump_for_char, Blocklist,
    FilterError, MAX_V0_ITERATIONS,
};
use tnid::{NameStr, Tnid, TnidName};

#[derive(Debug, PartialEq)]
struct TestId;
impl TnidName for TestId {
    fn id_name() -> NameStr<'static> {
        NameStr::new_const("test")
    }
}

#[test]
fn blocklist_matches_case_insensitive() {
    let blocklist = Blocklist::new(&["TACO", "FOO"]);

    assert!(blocklist.contains_match("TACO"));
    assert!(blocklist.contains_match("taco"));
    assert!(blocklist.contains_match("Taco"));
    assert!(blocklist.contains_match("xyzTACOxyz"));
    assert!(blocklist.contains_match("xyztacoxyz"));
    assert!(blocklist.contains_match("FOO"));
    assert!(blocklist.contains_match("foo"));

    assert!(!blocklist.contains_match("hello"));
    assert!(!blocklist.contains_match(""));
}

#[test]
fn blocklist_empty() {
    let blocklist = Blocklist::new(&[]);
    assert!(!blocklist.contains_match("anything"));
}

#[test]
fn blocklist_ignores_empty_patterns() {
    let blocklist = Blocklist::new(&["", "TACO", ""]);
    assert!(blocklist.contains_match("TACO"));
    assert!(!blocklist.contains_match("FOO"));
}

#[test]
fn find_first_match_returns_position() {
    let blocklist = Blocklist::new(&["TACO"]);

    let result = find_first_match(&blocklist, "xyzTACOxyz");
    assert_eq!(result, Some((3, 4)));

    let result = find_first_match(&blocklist, "hello");
    assert_eq!(result, None);
}

#[test]
fn match_position_classification() {
    assert!(!match_touches_random_portion(0, 3));
    assert!(!match_touches_random_portion(4, 3));
    assert!(!match_touches_random_portion(0, 7));

    assert!(match_touches_random_portion(5, 3));
    assert!(match_touches_random_portion(7, 3));
    assert!(match_touches_random_portion(8, 3));
    assert!(match_touches_random_portion(14, 3));
}

#[test]
fn timestamp_bump_values() {
    assert_eq!(timestamp_bump_for_char(6), 64);

    assert_eq!(timestamp_bump_for_char(5), 4096);

    assert_eq!(timestamp_bump_for_char(4), 262144);

    assert_eq!(timestamp_bump_for_char(3), 1 << 24);

    assert_eq!(timestamp_bump_for_char(0), 1 << 42);
}

#[test]
fn find_first_match_ignores_case() {
    let blocklist = Blocklist::new(&["bar", "zz"]);
    assert_eq!(find_first_match(&blocklist, "--BAR--"), Some((2, 3)));
    assert_eq!(find_first_match(&blocklist, "aZz"), Some((1, 2)));
}

#[test]
fn filter_error_holds_iterations() {
    let e = FilterError::MaxIterationsExceeded {
        iterations: MAX_V0_ITERATIONS,
    };
    assert_eq!(
        e,
        FilterError::MaxIterationsExceeded { iterations: 1000 }
    );
}

#[test]
fn blocklist_matching_every_character_exhausts_v1_filtering() {
    // Every data string holds one of these single characters, so no clean id exists.
    let all: Vec<String> = "-0123456789abcdefghijklmnopqrstuvwxyz_"
        .chars()
        .map(|c| c.to_string())
        .collect();
    let words: Vec<&str> = all.iter().map(|s| s.as_str()).collect();
    let blocklist = Blocklist::new(&words);
    assert_eq!(
        Tnid::<TestId>::new_v1_filtered(&blocklist),
        Err(FilterError::MaxIterationsExceeded { iterations: 100 })
    );
}

#[test]
fn single_tries_of_filtered_generation() {
    let ts: u64 = 1_750_000_000_000;
    let id = Tnid::<TestId>::new_v0_with_parts(ts, 42);
    let data = id.data_string();

    // A clean try gives the id itself.
    let clean = Blocklist::new(&["#"]);
    assert_eq!(
        Tnid::<TestId>::try_v0_filtered(&clean, ts, 42).unwrap().as_u128(),
        id.as_u128()
    );

    // A word in the timestamp characters moves the timestamp past it.
    let early = Blocklist::new(&[&data[0..3]]);
    let next = Tnid::<TestId>::try_v0_filtered(&early, ts, 42).unwrap_err();
    assert!(next > ts);

    // A word touching the random characters keeps the timestamp.
    let late = Blocklist::new(&[&data[10..13]]);
    assert_eq!(Tnid::<TestId>::try_v0_filtered(&late, ts, 42).unwrap_err(), ts);

    // v1 tries: clean gives the id, a match gives nothing.
    let v1 = Tnid::<TestId>::new_v1_with_random(7);
    assert_eq!(
        Tnid::<TestId>::try_v1_filtered(&clean, 7).unwrap().as_u128(),
        v1.as_u128()
    );
    let v1_data = v1.data_string();
    let blocks_v1 = Blocklist::new(&[&v1_data[5..9]]);
    assert!(Tnid::<TestId>::try_v1_filtered(&blocks_v1, 7).is_none());
}

#[test]
fn single_try_for_encryption() {
    let key = tnid::encryption::EncryptionKey::new([3u8; 16]);
    let ts: u64 = 1_750_000_000_000;
    let v0 = Tnid::<TestId>::new_v0_with_parts(ts, 99);
    let v1 = v0.encrypt_v0_to_v1(&key).unwrap();

    let clean = Blocklist::new(&["#"]);
    assert_eq!(
        Tnid::<TestId>::try_v0_filtered_for_encryption(&key, &clean, ts, 99)
            .unwrap()
            .as_u128(),
        v0.as_u128()
    );

    // Only the encryption holds the word (when the v0 data does not): same timestamp.
    let v1_data = v1.data_string();
    let word = &v1_data[0..17];
    let blocks_v1 = Blocklist::new(&[word]);
    if !blocks_v1.contains_match(&v0.data_string()) {
        assert_eq!(
            Tnid::<TestId>::try_v0_filtered_for_encryption(&key, &blocks_v1, ts, 99).unwrap_err(),
            ts
        );
    }
}
