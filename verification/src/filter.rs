//! Generating TNIDs whose data string holds none of a list of blocked words.
//!
//! Matching is ASCII case-insensitive and runs on the data part of the TNID string.
use vstd::prelude::*;

use aho_corasick::AhoCorasick;
use std::sync::atomic::AtomicU64;

use crate::clock::{epoch_millis_from_nanos, now_utc, unix_timestamp_nanos};
use crate::encryption::{spec_encryption_error_message, EncryptionError};
use crate::text::{push_decimal, push_str, spec_decimal};
use vstd::string::StringSliceAdditionalSpecFns;

verus! {

/// Maximum iterations of v0 filtering before giving up.
pub const MAX_V0_ITERATIONS: u32 = 1000;

/// Maximum iterations of v1 filtering before giving up.
pub const MAX_V1_ITERATIONS: u32 = 100;

/// Maximum iterations when filtering both a v0 id and its encryption.
pub const MAX_ENCRYPTION_ITERATIONS: u32 = 10000;

/// The index of the first character of the data string that holds random bits in a
/// v0 id. Characters 0-6 hold only timestamp bits.
pub const FIRST_CHAR_WITH_RANDOM: usize = 7;

/// Error returned when filtered id generation fails.
#[derive(Debug, Clone, PartialEq, Eq)]
#[non_exhaustive]
pub enum FilterError {
    /// Maximum iterations reached without finding a clean id.
    MaxIterationsExceeded {
        /// Number of iterations attempted
        iterations: u32,
    },
    /// Encryption error when using filtered encryption functions.
    EncryptionError(EncryptionError),
}

/// The description of a filtering error.
pub open spec fn spec_filter_error_message(e: FilterError) -> Seq<char> {
    match e {
        FilterError::MaxIterationsExceeded { iterations } => "failed to generate clean ID after "@
            + spec_decimal(iterations as nat) + " iterations; blocklist may be too restrictive"@,
        FilterError::EncryptionError(e) => "encryption error: "@ + spec_encryption_error_message(e),
    }
}

impl FilterError {
    /// A description of the error.
    pub fn message(&self) -> (r: String)
        ensures
            r@ == spec_filter_error_message(*self),
    {
        let mut s = String::new();
        match self {
            FilterError::MaxIterationsExceeded { iterations } => {
                push_str(&mut s, "failed to generate clean ID after ");
                push_decimal(&mut s, *iterations as u128);
                push_str(&mut s, " iterations; blocklist may be too restrictive");
            },
            FilterError::EncryptionError(e) => {
                push_str(&mut s, "encryption error: ");
                push_str(&mut s, e.message().as_str());
            },
        }
        proof {
            assert(s@ =~= spec_filter_error_message(*self));
        }
        s
    }
}

/// An Aho-Corasick automaton from the `aho_corasick` crate.
#[verifier::external_type_specification]
#[verifier::external_body]
pub struct ExAhoCorasick(AhoCorasick);

/// The patterns an automaton was built from, as bytes.
pub uninterp spec fn automaton_patterns(ac: AhoCorasick) -> Seq<Seq<u8>>;

/// ASCII case folding of a byte (`A-Z` to `a-z`).
pub open spec fn ascii_fold(b: u8) -> u8 {
    if 65 <= b <= 90 {
        (b + 32) as u8
    } else {
        b
    }
}

/// `p` occurs in `t` at position `i`, ignoring ASCII case.
pub open spec fn occurs_at(p: Seq<u8>, t: Seq<u8>, i: int) -> bool {
    &&& 0 <= i
    &&& i + p.len() <= t.len()
    &&& forall|j: int| 0 <= j < p.len() ==> #[trigger] ascii_fold(t[i + j]) == ascii_fold(p[j])
}

/// Some pattern occurs somewhere in `t`, ignoring ASCII case.
pub open spec fn has_match(pats: Seq<Seq<u8>>, t: Seq<u8>) -> bool {
    exists|k: int, i: int| 0 <= k < pats.len() && #[trigger] occurs_at(pats[k], t, i)
}

/// The non-empty patterns among `ps`, in order, as bytes.
pub open spec fn non_empty_patterns(ps: Seq<&str>) -> Seq<Seq<u8>>
    decreases ps.len(),
{
    if ps.len() == 0 {
        Seq::empty()
    } else {
        let rest = non_empty_patterns(ps.drop_last());
        if ps.last().spec_bytes().len() == 0 {
            rest
        } else {
            rest.push(ps.last().spec_bytes())
        }
    }
}

/// The most bytes, over all its words, that a blocklist may hold.
///
/// Building the automaton fails only when one of its internal counts (patterns,
/// pattern length, states, transitions, match entries) passes `i32::MAX - 1`. With at
/// most this many pattern bytes there are at most that many patterns and bytes per
/// pattern, a few more states than bytes, fewer than 257 transitions per state, and at
/// most one match entry per state and pattern, so every count stays far below it.
pub const MAX_BLOCKLIST_BYTES: usize = 40000;

/// The number of bytes of all the words.
pub open spec fn total_bytes(ps: Seq<&str>) -> int
    decreases ps.len(),
{
    if ps.len() == 0 {
        0
    } else {
        total_bytes(ps.drop_last()) + ps.last().spec_bytes().len()
    }
}

/// Calls `AhoCorasick::builder().ascii_case_insensitive(true).build(patterns)`
/// (crate `aho_corasick`).
///
/// Claimed of the outside code: the automaton holds exactly the given patterns, in
/// order. Building fails, and this would panic, only when an internal count passes
/// `i32::MAX - 1`, which the bound on the pattern bytes rules out.
#[verifier::external_body]
fn build_case_insensitive(patterns: &Vec<&str>) -> (r: AhoCorasick)
    requires
        total_bytes(patterns@) <= MAX_BLOCKLIST_BYTES,
    ensures
        automaton_patterns(r) == patterns@.map_values(|p: &str| p.spec_bytes()),
{
    AhoCorasick::builder().ascii_case_insensitive(true).build(patterns).expect(
        "failed to build Aho-Corasick automaton",
    )
}

/// Calls `AhoCorasick::is_match` (crate `aho_corasick`): whether some pattern occurs
/// in the text, ignoring ASCII case (the automaton is case-insensitive).
#[verifier::external_body]
fn automaton_is_match(ac: &AhoCorasick, text: &str) -> (r: bool)
    ensures
        r == has_match(automaton_patterns(*ac), text.spec_bytes()),
{
    ac.is_match(text)
}

/// Calls `AhoCorasick::find` (crate `aho_corasick`) and returns the start and length
/// of the match.
///
/// Claimed of the outside code: there is a match exactly when some pattern occurs, and
/// a reported match is an occurrence of one of the patterns. Which occurrence is
/// reported when there are several (the one the automaton sees first) is not stated.
#[verifier::external_body]
fn automaton_find(ac: &AhoCorasick, text: &str) -> (r: Option<(usize, usize)>)
    ensures
        r is None <==> !has_match(automaton_patterns(*ac), text.spec_bytes()),
        r matches Some(m) ==> exists|k: int|
            0 <= k < automaton_patterns(*ac).len() && automaton_patterns(*ac)[k].len() == m.1
                && #[trigger] occurs_at(automaton_patterns(*ac)[k], text.spec_bytes(), m.0 as int),
{
    match ac.find(text) {
        Some(m) => Some((m.start(), m.len())),
        None => None,
    }
}

/// A compiled blocklist for ASCII case-insensitive substring matching.
#[derive(Debug)]
pub struct Blocklist {
    automaton: AhoCorasick,
    /// The last timestamp that gave a clean v0 id, so later calls skip known bad windows.
    last_safe_timestamp: AtomicU64,
}

impl Blocklist {
    #[verifier::type_invariant]
    pub(crate) open spec fn wf(self) -> bool {
        forall|k: int| 0 <= k < self.patterns().len() ==> #[trigger] self.patterns()[k].len() > 0
    }

    /// The (non-empty) words of the blocklist, as bytes.
    pub closed spec fn patterns(&self) -> Seq<Seq<u8>> {
        automaton_patterns(self.automaton)
    }

    /// Creates a new blocklist from the given words; empty words are ignored.
    ///
    /// The words may hold at most [`MAX_BLOCKLIST_BYTES`] bytes in all: the automaton
    /// cannot be built for far larger lists.
    pub fn new(patterns: &[&str]) -> (r: Self)
        requires
            total_bytes(patterns@) <= MAX_BLOCKLIST_BYTES,
        ensures
            r.patterns() == non_empty_patterns(patterns@),
    {
        let mut non_empty: Vec<&str> = Vec::new();
        let mut i: usize = 0;
        while i < patterns.len()
            invariant
                i <= patterns@.len(),
                non_empty@.map_values(|p: &str| p.spec_bytes()) == non_empty_patterns(
                    patterns@.take(i as int),
                ),
                total_bytes(non_empty@) == total_bytes(patterns@.take(i as int)),
            decreases patterns@.len() - i,
        {
            let p = patterns[i];
            proof {
                assert(patterns@.take(i + 1).drop_last() =~= patterns@.take(i as int));
            }
            if !p.is_empty() {
                proof {
                    assert(non_empty@.push(p).drop_last() =~= non_empty@);
                }
                non_empty.push(p);
                proof {
                    assert(non_empty@.map_values(|p: &str| p.spec_bytes()) =~= non_empty_patterns(
                        patterns@.take(i as int),
                    ).push(p.spec_bytes()));
                }
            }
            i += 1;
        }
        proof {
            assert(patterns@.take(patterns@.len() as int) =~= patterns@);
            lemma_non_empty_patterns(patterns@);
        }
        let automaton = build_case_insensitive(&non_empty);
        Blocklist { automaton, last_safe_timestamp: AtomicU64::new(0) }
    }

    /// Returns `true` if the text contains any blocklisted word (ignoring ASCII case).
    pub fn contains_match(&self, text: &str) -> (r: bool)
        ensures
            r == has_match(self.patterns(), text.spec_bytes()),
    {
        automaton_is_match(&self.automaton, text)
    }

    /// The starting timestamp for filtered v0 generation: the later of the current
    /// time (in milliseconds) and the last known safe timestamp.
    ///
    /// Nothing is stated of the result: it rests on the clock and on a value shared
    /// between threads, and neither has a specification here.
    pub(crate) fn get_starting_timestamp(&self) -> u64 {
        let current = epoch_millis_from_nanos(unix_timestamp_nanos(&now_utc()));
        let last_safe = self.last_safe_timestamp.load(std::sync::atomic::Ordering::Relaxed);
        if current >= last_safe {
            current
        } else {
            last_safe
        }
    }

    /// Records a safe timestamp after successfully generating a filtered id.
    pub(crate) fn record_safe_timestamp(&self, timestamp: u64) {
        self.last_safe_timestamp.fetch_max(timestamp, std::sync::atomic::Ordering::Relaxed);
    }
}

proof fn lemma_non_empty_patterns(ps: Seq<&str>)
    ensures
        forall|k: int|
            0 <= k < non_empty_patterns(ps).len() ==> #[trigger] non_empty_patterns(ps)[k].len()
                > 0,
    decreases ps.len(),
{
    if ps.len() > 0 {
        lemma_non_empty_patterns(ps.drop_last());
        let rest = non_empty_patterns(ps.drop_last());
        if ps.last().spec_bytes().len() != 0 {
            assert forall|k: int| 0 <= k < rest.push(ps.last().spec_bytes()).len() implies #[trigger] rest.push(
                ps.last().spec_bytes(),
            )[k].len() > 0 by {
                if k < rest.len() {
                    assert(rest.push(ps.last().spec_bytes())[k] == rest[k]);
                }
            }
        }
    }
}

/// Whether a match at `match_start` of length `match_len` touches a character that
/// holds random bits (so that new random bits may remove it).
pub fn match_touches_random_portion(match_start: usize, match_len: usize) -> (r: bool)
    requires
        match_start + match_len <= usize::MAX,
    ensures
        r == (match_start + match_len > FIRST_CHAR_WITH_RANDOM),
{
    match_start + match_len > FIRST_CHAR_WITH_RANDOM
}

/// The smallest timestamp bump (in ms) that changes data character `char_pos` (0-6)
/// of a v0 id: `2^(42 - 6*char_pos)`.
pub fn timestamp_bump_for_char(char_pos: usize) -> (r: u64)
    requires
        char_pos <= 6,
    ensures
        r == 1u64 << (42 - 6 * char_pos) as u64,
{
    1u64 << ((42 - 6 * char_pos) as u64)
}

/// The timestamp to try after a match at `start` of length `len` was found in the
/// data string of a v0 id made at `timestamp`: unchanged when the match touches the
/// random characters (new random bits may remove it), else bumped (wrapping) just
/// enough to change the match's last character.
pub open spec fn spec_next_timestamp(timestamp: u64, start: usize, len: usize) -> u64 {
    if start + len > FIRST_CHAR_WITH_RANDOM {
        timestamp
    } else {
        timestamp.wrapping_add(1u64 << (42 - 6 * (start + len - 1)) as u64)
    }
}

/// Computes [`spec_next_timestamp`] for a match of at least one character.
pub(crate) fn next_timestamp(timestamp: u64, start: usize, len: usize) -> (r: u64)
    requires
        len >= 1,
        start + len <= usize::MAX,
    ensures
        r == spec_next_timestamp(timestamp, start, len),
{
    if match_touches_random_portion(start, len) {
        timestamp
    } else {
        let rightmost_char = start + len - 1;
        timestamp.wrapping_add(timestamp_bump_for_char(rightmost_char))
    }
}

/// Finds the first blocklist match in the text and returns its position and length.
pub fn find_first_match(blocklist: &Blocklist, text: &str) -> (r: Option<(usize, usize)>)
    ensures
        r is None <==> !has_match(blocklist.patterns(), text.spec_bytes()),
        r matches Some(m) ==> exists|k: int|
            0 <= k < blocklist.patterns().len() && blocklist.patterns()[k].len() == m.1
                && #[trigger] occurs_at(blocklist.patterns()[k], text.spec_bytes(), m.0 as int),
{
    let r = automaton_find(&blocklist.automaton, text);
    proof {
        let pats = blocklist.patterns();
        assert(pats == automaton_patterns(blocklist.automaton));
        if let Some(m) = r {
            let k = choose|k: int|
                0 <= k < automaton_patterns(blocklist.automaton).len() && automaton_patterns(
                    blocklist.automaton,
                )[k].len() == m.1 && #[trigger] occurs_at(
                    automaton_patterns(blocklist.automaton)[k],
                    text.spec_bytes(),
                    m.0 as int,
                );
            assert(occurs_at(pats[k], text.spec_bytes(), m.0 as int));
        }
    }
    r
}

} // verus!
