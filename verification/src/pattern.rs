//! Matching of free-text transport messages against a table of phrases.
//!
//! The transport reports some fatal conditions only as text, so the engine
//! ends a transaction when a message contains one of a configured set of
//! phrases.

use vstd::prelude::*;

verus! {

/// The phrase with which the transport reports an invalid account index.
pub const INVALID_ACCOUNT_INDEX_MESSAGE: &'static str = "잘못된 계좌 인덱스 번호";

/// `pattern` occurs in `text` as a contiguous run of characters.
pub open spec fn has_substring(text: Seq<char>, pattern: Seq<char>) -> bool {
    exists|k: int|
        0 <= k && k + pattern.len() <= text.len() && #[trigger] text.subrange(
            k,
            k + pattern.len(),
        ) == pattern
}

/// The texts of a table of phrases.
pub open spec fn pattern_texts(patterns: Seq<String>) -> Seq<Seq<char>> {
    patterns.map_values(|p: String| p@)
}

/// `text` contains at least one phrase of the table.
pub open spec fn matches_any(text: Seq<char>, patterns: Seq<Seq<char>>) -> bool {
    exists|i: int| 0 <= i < patterns.len() && has_substring(text, #[trigger] patterns[i])
}

/// The table the engine starts with: the one phrase observed from the
/// transport.
pub open spec fn default_fatal_pattern_texts() -> Seq<Seq<char>> {
    seq![INVALID_ACCOUNT_INDEX_MESSAGE@]
}

/// The characters of a string slice, in order.
pub fn to_chars(s: &str) -> (chars: Vec<char>)
    ensures
        chars@ == s@,
{
    let mut chars: Vec<char> = Vec::new();
    for c in it: s.chars()
        invariant
            chars@ == it.seq().take(it.index() as int),
            it.seq() == s@,
    {
        chars.push(c);
    }
    chars
}

/// Whether `pattern` occurs in `text` at position `at`.
fn occurs_at(text: &Vec<char>, pattern: &Vec<char>, at: usize) -> (found: bool)
    requires
        at + pattern.len() <= text.len(),
    ensures
        found == (text@.subrange(at as int, at + pattern.len()) == pattern@),
{
    let mut j: usize = 0;
    while j < pattern.len()
        invariant
            j <= pattern.len(),
            at + pattern.len() <= text.len(),
            forall|m: int| 0 <= m < j ==> text@[at + m] == pattern@[m],
        decreases pattern.len() - j,
    {
        if text[at + j] != pattern[j] {
            assert(text@.subrange(at as int, at + pattern.len())[j as int] != pattern@[j as int]);
            return false;
        }
        j = j + 1;
    }
    assert(text@.subrange(at as int, at + pattern.len()) =~= pattern@);
    true
}

/// Whether `text` contains `pattern`. The empty pattern occurs in every text.
pub fn contains_pattern(text: &str, pattern: &str) -> (found: bool)
    ensures
        found == has_substring(text@, pattern@),
{
    let hay = to_chars(text);
    let needle = to_chars(pattern);
    if needle.len() > hay.len() {
        return false;
    }
    let last: usize = hay.len() - needle.len();
    let mut k: usize = 0;
    loop
        invariant
            hay@ == text@,
            needle@ == pattern@,
            last == hay.len() - needle.len(),
            needle.len() <= hay.len(),
            k <= last,
            forall|m: int| 0 <= m < k ==> #[trigger] hay@.subrange(m, m + needle.len()) != needle@,
        decreases last - k,
    {
        if occurs_at(&hay, &needle, k) {
            return true;
        }
        if k == last {
            return false;
        }
        k = k + 1;
    }
}

/// Whether `text` contains a phrase of the table `patterns`.
pub fn matches_fatal_pattern(text: &str, patterns: &Vec<String>) -> (fatal: bool)
    ensures
        fatal == matches_any(text@, pattern_texts(patterns@)),
{
    let mut i: usize = 0;
    while i < patterns.len()
        invariant
            i <= patterns.len(),
            forall|m: int|
                0 <= m < i ==> !has_substring(text@, #[trigger] pattern_texts(patterns@)[m]),
        decreases patterns.len() - i,
    {
        if contains_pattern(text, patterns[i].as_str()) {
            assert(pattern_texts(patterns@)[i as int] == patterns@[i as int]@);
            return true;
        }
        assert(pattern_texts(patterns@)[i as int] == patterns@[i as int]@);
        i = i + 1;
    }
    false
}

/// The table the engine starts with.
pub fn default_fatal_patterns() -> (patterns: Vec<String>)
    ensures
        pattern_texts(patterns@) == default_fatal_pattern_texts(),
{
    let mut patterns: Vec<String> = Vec::new();
    patterns.push(INVALID_ACCOUNT_INDEX_MESSAGE.to_owned());
    assert(pattern_texts(patterns@) =~= default_fatal_pattern_texts());
    patterns
}

} // verus!
