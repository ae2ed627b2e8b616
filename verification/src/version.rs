//! Toolchain version tokens: extraction and reconciliation.
//!
//! A version token is either a text that mentions the stable channel,
//! taken verbatim, or the first `YYYY-MM-DD` date substring found in a
//! free-form text.  Two tokens, one required and one installed, are
//! then compared for exact equality, with an ignore flag deciding
//! whether a mismatch is fatal.

use vstd::prelude::*;

use crate::text::{contains_str, contains_sub, find_sub, first_match_at, matches_at, str_eq};

verus! {

/// The character is an ASCII decimal digit.
pub open spec fn is_digit(c: char) -> bool {
    '0' <= c && c <= '9'
}

/// A `YYYY-MM-DD` date substring starts at character position `i`.
pub open spec fn is_date_at(s: Seq<char>, i: int) -> bool {
    &&& 0 <= i
    &&& i + 10 <= s.len()
    &&& is_digit(s[i])
    &&& is_digit(s[i + 1])
    &&& is_digit(s[i + 2])
    &&& is_digit(s[i + 3])
    &&& s[i + 4] == '-'
    &&& is_digit(s[i + 5])
    &&& is_digit(s[i + 6])
    &&& s[i + 7] == '-'
    &&& is_digit(s[i + 8])
    &&& is_digit(s[i + 9])
}

/// Some date substring occurs in `s`.
pub open spec fn has_date(s: Seq<char>) -> bool {
    exists|i: int| is_date_at(s, i)
}

/// The text is treated as naming the stable channel.
pub open spec fn mentions_stable(s: Seq<char>) -> bool {
    contains_sub(s, "stable"@)
}

/// `r` is the canonical version token of the text `s`: the text itself
/// when it mentions the stable channel, otherwise its first date
/// substring, and nothing when neither applies.
pub open spec fn is_token_of(s: Seq<char>, r: Option<Seq<char>>) -> bool {
    if mentions_stable(s) {
        r == Some(s)
    } else if has_date(s) {
        exists|i: int|
            {
                &&& is_date_at(s, i)
                &&& forall|j: int| 0 <= j < i ==> !is_date_at(s, j)
                &&& r == Some(s.subrange(i, i + 10))
            }
    } else {
        r is None
    }
}

fn date_at(txt: &str, i: usize) -> (r: bool)
    requires
        i + 10 <= txt@.len(),
        i + 10 <= usize::MAX,
    ensures
        r == is_date_at(txt@, i as int),
{
    let d0 = txt.get_char(i);
    let d1 = txt.get_char(i + 1);
    let d2 = txt.get_char(i + 2);
    let d3 = txt.get_char(i + 3);
    let h0 = txt.get_char(i + 4);
    let d4 = txt.get_char(i + 5);
    let d5 = txt.get_char(i + 6);
    let h1 = txt.get_char(i + 7);
    let d6 = txt.get_char(i + 8);
    let d7 = txt.get_char(i + 9);
    ('0' <= d0 && d0 <= '9') && ('0' <= d1 && d1 <= '9') && ('0' <= d2 && d2 <= '9') && ('0'
        <= d3 && d3 <= '9') && h0 == '-' && ('0' <= d4 && d4 <= '9') && ('0' <= d5 && d5 <= '9')
        && h1 == '-' && ('0' <= d6 && d6 <= '9') && ('0' <= d7 && d7 <= '9')
}

/// Position of the first date substring of `txt`, if any.
pub fn find_date(txt: &str) -> (r: Option<usize>)
    ensures
        match r {
            Some(i) => i + 10 <= usize::MAX && is_date_at(txt@, i as int) && (forall|j: int|
                0 <= j < i ==> !is_date_at(txt@, j)),
            None => !has_date(txt@),
        },
{
    let len = txt.unicode_len();
    if len < 10 {
        return None;
    }
    let mut i: usize = 0;
    while i <= len - 10
        invariant
            len == txt@.len(),
            10 <= len,
            i <= len - 10 + 1,
            forall|j: int| 0 <= j < i ==> !is_date_at(txt@, j),
        decreases len - i,
    {
        if date_at(txt, i) {
            return Some(i);
        }
        i = i + 1;
    }
    assert forall|j: int| !is_date_at(txt@, j) by {
        if 0 <= j && j + 10 <= txt@.len() {
            assert(j < len - 10 + 1);
        }
    }
    None
}

/// Canonical version token of a free-form text: the text itself when it
/// mentions the stable channel, otherwise its first `YYYY-MM-DD` date
/// substring; nothing when neither is present.
pub fn get_nightly_version(txt: &str) -> (r: Option<String>)
    ensures
        is_token_of(txt@, r.deep_view()),
        mentions_stable(txt@) ==> r is Some && r.unwrap()@ == txt@,
        !mentions_stable(txt@) && !has_date(txt@) ==> r is None,
{
    if contains_str(txt, "stable") {
        let out = txt.to_owned();
        Some(out)
    } else {
        match find_date(txt) {
            Some(i) => {
                let date = txt.substring_char(i, i + 10);
                let out = date.to_owned();
                Some(out)
            },
            None => None,
        }
    }
}

/// The version token of the locally installed toolchain, read from the
/// output of the toolchain introspection command: the output's text
/// from the first mention of the active-toolchain marker onward,
/// canonicalised to a version token.  Nothing comes back when the
/// marker is missing or the text after it holds no token.
pub fn rustc_version(output: &str) -> (r: Option<String>)
    ensures
        !contains_sub(output@, "active toolchain"@) ==> r is None,
        r is Some ==> contains_sub(output@, "active toolchain"@),
        forall|i: int|
            first_match_at(output@, "active toolchain"@, i) ==> is_token_of(
                output@.subrange(i, output@.len() as int),
                r.deep_view(),
            ),
{
    let len = output.unicode_len();
    match find_sub(output, "active toolchain") {
        Some(at) => {
            let active = output.substring_char(at, len);
            let r = get_nightly_version(active);
            proof {
                assert forall|i: int|
                    first_match_at(output@, "active toolchain"@, i) implies is_token_of(
                    output@.subrange(i, output@.len() as int),
                    r.deep_view(),
                ) by {
                    if i < at {
                        assert(!matches_at(output@, "active toolchain"@, i));
                    }
                    if at < i {
                        assert(matches_at(output@, "active toolchain"@, at as int));
                    }
                    assert(i == at);
                }
            }
            r
        },
        None => None,
    }
}

/// Outcome of holding the installed toolchain against the required one.
#[derive(Clone, Copy, Debug, PartialEq, Eq, Structural)]
pub enum VersionCheck {
    /// The two tokens are identical.
    Accepted,
    /// The tokens differ, but the caller asked to go on anyway.
    IgnoredMismatch,
    /// The tokens differ and the run must stop.
    FatalMismatch,
}

/// What the reconciliation decides for a given pair of tokens and flag.
pub open spec fn check_spec(required: Seq<char>, installed: Seq<char>, ignore: bool) -> VersionCheck {
    if required == installed {
        VersionCheck::Accepted
    } else if ignore {
        VersionCheck::IgnoredMismatch
    } else {
        VersionCheck::FatalMismatch
    }
}

/// Reconcile the required version token against the installed one.
pub fn assert_rust_version(required: &str, installed: &str, ignore_version: bool) -> (r:
    VersionCheck)
    ensures
        r == check_spec(required@, installed@, ignore_version),
        required@ == installed@ ==> r == VersionCheck::Accepted,
        required@ != installed@ && !ignore_version ==> r == VersionCheck::FatalMismatch,
{
    if str_eq(required, installed) {
        VersionCheck::Accepted
    } else if ignore_version {
        VersionCheck::IgnoredMismatch
    } else {
        VersionCheck::FatalMismatch
    }
}

/// The process status a fatal mismatch reports, and nothing else does.
pub fn mismatch_exit_status(r: &VersionCheck) -> (code: Option<i32>)
    ensures
        *r == VersionCheck::FatalMismatch <==> code == Some(-1i32),
        *r != VersionCheck::FatalMismatch <==> code is None,
{
    match r {
        VersionCheck::FatalMismatch => Some(-1),
        _ => None,
    }
}

/// Identical tokens on both sides never take a mismatch branch,
/// whatever the ignore flag says.
pub proof fn lemma_equal_tokens_always_pass(t: Seq<char>, ignore: bool)
    ensures
        check_spec(t, t, ignore) == VersionCheck::Accepted,
{
}

/// Differing tokens without the ignore flag stop the run with a
/// non-zero status.
pub proof fn lemma_mismatch_is_fatal(required: Seq<char>, installed: Seq<char>)
    requires
        required != installed,
    ensures
        check_spec(required, installed, false) == VersionCheck::FatalMismatch,
{
}

} // verus!
