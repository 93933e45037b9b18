//! The size that a provider reports in its log.
//!
//! After a run the log is searched with a pattern; the first group of the
//! last match is the size, kept as text (`1.33T`). A log without a match gives
//! the empty string.

use vstd::prelude::*;
use vstd::slice::slice_to_vec;
use vstd::string::StringExecFns;
use vstd::string::StrSliceExecFns;
use vstd::utf8::{decode_utf8, encode_utf8, valid_utf8};

use crate::text::string_from_utf8;
use crate::text::str_eq;

verus! {

/// What the `regex` crate finds when `pattern` is compiled and every
/// non-overlapping match in `haystack` is taken in order: for each match its
/// groups, the whole match first, a group that took no part as `None`.
/// `None` where the pattern does not compile.
pub uninterp spec fn regex_captures(pattern: Seq<char>, haystack: Seq<char>) -> Option<
    Seq<Seq<Option<Seq<char>>>>,
>;

/// `regex::Regex::new` on `pattern`, then `Regex::captures_iter` on
/// `haystack`, each `Captures` read with `Captures::iter` and each `Match`
/// with `Match::as_str`. The contract only names the result.
#[verifier::external_body]
fn regex_captures_all(pattern: &str, haystack: &str) -> (found: Option<Vec<Vec<Option<String>>>>)
    ensures
        found.deep_view() == regex_captures(pattern@, haystack@),
{
    match regex::Regex::new(pattern) {
        Ok(re) => Some(
            re.captures_iter(haystack).map(
                |caps| caps.iter().map(|group| group.map(|m| m.as_str().to_string())).collect(),
            ).collect(),
        ),
        Err(_) => None,
    }
}

/// A pattern that does not compile.
#[derive(Debug)]
pub struct InvalidPattern {
    pub pattern: String,
}

/// The pattern for the size line of an rsync log.
pub open spec fn rsync_size_pattern() -> Seq<char> {
    "(?m)^Total file size: ([0-9\\.]+[KMGTP]?) bytes"@
}

/// The name that stands for no log at all.
pub open spec fn null_log_name() -> Seq<char> {
    "/dev/null"@
}

/// Whether a log file of this name can hold a size: the null device cannot.
pub fn is_usable_log_file(file_name: &str) -> (usable: bool)
    ensures
        usable == (file_name@ != null_log_name()),
{
    !str_eq(file_name, "/dev/null")
}

/// The bytes of one group: empty where the group took no part in the match.
pub open spec fn group_bytes(group: Option<Seq<char>>) -> Seq<u8> {
    match group {
        Some(text) => encode_utf8(text),
        None => Seq::empty(),
    }
}

/// The groups of one match without the whole match, as bytes.
pub open spec fn submatch_bytes(groups: Seq<Option<Seq<char>>>) -> Seq<Seq<u8>> {
    Seq::new(
        if groups.len() == 0 {
            0
        } else {
            (groups.len() - 1) as nat
        },
        |i: int| group_bytes(groups[i + 1]),
    )
}

/// The groups of every match without the whole match, as bytes.
pub open spec fn all_submatch_bytes(captures: Seq<Seq<Option<Seq<char>>>>) -> Seq<Seq<Seq<u8>>> {
    Seq::new(captures.len(), |i: int| submatch_bytes(captures[i]))
}

/// A byte vector has nothing deeper to view than its bytes.
pub proof fn lemma_bytes_deep_view(bytes: Vec<u8>)
    ensures
        bytes.deep_view() == bytes@,
{
    assert(bytes.deep_view() =~= bytes@);
}

/// Turns what a search found into the submatches of each match.
pub fn submatches_of(captures: &Vec<Vec<Option<String>>>) -> (matches: Vec<Vec<Vec<u8>>>)
    ensures
        matches.deep_view() == all_submatch_bytes(captures.deep_view()),
{
    let mut matches: Vec<Vec<Vec<u8>>> = Vec::new();
    let mut i: usize = 0;
    while i < captures.len()
        invariant
            i <= captures.len(),
            matches.len() == i,
            forall|k: int|
                0 <= k < i ==> #[trigger] matches[k].deep_view() == submatch_bytes(
                    captures[k].deep_view(),
                ),
        decreases captures.len() - i,
    {
        let caps = &captures[i];
        let mut groups: Vec<Vec<u8>> = Vec::new();
        let mut j: usize = 1;
        while j < caps.len()
            invariant
                1 <= j,
                j <= caps.len() || j == 1,
                groups.len() == j - 1,
                forall|k: int|
                    0 <= k < groups.len() ==> #[trigger] groups[k]@ == group_bytes(
                        caps[k + 1].deep_view(),
                    ),
            decreases caps.len() - j,
        {
            match &caps[j] {
                Some(text) => groups.push(text.as_str().as_bytes_vec()),
                None => groups.push(Vec::new()),
            }
            j += 1;
        }
        assert(groups.deep_view() =~= submatch_bytes(caps.deep_view())) by {
            let deep = caps.deep_view();
            assert(deep.len() == caps.len());
            assert(groups.deep_view().len() == groups.len());
            assert(submatch_bytes(deep).len() == groups.len());
            assert forall|k: int| 0 <= k < groups.len() implies #[trigger] groups.deep_view()[k]
                == submatch_bytes(deep)[k] by {
                lemma_bytes_deep_view(groups[k]);
                assert(deep[k + 1] == caps[k + 1].deep_view());
            }
        }
        matches.push(groups);
        i += 1;
    }
    assert(matches.deep_view() =~= all_submatch_bytes(captures.deep_view()));
    matches
}

/// Every match of `pattern` in `content`, each as the bytes of its groups.
/// Fails exactly when the pattern does not compile.
pub fn find_all_submatch(content: &str, pattern: &str) -> (r: Result<
    Vec<Vec<Vec<u8>>>,
    InvalidPattern,
>)
    ensures
        match regex_captures(pattern@, content@) {
            Some(captures) => r is Ok && r->Ok_0.deep_view() == all_submatch_bytes(captures),
            None => r is Err && r->Err_0.pattern@ == pattern@,
        },
{
    match regex_captures_all(pattern, content) {
        Some(captures) => Ok(submatches_of(&captures)),
        None => Err(InvalidPattern { pattern: String::from_str(pattern) }),
    }
}

/// The size among the matches: the first group of the last match, where
/// there is one and it is text; else the empty string.
pub open spec fn size_of_matches(matches: Seq<Seq<Seq<u8>>>) -> Seq<char> {
    if matches.len() == 0 {
        Seq::empty()
    } else if matches.last().len() == 0 {
        Seq::empty()
    } else if valid_utf8(matches.last()[0]) {
        decode_utf8(matches.last()[0])
    } else {
        Seq::empty()
    }
}

/// Picks the size out of the matches of a size pattern.
pub fn size_from_matches(matches: &Vec<Vec<Vec<u8>>>) -> (size: String)
    ensures
        size@ == size_of_matches(matches.deep_view()),
{
    if matches.len() == 0 {
        return String::new();
    }
    let last = &matches[matches.len() - 1];
    assert(matches.deep_view().last() == last.deep_view());
    if last.len() == 0 {
        return String::new();
    }
    proof {
        lemma_bytes_deep_view(last[0]);
    }
    match string_from_utf8(slice_to_vec(last[0].as_slice())) {
        Some(size) => {
            proof {
                vstd::utf8::encode_utf8_decode_utf8(size@);
            }
            size
        },
        None => String::new(),
    }
}

/// The size that `content` reports by `pattern`, or the empty string where
/// nothing matches or the pattern does not compile.
pub open spec fn reported_size(content: Seq<char>, pattern: Seq<char>) -> Seq<char> {
    match regex_captures(pattern, content) {
        Some(captures) => size_of_matches(all_submatch_bytes(captures)),
        None => Seq::empty(),
    }
}

/// Extracts the reported size from the text of a log. Never fails: no match
/// is the empty string.
pub fn extract_size_from_log(content: &str, pattern: &str) -> (size: String)
    ensures
        size@ == reported_size(content@, pattern@),
{
    match find_all_submatch(content, pattern) {
        Ok(matches) => size_from_matches(&matches),
        Err(_) => String::new(),
    }
}

/// Extracts the total file size from the text of an rsync log.
pub fn extract_size_from_rsync_log(content: &str) -> (size: String)
    ensures
        size@ == reported_size(content@, rsync_size_pattern()),
{
    extract_size_from_log(content, "(?m)^Total file size: ([0-9\\.]+[KMGTP]?) bytes")
}

/// The pattern for the size line of an rsync log, as text.
pub fn rsync_pattern() -> (pattern: &'static str)
    ensures
        pattern@ == rsync_size_pattern(),
{
    "(?m)^Total file size: ([0-9\\.]+[KMGTP]?) bytes"
}

/// The size that a log file reports. The null device reports none, and
/// neither does a file that could not be read (`content` is `None`); for
/// any other file it is what its content reports by the pattern.
pub fn size_of_log(file_name: &str, content: Option<&str>, pattern: &str) -> (size: String)
    ensures
        size@ == if file_name@ == null_log_name() || content is None {
            Seq::empty()
        } else {
            reported_size(content->0@, pattern@)
        },
{
    if !is_usable_log_file(file_name) {
        return String::new();
    }
    match content {
        Some(text) => extract_size_from_log(text, pattern),
        None => String::new(),
    }
}

} // verus!