//! Locating a byte pattern inside a buffer.
//!
//! Everything here compares byte for byte. A pattern may start at any index of
//! the buffer, so a keyword is found inside a longer run of bytes as well as on
//! its own.

use vstd::prelude::*;
use vstd::slice::slice_subrange;

verus! {

/// `needle` fills the window of `haystack` that starts at index `at`.
pub open spec fn occurs_at(haystack: Seq<u8>, needle: Seq<u8>, at: int) -> bool {
    &&& 0 <= at
    &&& at + needle.len() <= haystack.len()
    &&& haystack.subrange(at, at + needle.len()) =~= needle
}

/// `needle` occurs somewhere in `haystack` as a contiguous run.
pub open spec fn occurs_in(haystack: Seq<u8>, needle: Seq<u8>) -> bool {
    exists|at: int| occurs_at(haystack, needle, at)
}

/// `needle` occurs at `at`, and at no earlier index.
pub open spec fn is_first_occurrence(haystack: Seq<u8>, needle: Seq<u8>, at: int) -> bool {
    &&& occurs_at(haystack, needle, at)
    &&& forall|earlier: int| 0 <= earlier < at ==> !occurs_at(haystack, needle, earlier)
}

/// The index of the first occurrence of `needle` in `haystack`. It is
/// meaningful only where `needle` occurs in `haystack`.
pub open spec fn first_occurrence(haystack: Seq<u8>, needle: Seq<u8>) -> int {
    choose|at: int| is_first_occurrence(haystack, needle, at)
}

/// What is left of `buffer` after the first occurrence of `keyword` in it:
/// the bytes before the occurrence and the occurrence itself are dropped.
pub open spec fn continuation(buffer: Seq<u8>, keyword: Seq<u8>) -> Seq<u8> {
    buffer.skip(first_occurrence(buffer, keyword) + keyword.len())
}

/// A first occurrence is unique, so it is the one that `first_occurrence`
/// names.
pub proof fn lemma_first_occurrence_is(haystack: Seq<u8>, needle: Seq<u8>, at: int)
    requires
        is_first_occurrence(haystack, needle, at),
    ensures
        occurs_in(haystack, needle),
        first_occurrence(haystack, needle) == at,
{
    // The chosen index is a first occurrence too, and of two first
    // occurrences neither can lie before the other.
    assert(is_first_occurrence(haystack, needle, first_occurrence(haystack, needle)));
}

/// Wherever `needle` occurs, it has a first occurrence, which lies at or
/// before the given one.
pub proof fn lemma_first_occurrence_exists(haystack: Seq<u8>, needle: Seq<u8>, at: int)
    requires
        occurs_at(haystack, needle, at),
    ensures
        is_first_occurrence(haystack, needle, first_occurrence(haystack, needle)),
        first_occurrence(haystack, needle) <= at,
    decreases at,
{
    if exists|earlier: int| 0 <= earlier < at && occurs_at(haystack, needle, earlier) {
        let earlier = choose|earlier: int| 0 <= earlier < at && occurs_at(haystack, needle, earlier);
        lemma_first_occurrence_exists(haystack, needle, earlier);
    } else {
        lemma_first_occurrence_is(haystack, needle, at);
    }
}

/// A needle that occurs in a buffer has a first occurrence there.
pub proof fn lemma_occurs_in_has_first(haystack: Seq<u8>, needle: Seq<u8>)
    requires
        occurs_in(haystack, needle),
    ensures
        is_first_occurrence(haystack, needle, first_occurrence(haystack, needle)),
{
    let at = choose|at: int| occurs_at(haystack, needle, at);
    lemma_first_occurrence_exists(haystack, needle, at);
}

/// A needle set between any bytes occurs where it was set.
pub proof fn lemma_embedded_occurs(before: Seq<u8>, needle: Seq<u8>, after: Seq<u8>)
    ensures
        occurs_at(before + needle + after, needle, before.len() as int),
        occurs_in(before + needle + after, needle),
{
    assert(occurs_at(before + needle + after, needle, before.len() as int));
}

/// Bytes added behind a buffer leave its occurrences where they are, and
/// add none that ends inside the buffer.
pub proof fn lemma_occurrence_before_extension(
    haystack: Seq<u8>,
    more: Seq<u8>,
    needle: Seq<u8>,
    at: int,
)
    requires
        0 <= at,
        at + needle.len() <= haystack.len(),
    ensures
        occurs_at(haystack + more, needle, at) == occurs_at(haystack, needle, at),
{
}

/// What occurs in a buffer still occurs in it when bytes are added behind.
pub proof fn lemma_occurs_in_extension(haystack: Seq<u8>, more: Seq<u8>, needle: Seq<u8>)
    requires
        occurs_in(haystack, needle),
    ensures
        occurs_in(haystack + more, needle),
{
    let at = choose|at: int| occurs_at(haystack, needle, at);
    lemma_occurrence_before_extension(haystack, more, needle, at);
}

/// Bytes added behind a buffer do not move the first occurrence of a needle
/// that the buffer holds, so the continuation grows by exactly those bytes.
pub proof fn lemma_first_occurrence_before_extension(
    haystack: Seq<u8>,
    more: Seq<u8>,
    needle: Seq<u8>,
)
    requires
        occurs_in(haystack, needle),
    ensures
        occurs_in(haystack + more, needle),
        first_occurrence(haystack + more, needle) == first_occurrence(haystack, needle),
        continuation(haystack + more, needle) == continuation(haystack, needle) + more,
{
    lemma_occurs_in_has_first(haystack, needle);
    let first = first_occurrence(haystack, needle);
    assert forall|earlier: int| 0 <= earlier < first implies !occurs_at(
        haystack + more,
        needle,
        earlier,
    ) by {
        lemma_occurrence_before_extension(haystack, more, needle, earlier);
    }
    lemma_first_occurrence_is(haystack + more, needle, first);
}

/// Whether the window of `haystack` starting at `at` equals `needle`.
fn window_matches(haystack: &[u8], needle: &[u8], at: usize) -> (same: bool)
    requires
        at + needle@.len() <= haystack@.len(),
    ensures
        same == occurs_at(haystack@, needle@, at as int),
{
    let width: usize = needle.len();
    let total: usize = haystack.len();
    let mut offset: usize = 0;
    while offset < width
        invariant
            width == needle@.len(),
            total == haystack@.len(),
            at + width <= total,
            offset <= width,
            forall|k: int| 0 <= k < offset ==> haystack@[at + k] == needle@[k],
        decreases width - offset,
    {
        if haystack[at + offset] != needle[offset] {
            return false;
        }
        offset += 1;
    }
    true
}

/// Finds the first position at which `needle` occurs in `haystack` as a
/// contiguous run of bytes, comparing byte for byte.
///
/// The needle must not be empty.
pub fn find_subsequence(haystack: &[u8], needle: &[u8]) -> (found: Option<usize>)
    requires
        needle@.len() > 0,
    ensures
        match found {
            Some(at) => is_first_occurrence(haystack@, needle@, at as int),
            None => !occurs_in(haystack@, needle@),
        },
{
    let width: usize = needle.len();
    let total: usize = haystack.len();
    if total < width {
        return None;
    }
    let last: usize = total - width;
    let mut at: usize = 0;
    while at <= last
        invariant
            width == needle@.len(),
            width > 0,
            total == haystack@.len(),
            last + width == total,
            at <= last + 1,
            forall|earlier: int| 0 <= earlier < at ==> !occurs_at(haystack@, needle@, earlier),
        decreases last + 1 - at,
    {
        if window_matches(haystack, needle, at) {
            return Some(at);
        }
        at += 1;
    }
    None
}

/// Searches `input` for `keyword` and, where it occurs, hands back what
/// follows its first occurrence. Nothing is asked of the bytes before the
/// occurrence, nor of those after it.
///
/// The keyword must not be empty.
pub fn split_after<'a>(input: &'a [u8], keyword: &[u8]) -> (rest: Option<&'a [u8]>)
    requires
        keyword@.len() > 0,
    ensures
        match rest {
            Some(tail) => occurs_in(input@, keyword@) && tail@ == continuation(
                input@,
                keyword@,
            ),
            None => !occurs_in(input@, keyword@),
        },
{
    let total: usize = input.len();
    match find_subsequence(input, keyword) {
        Some(at) => {
            proof {
            }
            Some(slice_subrange(input, at + keyword.len(), total))
        },
        None => None,
    }
}

} // verus!
