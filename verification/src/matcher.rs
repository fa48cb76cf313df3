//! Process-name matching: a process matches a pattern when the lowercased
//! pattern occurs as a contiguous substring of the lowercased name. The
//! lowering itself is delegated to the standard library; the substring
//! search is decided here, character by character.

use vstd::prelude::*;
use vstd::string::*;

verus! {

/// The lowercase form of a character sequence, as `str::to_lowercase`
/// computes it.
pub uninterp spec fn lower_of(s: Seq<char>) -> Seq<char>;

/// Relies on `str::to_lowercase`: the result depends on the characters
/// alone.
#[verifier::external_body]
pub(crate) fn lowercase(s: &str) -> (r: String)
    ensures
        r@ == lower_of(s@),
{
    s.to_lowercase()
}

/// Whether `needle` occurs as a contiguous subsequence of `hay`.
pub open spec fn seq_contains_sub(hay: Seq<char>, needle: Seq<char>) -> bool {
    exists|i: int|
        0 <= i && i + needle.len() <= hay.len() && #[trigger] hay.subrange(i, i + needle.len())
            == needle
}

/// Whether a process named `name` matches the pattern: case-insensitive
/// substring containment.
pub open spec fn name_matches(pattern: Seq<char>, name: Seq<char>) -> bool {
    seq_contains_sub(lower_of(name), lower_of(pattern))
}

fn match_at(hay: &str, needle: &str, start: usize) -> (r: bool)
    requires
        start + needle@.len() <= hay@.len(),
        hay@.len() <= usize::MAX,
    ensures
        r == (hay@.subrange(start as int, start + needle@.len()) == needle@),
{
    let n: usize = needle.unicode_len();
    let mut k: usize = 0;
    while k < n
        invariant
            n == needle@.len(),
            start + n <= hay@.len(),
            hay@.len() <= usize::MAX,
            k <= n,
            forall|j: int| 0 <= j < k ==> hay@[start + j] == needle@[j],
        decreases n - k,
    {
        if hay.get_char(start + k) != needle.get_char(k) {
            proof {
                assert(hay@.subrange(start as int, start + n as int)[k as int] == hay@[start + k]);
            }
            return false;
        }
        k += 1;
    }
    proof {
        assert(hay@.subrange(start as int, start + n as int) =~= needle@);
    }
    true
}

/// Whether `needle` occurs as a contiguous substring of `hay`, by exhaustive
/// search over the possible start positions.
pub fn contains_sub(hay: &str, needle: &str) -> (r: bool)
    ensures
        r == seq_contains_sub(hay@, needle@),
{
    let h: usize = hay.unicode_len();
    let n: usize = needle.unicode_len();
    if n > h {
        return false;
    }
    if n == 0 {
        proof {
            assert(hay@.subrange(0, 0 + needle@.len() as int) =~= needle@);
        }
        return true;
    }
    let mut i: usize = 0;
    while i <= h - n
        invariant
            h == hay@.len(),
            n == needle@.len(),
            0 < n <= h,
            i <= h - n + 1,
            forall|j: int| 0 <= j < i ==> #[trigger] hay@.subrange(j, j + n) != needle@,
        decreases h - n - i + 1,
    {
        if match_at(hay, needle, i) {
            return true;
        }
        i += 1;
    }
    proof {
        if seq_contains_sub(hay@, needle@) {
            let j = choose|j: int|
                0 <= j && j + needle@.len() <= hay@.len() && #[trigger] hay@.subrange(
                    j,
                    j + needle@.len(),
                ) == needle@;
            assert(hay@.subrange(j, j + n) != needle@);
        }
    }
    false
}

/// Whether the process name matches the pattern. The lowering of both sides
/// is the standard library's; the containment test on the lowered strings is
/// verified.
pub fn matches_name(pattern: &str, name: &str) -> (r: bool)
    ensures
        r == name_matches(pattern@, name@),
{
    let lowered_pattern = lowercase(pattern);
    let lowered_name = lowercase(name);
    contains_sub(lowered_name.as_str(), lowered_pattern.as_str())
}

} // verus!
