//! Network-adapter filtering.
//!
//! Aggregate throughput must not count virtual, loopback or capture
//! adapters. An adapter is excluded when its name, lowered to ASCII
//! lowercase, contains any of five blacklisted substrings; the test is
//! case-insensitive in the ASCII range.

use vstd::prelude::*;
use vstd::string::StrSliceExecFns;

verus! {

/// ASCII lowercase of one character; anything outside `'A'..='Z'` is kept.
pub open spec fn spec_lower_char(c: char) -> char {
    if 'A' <= c && c <= 'Z' {
        (((c as u8) + 32) as u8) as char
    } else {
        c
    }
}

/// ASCII lowercase of a whole name.
pub open spec fn spec_lower_seq(s: Seq<char>) -> Seq<char> {
    s.map_values(|c: char| spec_lower_char(c))
}

/// `needle` occurs in `hay` starting at position `i`.
pub open spec fn spec_match_at(hay: Seq<char>, needle: Seq<char>, i: int) -> bool {
    0 <= i && i + needle.len() <= hay.len() && hay.subrange(i, i + needle.len()) == needle
}

/// `needle` occurs somewhere in `hay`.
pub open spec fn spec_contains(hay: Seq<char>, needle: Seq<char>) -> bool {
    exists|i: int| spec_match_at(hay, needle, i)
}

/// The lowered name contains one of the five blacklisted substrings.
pub open spec fn spec_excluded(name: Seq<char>) -> bool {
    ||| spec_contains(spec_lower_seq(name), "npcap"@)
    ||| spec_contains(spec_lower_seq(name), "loopback"@)
    ||| spec_contains(spec_lower_seq(name), "virtual"@)
    ||| spec_contains(spec_lower_seq(name), "vmware"@)
    ||| spec_contains(spec_lower_seq(name), "vethernet"@)
}

/// Exclusion looks only at the lowered name, so names equal up to ASCII
/// case are treated alike.
pub proof fn lemma_excluded_case_insensitive(a: Seq<char>, b: Seq<char>)
    requires
        spec_lower_seq(a) == spec_lower_seq(b),
    ensures
        spec_excluded(a) == spec_excluded(b),
{
}

/// The characters of `name`, each lowered to ASCII lowercase.
fn lower_chars(name: &str) -> (r: Vec<char>)
    ensures
        r@ == spec_lower_seq(name@),
{
    let len = name.unicode_len();
    let mut r: Vec<char> = Vec::new();
    let mut i: usize = 0;
    while i < len
        invariant
            i <= len,
            len == name@.len(),
            r@ == spec_lower_seq(name@.subrange(0, i as int)),
        decreases len - i,
    {
        let c = name.get_char(i);
        let u = c as u32;
        let low: char = if u >= 65 && u <= 90 {
            ((u + 32) as u8) as char
        } else {
            c
        };
        r.push(low);
        proof {
            assert(r@ =~= spec_lower_seq(name@.subrange(0, i + 1)));
        }
        i += 1;
    }
    proof {
        assert(name@.subrange(0, len as int) =~= name@);
    }
    r
}

/// `needle` matches `hay` at position `i`.
fn match_at(hay: &Vec<char>, needle: &str, i: usize) -> (r: bool)
    requires
        i + needle@.len() <= hay@.len(),
    ensures
        r == spec_match_at(hay@, needle@, i as int),
{
    let nlen = needle.unicode_len();
    let hlen = hay.len();
    let mut j: usize = 0;
    while j < nlen
        invariant
            j <= nlen,
            nlen == needle@.len(),
            hlen == hay@.len(),
            i + nlen <= hlen,
            forall|k: int| 0 <= k < j ==> hay@[i + k] == needle@[k],
        decreases nlen - j,
    {
        if hay[i + j] != needle.get_char(j) {
            proof {
                assert(hay@.subrange(i as int, i + nlen as int)[j as int] != needle@[j as int]);
            }
            return false;
        }
        j += 1;
    }
    proof {
        assert(hay@.subrange(i as int, i + nlen as int) =~= needle@);
    }
    true
}

/// `needle` occurs somewhere in `hay`.
fn contains_sub(hay: &Vec<char>, needle: &str) -> (r: bool)
    ensures
        r == spec_contains(hay@, needle@),
{
    let nlen = needle.unicode_len();
    let hlen = hay.len();
    if nlen == 0 {
        proof {
            assert(hay@.subrange(0, 0) =~= needle@);
            assert(spec_match_at(hay@, needle@, 0));
        }
        return true;
    }
    if nlen > hlen {
        proof {
            assert(forall|i: int| !spec_match_at(hay@, needle@, i));
        }
        return false;
    }
    let mut i: usize = 0;
    while i <= hlen - nlen
        invariant
            nlen == needle@.len(),
            hlen == hay@.len(),
            1 <= nlen <= hlen,
            i <= hlen - nlen + 1,
            forall|k: int| 0 <= k < i ==> !spec_match_at(hay@, needle@, k),
        decreases hlen - nlen + 1 - i,
    {
        if match_at(hay, needle, i) {
            return true;
        }
        i += 1;
    }
    proof {
        assert(forall|k: int| spec_match_at(hay@, needle@, k) ==> 0 <= k < i);
    }
    false
}

/// Predicate deciding which adapters count toward aggregate throughput.
pub struct InterfaceFilter;

impl InterfaceFilter {
    /// True when the adapter takes part in throughput sums: its name,
    /// case-insensitively, contains none of the five blacklisted
    /// substrings.
    pub fn allows(name: &str) -> (r: bool)
        ensures
            r == !spec_excluded(name@),
    {
        let low = lower_chars(name);
        let excluded = contains_sub(&low, "npcap") || contains_sub(&low, "loopback")
            || contains_sub(&low, "virtual") || contains_sub(&low, "vmware") || contains_sub(
            &low,
            "vethernet",
        );
        !excluded
    }
}

} // verus!
