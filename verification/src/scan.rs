//! Bounded window scanning: capped prefixes and first-occurrence searches.
//!
//! Every delimiter search in the field extractor runs on a capped window of
//! the remaining input, so the cost of a single scan is bounded by the
//! field's fixed maximum and never by the length of the untrusted tail.

use vstd::prelude::*;

verus! {

/// The capped window: the first `max` bytes of `s`, or all of `s` if shorter.
pub open spec fn window(s: Seq<u8>, max: int) -> Seq<u8> {
    if s.len() <= max {
        s
    } else {
        s.subrange(0, max)
    }
}

/// Returns the prefix of `src` of length `min(max, src.len())`.
pub fn split_max<'a>(src: &'a [u8], max: usize) -> (out: &'a [u8])
    ensures
        out@ == window(src@, max as int),
        out@.len() == if src@.len() <= max { src@.len() as int } else { max as int },
{
    if src.len() <= max {
        src
    } else {
        vstd::slice::slice_subrange(src, 0, max)
    }
}

/// Index of the first occurrence of `b` in `s`, if any.
pub open spec fn spec_find(s: Seq<u8>, b: u8) -> Option<int>
    decreases s.len(),
{
    if s.len() == 0 {
        None
    } else if s[0] == b {
        Some(0int)
    } else {
        match spec_find(s.subrange(1, s.len() as int), b) {
            Some(i) => Some(i + 1),
            None => None,
        }
    }
}

/// `spec_find` returns the first occurrence: the found index holds `b` and
/// nothing before it does; `None` means `b` does not occur at all.
pub proof fn lemma_spec_find(s: Seq<u8>, b: u8)
    ensures
        match spec_find(s, b) {
            Some(i) => 0 <= i < s.len() && s[i] == b && (forall|j: int| 0 <= j < i ==> s[j] != b),
            None => forall|j: int| 0 <= j < s.len() ==> s[j] != b,
        },
    decreases s.len(),
{
    if s.len() == 0 {
    } else if s[0] == b {
    } else {
        let t = s.subrange(1, s.len() as int);
        lemma_spec_find(t, b);
        match spec_find(s, b) {
            Some(i) => {
                assert(s[i] == t[i - 1]);
                assert forall|j: int| 0 <= j < i implies s[j] != b by {
                    if j >= 1 {
                        assert(s[j] == t[j - 1]);
                    }
                }
            },
            None => {
                assert forall|j: int| 0 <= j < s.len() implies s[j] != b by {
                    if j >= 1 {
                        assert(s[j] == t[j - 1]);
                    }
                }
            },
        }
    }
}

/// Linear scan for the first occurrence of `b` in `s`.
pub fn find_byte(s: &[u8], b: u8) -> (out: Option<usize>)
    ensures
        match out {
            Some(i) => spec_find(s@, b) == Some(i as int),
            None => spec_find(s@, b) is None,
        },
{
    let mut i: usize = 0;
    while i < s.len()
        invariant
            0 <= i <= s@.len(),
            forall|j: int| 0 <= j < i ==> s@[j] != b,
        decreases s@.len() - i,
    {
        if s[i] == b {
            proof {
                lemma_spec_find(s@, b);
            }
            return Some(i);
        }
        i += 1;
    }
    proof {
        lemma_spec_find(s@, b);
    }
    None
}

/// The three-byte log-frame marker `"]: "` starts at index `i` of `s`.
pub open spec fn marker_at(s: Seq<u8>, i: int) -> bool {
    0 <= i && i + 3 <= s.len() && s[i] == 93u8 && s[i + 1] == 58u8 && s[i + 2] == 32u8
}

/// Index of the first occurrence of the marker `"]: "` in `s`, if any.
pub open spec fn spec_find_marker(s: Seq<u8>) -> Option<int>
    decreases s.len(),
{
    if s.len() < 3 {
        None
    } else if s[0] == 93u8 && s[1] == 58u8 && s[2] == 32u8 {
        Some(0int)
    } else {
        match spec_find_marker(s.subrange(1, s.len() as int)) {
            Some(i) => Some(i + 1),
            None => None,
        }
    }
}

/// `spec_find_marker` returns the first marker position, or `None` when the
/// marker occurs nowhere in `s`.
pub proof fn lemma_spec_find_marker(s: Seq<u8>)
    ensures
        match spec_find_marker(s) {
            Some(i) => marker_at(s, i) && (forall|j: int| 0 <= j < i ==> !marker_at(s, j)),
            None => forall|j: int| !marker_at(s, j),
        },
    decreases s.len(),
{
    if s.len() < 3 {
    } else if s[0] == 93u8 && s[1] == 58u8 && s[2] == 32u8 {
    } else {
        let t = s.subrange(1, s.len() as int);
        lemma_spec_find_marker(t);
        assert forall|j: int| 1 <= j implies marker_at(s, j) == marker_at(t, j - 1) by {
            if j + 3 <= s.len() {
                assert(s[j] == t[j - 1]);
                assert(s[j + 1] == t[j]);
                assert(s[j + 2] == t[j + 1]);
            }
        }
        match spec_find_marker(s) {
            Some(i) => {
                assert(marker_at(t, i - 1));
                assert forall|j: int| 0 <= j < i implies !marker_at(s, j) by {
                    if j >= 1 {
                        assert(!marker_at(t, j - 1));
                    }
                }
            },
            None => {
                assert forall|j: int| !marker_at(s, j) by {
                    if j >= 1 {
                        assert(!marker_at(t, j - 1));
                    }
                }
            },
        }
    }
}

/// Linear scan for the first occurrence of the marker `"]: "` in `s`.
pub fn find_marker(s: &[u8]) -> (out: Option<usize>)
    ensures
        match out {
            Some(i) => spec_find_marker(s@) == Some(i as int),
            None => spec_find_marker(s@) is None,
        },
{
    if s.len() < 3 {
        proof {
            lemma_spec_find_marker(s@);
        }
        return None;
    }
    let mut i: usize = 0;
    while i < s.len() - 2
        invariant
            s@.len() >= 3,
            0 <= i <= s@.len() - 2,
            forall|j: int| 0 <= j < i ==> !marker_at(s@, j),
        decreases s@.len() - i,
    {
        if s[i] == 93u8 && s[i + 1] == 58u8 && s[i + 2] == 32u8 {
            proof {
                lemma_spec_find_marker(s@);
                assert(marker_at(s@, i as int));
            }
            return Some(i);
        }
        i += 1;
    }
    proof {
        lemma_spec_find_marker(s@);
    }
    None
}

} // verus!
