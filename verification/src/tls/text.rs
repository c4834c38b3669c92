//! Comparing and searching text as bytes.

use vstd::prelude::*;

verus! {

/// `b`, with an ASCII capital letter made small.
pub open spec fn lower(b: u8) -> u8 {
    if 0x41 <= b <= 0x5a {
        (b + 0x20) as u8
    } else {
        b
    }
}

/// Every byte of `s` made small.
pub open spec fn lowered(s: Seq<u8>) -> Seq<u8> {
    s.map_values(|b: u8| lower(b))
}

/// Whether two byte strings differ at most in the case of ASCII letters.
pub open spec fn same_ignoring_case(a: Seq<u8>, b: Seq<u8>) -> bool {
    lowered(a) == lowered(b)
}

/// Whether `needle` starts at position `at` of `haystack`.
pub open spec fn occurs_at(haystack: Seq<u8>, needle: Seq<u8>, at: int) -> bool {
    0 <= at && at + needle.len() <= haystack.len() && haystack.subrange(at, at + needle.len())
        == needle
}

/// Whether `needle` stands somewhere in `haystack`.
pub open spec fn occurs(haystack: Seq<u8>, needle: Seq<u8>) -> bool {
    exists|at: int| occurs_at(haystack, needle, at)
}

/// `b`, with an ASCII capital letter made small.
pub fn to_lower(b: u8) -> (r: u8)
    ensures
        r == lower(b),
{
    if b >= 0x41 && b <= 0x5a {
        b + 0x20
    } else {
        b
    }
}

/// A copy of `s` with the ASCII capital letters made small.
pub fn to_lowered(s: &[u8]) -> (r: Vec<u8>)
    ensures
        r@ == lowered(s@),
{
    let mut out: Vec<u8> = Vec::new();
    let mut i: usize = 0;
    while i < s.len()
        invariant
            i <= s@.len(),
            out@ == lowered(s@.take(i as int)),
        decreases s@.len() - i,
    {
        out.push(to_lower(s[i]));
        i = i + 1;
        proof {
            assert(out@ =~= lowered(s@.take(i as int)));
        }
    }
    proof {
        assert(s@.take(i as int) =~= s@);
    }
    out
}

/// Whether two byte strings are the same.
pub fn same_bytes(a: &[u8], b: &[u8]) -> (r: bool)
    ensures
        r == (a@ == b@),
{
    if a.len() != b.len() {
        return false;
    }
    let mut i: usize = 0;
    while i < a.len()
        invariant
            i <= a@.len(),
            a@.len() == b@.len(),
            forall|j: int| 0 <= j < i ==> a@[j] == b@[j],
        decreases a@.len() - i,
    {
        if a[i] != b[i] {
            return false;
        }
        i = i + 1;
    }
    proof {
        assert(a@ =~= b@);
    }
    true
}

/// Whether two byte strings differ at most in the case of ASCII letters.
pub fn eq_ignore_case(a: &[u8], b: &[u8]) -> (r: bool)
    ensures
        r == same_ignoring_case(a@, b@),
{
    if a.len() != b.len() {
        proof {
            assert(lowered(a@).len() != lowered(b@).len());
        }
        return false;
    }
    let mut i: usize = 0;
    while i < a.len()
        invariant
            i <= a@.len(),
            a@.len() == b@.len(),
            forall|j: int| 0 <= j < i ==> lower(a@[j]) == lower(b@[j]),
        decreases a@.len() - i,
    {
        if to_lower(a[i]) != to_lower(b[i]) {
            proof {
                assert(lowered(a@)[i as int] != lowered(b@)[i as int]);
            }
            return false;
        }
        i = i + 1;
    }
    proof {
        assert(lowered(a@) =~= lowered(b@));
    }
    true
}

/// Whether `needle` stands somewhere in `haystack`.
pub fn contains(haystack: &[u8], needle: &[u8]) -> (r: bool)
    ensures
        r == occurs(haystack@, needle@),
{
    if needle.len() > haystack.len() {
        return false;
    }
    let size: usize = haystack.len();
    let last: usize = size - needle.len();
    let mut at: usize = 0;
    loop
        invariant
            at <= last,
            size == haystack@.len(),
            last == size - needle@.len(),
            forall|i: int| 0 <= i < at ==> !occurs_at(haystack@, needle@, i),
        decreases last - at,
    {
        if same_bytes(vstd::slice::slice_subrange(haystack, at, at + needle.len()), needle) {
            proof {
                assert(occurs_at(haystack@, needle@, at as int));
            }
            return true;
        }
        if at == last {
            return false;
        }
        at = at + 1;
    }
}

/// Only the letters `A` to `Z` change, each to its small form, which is 32 further on.
pub proof fn law_only_capitals_are_made_small(s: Seq<u8>, i: int)
    requires
        0 <= i < s.len(),
    ensures
        lowered(s).len() == s.len(),
        65 <= s[i] <= 90 ==> lowered(s)[i] == s[i] + 32,
        s[i] < 65 || s[i] > 90 ==> lowered(s)[i] == s[i],
        lower(s[i]) == lowered(s)[i],
{
}

/// Two byte strings differ at most in case exactly when they are as long as each other and
/// each byte of one is that of the other, or the other case of the same letter.
pub proof fn law_same_but_for_case(a: Seq<u8>, b: Seq<u8>)
    ensures
        same_ignoring_case(a, b) <==> a.len() == b.len() && forall|i: int|
            0 <= i < a.len() ==> {
                ||| #[trigger] a[i] == b[i]
                ||| 65 <= a[i] <= 90 && b[i] == a[i] + 32
                ||| 65 <= b[i] <= 90 && a[i] == b[i] + 32
            },
{
    if same_ignoring_case(a, b) {
        assert(lowered(a).len() == a.len() && lowered(b).len() == b.len());
        assert forall|i: int| 0 <= i < a.len() implies {
            ||| #[trigger] a[i] == b[i]
            ||| 65 <= a[i] <= 90 && b[i] == a[i] + 32
            ||| 65 <= b[i] <= 90 && a[i] == b[i] + 32
        } by {
            assert(lowered(a)[i] == lower(a[i]));
            assert(lowered(b)[i] == lower(b[i]));
        }
    }
    if a.len() == b.len() && forall|i: int|
        0 <= i < a.len() ==> {
            ||| #[trigger] a[i] == b[i]
            ||| 65 <= a[i] <= 90 && b[i] == a[i] + 32
            ||| 65 <= b[i] <= 90 && a[i] == b[i] + 32
        } {
        assert forall|i: int| 0 <= i < a.len() implies lowered(a)[i] == lowered(b)[i] by {
            assert(lowered(a)[i] == lower(a[i]));
            assert(lowered(b)[i] == lower(b[i]));
        }
        assert(lowered(a) =~= lowered(b));
    }
}

/// A text that stands between two others occurs in all three in a row. One that occurs
/// somewhere stands there byte by byte, so what is longer does not occur.
pub proof fn law_occurrence(before: Seq<u8>, needle: Seq<u8>, after: Seq<u8>, haystack: Seq<u8>)
    ensures
        occurs(before + needle + after, needle),
        occurs(haystack, needle) ==> needle.len() <= haystack.len() && exists|at: int|
            0 <= at <= haystack.len() - needle.len() && #[trigger] haystack.subrange(
                at,
                at + needle.len(),
            ) == needle,
{
    let whole = before + needle + after;
    let at = before.len() as int;
    assert(whole.subrange(at, at + needle.len()) =~= needle);
    assert(occurs_at(whole, needle, at));
    if occurs(haystack, needle) {
        let at = choose|at: int| occurs_at(haystack, needle, at);
        assert(haystack.subrange(at, at + needle.len()) == needle);
    }
}

/// Comparing without regard to case does not see a change of case.
pub proof fn law_case_is_ignored(a: Seq<u8>, b: Seq<u8>)
    ensures
        same_ignoring_case(a, a),
        same_ignoring_case(a, b) == same_ignoring_case(b, a),
        same_ignoring_case(lowered(a), b) == same_ignoring_case(a, b),
{
    assert(lowered(lowered(a)) =~= lowered(a));
}

} // verus!
