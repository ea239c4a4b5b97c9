//! Character-level text utilities shared by the whole library.
//!
//! All reasoning about text is done over `Seq<char>` views; executable code
//! works on `Vec<char>` / `&[char]` and converts to `String` only at the
//! public boundary.

use vstd::prelude::*;

verus! {

use vstd::slice::slice_subrange;
use vstd::std_specs::iter::IteratorSpec;

broadcast use vstd::string::axiom_spec_iter, vstd::string::next_postcondition;

/// Collect the characters of a string slice into a vector.
pub fn chars_of(s: &str) -> (r: Vec<char>)
    ensures
        r@ == s@,
{
    let mut it = s.chars();
    let mut r: Vec<char> = Vec::new();
    loop
        invariant
            it.obeys_prophetic_iter_laws(),
            it.decrease() is Some,
            s@ == r@ + it.remaining(),
        decreases it.decrease()->0,
    {
        match it.next() {
            Some(c) => {
                r.push(c);
            },
            None => {
                proof {
                    assert(r@ =~= s@);
                }
                return r;
            },
        }
    }
}

/// Relies on `String: FromIterator<char>` from std: the collected string
/// holds exactly the given characters, in order.
#[verifier::external_body]
pub(crate) fn string_from_chars(v: &[char]) -> (r: String)
    ensures
        r@ == v@,
{
    v.iter().collect()
}

/// Character-for-character equality of two slices.
pub fn eq_chars(a: &[char], b: &[char]) -> (r: bool)
    ensures
        r == (a@ == b@),
{
    if a.len() != b.len() {
        assert(a@ != b@) by {
            assert(a@.len() != b@.len());
        }
        return false;
    }
    let mut i: usize = 0;
    while i < a.len()
        invariant
            0 <= i <= a@.len(),
            a@.len() == b@.len(),
            forall|j: int| 0 <= j < i ==> a@[j] == b@[j],
        decreases a@.len() - i,
    {
        if a[i] != b[i] {
            return false;
        }
        i += 1;
    }
    proof {
        assert(a@ =~= b@);
    }
    true
}

/// `p` occurs in `s` starting at position `k`.
pub open spec fn occurs_at(s: Seq<char>, p: Seq<char>, k: int) -> bool {
    &&& 0 <= k
    &&& k + p.len() <= s.len()
    &&& s.subrange(k, k + p.len() as int) == p
}

/// `p` occurs somewhere in `s`.
pub open spec fn contains_seq(s: Seq<char>, p: Seq<char>) -> bool {
    exists|k: int| occurs_at(s, p, k)
}

/// Naive substring search.
pub fn contains_sub(s: &[char], p: &[char]) -> (r: bool)
    ensures
        r == contains_seq(s@, p@),
{
    if p.len() == 0 {
        assert(occurs_at(s@, p@, 0)) by {
            assert(s@.subrange(0, 0) =~= p@);
        }
        return true;
    }
    if p.len() > s.len() {
        assert(!contains_seq(s@, p@)) by {
            assert(forall|k: int| !occurs_at(s@, p@, k));
        }
        return false;
    }
    let mut k: usize = 0;
    while k <= s.len() - p.len()
        invariant
            1 <= p@.len() <= s@.len(),
            0 <= k <= s@.len() - p@.len() + 1,
            forall|j: int| 0 <= j < k ==> !occurs_at(s@, p@, j),
        decreases s@.len() - p@.len() - k + 1,
    {
        let sub = slice_subrange(s, k, k + p.len());
        if eq_chars(sub, p) {
            assert(occurs_at(s@, p@, k as int));
            return true;
        }
        assert(!occurs_at(s@, p@, k as int));
        k += 1;
    }
    assert forall|j: int| !occurs_at(s@, p@, j) by {
        if j >= k {
            assert(j + p@.len() > s@.len());
        }
    }
    false
}

/// Copy a subrange of a slice into a fresh vector.
pub fn slice_to_vec_range(s: &[char], from: usize, to: usize) -> (r: Vec<char>)
    requires
        0 <= from <= to <= s@.len(),
    ensures
        r@ == s@.subrange(from as int, to as int),
{
    let mut r: Vec<char> = Vec::new();
    let mut i: usize = from;
    while i < to
        invariant
            from <= i <= to <= s@.len(),
            r@ == s@.subrange(from as int, i as int),
        decreases to - i,
    {
        r.push(s[i]);
        proof {
            assert(r@ =~= s@.subrange(from as int, i + 1 as int));
        }
        i += 1;
    }
    r
}

/// ASCII whitespace, as the JSON grammar understands it.
pub open spec fn is_space_spec(c: char) -> bool {
    c == ' ' || c == '\t' || c == '\n' || c == '\r'
}

/// Executable ASCII whitespace test.
pub fn is_space(c: char) -> (r: bool)
    ensures
        r == is_space_spec(c),
{
    c == ' ' || c == '\t' || c == '\n' || c == '\r'
}

/// Unicode whitespace (the White_Space property), as input trimming
/// understands it; the same set `str::trim` removes.
pub open spec fn is_white_spec(c: char) -> bool {
    let u = c as u32;
    (9 <= u && u <= 13) || u == 32 || u == 0x85 || u == 0xa0 || u == 0x1680 || (0x2000 <= u && u
        <= 0x200a) || u == 0x2028 || u == 0x2029 || u == 0x202f || u == 0x205f || u == 0x3000
}

/// Executable Unicode whitespace test.
pub fn is_white(c: char) -> (r: bool)
    ensures
        r == is_white_spec(c),
{
    let u = c as u32;
    (9 <= u && u <= 13) || u == 32 || u == 0x85 || u == 0xa0 || u == 0x1680 || (0x2000 <= u && u
        <= 0x200a) || u == 0x2028 || u == 0x2029 || u == 0x202f || u == 0x205f || u == 0x3000
}

/// Index of the first non-whitespace character of `s`, or `s.len()` if none.
pub open spec fn first_non_space(s: Seq<char>) -> int
    decreases s.len(),
{
    if s.len() == 0 {
        0
    } else if is_white_spec(s[0]) {
        1 + first_non_space(s.drop_first())
    } else {
        0
    }
}

/// One-past the last non-whitespace character of `s`, or `0` if none.
pub open spec fn last_non_space_end(s: Seq<char>) -> int
    decreases s.len(),
{
    if s.len() == 0 {
        0
    } else if is_white_spec(s[s.len() - 1]) {
        last_non_space_end(s.drop_last())
    } else {
        s.len() as int
    }
}

/// The trimmed form of `s`: leading and trailing whitespace removed.
pub open spec fn trim_spec(s: Seq<char>) -> Seq<char> {
    let a = first_non_space(s);
    let b = last_non_space_end(s);
    if a < b {
        s.subrange(a, b)
    } else {
        Seq::empty()
    }
}

proof fn lemma_last_non_space_end_bounds(s: Seq<char>)
    ensures
        0 <= last_non_space_end(s) <= s.len(),
        forall|j: int| last_non_space_end(s) <= j < s.len() ==> is_white_spec(s[j]),
        last_non_space_end(s) > 0 ==> !is_white_spec(s[last_non_space_end(s) - 1]),
    decreases s.len(),
{
    if s.len() > 0 && is_white_spec(s[s.len() - 1]) {
        lemma_last_non_space_end_bounds(s.drop_last());
        assert forall|j: int| last_non_space_end(s) <= j < s.len() implies is_white_spec(s[j]) by {
            if j < s.len() - 1 {
                assert(s.drop_last()[j] == s[j]);
            }
        }
    }
}

proof fn lemma_first_non_space_unique(s: Seq<char>, a: int)
    requires
        0 <= a <= s.len(),
        forall|j: int| 0 <= j < a ==> is_white_spec(s[j]),
        a < s.len() ==> !is_white_spec(s[a]),
    ensures
        a == first_non_space(s),
    decreases s.len(),
{
    if s.len() > 0 && is_white_spec(s[0]) {
        assert(a > 0 || is_white_spec(s[a]) && a < s.len());
        lemma_first_non_space_unique(s.drop_first(), a - 1);
    }
}

proof fn lemma_last_non_space_end_unique(s: Seq<char>, b: int)
    requires
        0 <= b <= s.len(),
        forall|j: int| b <= j < s.len() ==> is_white_spec(s[j]),
        b > 0 ==> !is_white_spec(s[b - 1]),
    ensures
        b == last_non_space_end(s),
    decreases s.len(),
{
    if s.len() > 0 && is_white_spec(s[s.len() - 1]) {
        assert(b < s.len());
        lemma_last_non_space_end_unique(s.drop_last(), b);
    }
}

/// Trim leading and trailing Unicode whitespace from a character slice.
pub fn trim_chars(s: &[char]) -> (r: Vec<char>)
    ensures
        r@ == trim_spec(s@),
{
    let mut a: usize = 0;
    while a < s.len() && is_white(s[a])
        invariant
            0 <= a <= s@.len(),
            forall|j: int| 0 <= j < a ==> is_white_spec(s@[j]),
        decreases s@.len() - a,
    {
        a += 1;
    }
    proof {
        lemma_first_non_space_unique(s@, a as int);
    }
    let mut b: usize = s.len();
    while b > a && is_white(s[b - 1])
        invariant
            a <= b <= s@.len(),
            forall|j: int| b <= j < s@.len() ==> is_white_spec(s@[j]),
        decreases b,
    {
        b -= 1;
    }
    if a < b {
        proof {
            lemma_last_non_space_end_unique(s@, b as int);
        }
        slice_to_vec_range(s, a, b)
    } else {
        proof {
            // everything from position a on is whitespace
            lemma_last_non_space_end_bounds(s@);
            let gb = last_non_space_end(s@);
            if gb > a {
                assert(is_white_spec(s@[gb - 1]));
            }
        }
        let r: Vec<char> = Vec::new();
        assert(r@ =~= trim_spec(s@));
        r
    }
}

} // verus!
