//! Splitting a simple arithmetic expression for the calculator tool.
//!
//! The calculator understands one binary operation. Spaces are removed,
//! the operator is chosen by trying `+`, `-`, `*`, `/` in that order and
//! taking the first that occurs anywhere, and the expression is split at
//! its first occurrence. Turning the two operands into numbers, and the
//! arithmetic itself, is the embedding program's business.

use vstd::prelude::*;

verus! {

use crate::text::{chars_of, string_from_chars};

/// The expression with every space removed.
pub open spec fn spec_remove_spaces(s: Seq<char>) -> Seq<char>
    decreases s.len(),
{
    if s.len() == 0 {
        Seq::empty()
    } else if s[0] == ' ' {
        spec_remove_spaces(s.drop_first())
    } else {
        seq![s[0]] + spec_remove_spaces(s.drop_first())
    }
}

/// The first position of `c` in `s`.
pub open spec fn spec_find_char(s: Seq<char>, c: char) -> Option<int>
    decreases s.len(),
{
    if s.len() == 0 {
        None
    } else if s[0] == c {
        Some(0)
    } else {
        match spec_find_char(s.drop_first(), c) {
            Some(i) => Some(i + 1),
            None => None,
        }
    }
}

/// The split position and operator: the first of `+`, `-`, `*`, `/` (tried
/// in that order) that occurs in the spaceless expression, at its first
/// position.
pub open spec fn spec_split_at(t: Seq<char>) -> Option<(int, char)> {
    if spec_find_char(t, '+') is Some {
        Some((spec_find_char(t, '+')->Some_0, '+'))
    } else if spec_find_char(t, '-') is Some {
        Some((spec_find_char(t, '-')->Some_0, '-'))
    } else if spec_find_char(t, '*') is Some {
        Some((spec_find_char(t, '*')->Some_0, '*'))
    } else if spec_find_char(t, '/') is Some {
        Some((spec_find_char(t, '/')->Some_0, '/'))
    } else {
        None
    }
}

/// A split expression: one binary operation, or a bare literal.
pub enum SplitExpression {
    Binary { left: String, op: char, right: String },
    Single { literal: String },
}

proof fn lemma_find_char_bounds(s: Seq<char>, c: char)
    ensures
        spec_find_char(s, c) matches Some(i) ==> 0 <= i < s.len() && s[i] == c,
    decreases s.len(),
{
    if s.len() > 0 && s[0] != c {
        lemma_find_char_bounds(s.drop_first(), c);
    }
}

/// Remove every space.
fn remove_spaces(s: &[char]) -> (r: Vec<char>)
    ensures
        r@ == spec_remove_spaces(s@),
{
    let mut out: Vec<char> = Vec::new();
    let mut i: usize = 0;
    proof {
        assert(s@.skip(0) =~= s@);
    }
    while i < s.len()
        invariant
            0 <= i <= s@.len(),
            out@ + spec_remove_spaces(s@.skip(i as int)) == spec_remove_spaces(s@),
        decreases s@.len() - i,
    {
        let c = s[i];
        let ghost prev = out@;
        proof {
            assert(s@.skip(i as int)[0] == c);
            assert(s@.skip(i as int).drop_first() =~= s@.skip(i + 1));
        }
        if c != ' ' {
            out.push(c);
            proof {
                assert(out@ =~= prev + seq![c]);
                assert((prev + seq![c]) + spec_remove_spaces(s@.skip(i + 1)) =~= prev + (seq![c]
                    + spec_remove_spaces(s@.skip(i + 1))));
            }
        }
        i += 1;
    }
    proof {
        assert(s@.skip(i as int) =~= Seq::<char>::empty());
        assert(out@ + Seq::<char>::empty() =~= out@);
    }
    out
}

/// Find the first position of `c`.
fn find_char(s: &[char], c: char) -> (r: Option<usize>)
    ensures
        (r is Some) == (spec_find_char(s@, c) is Some),
        r matches Some(i) ==> spec_find_char(s@, c) == Some(i as int) && i < s@.len(),
{
    let mut i: usize = 0;
    proof {
        assert(s@.skip(0) =~= s@);
    }
    while i < s.len()
        invariant
            0 <= i <= s@.len(),
            spec_find_char(s@, c) == (match spec_find_char(s@.skip(i as int), c) {
                Some(j) => Some(j + i),
                None => None::<int>,
            }),
        decreases s@.len() - i,
    {
        proof {
            assert(s@.skip(i as int)[0] == s@[i as int]);
            assert(s@.skip(i as int).drop_first() =~= s@.skip(i + 1));
        }
        if s[i] == c {
            return Some(i);
        }
        i += 1;
    }
    proof {
        assert(s@.skip(i as int) =~= Seq::<char>::empty());
    }
    None
}

/// Split an expression at its operator, after removing spaces.
pub fn split_expression(expression: &str) -> (r: SplitExpression)
    ensures
        ({
            let t = spec_remove_spaces(expression@);
            match r {
                SplitExpression::Binary { left, op, right } => {
                    &&& spec_split_at(t) matches Some(p)
                    &&& p.1 == op
                    &&& left@ == t.take(p.0)
                    &&& right@ == t.skip(p.0 + 1)
                },
                SplitExpression::Single { literal } => spec_split_at(t) is None && literal@ == t,
            }
        }),
{
    let cs = chars_of(expression);
    let t = remove_spaces(cs.as_slice());
    let found: Option<(usize, char)> = if let Some(i) = find_char(t.as_slice(), '+') {
        Some((i, '+'))
    } else if let Some(i) = find_char(t.as_slice(), '-') {
        Some((i, '-'))
    } else if let Some(i) = find_char(t.as_slice(), '*') {
        Some((i, '*'))
    } else if let Some(i) = find_char(t.as_slice(), '/') {
        Some((i, '/'))
    } else {
        None
    };
    match found {
        Some((pos, op)) => {
            let n = t.len();
            proof {
                lemma_find_char_bounds(t@, '+');
                lemma_find_char_bounds(t@, '-');
                lemma_find_char_bounds(t@, '*');
                lemma_find_char_bounds(t@, '/');
                assert(pos < n);
            }
            let left = crate::text::slice_to_vec_range(t.as_slice(), 0, pos);
            let right = crate::text::slice_to_vec_range(t.as_slice(), pos + 1, n);
            proof {
                assert(left@ =~= t@.take(pos as int));
                assert(right@ =~= t@.skip(pos + 1));
            }
            SplitExpression::Binary {
                left: string_from_chars(left.as_slice()),
                op,
                right: string_from_chars(right.as_slice()),
            }
        },
        None => SplitExpression::Single { literal: string_from_chars(t.as_slice()) },
    }
}

} // verus!
