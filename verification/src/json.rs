//! A JSON text scanner with a spec-level grammar.
//!
//! The action envelope that a model emits is embedded in free text, so the
//! library must locate and validate a JSON object inside arbitrary
//! characters. JSON values are kept as validated text throughout the
//! library; this module defines the accepted grammar as recursive spec
//! functions over `Seq<char>` and proves the executable scanner equal to
//! them.
//!
//! The accepted grammar is standard JSON with two deliberate restrictions:
//! a `\uXXXX` escape must denote a Unicode scalar value by itself (the
//! surrogate-pair form for characters beyond the basic plane is not
//! recognized), and strings may not contain unescaped control characters.
//! Text outside the grammar is simply not recognized as an envelope, which
//! the caller treats as prose.

use vstd::prelude::*;

verus! {

/// Decimal digit.
pub open spec fn is_digit_spec(c: char) -> bool {
    48 <= c as u32 <= 57
}

fn is_digit(c: char) -> (r: bool)
    ensures
        r == is_digit_spec(c),
{
    let u = c as u32;
    48 <= u && u <= 57
}

/// Hexadecimal digit, either case.
pub open spec fn is_hex_digit_spec(c: char) -> bool {
    is_digit_spec(c) || (97 <= c as u32 <= 102) || (65 <= c as u32 <= 70)
}

fn is_hex_digit(c: char) -> (r: bool)
    ensures
        r == is_hex_digit_spec(c),
{
    let u = c as u32;
    (48 <= u && u <= 57) || (97 <= u && u <= 102) || (65 <= u && u <= 70)
}

/// The numeric value of a hexadecimal digit.
pub open spec fn spec_hex_val(c: char) -> int {
    if is_digit_spec(c) {
        c as u32 - 48
    } else if 97 <= c as u32 <= 102 {
        c as u32 - 87
    } else {
        c as u32 - 55
    }
}

fn hex_val(c: char) -> (r: u32)
    requires
        is_hex_digit_spec(c),
    ensures
        r as int == spec_hex_val(c),
        r <= 15,
{
    let u = c as u32;
    if u >= 97 {
        u - 87
    } else if u >= 65 {
        u - 55
    } else {
        u - 48
    }
}

/// The value of the four hexadecimal digits starting at `j`.
pub open spec fn spec_hex_quad(s: Seq<char>, j: int) -> int {
    spec_hex_val(s[j]) * 4096 + spec_hex_val(s[j + 1]) * 256 + spec_hex_val(s[j + 2]) * 16
        + spec_hex_val(s[j + 3])
}

/// `u` is a Unicode scalar value: not a surrogate and at most 0x10FFFF.
/// Only such a value denotes a character, so only such a `\uXXXX` escape
/// is part of the grammar (surrogate pairs are not recognized).
pub open spec fn spec_is_scalar(u: int) -> bool {
    (0 <= u && u < 0xd800) || (0xdfff < u && u <= 0x10ffff)
}

/// Relies on `char::from_u32` from std: the conversion succeeds exactly on
/// Unicode scalar values (not a surrogate and at most 0x10FFFF), and the
/// resulting character has the given value.
#[verifier::external_body]
fn char_from_u32(u: u32) -> (r: Option<char>)
    ensures
        (r is Some) == spec_is_scalar(u as int),
        r matches Some(c) ==> c as u32 == u,
{
    char::from_u32(u)
}

/// First index at or after `i` whose character is not ASCII whitespace,
/// clamped to the length of `s`.
pub open spec fn spec_ws_end(s: Seq<char>, i: int) -> int
    decreases s.len() - i when 0 <= i <= s.len()
{
    if i < 0 || i >= s.len() {
        s.len() as int
    } else if crate::text::is_space_spec(s[i]) {
        spec_ws_end(s, i + 1)
    } else {
        i
    }
}

/// Skip ASCII whitespace.
pub fn skip_ws(s: &[char], i: usize) -> (r: usize)
    requires
        i <= s@.len(),
    ensures
        r == spec_ws_end(s@, i as int),
        i <= r <= s@.len(),
{
    let mut cur: usize = i;
    while cur < s.len() && crate::text::is_space(s[cur])
        invariant
            i <= cur <= s@.len(),
            spec_ws_end(s@, i as int) == spec_ws_end(s@, cur as int),
        decreases s@.len() - cur,
    {
        cur += 1;
    }
    cur
}

/// First index at or after `i` whose character is not a digit, clamped to
/// the length of `s`.
pub open spec fn spec_digits_end(s: Seq<char>, i: int) -> int
    decreases s.len() - i when 0 <= i <= s.len()
{
    if i < 0 || i >= s.len() {
        s.len() as int
    } else if is_digit_spec(s[i]) {
        spec_digits_end(s, i + 1)
    } else {
        i
    }
}

fn digits_end(s: &[char], i: usize) -> (r: usize)
    requires
        i <= s@.len(),
    ensures
        r == spec_digits_end(s@, i as int),
        i <= r <= s@.len(),
{
    let mut cur: usize = i;
    while cur < s.len() && is_digit(s[cur])
        invariant
            i <= cur <= s@.len(),
            spec_digits_end(s@, i as int) == spec_digits_end(s@, cur as int),
        decreases s@.len() - cur,
    {
        cur += 1;
    }
    cur
}

/// The character denoted by a single-character escape, if the escape is
/// recognized.
pub open spec fn spec_escape(c: char) -> Option<char> {
    if c == '"' {
        Some('"')
    } else if c == '\\' {
        Some('\\')
    } else if c == '/' {
        Some('/')
    } else if c == 'b' {
        Some('\u{0008}')
    } else if c == 'f' {
        Some('\u{000C}')
    } else if c == 'n' {
        Some('\n')
    } else if c == 'r' {
        Some('\r')
    } else if c == 't' {
        Some('\t')
    } else {
        None
    }
}

fn escape_char(c: char) -> (r: Option<char>)
    ensures
        r == spec_escape(c),
{
    if c == '"' {
        Some('"')
    } else if c == '\\' {
        Some('\\')
    } else if c == '/' {
        Some('/')
    } else if c == 'b' {
        Some('\u{0008}')
    } else if c == 'f' {
        Some('\u{000C}')
    } else if c == 'n' {
        Some('\n')
    } else if c == 'r' {
        Some('\r')
    } else if c == 't' {
        Some('\t')
    } else {
        None
    }
}

/// Scan the body of a string literal starting just after the opening quote.
/// Returns the index just past the closing quote and the decoded content.
pub open spec fn spec_scan_string_body(s: Seq<char>, i: int) -> Option<(int, Seq<char>)>
    decreases s.len() - i when 0 <= i <= s.len()
{
    if i < 0 || i >= s.len() {
        None
    } else if s[i] == '"' {
        Some((i + 1, Seq::empty()))
    } else if s[i] == '\\' {
        if i + 1 < s.len() {
            if s[i + 1] == 'u' {
                if i + 6 <= s.len() && is_hex_digit_spec(s[i + 2]) && is_hex_digit_spec(s[i + 3])
                    && is_hex_digit_spec(s[i + 4]) && is_hex_digit_spec(s[i + 5])
                    && spec_is_scalar(spec_hex_quad(s, i + 2)) {
                    match spec_scan_string_body(s, i + 6) {
                        Some(p) => Some(
                            (p.0, seq![(spec_hex_quad(s, i + 2) as u32) as char] + p.1),
                        ),
                        None => None,
                    }
                } else {
                    None
                }
            } else {
                match spec_escape(s[i + 1]) {
                    Some(d) => match spec_scan_string_body(s, i + 2) {
                        Some(p) => Some((p.0, seq![d] + p.1)),
                        None => None,
                    },
                    None => None,
                }
            }
        } else {
            None
        }
    } else if (s[i] as u32) < 32 {
        None
    } else {
        match spec_scan_string_body(s, i + 1) {
            Some(p) => Some((p.0, seq![s[i]] + p.1)),
            None => None,
        }
    }
}

/// Scan a whole string literal at `i` (which must hold `"`); returns the
/// index just past the closing quote and the decoded content.
pub open spec fn spec_scan_string(s: Seq<char>, i: int) -> Option<(int, Seq<char>)> {
    if 0 <= i < s.len() && s[i] == '"' {
        spec_scan_string_body(s, i + 1)
    } else {
        None
    }
}

proof fn lemma_scan_string_body_bounds(s: Seq<char>, i: int)
    requires
        0 <= i <= s.len(),
    ensures
        spec_scan_string_body(s, i) matches Some(p) ==> i < p.0 <= s.len(),
    decreases s.len() - i,
{
    if i < s.len() {
        if s[i] == '\\' && i + 1 < s.len() && s[i + 1] == 'u' {
            if i + 6 <= s.len() && is_hex_digit_spec(s[i + 2]) && is_hex_digit_spec(s[i + 3])
                && is_hex_digit_spec(s[i + 4]) && is_hex_digit_spec(s[i + 5]) && spec_is_scalar(
                spec_hex_quad(s, i + 2),
            ) {
                lemma_scan_string_body_bounds(s, i + 6);
            }
        } else if s[i] == '\\' && i + 1 < s.len() && spec_escape(s[i + 1]) is Some {
            lemma_scan_string_body_bounds(s, i + 2);
        } else if s[i] != '"' && s[i] != '\\' && (s[i] as u32) >= 32 {
            lemma_scan_string_body_bounds(s, i + 1);
        }
    }
}

/// Scan a string literal; exec twin of [`spec_scan_string`].
pub fn scan_string(s: &[char], i: usize) -> (r: Option<(usize, Vec<char>)>)
    requires
        i <= s@.len(),
    ensures
        (r is Some) == (spec_scan_string(s@, i as int) is Some),
        r matches Some(p) ==> spec_scan_string(s@, i as int) == Some((p.0 as int, p.1@)) && i < p.0
            <= s@.len(),
{
    if i < s.len() && s[i] == '"' {
        let mut cur: usize = i + 1;
        let mut out: Vec<char> = Vec::new();
        proof {
            match spec_scan_string_body(s@, i + 1) {
                Some(p) => {
                    assert(out@ + p.1 =~= p.1);
                },
                None => {},
            }
        }
        loop
            invariant
                i < s@.len(),
                s@[i as int] == '"',
                i + 1 <= cur <= s@.len(),
                spec_scan_string_body(s@, i + 1) == (match spec_scan_string_body(
                    s@,
                    cur as int,
                ) {
                    Some(p) => Some((p.0, out@ + p.1)),
                    None => None::<(int, Seq<char>)>,
                }),
            decreases s@.len() - cur,
        {
            if cur >= s.len() {
                return None;
            }
            let c = s[cur];
            if c == '"' {
                proof {
                    lemma_scan_string_body_bounds(s@, i + 1);
                    assert(spec_scan_string_body(s@, cur as int) == Some(
                        ((cur + 1) as int, Seq::<char>::empty()),
                    ));
                    assert(out@ + Seq::<char>::empty() =~= out@);
                    assert(spec_scan_string_body(s@, i + 1) == Some(((cur + 1) as int, out@)));
                    assert(spec_scan_string(s@, i as int) == Some(((cur + 1) as int, out@)));
                    assert(spec_scan_string(s@, i as int) is Some);
                }
                return Some((cur + 1, out));
            } else if c == '\\' {
                if cur + 1 < s.len() {
                    if s[cur + 1] == 'u' {
                        if s.len() - cur >= 6 && is_hex_digit(s[cur + 2]) && is_hex_digit(
                            s[cur + 3],
                        ) && is_hex_digit(s[cur + 4]) && is_hex_digit(s[cur + 5]) {
                            let u: u32 = hex_val(s[cur + 2]) * 4096 + hex_val(s[cur + 3]) * 256
                                + hex_val(s[cur + 4]) * 16 + hex_val(s[cur + 5]);
                            proof {
                                assert(u as int == spec_hex_quad(s@, cur + 2));
                            }
                            match char_from_u32(u) {
                                Some(d) => {
                                    out.push(d);
                                    proof {
                                        vstd::utf8::char_u32_cast(d, u);
                                        assert(d == ((spec_hex_quad(s@, cur + 2) as u32) as char));
                                        assert forall|p: (int, Seq<char>)|
                                            spec_scan_string_body(s@, cur + 6) == Some(
                                                p,
                                            ) implies out@ + p.1 == out@.drop_last() + (seq![d]
                                            + p.1) by {
                                            assert(out@ + p.1 =~= out@.drop_last() + (seq![d]
                                                + p.1));
                                        }
                                    }
                                    cur += 6;
                                },
                                None => {
                                    return None;
                                },
                            }
                        } else {
                            return None;
                        }
                    } else {
                        match escape_char(s[cur + 1]) {
                            Some(d) => {
                                out.push(d);
                                proof {
                                    assert forall|p: (int, Seq<char>)|
                                        spec_scan_string_body(s@, cur + 2) == Some(
                                            p,
                                        ) implies out@ + p.1 == out@.drop_last() + (seq![d]
                                        + p.1) by {
                                        assert(out@ + p.1 =~= out@.drop_last() + (seq![d] + p.1));
                                    }
                                }
                                cur += 2;
                            },
                            None => {
                                return None;
                            },
                        }
                    }
                } else {
                    return None;
                }
            } else if (c as u32) < 32 {
                return None;
            } else {
                out.push(c);
                proof {
                    assert forall|p: (int, Seq<char>)|
                        spec_scan_string_body(s@, cur + 1) == Some(p) implies out@ + p.1
                        == out@.drop_last() + (seq![c] + p.1) by {
                        assert(out@ + p.1 =~= out@.drop_last() + (seq![c] + p.1));
                    }
                }
                cur += 1;
            }
        }
    } else {
        None
    }
}

/// Scan a JSON number at `i`; returns the index just past it.
pub open spec fn spec_scan_number(s: Seq<char>, i: int) -> Option<int> {
    if !(0 <= i < s.len()) {
        None
    } else {
        let j0 = if s[i] == '-' {
            i + 1
        } else {
            i
        };
        if !(j0 < s.len() && is_digit_spec(s[j0])) {
            None
        } else {
            let int_end = if s[j0] == '0' {
                j0 + 1
            } else {
                spec_digits_end(s, j0)
            };
            match spec_scan_frac(s, int_end) {
                None => None,
                Some(frac_end) => spec_scan_exp(s, frac_end),
            }
        }
    }
}

/// Scan an optional fraction part at `i`.
pub open spec fn spec_scan_frac(s: Seq<char>, i: int) -> Option<int> {
    if 0 <= i < s.len() && s[i] == '.' {
        if i + 1 < s.len() && is_digit_spec(s[i + 1]) {
            Some(spec_digits_end(s, i + 1))
        } else {
            None
        }
    } else {
        Some(i)
    }
}

/// Scan an optional exponent part at `i`.
pub open spec fn spec_scan_exp(s: Seq<char>, i: int) -> Option<int> {
    if 0 <= i < s.len() && (s[i] == 'e' || s[i] == 'E') {
        let j = if i + 1 < s.len() && (s[i + 1] == '+' || s[i + 1] == '-') {
            i + 2
        } else {
            i + 1
        };
        if j < s.len() && is_digit_spec(s[j]) {
            Some(spec_digits_end(s, j))
        } else {
            None
        }
    } else {
        Some(i)
    }
}

proof fn lemma_digits_end_bounds(s: Seq<char>, i: int)
    requires
        0 <= i <= s.len(),
    ensures
        i <= spec_digits_end(s, i) <= s.len(),
    decreases s.len() - i,
{
    if i < s.len() && is_digit_spec(s[i]) {
        lemma_digits_end_bounds(s, i + 1);
    }
}

/// Scan a number; exec twin of [`spec_scan_number`].
pub fn scan_number(s: &[char], i: usize) -> (r: Option<usize>)
    requires
        i <= s@.len(),
    ensures
        (r is Some) == (spec_scan_number(s@, i as int) is Some),
        r matches Some(j) ==> spec_scan_number(s@, i as int) == Some(j as int) && i < j
            <= s@.len(),
{
    if i >= s.len() {
        return None;
    }
    let j0: usize = if s[i] == '-' {
        i + 1
    } else {
        i
    };
    if !(j0 < s.len() && is_digit(s[j0])) {
        return None;
    }
    let int_end: usize = if s[j0] == '0' {
        j0 + 1
    } else {
        digits_end(s, j0)
    };
    proof {
        lemma_digits_end_bounds(s@, j0 + 1);
        assert(spec_digits_end(s@, j0 as int) == spec_digits_end(s@, j0 + 1));
        assert(i < int_end <= s@.len());
    }
    // fraction part
    let frac_end: usize = if int_end < s.len() && s[int_end] == '.' {
        if int_end + 1 < s.len() && is_digit(s[int_end + 1]) {
            let e = digits_end(s, int_end + 1);
            proof {
                lemma_digits_end_bounds(s@, int_end + 2);
                assert(spec_digits_end(s@, int_end + 1) == spec_digits_end(s@, int_end + 2));
            }
            e
        } else {
            assert(spec_scan_frac(s@, int_end as int) is None);
            return None;
        }
    } else {
        int_end
    };
    assert(spec_scan_frac(s@, int_end as int) == Some(frac_end as int));
    assert(int_end <= frac_end <= s@.len());
    // exponent part
    if frac_end < s.len() && (s[frac_end] == 'e' || s[frac_end] == 'E') {
        let j: usize = if frac_end + 1 < s.len() && (s[frac_end + 1] == '+' || s[frac_end + 1]
            == '-') {
            frac_end + 2
        } else {
            frac_end + 1
        };
        if j < s.len() && is_digit(s[j]) {
            let e = digits_end(s, j);
            proof {
                lemma_digits_end_bounds(s@, j + 1);
                assert(spec_digits_end(s@, j as int) == spec_digits_end(s@, j + 1));
                assert(spec_scan_exp(s@, frac_end as int) == Some(e as int));
            }
            Some(e)
        } else {
            assert(spec_scan_exp(s@, frac_end as int) is None);
            None
        }
    } else {
        assert(spec_scan_exp(s@, frac_end as int) == Some(frac_end as int));
        Some(frac_end)
    }
}

/// Scan any JSON value at `i`; returns the index just past it.
///
/// The bounds tests around every recursive position are part of the
/// definition so that termination is evident; the executable scanner proves
/// that they always pass.
pub open spec fn spec_scan_value(s: Seq<char>, i: int) -> Option<int>
    decreases s.len() - i, 2int when 0 <= i <= s.len()
{
    if i >= s.len() {
        None
    } else if s[i] == '{' {
        spec_scan_object(s, i)
    } else if s[i] == '[' {
        spec_scan_array(s, i)
    } else if s[i] == '"' {
        match spec_scan_string(s, i) {
            Some(p) => Some(p.0),
            None => None,
        }
    } else if s[i] == 't' {
        if i + 4 <= s.len() && s[i + 1] == 'r' && s[i + 2] == 'u' && s[i + 3] == 'e' {
            Some(i + 4)
        } else {
            None
        }
    } else if s[i] == 'f' {
        if i + 5 <= s.len() && s[i + 1] == 'a' && s[i + 2] == 'l' && s[i + 3] == 's' && s[i + 4]
            == 'e' {
            Some(i + 5)
        } else {
            None
        }
    } else if s[i] == 'n' {
        if i + 4 <= s.len() && s[i + 1] == 'u' && s[i + 2] == 'l' && s[i + 3] == 'l' {
            Some(i + 4)
        } else {
            None
        }
    } else if s[i] == '-' || is_digit_spec(s[i]) {
        spec_scan_number(s, i)
    } else {
        None
    }
}

/// Scan a JSON object at `i` (which must hold `{`).
pub open spec fn spec_scan_object(s: Seq<char>, i: int) -> Option<int>
    decreases s.len() - i, 1int when 0 <= i <= s.len()
{
    if i < s.len() && s[i] == '{' {
        let j = spec_ws_end(s, i + 1);
        if i < j <= s.len() {
            if j < s.len() && s[j] == '}' {
                Some(j + 1)
            } else {
                spec_scan_members(s, j)
            }
        } else {
            None
        }
    } else {
        None
    }
}

/// Scan a JSON array at `i` (which must hold `[`).
pub open spec fn spec_scan_array(s: Seq<char>, i: int) -> Option<int>
    decreases s.len() - i, 1int when 0 <= i <= s.len()
{
    if i < s.len() && s[i] == '[' {
        let j = spec_ws_end(s, i + 1);
        if i < j <= s.len() {
            if j < s.len() && s[j] == ']' {
                Some(j + 1)
            } else {
                spec_scan_elements(s, j)
            }
        } else {
            None
        }
    } else {
        None
    }
}

/// Scan the members of an object from the first key (no leading whitespace)
/// up to and including the closing `}`.
pub open spec fn spec_scan_members(s: Seq<char>, i: int) -> Option<int>
    decreases s.len() - i, 3int when 0 <= i <= s.len()
{
    match spec_scan_string(s, i) {
        None => None,
        Some(p) => {
            let j = p.0;
            if i < j <= s.len() {
                let k = spec_ws_end(s, j);
                if k < s.len() && s[k] == ':' {
                    let v = spec_ws_end(s, k + 1);
                    if i < v <= s.len() {
                        match spec_scan_value(s, v) {
                            None => None,
                            Some(w) => {
                                if v < w <= s.len() {
                                    let z = spec_ws_end(s, w);
                                    if z < s.len() && s[z] == '}' {
                                        Some(z + 1)
                                    } else if z < s.len() && s[z] == ',' {
                                        let n = spec_ws_end(s, z + 1);
                                        if i < n <= s.len() {
                                            spec_scan_members(s, n)
                                        } else {
                                            None
                                        }
                                    } else {
                                        None
                                    }
                                } else {
                                    None
                                }
                            },
                        }
                    } else {
                        None
                    }
                } else {
                    None
                }
            } else {
                None
            }
        },
    }
}

/// Scan the elements of an array from the first element (no leading
/// whitespace) up to and including the closing `]`.
pub open spec fn spec_scan_elements(s: Seq<char>, i: int) -> Option<int>
    decreases s.len() - i, 3int when 0 <= i <= s.len()
{
    match spec_scan_value(s, i) {
        None => None,
        Some(w) => {
            if i < w <= s.len() {
                let z = spec_ws_end(s, w);
                if z < s.len() && s[z] == ']' {
                    Some(z + 1)
                } else if z < s.len() && s[z] == ',' {
                    let n = spec_ws_end(s, z + 1);
                    if i < n <= s.len() {
                        spec_scan_elements(s, n)
                    } else {
                        None
                    }
                } else {
                    None
                }
            } else {
                None
            }
        },
    }
}

/// Scan any JSON value; exec twin of [`spec_scan_value`].
pub fn scan_value(s: &[char], i: usize) -> (r: Option<usize>)
    requires
        i <= s@.len(),
    ensures
        (r is Some) == (spec_scan_value(s@, i as int) is Some),
        r matches Some(j) ==> spec_scan_value(s@, i as int) == Some(j as int) && i < j
            <= s@.len(),
    decreases s@.len() - i, 2int,
{
    if i >= s.len() {
        return None;
    }
    let c = s[i];
    if c == '{' {
        scan_object(s, i)
    } else if c == '[' {
        scan_array(s, i)
    } else if c == '"' {
        match scan_string(s, i) {
            Some(p) => Some(p.0),
            None => None,
        }
    } else if c == 't' {
        if s.len() - i >= 4 && s[i + 1] == 'r' && s[i + 2] == 'u' && s[i + 3] == 'e' {
            Some(i + 4)
        } else {
            None
        }
    } else if c == 'f' {
        if s.len() - i >= 5 && s[i + 1] == 'a' && s[i + 2] == 'l' && s[i + 3] == 's' && s[i + 4]
            == 'e' {
            Some(i + 5)
        } else {
            None
        }
    } else if c == 'n' {
        if s.len() - i >= 4 && s[i + 1] == 'u' && s[i + 2] == 'l' && s[i + 3] == 'l' {
            Some(i + 4)
        } else {
            None
        }
    } else if c == '-' || is_digit(c) {
        scan_number(s, i)
    } else {
        None
    }
}

/// Scan a JSON object; exec twin of [`spec_scan_object`].
pub fn scan_object(s: &[char], i: usize) -> (r: Option<usize>)
    requires
        i <= s@.len(),
    ensures
        (r is Some) == (spec_scan_object(s@, i as int) is Some),
        r matches Some(j) ==> spec_scan_object(s@, i as int) == Some(j as int) && i < j
            <= s@.len(),
    decreases s@.len() - i, 1int,
{
    if i < s.len() && s[i] == '{' {
        let j = skip_ws(s, i + 1);
        if j < s.len() && s[j] == '}' {
            Some(j + 1)
        } else {
            scan_members(s, j)
        }
    } else {
        None
    }
}

/// Scan a JSON array; exec twin of [`spec_scan_array`].
pub fn scan_array(s: &[char], i: usize) -> (r: Option<usize>)
    requires
        i <= s@.len(),
    ensures
        (r is Some) == (spec_scan_array(s@, i as int) is Some),
        r matches Some(j) ==> spec_scan_array(s@, i as int) == Some(j as int) && i < j
            <= s@.len(),
    decreases s@.len() - i, 1int,
{
    if i < s.len() && s[i] == '[' {
        let j = skip_ws(s, i + 1);
        if j < s.len() && s[j] == ']' {
            Some(j + 1)
        } else {
            scan_elements(s, j)
        }
    } else {
        None
    }
}

/// Scan object members; exec twin of [`spec_scan_members`].
pub fn scan_members(s: &[char], i: usize) -> (r: Option<usize>)
    requires
        i <= s@.len(),
    ensures
        (r is Some) == (spec_scan_members(s@, i as int) is Some),
        r matches Some(j) ==> spec_scan_members(s@, i as int) == Some(j as int) && i < j
            <= s@.len(),
    decreases s@.len() - i, 3int,
{
    match scan_string(s, i) {
        None => None,
        Some(p) => {
            let j = p.0;
            let k = skip_ws(s, j);
            if k < s.len() && s[k] == ':' {
                let v = skip_ws(s, k + 1);
                match scan_value(s, v) {
                    None => None,
                    Some(w) => {
                        let z = skip_ws(s, w);
                        if z < s.len() && s[z] == '}' {
                            Some(z + 1)
                        } else if z < s.len() && s[z] == ',' {
                            let n = skip_ws(s, z + 1);
                            scan_members(s, n)
                        } else {
                            None
                        }
                    },
                }
            } else {
                None
            }
        },
    }
}

/// Scan array elements; exec twin of [`spec_scan_elements`].
pub fn scan_elements(s: &[char], i: usize) -> (r: Option<usize>)
    requires
        i <= s@.len(),
    ensures
        (r is Some) == (spec_scan_elements(s@, i as int) is Some),
        r matches Some(j) ==> spec_scan_elements(s@, i as int) == Some(j as int) && i < j
            <= s@.len(),
    decreases s@.len() - i, 3int,
{
    match scan_value(s, i) {
        None => None,
        Some(w) => {
            let z = skip_ws(s, w);
            if z < s.len() && s[z] == ']' {
                Some(z + 1)
            } else if z < s.len() && s[z] == ',' {
                let n = skip_ws(s, z + 1);
                scan_elements(s, n)
            } else {
                None
            }
        },
    }
}

/// Look up a member value inside the member list of an object, starting at
/// the first key. Returns the span of the value of the first member whose
/// (decoded) key equals `key`, provided the member list is well formed up to
/// that point.
pub open spec fn spec_member_lookup(s: Seq<char>, i: int, key: Seq<char>) -> Option<(int, int)>
    decreases s.len() - i when 0 <= i <= s.len()
{
    match spec_scan_string(s, i) {
        None => None,
        Some(p) => {
            let j = p.0;
            if i < j <= s.len() {
                let k = spec_ws_end(s, j);
                if k < s.len() && s[k] == ':' {
                    let v = spec_ws_end(s, k + 1);
                    if i < v <= s.len() {
                        match spec_scan_value(s, v) {
                            None => None,
                            Some(w) => {
                                if p.1 == key {
                                    Some((v, w))
                                } else if v < w <= s.len() {
                                    let z = spec_ws_end(s, w);
                                    if z < s.len() && s[z] == ',' {
                                        let n = spec_ws_end(s, z + 1);
                                        if i < n <= s.len() {
                                            spec_member_lookup(s, n, key)
                                        } else {
                                            None
                                        }
                                    } else {
                                        None
                                    }
                                } else {
                                    None
                                }
                            },
                        }
                    } else {
                        None
                    }
                } else {
                    None
                }
            } else {
                None
            }
        },
    }
}

/// Look up a member value in a whole object: the span of the value of the
/// first member whose key equals `key`, or `None` if the object is empty,
/// malformed, or holds no such member.
pub open spec fn spec_obj_lookup(s: Seq<char>, i: int, key: Seq<char>) -> Option<(int, int)> {
    if 0 <= i < s.len() && s[i] == '{' {
        let j = spec_ws_end(s, i + 1);
        if j < s.len() && s[j] == '"' {
            spec_member_lookup(s, j, key)
        } else {
            None
        }
    } else {
        None
    }
}

fn member_lookup(s: &[char], i: usize, key: &[char]) -> (r: Option<(usize, usize)>)
    requires
        i <= s@.len(),
    ensures
        (r is Some) == (spec_member_lookup(s@, i as int, key@) is Some),
        r matches Some(p) ==> spec_member_lookup(s@, i as int, key@) == Some(
            (p.0 as int, p.1 as int),
        ) && i < p.0 < p.1 <= s@.len(),
    decreases s@.len() - i,
{
    match scan_string(s, i) {
        None => None,
        Some(p) => {
            let j = p.0;
            let k = skip_ws(s, j);
            if k < s.len() && s[k] == ':' {
                let v = skip_ws(s, k + 1);
                match scan_value(s, v) {
                    None => None,
                    Some(w) => {
                        if crate::text::eq_chars(p.1.as_slice(), key) {
                            Some((v, w))
                        } else {
                            let z = skip_ws(s, w);
                            if z < s.len() && s[z] == ',' {
                                let n = skip_ws(s, z + 1);
                                member_lookup(s, n, key)
                            } else {
                                None
                            }
                        }
                    },
                }
            } else {
                None
            }
        },
    }
}

/// Member lookup in a whole object; exec twin of [`spec_obj_lookup`].
pub fn obj_lookup(s: &[char], i: usize, key: &[char]) -> (r: Option<(usize, usize)>)
    requires
        i <= s@.len(),
    ensures
        (r is Some) == (spec_obj_lookup(s@, i as int, key@) is Some),
        r matches Some(p) ==> spec_obj_lookup(s@, i as int, key@) == Some(
            (p.0 as int, p.1 as int),
        ) && i < p.0 < p.1 <= s@.len(),
{
    if i < s.len() && s[i] == '{' {
        let j = skip_ws(s, i + 1);
        if j < s.len() && s[j] == '"' {
            member_lookup(s, j, key)
        } else {
            None
        }
    } else {
        None
    }
}

} // verus!
