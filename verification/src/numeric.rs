//! Numeric token extraction: pulling a decimal literal, optionally
//! exponent-suffixed, out of a text fragment that may carry trailing noise
//! (units, uncertainty suffixes, footnote glyphs).
//!
//! The accepted grammar is `[-] mantissa [e|E [+|-] digits]`, where the
//! mantissa is a run of digits and dots holding at least one digit and at
//! most one dot.  Scanning is greedy left to right and stops at the first
//! character that cannot extend the literal; the token is rejected, not
//! truncated, when its mantissa run holds a second decimal point.

use vstd::prelude::*;

use crate::text::{digit_char, is_digit};

verus! {

/// End of the run of mantissa characters (digits and dots) starting at `i`.
pub open spec fn scan_mant(s: Seq<char>, i: int) -> int
    decreases s.len() - i,
{
    if 0 <= i < s.len() && (is_digit(s[i]) || s[i] == '.') {
        scan_mant(s, i + 1)
    } else {
        i
    }
}

pub proof fn lemma_scan_mant_bounds(s: Seq<char>, i: int)
    requires
        0 <= i <= s.len(),
    ensures
        i <= scan_mant(s, i) <= s.len(),
        scan_mant(s, i) < s.len() ==> !(is_digit(s[scan_mant(s, i)]) || s[scan_mant(s, i)]
            == '.'),
        forall|k: int| i <= k < scan_mant(s, i) ==> is_digit(s[k]) || s[k] == '.',
    decreases s.len() - i,
{
    if i < s.len() && (is_digit(s[i]) || s[i] == '.') {
        lemma_scan_mant_bounds(s, i + 1);
    }
}

/// Executable twin of [`scan_mant`].
pub fn scan_mant_exec(s: &str, from: usize) -> (r: usize)
    requires
        from <= s@.len(),
    ensures
        r == scan_mant(s@, from as int),
{
    let len = s.unicode_len();
    let mut i = from;
    while i < len
        invariant
            from <= i <= len,
            len == s@.len(),
            scan_mant(s@, from as int) == scan_mant(s@, i as int),
        decreases len - i,
    {
        let c = s.get_char(i);
        if !(digit_char(c) || c == '.') {
            return i;
        }
        i += 1;
    }
    i
}

/// End of the run of digits starting at `i`.
pub open spec fn scan_digits(s: Seq<char>, i: int) -> int
    decreases s.len() - i,
{
    if 0 <= i < s.len() && is_digit(s[i]) {
        scan_digits(s, i + 1)
    } else {
        i
    }
}

pub proof fn lemma_scan_digits_bounds(s: Seq<char>, i: int)
    requires
        0 <= i <= s.len(),
    ensures
        i <= scan_digits(s, i) <= s.len(),
        scan_digits(s, i) < s.len() ==> !is_digit(s[scan_digits(s, i)]),
        forall|k: int| i <= k < scan_digits(s, i) ==> is_digit(s[k]),
    decreases s.len() - i,
{
    if i < s.len() && is_digit(s[i]) {
        lemma_scan_digits_bounds(s, i + 1);
    }
}

/// Executable twin of [`scan_digits`].
pub fn scan_digits_exec(s: &str, from: usize) -> (r: usize)
    requires
        from <= s@.len(),
    ensures
        r == scan_digits(s@, from as int),
{
    let len = s.unicode_len();
    let mut i = from;
    while i < len
        invariant
            from <= i <= len,
            len == s@.len(),
            scan_digits(s@, from as int) == scan_digits(s@, i as int),
        decreases len - i,
    {
        if !digit_char(s.get_char(i)) {
            return i;
        }
        i += 1;
    }
    i
}

/// Number of digits in `s.subrange(a, b)`.
pub open spec fn count_digits(s: Seq<char>, a: int, b: int) -> int
    decreases b - a,
{
    if a < b {
        (if 0 <= a < s.len() && is_digit(s[a]) {
            1int
        } else {
            0int
        }) + count_digits(s, a + 1, b)
    } else {
        0
    }
}

/// Number of dots in `s.subrange(a, b)`.
pub open spec fn count_dots(s: Seq<char>, a: int, b: int) -> int
    decreases b - a,
{
    if a < b {
        (if 0 <= a < s.len() && s[a] == '.' {
            1int
        } else {
            0int
        }) + count_dots(s, a + 1, b)
    } else {
        0
    }
}

/// Count the digits and dots of `s` between `a` and `b` in one pass.
pub fn count_digits_dots(s: &str, a: usize, b: usize) -> (r: (usize, usize))
    requires
        a <= b <= s@.len(),
    ensures
        r.0 == count_digits(s@, a as int, b as int),
        r.1 == count_dots(s@, a as int, b as int),
{
    let mut digits: usize = 0;
    let mut dots: usize = 0;
    let mut i = a;
    while i < b
        invariant
            a <= i <= b <= s@.len(),
            digits + count_digits(s@, i as int, b as int) == count_digits(s@, a as int, b as int),
            dots + count_dots(s@, i as int, b as int) == count_dots(s@, a as int, b as int),
            digits <= i - a,
            dots <= i - a,
        decreases b - i,
    {
        proof {
            lemma_count_digits_nonneg(s@, i as int + 1, b as int);
            lemma_count_dots_nonneg(s@, i as int + 1, b as int);
        }
        let c = s.get_char(i);
        if digit_char(c) {
            digits += 1;
        }
        if c == '.' {
            dots += 1;
        }
        i += 1;
    }
    (digits, dots)
}

pub proof fn lemma_count_digits_nonneg(s: Seq<char>, a: int, b: int)
    ensures
        count_digits(s, a, b) >= 0,
        count_digits(s, a, b) <= (if b > a {
            b - a
        } else {
            0
        }),
    decreases b - a,
{
    if a < b {
        lemma_count_digits_nonneg(s, a + 1, b);
    }
}

pub proof fn lemma_count_dots_nonneg(s: Seq<char>, a: int, b: int)
    ensures
        count_dots(s, a, b) >= 0,
        count_dots(s, a, b) <= (if b > a {
            b - a
        } else {
            0
        }),
    decreases b - a,
{
    if a < b {
        lemma_count_dots_nonneg(s, a + 1, b);
    }
}

/// Start of the mantissa: one past an optional leading minus sign.
pub open spec fn mant_start(s: Seq<char>) -> int {
    if s.len() > 0 && s[0] == '-' {
        1
    } else {
        0
    }
}

/// End of the mantissa run.
pub open spec fn mant_end(s: Seq<char>) -> int {
    scan_mant(s, mant_start(s))
}

/// An exponent marker follows the mantissa and the mantissa has a digit, so
/// the scan continues into an exponent tail.
pub open spec fn has_exp(s: Seq<char>) -> bool {
    &&& count_digits(s, mant_start(s), mant_end(s)) >= 1
    &&& mant_end(s) < s.len()
    &&& (s[mant_end(s)] == 'e' || s[mant_end(s)] == 'E')
}

/// First index of the exponent's digit run: one past the marker and an
/// optional sign.
pub open spec fn exp_digits_start(s: Seq<char>) -> int {
    let e0 = mant_end(s) + 1;
    if e0 < s.len() && (s[e0] == '+' || s[e0] == '-') {
        e0 + 1
    } else {
        e0
    }
}

/// One past the last character the scan accepts.
pub open spec fn token_end(s: Seq<char>) -> int {
    if has_exp(s) {
        scan_digits(s, exp_digits_start(s))
    } else {
        mant_end(s)
    }
}

/// The accepted run forms a number: at least one mantissa digit, at most one
/// decimal point, and a nonempty digit run after any exponent marker.
pub open spec fn token_valid(s: Seq<char>) -> bool {
    &&& count_digits(s, mant_start(s), mant_end(s)) >= 1
    &&& count_dots(s, mant_start(s), mant_end(s)) <= 1
    &&& (has_exp(s) ==> scan_digits(s, exp_digits_start(s)) > exp_digits_start(s))
}

/// What numeric extraction returns on `s`: the accepted run when it forms a
/// number, nothing otherwise.
pub open spec fn spec_extract_number(s: Seq<char>) -> Option<Seq<char>> {
    if token_valid(s) {
        Some(s.subrange(0, token_end(s)))
    } else {
        None
    }
}

/// Extract the leading numeric literal of `s`, if any.
///
/// The longest prefix matching `[-] digits-and-one-dot [e|E [+|-] digits]`
/// is returned; trailing noise (units, `+-` uncertainty suffixes, footnote
/// glyphs) is left behind.  `None` when no digit is found, when a second
/// decimal point rides the mantissa, or when an exponent marker has no
/// digits after it.
pub fn parse_property_number(s: &str) -> (r: Option<String>)
    ensures
        match r {
            Some(t) => spec_extract_number(s@) == Some(t@),
            None => spec_extract_number(s@) is None,
        },
{
    let len = s.unicode_len();
    let b: usize = if len > 0 && s.get_char(0) == '-' {
        1
    } else {
        0
    };
    let m = scan_mant_exec(s, b);
    proof {
        lemma_scan_mant_bounds(s@, b as int);
    }
    let counts = count_digits_dots(s, b, m);
    let digits = counts.0;
    let dots = counts.1;
    if digits >= 1 && m < len && (s.get_char(m) == 'e' || s.get_char(m) == 'E') {
        let e0 = m + 1;
        let e1: usize = if e0 < len && (s.get_char(e0) == '+' || s.get_char(e0) == '-') {
            e0 + 1
        } else {
            e0
        };
        let e2 = scan_digits_exec(s, e1);
        proof {
            lemma_scan_digits_bounds(s@, e1 as int);
        }
        if dots <= 1 && e2 > e1 {
            Some(s.substring_char(0, e2).to_owned())
        } else {
            None
        }
    } else {
        if digits >= 1 && dots <= 1 {
            Some(s.substring_char(0, m).to_owned())
        } else {
            None
        }
    }
}

/// Every character of the accepted run is a digit, a dot, a sign, or an
/// exponent marker -- in particular never whitespace and never `'='`.
pub proof fn lemma_token_chars(s: Seq<char>)
    requires
        0 <= token_end(s) <= s.len(),
    ensures
        forall|k: int|
            0 <= k < token_end(s) ==> (is_digit(s[k]) || s[k] == '.' || s[k] == '-' || s[k] == '+'
                || s[k] == 'e' || s[k] == 'E'),
{
    let b = mant_start(s);
    let m = mant_end(s);
    lemma_scan_mant_bounds(s, b);
    if has_exp(s) {
        lemma_scan_digits_bounds(s, exp_digits_start(s));
        assert forall|k: int|
            0 <= k < token_end(s) implies (is_digit(s[k]) || s[k] == '.' || s[k] == '-' || s[k]
            == '+' || s[k] == 'e' || s[k] == 'E') by {
            if k < b {
            } else if k < m {
            } else if k == m {
            } else if k < exp_digits_start(s) {
            }
        }
    }
}

/// A string that is entirely one valid token is returned whole.
pub proof fn lemma_extract_whole(s: Seq<char>)
    requires
        token_valid(s),
        token_end(s) == s.len(),
    ensures
        spec_extract_number(s) == Some(s),
{
    assert(s.subrange(0, s.len() as int) =~= s);
}

} // verus!
