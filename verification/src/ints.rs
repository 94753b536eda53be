//! Verified parsing of optionally signed decimal integers, as they appear
//! in identifier columns and in exponent runs of key labels.

use vstd::prelude::*;

use crate::text::{digit_char, is_digit};

verus! {

/// Value of a digit string, most significant first.
pub open spec fn digits_val(s: Seq<char>) -> int
    decreases s.len(),
{
    if s.len() == 0 {
        0
    } else {
        digits_val(s.drop_last()) * 10 + (s.last() as int - '0' as int)
    }
}

/// Every character is a digit.
pub open spec fn all_digits(s: Seq<char>) -> bool {
    forall|k: int| 0 <= k < s.len() ==> is_digit(s[k])
}

/// The digit part of an optionally signed integer literal.
pub open spec fn int_body(s: Seq<char>) -> Seq<char> {
    if s.len() > 0 && (s[0] == '+' || s[0] == '-') {
        s.subrange(1, s.len() as int)
    } else {
        s
    }
}

/// The sign of an optionally signed integer literal.
pub open spec fn int_sign(s: Seq<char>) -> int {
    if s.len() > 0 && s[0] == '-' {
        -1
    } else {
        1
    }
}

/// What `i64` parsing returns on `s`: the signed value when `s` is an
/// optionally signed nonempty digit string whose value fits.
pub open spec fn spec_parse_i64(s: Seq<char>) -> Option<int> {
    let b = int_body(s);
    if b.len() >= 1 && all_digits(b) {
        let v = int_sign(s) * digits_val(b);
        if i64::MIN <= v <= i64::MAX {
            Some(v)
        } else {
            None
        }
    } else {
        None
    }
}

/// What `i32` parsing returns on `s`, likewise.
pub open spec fn spec_parse_i32(s: Seq<char>) -> Option<int> {
    let b = int_body(s);
    if b.len() >= 1 && all_digits(b) {
        let v = int_sign(s) * digits_val(b);
        if i32::MIN <= v <= i32::MAX {
            Some(v)
        } else {
            None
        }
    } else {
        None
    }
}

/// Ten to the `n`.
pub open spec fn pow10(n: nat) -> int
    decreases n,
{
    if n == 0 {
        1
    } else {
        10 * pow10((n - 1) as nat)
    }
}

pub proof fn lemma_pow10_pos(n: nat)
    ensures
        pow10(n) >= 1,
    decreases n,
{
    if n > 0 {
        lemma_pow10_pos((n - 1) as nat);
    }
}

pub proof fn lemma_pow10_mono(a: nat, b: nat)
    requires
        a <= b,
    ensures
        pow10(a) <= pow10(b),
        pow10(a) >= 1,
    decreases b,
{
    lemma_pow10_pos(a);
    if a < b {
        lemma_pow10_mono(a, (b - 1) as nat);
        lemma_pow10_pos((b - 1) as nat);
    }
}

pub proof fn lemma_digits_val_bound(s: Seq<char>)
    requires
        all_digits(s),
    ensures
        0 <= digits_val(s) < pow10(s.len()),
    decreases s.len(),
{
    if s.len() > 0 {
        assert(all_digits(s.drop_last()));
        lemma_digits_val_bound(s.drop_last());
    }
}

pub proof fn lemma_digits_val_step(s: Seq<char>, a: int, i: int)
    requires
        0 <= a <= i < s.len(),
    ensures
        digits_val(s.subrange(a, i + 1)) == digits_val(s.subrange(a, i)) * 10 + (s[i] as int
            - '0' as int),
{
    assert(s.subrange(a, i + 1).drop_last() =~= s.subrange(a, i));
    assert(s.subrange(a, i + 1).last() == s[i]);
}

/// Parse a short optionally signed decimal integer, such as an identifier
/// column of at most nine characters.
pub(crate) fn parse_i64_str(s: &str) -> (r: Option<i64>)
    requires
        s@.len() <= 9,
    ensures
        match r {
            Some(v) => spec_parse_i64(s@) == Some(v as int),
            None => spec_parse_i64(s@) is None,
        },
{
    let len = s.unicode_len();
    let start: usize = if len > 0 && (s.get_char(0) == '+' || s.get_char(0) == '-') {
        1
    } else {
        0
    };
    let neg = start == 1 && s.get_char(0) == '-';
    proof {
        assert(int_body(s@) =~= s@.subrange(start as int, len as int));
    }
    if start >= len {
        return None;
    }
    let mut acc: u64 = 0;
    let mut i = start;
    while i < len
        invariant
            start <= i <= len,
            len == s@.len() <= 9,
            int_body(s@) =~= s@.subrange(start as int, len as int),
            acc == digits_val(s@.subrange(start as int, i as int)),
            acc < pow10((i - start) as nat),
            forall|k: int| start <= k < i ==> is_digit(s@[k]),
        decreases len - i,
    {
        let c = s.get_char(i);
        if !digit_char(c) {
            proof {
                assert(int_body(s@)[i - start] == s@[i as int]);
                assert(!all_digits(int_body(s@)));
            }
            return None;
        }
        proof {
            lemma_digits_val_step(s@, start as int, i as int);
            lemma_pow10_mono((i - start + 1) as nat, 9);
            assert(pow10(9) == 1000000000) by {
                assert(pow10(0) == 1);
                assert(pow10(1) == 10);
                assert(pow10(2) == 100);
                assert(pow10(3) == 1000);
                assert(pow10(4) == 10000);
                assert(pow10(5) == 100000);
                assert(pow10(6) == 1000000);
                assert(pow10(7) == 10000000);
                assert(pow10(8) == 100000000);
            }
        }
        let d: u64 = (c as u32 - '0' as u32) as u64;
        acc = acc * 10 + d;
        i += 1;
    }
    proof {
        assert(int_body(s@) =~= s@.subrange(start as int, len as int));
        assert(all_digits(int_body(s@)));
        lemma_pow10_mono((len - start) as nat, 9);
        assert(pow10(9) == 1000000000) by {
            assert(pow10(0) == 1);
            assert(pow10(1) == 10);
            assert(pow10(2) == 100);
            assert(pow10(3) == 1000);
            assert(pow10(4) == 10000);
            assert(pow10(5) == 100000);
            assert(pow10(6) == 1000000);
            assert(pow10(7) == 10000000);
            assert(pow10(8) == 100000000);
        }
    }
    let v = acc as i64;
    if neg {
        Some(-v)
    } else {
        Some(v)
    }
}

/// Parse an optionally signed decimal integer of any length into an `i32`,
/// rejecting values out of range.  The accumulator saturates just past
/// `i32` magnitude, which is enough to decide the range check exactly.
pub(crate) fn parse_i32_str(s: &str) -> (r: Option<i32>)
    ensures
        match r {
            Some(v) => spec_parse_i32(s@) == Some(v as int),
            None => spec_parse_i32(s@) is None,
        },
{
    let len = s.unicode_len();
    let start: usize = if len > 0 && (s.get_char(0) == '+' || s.get_char(0) == '-') {
        1
    } else {
        0
    };
    let neg = start == 1 && s.get_char(0) == '-';
    proof {
        assert(int_body(s@) =~= s@.subrange(start as int, len as int));
    }
    if start >= len {
        return None;
    }
    let mut acc: u64 = 0;
    let mut i = start;
    while i < len
        invariant
            start <= i <= len,
            len == s@.len(),
            int_body(s@) =~= s@.subrange(start as int, len as int),
            neg == (s@.len() > 0 && s@[0] == '-'),
            ({
                let dv = digits_val(s@.subrange(start as int, i as int));
                if dv <= 2147483648 {
                    acc == dv
                } else {
                    acc == 2147483649
                }
            }),
            forall|k: int| start <= k < i ==> is_digit(s@[k]),
        decreases len - i,
    {
        let c = s.get_char(i);
        if !digit_char(c) {
            proof {
                assert(int_body(s@)[i - start] == s@[i as int]);
                assert(!all_digits(int_body(s@)));
            }
            return None;
        }
        proof {
            lemma_digits_val_step(s@, start as int, i as int);
            assert(all_digits(s@.subrange(start as int, i as int)));
            lemma_digits_val_bound(s@.subrange(start as int, i as int));
        }
        let d: u64 = (c as u32 - '0' as u32) as u64;
        let raw = acc * 10 + d;
        acc = if raw > 2147483648 {
            2147483649
        } else {
            raw
        };
        i += 1;
    }
    proof {
        assert(all_digits(int_body(s@)));
        lemma_digits_val_bound(int_body(s@));
    }
    if neg {
        if acc <= 2147483648 {
            let m: i64 = -(acc as i64);
            Some(m as i32)
        } else {
            None
        }
    } else {
        if acc <= 2147483647 {
            Some(acc as i32)
        } else {
            None
        }
    }
}

} // verus!
