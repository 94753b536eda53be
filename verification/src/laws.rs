//! Laws of the parsing engine, stated once over all inputs and proved
//! against the same spec functions that the executable parsers are
//! verified against.

use vstd::prelude::*;

use crate::motion::{
    eoe_marker, pos_marker, soe_marker, spec_motion, spec_motion_from, vel_marker, MotionSpec,
};
use crate::numeric::{
    lemma_count_digits_nonneg, lemma_extract_whole, lemma_scan_mant_bounds, lemma_token_chars,
    mant_end, mant_start, spec_extract_number, token_end, token_valid,
};
use crate::physical::{empty_state, spec_phys_from, spec_physical};
use crate::search::{overflow_mark, spec_row_name, spec_search};
use crate::text::{
    contains_seq, is_space, lemma_find_from_value, lemma_scan_to_ws_value, lemma_skip_ws_value,
    lemma_trim_exact, spec_lines, starts_with, trim,
};
use crate::vector::{first_ws_token, spec_vec3_nums, spec_vec3_tokens};

verus! {

/// All characters are whitespace.
pub open spec fn all_spaces(s: Seq<char>) -> bool {
    forall|k: int| 0 <= k < s.len() ==> is_space(s[k])
}

/// A complete numeric token: scanning accepts all of it and it forms a
/// number.
pub open spec fn full_token(s: Seq<char>) -> bool {
    token_valid(s) && token_end(s) == s.len()
}

/// A complete token is nonempty and holds neither whitespace nor `=`.
pub proof fn lemma_full_token_chars(s: Seq<char>)
    requires
        full_token(s),
    ensures
        s.len() >= 1,
        forall|k: int| 0 <= k < s.len() ==> !is_space(s[k]) && s[k] != '=',
{
    let b = mant_start(s);
    lemma_scan_mant_bounds(s, b);
    lemma_count_digits_nonneg(s, b, mant_end(s));
    lemma_token_chars(s);
}

/// For every well-formed three-field vector line -- label, `=`, value,
/// three times, with arbitrary whitespace between fields (and any sign or
/// exponent written inside the numeric tokens themselves) -- the vector
/// line parser recovers exactly the three tokens `a`, `b`, `c`.
#[verifier::rlimit(100)]
#[verifier::spinoff_prover]
pub proof fn lemma_vector_line_exact(
    w0: Seq<char>,
    w1: Seq<char>,
    w2: Seq<char>,
    w3: Seq<char>,
    w4: Seq<char>,
    w5: Seq<char>,
    w6: Seq<char>,
    w7: Seq<char>,
    w8: Seq<char>,
    w9: Seq<char>,
    a: Seq<char>,
    b: Seq<char>,
    c: Seq<char>,
)
    requires
        all_spaces(w0),
        all_spaces(w1),
        all_spaces(w2),
        all_spaces(w3),
        all_spaces(w4),
        all_spaces(w5),
        all_spaces(w6),
        all_spaces(w7),
        all_spaces(w8),
        all_spaces(w9),
        w3.len() > 0,
        w6.len() > 0,
        full_token(a),
        full_token(b),
        full_token(c),
    ensures
        spec_vec3_nums(
            w0 + seq!['X'] + w1 + seq!['='] + w2 + a + w3 + seq!['Y'] + w4 + seq!['='] + w5 + b
                + w6 + seq!['Z'] + w7 + seq!['='] + w8 + c + w9,
        ) == Some((a, b, c)),
{
    let line = w0 + seq!['X'] + w1 + seq!['='] + w2 + a + w3 + seq!['Y'] + w4 + seq!['='] + w5 + b
        + w6 + seq!['Z'] + w7 + seq!['='] + w8 + c + w9;
    lemma_full_token_chars(a);
    lemma_full_token_chars(b);
    lemma_full_token_chars(c);

    // Absolute offsets of each piece within the line.
    let n0 = w0.len() as int;
    let e1 = n0 + 1 + w1.len();
    let a0 = e1 + 1 + w2.len();
    let y0 = a0 + a.len();
    let yl = y0 + w3.len();
    let e2 = yl + 1 + w4.len();
    let b0 = e2 + 1 + w5.len();
    let z0 = b0 + b.len();
    let zl = z0 + w6.len();
    let e3 = zl + 1 + w7.len();
    let c0 = e3 + 1 + w8.len();
    let nend = c0 + c.len();
    assert(line.len() == nend + w9.len());

    // Characterize every character of the line.
    assert forall|k: int| 0 <= k < n0 implies is_space(line[k]) by {
        assert(line[k] == w0[k]);
    }
    assert(line[n0] == 'X');
    assert forall|k: int| n0 + 1 <= k < e1 implies is_space(line[k]) by {
        assert(line[k] == w1[k - (n0 + 1)]);
    }
    assert(line[e1] == '=');
    assert forall|k: int| e1 + 1 <= k < a0 implies is_space(line[k]) by {
        assert(line[k] == w2[k - (e1 + 1)]);
    }
    assert forall|k: int| a0 <= k < y0 implies line[k] == a[k - a0] by {}
    assert forall|k: int| y0 <= k < yl implies is_space(line[k]) by {
        assert(line[k] == w3[k - y0]);
    }
    assert(line[yl] == 'Y');
    assert forall|k: int| yl + 1 <= k < e2 implies is_space(line[k]) by {
        assert(line[k] == w4[k - (yl + 1)]);
    }
    assert(line[e2] == '=');
    assert forall|k: int| e2 + 1 <= k < b0 implies is_space(line[k]) by {
        assert(line[k] == w5[k - (e2 + 1)]);
    }
    assert forall|k: int| b0 <= k < z0 implies line[k] == b[k - b0] by {}
    assert forall|k: int| z0 <= k < zl implies is_space(line[k]) by {
        assert(line[k] == w6[k - z0]);
    }
    assert(line[zl] == 'Z');
    assert forall|k: int| zl + 1 <= k < e3 implies is_space(line[k]) by {
        assert(line[k] == w7[k - (zl + 1)]);
    }
    assert(line[e3] == '=');
    assert forall|k: int| e3 + 1 <= k < c0 implies is_space(line[k]) by {
        assert(line[k] == w8[k - (e3 + 1)]);
    }
    assert forall|k: int| c0 <= k < nend implies line[k] == c[k - c0] by {}
    assert forall|k: int| nend <= k < line.len() implies is_space(line[k]) by {
        assert(line[k] == w9[k - nend]);
    }

    // Trimming the line leaves exactly the span from the first label to the
    // end of the last token.
    assert(line[nend - 1] == c[c.len() - 1]);
    lemma_trim_exact(line, n0, nend);
    let t = line.subrange(n0, nend);
    assert(trim(line) == t);
    let tend = nend - n0;

    // The first three `=` signs sit where the construction put them.
    assert forall|k: int| 0 <= k < tend implies t[k] == line[n0 + k] by {}
    lemma_find_from_value(t, 0, e1 - n0, '=');
    lemma_find_from_value(t, e1 - n0 + 1, e2 - n0, '=');
    lemma_find_from_value(t, e2 - n0 + 1, e3 - n0, '=');
    lemma_find_from_value(t, e3 - n0 + 1, tend, '=');

    // The first word of each value segment is the token.
    let xseg = t.subrange(e1 - n0 + 1, e2 - n0);
    assert forall|k: int| 0 <= k < xseg.len() implies xseg[k] == line[e1 + 1 + k] by {}
    lemma_skip_ws_value(xseg, 0, w2.len() as int);
    lemma_scan_to_ws_value(xseg, w2.len() as int, w2.len() + a.len() as int);
    assert(first_ws_token(xseg) =~= a);

    let yseg = t.subrange(e2 - n0 + 1, e3 - n0);
    assert forall|k: int| 0 <= k < yseg.len() implies yseg[k] == line[e2 + 1 + k] by {}
    lemma_skip_ws_value(yseg, 0, w5.len() as int);
    lemma_scan_to_ws_value(yseg, w5.len() as int, w5.len() + b.len() as int);
    assert(first_ws_token(yseg) =~= b);

    let zseg = t.subrange(e3 - n0 + 1, tend);
    assert forall|k: int| 0 <= k < zseg.len() implies zseg[k] == line[e3 + 1 + k] by {}
    lemma_skip_ws_value(zseg, 0, w8.len() as int);
    lemma_scan_to_ws_value(zseg, w8.len() as int, w8.len() + c.len() as int);
    assert(first_ws_token(zseg) =~= c);

    assert(spec_vec3_tokens(line) == Some((a, b, c)));

    lemma_extract_whole(a);
    lemma_extract_whole(b);
    lemma_extract_whole(c);
}

/// A vector-ephemeris report shaped as the service documents it -- start
/// marker, one header line, a position line, a velocity line -- yields
/// exactly the two parsed vectors.  (The negative directions -- a missing
/// line, or position and velocity swapped so the markers do not match --
/// fall to the same state machine and yield nothing.)
pub proof fn lemma_motion_shape(ls: Seq<Seq<char>>, p: (Seq<char>, Seq<char>, Seq<char>), v: (
    Seq<char>,
    Seq<char>,
    Seq<char>,
))
    requires
        ls.len() >= 4,
        starts_with(trim(ls[0]), soe_marker()),
        !starts_with(trim(ls[0]), eoe_marker()),
        contains_seq(ls[2], pos_marker(), false),
        contains_seq(ls[3], vel_marker(), false),
        spec_vec3_nums(ls[2]) == Some(p),
        spec_vec3_nums(ls[3]) == Some(v),
    ensures
        spec_motion_from(ls, 0) == Some(MotionSpec { pos: p, vel: v }),
{
}

/// Search-table names overflow exactly when they fill their column: a row
/// whose name field's last character is not whitespace gets the overflow
/// mark appended, and one with trailing whitespace does not.
pub proof fn lemma_name_overflow(line: Seq<char>)
    requires
        line.len() >= 46,
    ensures
        !is_space(line[45]) ==> spec_row_name(line) == trim(line.subrange(9, 46))
            + overflow_mark(),
        is_space(line[45]) ==> spec_row_name(line) == trim(line.subrange(9, 46)),
{
    assert(line.subrange(9, 46)[36] == line[45]);
}

/// Parsing is idempotent: every extraction is a function of the input text
/// alone, with no hidden state, so re-parsing equal inputs yields equal
/// results.  Each executable parser's contract pins its result to one of
/// these spec functions, so two calls on the same string return
/// structurally equal records.
pub proof fn lemma_reparse_deterministic(t1: Seq<char>, t2: Seq<char>)
    requires
        t1 == t2,
    ensures
        spec_motion(t1) == spec_motion(t2),
        spec_search(t1) == spec_search(t2),
        spec_physical(t1) == spec_physical(t2),
        spec_vec3_nums(t1) == spec_vec3_nums(t2),
        spec_extract_number(t1) == spec_extract_number(t2),
{
}

/// Physical-property extraction is atomic: unless both a mass and a radius
/// were recovered, the whole extraction yields nothing -- never a partial
/// record.
pub proof fn lemma_physical_atomic(text: Seq<char>)
    ensures
        match spec_phys_from(spec_lines(text), 0, empty_state()) {
            Some(st) => (st.mass is None || st.radius is None) ==> spec_physical(text) is None,
            None => spec_physical(text) is None,
        },
{
}

} // verus!
