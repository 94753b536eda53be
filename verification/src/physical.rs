//! Physical-property extraction: a per-body report is a free-form dump of
//! `key = value` pairs, up to two per line.  The extractor looks for a mean
//! volumetric radius and a mass.  A mass key may carry its scale in the key
//! label itself (`... x10^23 (kg)`); the value then holds only the
//! mantissa.  Both mass and radius must be recovered or the whole
//! extraction fails; a `10^` marker whose exponent does not parse fails the
//! extraction outright.  Reports that place mass outside the first pair of
//! a line -- one major body formats its dump that way -- are unsupported by
//! design and fail rather than guess.

use vstd::prelude::*;

use crate::ints::{parse_i32_str, spec_parse_i32};
use crate::numeric::{parse_property_number, spec_extract_number};
use crate::text::{
    contains_seq, contains_str, digit_char, find_char, find_from, is_digit,
    lemma_scan_to_alpha_bounds, rfind_spec, rfind_str, scan_to_alpha, scan_to_alpha_exec,
    spec_lines, spec_split_eq, split_lines, split_on_eq, trim, trim_str, views_of,
};

verus! {

/// A real value written as a decimal-literal mantissa scaled by a power of
/// ten; the scale comes from a `10^` marker in the key label, or is zero.
#[derive(Debug, PartialEq, Eq, Clone)]
pub struct SciNum {
    pub mantissa: String,
    pub exp10: i32,
}

/// A body's mass in kilograms.
#[derive(Debug, PartialEq, Eq, Clone)]
pub struct Mass(pub SciNum);

/// The spec-level image of a scaled number.
pub ghost struct MassSpec {
    pub mantissa: Seq<char>,
    pub exp10: int,
}

/// The spec-level image of an executable scaled number.
pub open spec fn sci_view(s: SciNum) -> MassSpec {
    MassSpec { mantissa: s.mantissa@, exp10: s.exp10 as int }
}

/// The extractor's running state: what has been recovered so far.
pub ghost struct PState {
    pub mass: Option<MassSpec>,
    pub radius: Option<Seq<char>>,
}

/// The state before any line is read.
pub open spec fn empty_state() -> PState {
    PState { mass: None, radius: None }
}

/// The spec-level image of the executable state.
pub open spec fn st_view(mass: Option<SciNum>, radius: Option<String>) -> PState {
    PState {
        mass: match mass {
            Some(m) => Some(sci_view(m)),
            None => None,
        },
        radius: match radius {
            Some(r) => Some(r@),
            None => None,
        },
    }
}

/// The key names a mean volumetric radius: it mentions a radius and a
/// mean/volumetric qualifier, and is not an equatorial, polar or solar
/// radius.  Matching is case-insensitive.
pub open spec fn is_radius_key(key: Seq<char>) -> bool {
    &&& contains_seq(key, "radius"@, true)
    &&& (contains_seq(key, "mean"@, true) || contains_seq(key, "vol"@, true))
    &&& !contains_seq(key, "equ"@, true)
    &&& !contains_seq(key, "polar"@, true)
    &&& !contains_seq(key, "solar"@, true)
}

/// The key names a mass (case-insensitive).
pub open spec fn is_mass_key(key: Seq<char>) -> bool {
    contains_seq(key, "mass"@, true)
}

/// End of the run of exponent characters (digits and signs) starting at `i`.
pub open spec fn scan_exp_run(s: Seq<char>, i: int) -> int
    decreases s.len() - i,
{
    if 0 <= i < s.len() && (is_digit(s[i]) || s[i] == '-' || s[i] == '+') {
        scan_exp_run(s, i + 1)
    } else {
        i
    }
}

pub proof fn lemma_scan_exp_run_bounds(s: Seq<char>, i: int)
    requires
        0 <= i <= s.len(),
    ensures
        i <= scan_exp_run(s, i) <= s.len(),
    decreases s.len() - i,
{
    if i < s.len() && (is_digit(s[i]) || s[i] == '-' || s[i] == '+') {
        lemma_scan_exp_run_bounds(s, i + 1);
    }
}

/// Executable twin of [`scan_exp_run`].
fn scan_exp_run_exec(s: &str, from: usize) -> (r: usize)
    requires
        from <= s@.len(),
    ensures
        r == scan_exp_run(s@, from as int),
{
    let len = s.unicode_len();
    let mut i = from;
    while i < len
        invariant
            from <= i <= len,
            len == s@.len(),
            scan_exp_run(s@, from as int) == scan_exp_run(s@, i as int),
        decreases len - i,
    {
        let c = s.get_char(i);
        if !(digit_char(c) || c == '-' || c == '+') {
            return i;
        }
        i += 1;
    }
    i
}

/// The exponent carried by a key label: `Some(None)` when no `10^` marker
/// appears, `Some(Some(e))` when the run of digits and signs after the last
/// marker parses as an `i32`, and `None` -- a hard failure -- when a marker
/// is present but its exponent does not parse.
pub open spec fn key_exp(key: Seq<char>) -> Option<Option<int>> {
    match rfind_spec(key, "10^"@, false) {
        None => Some(None),
        Some(p) => {
            let tail = key.subrange(p + 3, key.len() as int);
            let run = tail.subrange(0, scan_exp_run(tail, 0));
            match spec_parse_i32(run) {
                Some(e) => Some(Some(e)),
                None => None,
            }
        },
    }
}

/// The value text of the pair starting at segment `j`: the trimmed segment
/// after the `=`, cut before the first letter when another pair follows on
/// the same line.
pub open spec fn value_of(seg: Seq<char>, last: bool) -> Seq<char> {
    let v = trim(seg);
    if last {
        v
    } else {
        trim(v.subrange(0, scan_to_alpha(v, 0)))
    }
}

/// One `key = value` pair applied to the running state.  A mean-radius key
/// whose value has no numeric token, or a mass key whose `10^` exponent
/// does not parse, fails the whole extraction; a mass key whose value has
/// no numeric token merely leaves the mass unchanged.
pub open spec fn apply_pair(key: Seq<char>, value: Seq<char>, st: PState) -> Option<PState> {
    if is_radius_key(key) && spec_extract_number(value) is None {
        None
    } else {
        let st1 = if is_radius_key(key) {
            PState { mass: st.mass, radius: Some(spec_extract_number(value).unwrap()) }
        } else {
            st
        };
        if is_mass_key(key) {
            match key_exp(key) {
                None => None,
                Some(expo) => match spec_extract_number(value) {
                    Some(base) => Some(
                        PState {
                            mass: Some(
                                MassSpec {
                                    mantissa: base,
                                    exp10: match expo {
                                        Some(e) => e,
                                        None => 0,
                                    },
                                },
                            ),
                            radius: st1.radius,
                        },
                    ),
                    None => Some(st1),
                },
            }
        } else {
            Some(st1)
        }
    }
}

/// The pairs of one line's segments, applied left to right: segment `j` is
/// a key, segment `j + 1` its value.  With two pairs on a line the middle
/// segment carries the first value and the second key; only even segments
/// are read as keys, so a pair buried in a middle segment is never seen.
pub open spec fn fold_pairs(segs: Seq<Seq<char>>, j: int, st: PState) -> Option<PState>
    decreases segs.len() - j,
{
    if j < 0 || j + 1 >= segs.len() {
        Some(st)
    } else {
        match apply_pair(trim(segs[j]), value_of(segs[j + 1], j + 2 >= segs.len()), st) {
            None => None,
            Some(st2) => fold_pairs(segs, j + 2, st2),
        }
    }
}

/// One line of the report applied to the running state; blank lines and
/// lines without `=` change nothing.
pub open spec fn line_step(line: Seq<char>, st: PState) -> Option<PState> {
    let t = trim(line);
    if t.len() == 0 || find_from(t, 0, '=') >= t.len() {
        Some(st)
    } else {
        fold_pairs(spec_split_eq(t), 0, st)
    }
}

/// The report's lines from `i` on, folded over the running state.
pub open spec fn spec_phys_from(ls: Seq<Seq<char>>, i: int, st: PState) -> Option<PState>
    decreases ls.len() - i,
{
    if i < 0 || i >= ls.len() {
        Some(st)
    } else {
        match line_step(ls[i], st) {
            None => None,
            Some(st2) => spec_phys_from(ls, i + 1, st2),
        }
    }
}

/// What physical-property extraction returns on a whole report: the mass
/// and the radius-in-kilometers token, both of which must have been
/// recovered, or nothing.
pub open spec fn spec_physical(text: Seq<char>) -> Option<(MassSpec, Seq<char>)> {
    match spec_phys_from(spec_lines(text), 0, empty_state()) {
        None => None,
        Some(st) => match (st.mass, st.radius) {
            (Some(m), Some(r)) => Some((m, r)),
            _ => None,
        },
    }
}

/// The value text of the pair whose value segment is `seg`.
fn pair_value(seg: &str, last: bool) -> (r: String)
    ensures
        r@ == value_of(seg@, last),
{
    let v = trim_str(seg);
    if last {
        v
    } else {
        proof {
            lemma_scan_to_alpha_bounds(v@, 0);
        }
        let a = scan_to_alpha_exec(v.as_str(), 0);
        trim_str(v.as_str().substring_char(0, a))
    }
}

/// Extract a body's mass and mean volumetric radius from a
/// physical-property report.
///
/// Every line's first `key = value` pair (and, with four or more `=` signs
/// on a line, later odd pairs) is examined; the last matching mass and
/// radius win.  Returns both or nothing.
pub fn parse_horizons_physical_single(text: &str) -> (r: Option<(Mass, String)>)
    ensures
        match r {
            Some(p) => spec_physical(text@) == Some((sci_view(p.0.0), p.1@)),
            None => spec_physical(text@) is None,
        },
{
    let lines = split_lines(text);
    let ghost ls = spec_lines(text@);
    let n = lines.len();
    let mut mass: Option<SciNum> = None;
    let mut radius: Option<String> = None;
    let mut i: usize = 0;
    while i < n
        invariant
            ls == spec_lines(text@),
            0 <= i <= n,
            n == ls.len(),
            views_of(lines@) == ls,
            spec_phys_from(ls, 0, empty_state()) == spec_phys_from(
                ls,
                i as int,
                st_view(mass, radius),
            ),
        decreases n - i,
    {
        proof {
            assert(lines@[i as int]@ == ls[i as int]);
        }
        let t = trim_str(lines[i].as_str());
        let tlen = t.as_str().unicode_len();
        let eqpos = find_char(t.as_str(), 0, '=');
        let ghost st0 = st_view(mass, radius);
        if tlen == 0 || eqpos == tlen {
            proof {
                assert(line_step(ls[i as int], st0) == Some(st0));
            }
        } else {
            proof {
                crate::text::lemma_find_from_bounds(t@, 0, '=');
            }
            let segs = split_on_eq(t.as_str());
            let ghost sv = spec_split_eq(t@);
            let nseg = segs.len();
            let mut j: usize = 0;
            while j < nseg - 1
                invariant
                    ls == spec_lines(text@),
                    0 <= i < ls.len(),
                    spec_phys_from(ls, 0, empty_state()) == spec_phys_from(ls, i as int, st0),
                    t@ == trim(ls[i as int]),
                    t@.len() > 0,
                    find_from(t@, 0, '=') < t@.len(),
                    sv == spec_split_eq(t@),
                    views_of(segs@) == sv,
                    nseg == segs.len(),
                    nseg >= 1,
                    0 <= j,
                    fold_pairs(sv, 0, st0) == fold_pairs(sv, j as int, st_view(mass, radius)),
                decreases nseg - j,
            {
                proof {
                    assert(segs@[j as int]@ == sv[j as int]);
                    assert(segs@[j as int + 1]@ == sv[j as int + 1]);
                }
                let ghost stb = st_view(mass, radius);
                let key = trim_str(segs[j].as_str());
                let last = j + 2 >= nseg;
                let value = pair_value(segs[j + 1].as_str(), last);
                let is_rad = contains_str(key.as_str(), "radius", true) && (contains_str(
                    key.as_str(),
                    "mean",
                    true,
                ) || contains_str(key.as_str(), "vol", true)) && !contains_str(
                    key.as_str(),
                    "equ",
                    true,
                ) && !contains_str(key.as_str(), "polar", true) && !contains_str(
                    key.as_str(),
                    "solar",
                    true,
                );
                proof {
                    assert(is_rad == is_radius_key(key@));
                }
                if is_rad {
                    match parse_property_number(value.as_str()) {
                        Some(v) => {
                            radius = Some(v);
                        },
                        None => {
                            proof {
                                assert(apply_pair(key@, value@, stb) is None);
                                assert(fold_pairs(sv, j as int, stb) is None);
                                assert(line_step(ls[i as int], st0) is None);
                                assert(spec_phys_from(ls, i as int, st0) is None);
                                assert(spec_physical(text@) is None);
                            }
                            return None;
                        },
                    }
                }
                if contains_str(key.as_str(), "mass", true) {
                    let mut expv: i32 = 0;
                    match rfind_str(key.as_str(), "10^", false) {
                        Some(p) => {
                            proof {
                                reveal_strlit("10^");
                                assert("10^"@.len() == 3);
                            }
                            let klen = key.as_str().unicode_len();
                            let tail = key.as_str().substring_char(p + 3, klen);
                            proof {
                                lemma_scan_exp_run_bounds(tail@, 0);
                            }
                            let re = scan_exp_run_exec(tail, 0);
                            let run = tail.substring_char(0, re);
                            match parse_i32_str(run) {
                                Some(e) => {
                                    expv = e;
                                },
                                None => {
                                    proof {
                                        assert(key_exp(key@) is None);
                                        assert(apply_pair(key@, value@, stb) is None);
                                        assert(fold_pairs(sv, j as int, stb) is None);
                                        assert(line_step(ls[i as int], st0) is None);
                                        assert(spec_phys_from(ls, i as int, st0) is None);
                                        assert(spec_physical(text@) is None);
                                    }
                                    return None;
                                },
                            }
                        },
                        None => {},
                    }
                    match parse_property_number(value.as_str()) {
                        Some(base) => {
                            mass = Some(SciNum { mantissa: base, exp10: expv });
                        },
                        None => {},
                    }
                }
                proof {
                    assert(apply_pair(key@, value@, stb) == Some(st_view(mass, radius)));
                }
                j += 2;
            }
            proof {
                assert(fold_pairs(sv, j as int, st_view(mass, radius)) == Some(
                    st_view(mass, radius),
                ));
                assert(line_step(ls[i as int], st0) == Some(st_view(mass, radius)));
            }
        }
        i += 1;
    }
    match (mass, radius) {
        (Some(m), Some(rad)) => Some((Mass(m), rad)),
        _ => None,
    }
}

} // verus!
