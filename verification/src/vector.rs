//! Vector line parsing: a position or velocity line of a vector-ephemeris
//! report holds three `key = value` fields; the parser slices the text after
//! each `=`, takes the first whitespace-delimited word, and extracts a
//! numeric token from it.  All three components must resolve or the whole
//! line yields nothing.
//!
//! Components are carried as validated decimal-literal tokens; the
//! previous-state slot of [`Position`] and [`Velocity`] is owned by the
//! caller and is produced here freshly zeroed.

use vstd::prelude::*;

use crate::numeric::{parse_property_number, spec_extract_number};
use crate::text::{
    find_from, find_char, lemma_find_from_bounds, lemma_scan_to_ws_bounds, lemma_skip_ws_bounds,
    scan_to_space, scan_to_ws, skip_spaces, skip_ws, trim, trim_str,
};

verus! {

/// A three-component vector whose components are validated numeric tokens.
#[derive(Debug, PartialEq, Eq, Clone)]
pub struct Vec3Text {
    pub x: String,
    pub y: String,
    pub z: String,
}

/// A body's position: the current vector and the previously recorded one
/// (the latter is overwritten by the integrator, never by the parser).
#[derive(Debug, PartialEq, Eq, Clone)]
pub struct Position(pub Vec3Text, pub Vec3Text);

/// A body's velocity, shaped like [`Position`].
#[derive(Debug, PartialEq, Eq, Clone)]
pub struct Velocity(pub Vec3Text, pub Vec3Text);

/// The token a freshly parsed previous-state slot holds in each component.
pub open spec fn zero_component() -> Seq<char> {
    seq!['0']
}

/// A vector whose three components are the zero token.
pub open spec fn is_zero_vec3(v: Vec3Text) -> bool {
    v.x@ == zero_component() && v.y@ == zero_component() && v.z@ == zero_component()
}

/// Build the zeroed previous-state vector.
pub fn vec3_zero() -> (r: Vec3Text)
    ensures
        is_zero_vec3(r),
{
    proof {
        reveal_strlit("0");
        assert("0"@ =~= zero_component());
    }
    Vec3Text { x: "0".to_owned(), y: "0".to_owned(), z: "0".to_owned() }
}

/// The first whitespace-delimited word of `s` (empty when `s` is blank).
pub open spec fn first_ws_token(s: Seq<char>) -> Seq<char> {
    s.subrange(skip_ws(s, 0), scan_to_ws(s, skip_ws(s, 0)))
}

/// The three raw value words of a vector line: trim the line, locate the
/// first three `=` signs, and take the first word after each.  Nothing is
/// returned when fewer than three `=` signs appear or any word is empty.
pub open spec fn spec_vec3_tokens(line: Seq<char>) -> Option<(Seq<char>, Seq<char>, Seq<char>)> {
    let t = trim(line);
    let e1 = find_from(t, 0, '=');
    if e1 >= t.len() {
        None
    } else {
        let e2 = find_from(t, e1 + 1, '=');
        if e2 >= t.len() {
            None
        } else {
            let e3 = find_from(t, e2 + 1, '=');
            if e3 >= t.len() {
                None
            } else {
                let e4 = find_from(t, e3 + 1, '=');
                let xt = first_ws_token(t.subrange(e1 + 1, e2));
                let yt = first_ws_token(t.subrange(e2 + 1, e3));
                let zt = first_ws_token(t.subrange(e3 + 1, e4));
                if xt.len() == 0 || yt.len() == 0 || zt.len() == 0 {
                    None
                } else {
                    Some((xt, yt, zt))
                }
            }
        }
    }
}

/// The parsed components of a vector line: each raw word must begin with a
/// valid numeric token, and that token is the component.
pub open spec fn spec_vec3_nums(line: Seq<char>) -> Option<(Seq<char>, Seq<char>, Seq<char>)> {
    match spec_vec3_tokens(line) {
        None => None,
        Some(tk) => match (spec_extract_number(tk.0), spec_extract_number(tk.1),
            spec_extract_number(tk.2)) {
            (Some(x), Some(y), Some(z)) => Some((x, y, z)),
            _ => None,
        },
    }
}

/// First whitespace-delimited word of `s.subrange(a, b)`, as an owned string.
fn seg_token(s: &str, a: usize, b: usize) -> (r: String)
    requires
        a <= b <= s@.len(),
    ensures
        r@ == first_ws_token(s@.subrange(a as int, b as int)),
{
    let seg = s.substring_char(a, b);
    let st = skip_spaces(seg, 0);
    proof {
        lemma_skip_ws_bounds(seg@, 0);
    }
    let en = scan_to_space(seg, st);
    proof {
        lemma_scan_to_ws_bounds(seg@, st as int);
    }
    seg.substring_char(st, en).to_owned()
}

/// Slice the three raw value words out of a vector line.
///
/// The line is trimmed, split at `=`, and the first whitespace-delimited
/// word after each of the first three `=` signs is returned.  `None` when a
/// word is missing.
pub fn extract_vec3_from_line(line: &str) -> (r: Option<(String, String, String)>)
    ensures
        match r {
            Some(tk) => spec_vec3_tokens(line@) == Some((tk.0@, tk.1@, tk.2@)),
            None => spec_vec3_tokens(line@) is None,
        },
{
    let t = trim_str(line);
    let ts = t.as_str();
    let tlen = ts.unicode_len();
    let e1 = find_char(ts, 0, '=');
    proof {
        lemma_find_from_bounds(ts@, 0, '=');
    }
    if e1 == tlen {
        return None;
    }
    let e2 = find_char(ts, e1 + 1, '=');
    proof {
        lemma_find_from_bounds(ts@, e1 as int + 1, '=');
    }
    if e2 == tlen {
        return None;
    }
    let e3 = find_char(ts, e2 + 1, '=');
    proof {
        lemma_find_from_bounds(ts@, e2 as int + 1, '=');
    }
    if e3 == tlen {
        return None;
    }
    let e4 = find_char(ts, e3 + 1, '=');
    proof {
        lemma_find_from_bounds(ts@, e3 as int + 1, '=');
    }
    let xt = seg_token(ts, e1 + 1, e2);
    let yt = seg_token(ts, e2 + 1, e3);
    let zt = seg_token(ts, e3 + 1, e4);
    if xt.as_str().unicode_len() == 0 || yt.as_str().unicode_len() == 0 || zt.as_str().unicode_len()
        == 0 {
        return None;
    }
    Some((xt, yt, zt))
}

/// Parse a vector line into three numeric-token components.
///
/// Each of the three raw words must begin with a valid numeric literal; the
/// extracted literals become the components.  `None` as soon as any
/// component fails to resolve.
pub fn parse_vec3_line(line: &str) -> (r: Option<Vec3Text>)
    ensures
        match r {
            Some(v) => spec_vec3_nums(line@) == Some((v.x@, v.y@, v.z@)),
            None => spec_vec3_nums(line@) is None,
        },
{
    match extract_vec3_from_line(line) {
        None => None,
        Some(tk) => {
            let x = parse_property_number(tk.0.as_str());
            let y = parse_property_number(tk.1.as_str());
            let z = parse_property_number(tk.2.as_str());
            match (x, y, z) {
                (Some(x), Some(y), Some(z)) => Some(Vec3Text { x, y, z }),
                _ => None,
            }
        },
    }
}

/// Parse a position line; the previous-position slot comes back zeroed.
pub fn parse_position(line: &str) -> (r: Option<Position>)
    ensures
        match r {
            Some(p) => spec_vec3_nums(line@) == Some((p.0.x@, p.0.y@, p.0.z@)) && is_zero_vec3(p.1),
            None => spec_vec3_nums(line@) is None,
        },
{
    match parse_vec3_line(line) {
        Some(v) => Some(Position(v, vec3_zero())),
        None => None,
    }
}

/// Parse a velocity line; the previous-velocity slot comes back zeroed.
pub fn parse_velocity(line: &str) -> (r: Option<Velocity>)
    ensures
        match r {
            Some(p) => spec_vec3_nums(line@) == Some((p.0.x@, p.0.y@, p.0.z@)) && is_zero_vec3(p.1),
            None => spec_vec3_nums(line@) is None,
        },
{
    match parse_vec3_line(line) {
        Some(v) => Some(Velocity(v, vec3_zero())),
        None => None,
    }
}

} // verus!
