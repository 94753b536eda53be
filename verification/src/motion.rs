//! Motion extraction from a vector-ephemeris report: scan for the
//! start-of-data marker, skip one header line, then demand a position line
//! and a velocity line in that order and parse both.  Any violated
//! expectation -- end-of-data before start, missing lines, wrong markers, a
//! component that fails to parse -- yields nothing.  Only the first data row
//! is consumed.

use vstd::prelude::*;

use crate::text::{contains_seq, contains_str, spec_lines, split_lines, starts_with, starts_with_str, trim, trim_str, views_of};
use crate::vector::{is_zero_vec3, parse_position, parse_velocity, spec_vec3_nums, Position, Velocity};

verus! {

/// The marker opening the data section of a vector-ephemeris report.
pub open spec fn soe_marker() -> Seq<char> {
    "$$SOE"@
}

/// The marker closing the data section.
pub open spec fn eoe_marker() -> Seq<char> {
    "$$EOE"@
}

/// The token expected somewhere on a position line.
pub open spec fn pos_marker() -> Seq<char> {
    " X"@
}

/// The token expected somewhere on a velocity line.
pub open spec fn vel_marker() -> Seq<char> {
    "VX"@
}

/// The parsed components of both vectors of the first data row.
pub ghost struct MotionSpec {
    pub pos: (Seq<char>, Seq<char>, Seq<char>),
    pub vel: (Seq<char>, Seq<char>, Seq<char>),
}

/// The state machine over the report's lines, started at line `i`: skip
/// forward to a line whose trim begins with the start marker (failing on an
/// end marker first), skip one header line, then parse the next two lines
/// as position and velocity.
pub open spec fn spec_motion_from(ls: Seq<Seq<char>>, i: int) -> Option<MotionSpec>
    decreases ls.len() - i,
{
    if i < 0 || i >= ls.len() {
        None
    } else {
        let t = trim(ls[i]);
        if starts_with(t, eoe_marker()) {
            None
        } else if starts_with(t, soe_marker()) {
            if i + 3 < ls.len() && contains_seq(ls[i + 2], pos_marker(), false) && contains_seq(
                ls[i + 3],
                vel_marker(),
                false,
            ) && spec_vec3_nums(ls[i + 2]) is Some && spec_vec3_nums(ls[i + 3]) is Some {
                Some(
                    MotionSpec {
                        pos: spec_vec3_nums(ls[i + 2]).unwrap(),
                        vel: spec_vec3_nums(ls[i + 3]).unwrap(),
                    },
                )
            } else {
                None
            }
        } else {
            spec_motion_from(ls, i + 1)
        }
    }
}

/// What motion extraction returns on a whole report.
pub open spec fn spec_motion(text: Seq<char>) -> Option<MotionSpec> {
    spec_motion_from(spec_lines(text), 0)
}

/// Extract the single (position, velocity) record of a vector-ephemeris
/// report, with both previous-state slots zeroed.
pub fn parse_body_motion(text: &str) -> (r: Option<(Position, Velocity)>)
    ensures
        match r {
            Some(pv) => {
                &&& spec_motion(text@) matches Some(m)
                &&& m.pos == (pv.0.0.x@, pv.0.0.y@, pv.0.0.z@)
                &&& m.vel == (pv.1.0.x@, pv.1.0.y@, pv.1.0.z@)
                &&& is_zero_vec3(pv.0.1)
                &&& is_zero_vec3(pv.1.1)
            },
            None => spec_motion(text@) is None,
        },
{
    let lines = split_lines(text);
    let ghost ls = spec_lines(text@);
    let n = lines.len();
    let mut i: usize = 0;
    while i < n
        invariant
            ls == spec_lines(text@),
            0 <= i <= n,
            n == ls.len(),
            views_of(lines@) == ls,
            spec_motion_from(ls, 0) == spec_motion_from(ls, i as int),
        decreases n - i,
    {
        proof {
            assert(lines@[i as int]@ == ls[i as int]);
            assert("$$EOE"@ == eoe_marker());
            assert("$$SOE"@ == soe_marker());
            assert(" X"@ == pos_marker());
            assert("VX"@ == vel_marker());
        }
        let lt = trim_str(lines[i].as_str());
        if starts_with_str(lt.as_str(), "$$EOE") {
            proof {
                assert(spec_motion_from(ls, i as int) is None);
            }
            return None;
        }
        if starts_with_str(lt.as_str(), "$$SOE") {
            if n - i > 3 {
                proof {
                    assert(lines@[i as int + 2]@ == ls[i as int + 2]);
                    assert(lines@[i as int + 3]@ == ls[i as int + 3]);
                }
                let pos_line = &lines[i + 2];
                let vel_line = &lines[i + 3];
                if contains_str(pos_line.as_str(), " X", false) && contains_str(
                    vel_line.as_str(),
                    "VX",
                    false,
                ) {
                    let pos = parse_position(pos_line.as_str());
                    let vel = parse_velocity(vel_line.as_str());
                    match (pos, vel) {
                        (Some(p), Some(v)) => {
                            return Some((p, v));
                        },
                        _ => {
                            proof {
                                assert(spec_motion_from(ls, i as int) is None);
                            }
                            return None;
                        },
                    }
                }
            }
            proof {
                assert(spec_motion_from(ls, i as int) is None);
            }
            return None;
        }
        i += 1;
    }
    None
}

} // verus!
