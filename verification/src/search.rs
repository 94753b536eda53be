//! Search-table extraction: a name/designation search response carries a
//! fixed-width table.  The scanner finds the documented header row, skips
//! one separator line, and slices every following non-blank row into
//! identifier, name, designation and alias columns.  A name that fills its
//! column to the last character is marked as truncated with an appended
//! ellipsis.  Rows whose identifier field is not an integer are skipped;
//! scanning stops at the first blank line after the header.

use vstd::prelude::*;

use crate::ints::{parse_i64_str, spec_parse_i64};
use crate::text::{
    contains_seq, contains_str, is_space, space_char, spec_lines, split_lines, trim, trim_str,
    views_of,
};

verus! {

/// One row of the search table.
#[derive(Debug, PartialEq, Eq, Clone, Default)]
pub struct JPLHorizonsBodySearch {
    pub id: i64,
    pub name: String,
    pub designation: String,
    pub other: String,
}

/// The spec-level image of a search record.
pub ghost struct BodyRecSpec {
    pub id: int,
    pub name: Seq<char>,
    pub designation: Seq<char>,
    pub other: Seq<char>,
}

/// The spec-level image of an executable record.
pub open spec fn rec_view(b: JPLHorizonsBodySearch) -> BodyRecSpec {
    BodyRecSpec { id: b.id as int, name: b.name@, designation: b.designation@, other: b.other@ }
}

/// The spec-level image of a vector of records.
pub open spec fn recs_view(v: Seq<JPLHorizonsBodySearch>) -> Seq<BodyRecSpec> {
    v.map(|_i: int, b: JPLHorizonsBodySearch| rec_view(b))
}

pub proof fn lemma_recs_view_push(v: Seq<JPLHorizonsBodySearch>, b: JPLHorizonsBodySearch)
    ensures
        recs_view(v.push(b)) =~= recs_view(v).push(rec_view(b)),
{
}

/// The column titles of the search table's header row.
pub open spec fn search_header() -> Seq<char> {
    "ID#      Name                               Designation  IAU/aliases/other"@
}

/// The marker appended to a name truncated at its column boundary.
pub open spec fn overflow_mark() -> Seq<char> {
    "..."@
}

/// The name column of a full-width row: the 37-character slice, trimmed,
/// with the overflow mark appended first when the slice's last character is
/// not whitespace.
pub open spec fn spec_row_name(line: Seq<char>) -> Seq<char> {
    let f = line.subrange(9, 46);
    if !is_space(f[36]) {
        trim(f) + overflow_mark()
    } else {
        trim(f)
    }
}

/// What row slicing returns on one table row: columns at fixed widths 9,
/// 37, 12 and 21; missing tail columns are left empty; a row too short for
/// the identifier column, or whose identifier does not parse, yields
/// nothing.
pub open spec fn spec_row(line: Seq<char>) -> Option<BodyRecSpec> {
    if line.len() < 9 {
        None
    } else {
        match spec_parse_i64(trim(line.subrange(0, 9))) {
            None => None,
            Some(id) => Some(
                BodyRecSpec {
                    id: id,
                    name: if line.len() >= 46 {
                        spec_row_name(line)
                    } else {
                        Seq::empty()
                    },
                    designation: if line.len() >= 58 {
                        trim(line.subrange(46, 58))
                    } else {
                        Seq::empty()
                    },
                    other: if line.len() >= 79 {
                        trim(line.subrange(58, 79))
                    } else {
                        Seq::empty()
                    },
                },
            ),
        }
    }
}

/// Slice one table row into a record.
pub fn parse_search_row(line: &str) -> (r: Option<JPLHorizonsBodySearch>)
    ensures
        match r {
            Some(b) => spec_row(line@) == Some(rec_view(b)),
            None => spec_row(line@) is None,
        },
{
    let len = line.unicode_len();
    if len < 9 {
        return None;
    }
    let id_field = trim_str(line.substring_char(0, 9));
    proof {
        crate::text::lemma_trim_shape(line@.subrange(0, 9));
    }
    let id = match parse_i64_str(id_field.as_str()) {
        Some(v) => v,
        None => {
            return None;
        },
    };
    let mut name = String::new();
    let mut designation = String::new();
    let mut other = String::new();
    if len >= 46 {
        let f = line.substring_char(9, 46);
        let t = trim_str(f);
        if !space_char(f.get_char(36)) {
            name = t.concat("...");
        } else {
            name = t;
        }
    }
    if len >= 58 {
        designation = trim_str(line.substring_char(46, 58));
    }
    if len >= 79 {
        other = trim_str(line.substring_char(58, 79));
    }
    Some(JPLHorizonsBodySearch { id, name, designation, other })
}

/// The scan over the report's lines, from line `i`, with `found` recording
/// whether the header row has been seen: lines before the header are
/// ignored, a header line and its separator are skipped, rows after it are
/// sliced, and the first blank line after the header ends the table.
pub open spec fn spec_search_from(ls: Seq<Seq<char>>, i: int, found: bool) -> Seq<BodyRecSpec>
    decreases ls.len() - i,
{
    if i < 0 || i >= ls.len() {
        Seq::empty()
    } else if contains_seq(ls[i], search_header(), false) {
        if i + 2 <= ls.len() {
            spec_search_from(ls, i + 2, true)
        } else {
            Seq::empty()
        }
    } else if !found {
        spec_search_from(ls, i + 1, false)
    } else if trim(ls[i]).len() == 0 {
        Seq::empty()
    } else {
        match spec_row(ls[i]) {
            Some(r) => seq![r] + spec_search_from(ls, i + 1, true),
            None => spec_search_from(ls, i + 1, true),
        }
    }
}

/// What search extraction returns on a whole response.
pub open spec fn spec_search(text: Seq<char>) -> Seq<BodyRecSpec> {
    spec_search_from(spec_lines(text), 0, false)
}

/// Extract the (possibly empty) ordered sequence of search records from a
/// search response.  The scan itself cannot fail: an unreadable input
/// simply yields no records.
pub fn parse_body_search(text: &str) -> (r: Option<Vec<JPLHorizonsBodySearch>>)
    ensures
        match r {
            Some(v) => recs_view(v@) == spec_search(text@),
            None => false,
        },
{
    let lines = split_lines(text);
    let ghost ls = spec_lines(text@);
    let n = lines.len();
    let mut out: Vec<JPLHorizonsBodySearch> = Vec::new();
    let mut found = false;
    let mut i: usize = 0;
    while i < n
        invariant
            ls == spec_lines(text@),
            0 <= i <= n,
            n == ls.len(),
            views_of(lines@) == ls,
            spec_search_from(ls, 0, false) =~= recs_view(out@) + spec_search_from(
                ls,
                i as int,
                found,
            ),
        ensures
            recs_view(out@) =~= spec_search_from(ls, 0, false),
        decreases n - i,
    {
        proof {
            assert(lines@[i as int]@ == ls[i as int]);
            assert("ID#      Name                               Designation  IAU/aliases/other"@ == search_header());
        }
        let line = &lines[i];
        if contains_str(
            line.as_str(),
            "ID#      Name                               Designation  IAU/aliases/other",
            false,
        ) {
            found = true;
            if n - i >= 2 {
                i += 2;
            } else {
                i = n;
                proof {
                    assert(spec_search_from(ls, i as int, true) =~= Seq::<BodyRecSpec>::empty());
                }
            }
        } else if !found {
            i += 1;
        } else {
            let lt = trim_str(line.as_str());
            if lt.as_str().unicode_len() == 0 {
                proof {
                    assert(spec_search_from(ls, i as int, found) =~= Seq::<BodyRecSpec>::empty());
                }
                break;
            }
            match parse_search_row(line.as_str()) {
                Some(b) => {
                    proof {
                        lemma_recs_view_push(out@, b);
                    }
                    out.push(b);
                },
                None => {},
            }
            i += 1;
        }
    }
    Some(out)
}

} // verus!
