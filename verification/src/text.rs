//! Character-level text utilities: scanning, trimming, substring search and
//! case-insensitive matching, each verified against a small spec model over
//! `Seq<char>`.

use vstd::prelude::*;

verus! {

/// The whitespace characters that appear in ephemeris reports.
pub open spec fn is_space(c: char) -> bool {
    c == ' ' || c == '\t' || c == '\r' || c == '\n'
}

/// Executable twin of [`is_space`].
pub fn space_char(c: char) -> (r: bool)
    ensures
        r == is_space(c),
{
    c == ' ' || c == '\t' || c == '\r' || c == '\n'
}

/// ASCII decimal digit.
pub open spec fn is_digit(c: char) -> bool {
    '0' <= c && c <= '9'
}

/// Executable twin of [`is_digit`].
pub fn digit_char(c: char) -> (r: bool)
    ensures
        r == is_digit(c),
{
    '0' <= c && c <= '9'
}

/// ASCII letter.
pub open spec fn is_alpha(c: char) -> bool {
    ('a' <= c && c <= 'z') || ('A' <= c && c <= 'Z')
}

/// Executable twin of [`is_alpha`].
pub fn alpha_char(c: char) -> (r: bool)
    ensures
        r == is_alpha(c),
{
    ('a' <= c && c <= 'z') || ('A' <= c && c <= 'Z')
}

/// ASCII lower-casing of a single character.
pub open spec fn lower_char(c: char) -> char {
    if 'A' <= c && c <= 'Z' {
        ((c as u32) + 32) as char
    } else {
        c
    }
}

/// ASCII lower-casing of a whole character sequence.
pub open spec fn lower_seq(s: Seq<char>) -> Seq<char> {
    s.map(|_i: int, c: char| lower_char(c))
}

/// Executable twin of [`lower_char`].
pub fn lower_char_exec(c: char) -> (r: char)
    ensures
        r == lower_char(c),
{
    if 'A' <= c && c <= 'Z' {
        (((c as u32) + 32) as u8) as char
    } else {
        c
    }
}

/// Index of the first occurrence of `c` in `s` at or after `i`, or `s.len()`
/// when there is none.
pub open spec fn find_from(s: Seq<char>, i: int, c: char) -> int
    decreases s.len() - i,
{
    if i < 0 || i >= s.len() {
        s.len() as int
    } else if s[i] == c {
        i
    } else {
        find_from(s, i + 1, c)
    }
}

pub proof fn lemma_find_from_bounds(s: Seq<char>, i: int, c: char)
    requires
        0 <= i <= s.len(),
    ensures
        i <= find_from(s, i, c) <= s.len(),
        find_from(s, i, c) < s.len() ==> s[find_from(s, i, c)] == c,
        forall|k: int| i <= k < find_from(s, i, c) ==> s[k] != c,
    decreases s.len() - i,
{
    if i < s.len() && s[i] != c {
        lemma_find_from_bounds(s, i + 1, c);
    }
}

/// Executable twin of [`find_from`].
pub fn find_char(s: &str, from: usize, c: char) -> (r: usize)
    requires
        from <= s@.len(),
    ensures
        r == find_from(s@, from as int, c),
{
    let len = s.unicode_len();
    let mut i = from;
    while i < len
        invariant
            from <= i <= len,
            len == s@.len(),
            find_from(s@, from as int, c) == find_from(s@, i as int, c),
        decreases len - i,
    {
        if s.get_char(i) == c {
            return i;
        }
        i += 1;
    }
    i
}

/// Index of the first non-whitespace character at or after `i`, or `s.len()`.
pub open spec fn skip_ws(s: Seq<char>, i: int) -> int
    decreases s.len() - i,
{
    if i < 0 || i >= s.len() {
        s.len() as int
    } else if is_space(s[i]) {
        skip_ws(s, i + 1)
    } else {
        i
    }
}

pub proof fn lemma_skip_ws_bounds(s: Seq<char>, i: int)
    requires
        0 <= i <= s.len(),
    ensures
        i <= skip_ws(s, i) <= s.len(),
        skip_ws(s, i) < s.len() ==> !is_space(s[skip_ws(s, i)]),
        forall|k: int| i <= k < skip_ws(s, i) ==> is_space(s[k]),
    decreases s.len() - i,
{
    if i < s.len() && is_space(s[i]) {
        lemma_skip_ws_bounds(s, i + 1);
    }
}

/// Executable twin of [`skip_ws`].
pub fn skip_spaces(s: &str, from: usize) -> (r: usize)
    requires
        from <= s@.len(),
    ensures
        r == skip_ws(s@, from as int),
{
    let len = s.unicode_len();
    let mut i = from;
    while i < len
        invariant
            from <= i <= len,
            len == s@.len(),
            skip_ws(s@, from as int) == skip_ws(s@, i as int),
        decreases len - i,
    {
        if !space_char(s.get_char(i)) {
            return i;
        }
        i += 1;
    }
    i
}

/// Index of the first whitespace character at or after `i`, or `s.len()`.
pub open spec fn scan_to_ws(s: Seq<char>, i: int) -> int
    decreases s.len() - i,
{
    if i < 0 || i >= s.len() {
        s.len() as int
    } else if is_space(s[i]) {
        i
    } else {
        scan_to_ws(s, i + 1)
    }
}

pub proof fn lemma_scan_to_ws_bounds(s: Seq<char>, i: int)
    requires
        0 <= i <= s.len(),
    ensures
        i <= scan_to_ws(s, i) <= s.len(),
        scan_to_ws(s, i) < s.len() ==> is_space(s[scan_to_ws(s, i)]),
        forall|k: int| i <= k < scan_to_ws(s, i) ==> !is_space(s[k]),
    decreases s.len() - i,
{
    if i < s.len() && !is_space(s[i]) {
        lemma_scan_to_ws_bounds(s, i + 1);
    }
}

/// Executable twin of [`scan_to_ws`].
pub fn scan_to_space(s: &str, from: usize) -> (r: usize)
    requires
        from <= s@.len(),
    ensures
        r == scan_to_ws(s@, from as int),
{
    let len = s.unicode_len();
    let mut i = from;
    while i < len
        invariant
            from <= i <= len,
            len == s@.len(),
            scan_to_ws(s@, from as int) == scan_to_ws(s@, i as int),
        decreases len - i,
    {
        if space_char(s.get_char(i)) {
            return i;
        }
        i += 1;
    }
    i
}

/// Index of the first letter at or after `i`, or `s.len()`.
pub open spec fn scan_to_alpha(s: Seq<char>, i: int) -> int
    decreases s.len() - i,
{
    if i < 0 || i >= s.len() {
        s.len() as int
    } else if is_alpha(s[i]) {
        i
    } else {
        scan_to_alpha(s, i + 1)
    }
}

pub proof fn lemma_scan_to_alpha_bounds(s: Seq<char>, i: int)
    requires
        0 <= i <= s.len(),
    ensures
        i <= scan_to_alpha(s, i) <= s.len(),
        scan_to_alpha(s, i) < s.len() ==> is_alpha(s[scan_to_alpha(s, i)]),
        forall|k: int| i <= k < scan_to_alpha(s, i) ==> !is_alpha(s[k]),
    decreases s.len() - i,
{
    if i < s.len() && !is_alpha(s[i]) {
        lemma_scan_to_alpha_bounds(s, i + 1);
    }
}

/// Executable twin of [`scan_to_alpha`].
pub fn scan_to_alpha_exec(s: &str, from: usize) -> (r: usize)
    requires
        from <= s@.len(),
    ensures
        r == scan_to_alpha(s@, from as int),
{
    let len = s.unicode_len();
    let mut i = from;
    while i < len
        invariant
            from <= i <= len,
            len == s@.len(),
            scan_to_alpha(s@, from as int) == scan_to_alpha(s@, i as int),
        decreases len - i,
    {
        if alpha_char(s.get_char(i)) {
            return i;
        }
        i += 1;
    }
    i
}

/// Index one past the last non-whitespace character of `s.subrange(0, j)`,
/// i.e. the end of the trailing-whitespace trim of that prefix.
pub open spec fn trim_end_from(s: Seq<char>, j: int) -> int
    decreases j,
{
    if j <= 0 {
        0
    } else if is_space(s[j - 1]) {
        trim_end_from(s, j - 1)
    } else {
        j
    }
}

pub proof fn lemma_trim_end_bounds(s: Seq<char>, j: int)
    requires
        0 <= j <= s.len(),
    ensures
        0 <= trim_end_from(s, j) <= j,
        trim_end_from(s, j) > 0 ==> !is_space(s[trim_end_from(s, j) - 1]),
        forall|k: int| trim_end_from(s, j) <= k < j ==> is_space(s[k]),
    decreases j,
{
    if j > 0 && is_space(s[j - 1]) {
        lemma_trim_end_bounds(s, j - 1);
    }
}

/// The whitespace trim of `s`: drop leading and trailing whitespace.
pub open spec fn trim(s: Seq<char>) -> Seq<char> {
    let a = skip_ws(s, 0);
    let b = trim_end_from(s, s.len() as int);
    if a <= b {
        s.subrange(a, b)
    } else {
        Seq::empty()
    }
}

/// When a prefix of the string is whitespace-free on its tail, trimming only
/// drops from the front; stated here for reuse by the column slicers.
pub proof fn lemma_trim_shape(s: Seq<char>)
    ensures
        trim(s).len() <= s.len(),
        trim(s).len() > 0 ==> !is_space(trim(s)[0]) && !is_space(trim(s)[trim(s).len() - 1]),
        trim(s).len() == 0 ==> forall|k: int| 0 <= k < s.len() ==> is_space(s[k]),
{
    lemma_skip_ws_bounds(s, 0);
    lemma_trim_end_bounds(s, s.len() as int);
    let a = skip_ws(s, 0);
    let b = trim_end_from(s, s.len() as int);
    if a < b {
    } else if a >= s.len() {
    } else {
        // a <= s.len(), b <= a: every index is either below b (whitespace by
        // the trailing lemma would not apply) -- show all-whitespace.
        assert forall|k: int| 0 <= k < s.len() implies is_space(s[k]) by {
            if k < a {
            } else {
                assert(b <= k < s.len());
            }
        }
    }
}

/// Executable trim returning the trimmed substring as an owned string.
pub fn trim_str(s: &str) -> (r: String)
    ensures
        r@ == trim(s@),
{
    let len = s.unicode_len();
    let a = skip_spaces(s, 0);
    let mut b = len;
    while b > 0 && space_char(s.get_char(b - 1))
        invariant
            b <= len,
            len == s@.len(),
            trim_end_from(s@, len as int) == trim_end_from(s@, b as int),
        decreases b,
    {
        b -= 1;
    }
    proof {
        lemma_skip_ws_bounds(s@, 0);
        lemma_trim_end_bounds(s@, len as int);
        assert(trim_end_from(s@, b as int) == b);
    }
    if a <= b {
        s.substring_char(a, b).to_owned()
    } else {
        proof {
            assert(trim(s@) =~= Seq::<char>::empty());
        }
        String::new()
    }
}

/// `p` occurs in `s` starting at index `i`, compared after ASCII
/// lower-casing of `s` when `ci` is set.
pub open spec fn matches_at(s: Seq<char>, i: int, p: Seq<char>, ci: bool) -> bool {
    &&& 0 <= i
    &&& i + p.len() <= s.len()
    &&& forall|k: int|
        0 <= k < p.len() ==> (if ci {
            lower_char(s[i + k])
        } else {
            s[i + k]
        }) == p[k]
}

/// `p` occurs somewhere in `s` (lower-cased when `ci` is set).
pub open spec fn contains_seq(s: Seq<char>, p: Seq<char>, ci: bool) -> bool {
    exists|i: int| matches_at(s, i, p, ci)
}

/// Executable check that `p` occurs at `i` in `s`.
pub fn matches_at_exec(s: &str, i: usize, p: &str, ci: bool) -> (r: bool)
    requires
        i <= s@.len(),
    ensures
        r == matches_at(s@, i as int, p@, ci),
{
    let plen = p.unicode_len();
    let slen = s.unicode_len();
    if plen > slen - i {
        return false;
    }
    let mut k: usize = 0;
    while k < plen
        invariant
            0 <= k <= plen,
            plen == p@.len(),
            slen == s@.len(),
            i + plen <= slen,
            forall|j: int|
                0 <= j < k ==> (if ci {
                    lower_char(s@[i + j])
                } else {
                    s@[i + j]
                }) == p@[j],
        decreases plen - k,
    {
        let sc = if ci {
            lower_char_exec(s.get_char(i + k))
        } else {
            s.get_char(i + k)
        };
        if sc != p.get_char(k) {
            return false;
        }
        k += 1;
    }
    true
}

/// Executable substring search; `ci` requests ASCII case-insensitive
/// matching against a lower-case pattern.
pub fn contains_str(s: &str, p: &str, ci: bool) -> (r: bool)
    ensures
        r == contains_seq(s@, p@, ci),
{
    let len = s.unicode_len();
    let mut i: usize = 0;
    loop
        invariant
            0 <= i <= len,
            len == s@.len(),
            forall|j: int| 0 <= j < i ==> !matches_at(s@, j, p@, ci),
        ensures
            !contains_seq(s@, p@, ci),
        decreases len - i,
    {
        if matches_at_exec(s, i, p, ci) {
            return true;
        }
        if i == len {
            proof {
                assert forall|j: int| !matches_at(s@, j, p@, ci) by {
                    if 0 <= j < i {
                        assert(!matches_at(s@, j, p@, ci));
                    }
                }
            }
            break;
        }
        i += 1;
    }
    false
}

/// Index of the start of the last occurrence of `p` in `s` (lower-cased when
/// `ci` is set), as an option.
pub open spec fn rfind_spec(s: Seq<char>, p: Seq<char>, ci: bool) -> Option<int> {
    if contains_seq(s, p, ci) {
        let i = choose|i: int|
            matches_at(s, i, p, ci) && (forall|j: int| j > i ==> !matches_at(s, j, p, ci));
        Some(i)
    } else {
        None
    }
}

proof fn lemma_rfind_exists(s: Seq<char>, p: Seq<char>, ci: bool, hi: int)
    requires
        matches_at(s, hi, p, ci),
        forall|j: int| hi < j ==> !matches_at(s, j, p, ci),
    ensures
        rfind_spec(s, p, ci) == Some(hi),
{
    assert(contains_seq(s, p, ci));
    let i = choose|i: int|
        matches_at(s, i, p, ci) && (forall|j: int| j > i ==> !matches_at(s, j, p, ci));
    assert(!(i < hi) && !(hi < i));
}

/// Executable search for the last occurrence of `p` in `s`.
pub fn rfind_str(s: &str, p: &str, ci: bool) -> (r: Option<usize>)
    ensures
        match r {
            Some(i) => {
                &&& rfind_spec(s@, p@, ci) == Some(i as int)
                &&& matches_at(s@, i as int, p@, ci)
                &&& forall|j: int| j > i ==> !matches_at(s@, j, p@, ci)
            },
            None => rfind_spec(s@, p@, ci) is None && !contains_seq(s@, p@, ci),
        },
{
    let len = s.unicode_len();
    let mut i: usize = len;
    loop
        invariant
            0 <= i <= len,
            len == s@.len(),
            forall|j: int| j > i ==> !matches_at(s@, j, p@, ci),
        ensures
            !contains_seq(s@, p@, ci),
        decreases i,
    {
        if matches_at_exec(s, i, p, ci) {
            proof {
                lemma_rfind_exists(s@, p@, ci, i as int);
            }
            return Some(i);
        }
        if i == 0 {
            proof {
                assert forall|j: int| !matches_at(s@, j, p@, ci) by {
                    if j > 0 {
                        assert(!matches_at(s@, j, p@, ci));
                    } else if j == 0 {
                        assert(!matches_at(s@, 0, p@, ci));
                    }
                }
            }
            break;
        }
        i -= 1;
    }
    None
}

/// `find_from` lands exactly on `j` when nothing before `j` matches and `j`
/// is a match or the end.
pub proof fn lemma_find_from_value(s: Seq<char>, i: int, j: int, c: char)
    requires
        0 <= i <= j <= s.len(),
        forall|k: int| i <= k < j ==> s[k] != c,
        j == s.len() || s[j] == c,
    ensures
        find_from(s, i, c) == j,
    decreases j - i,
{
    if i < j {
        lemma_find_from_value(s, i + 1, j, c);
    }
}

/// `skip_ws` lands exactly on `j` when everything before `j` is whitespace
/// and `j` is not (or is the end).
pub proof fn lemma_skip_ws_value(s: Seq<char>, i: int, j: int)
    requires
        0 <= i <= j <= s.len(),
        forall|k: int| i <= k < j ==> is_space(s[k]),
        j == s.len() || !is_space(s[j]),
    ensures
        skip_ws(s, i) == j,
    decreases j - i,
{
    if i < j {
        lemma_skip_ws_value(s, i + 1, j);
    }
}

/// `scan_to_ws` lands exactly on `j` when nothing before `j` is whitespace
/// and `j` is whitespace (or the end).
pub proof fn lemma_scan_to_ws_value(s: Seq<char>, i: int, j: int)
    requires
        0 <= i <= j <= s.len(),
        forall|k: int| i <= k < j ==> !is_space(s[k]),
        j == s.len() || is_space(s[j]),
    ensures
        scan_to_ws(s, i) == j,
    decreases j - i,
{
    if i < j {
        lemma_scan_to_ws_value(s, i + 1, j);
    }
}

proof fn lemma_trim_end_value_h(s: Seq<char>, j: int, m: int)
    requires
        0 <= j <= m <= s.len(),
        forall|k: int| j <= k < m ==> is_space(s[k]),
        j == 0 || !is_space(s[j - 1]),
    ensures
        trim_end_from(s, m) == j,
    decreases m - j,
{
    if j < m {
        lemma_trim_end_value_h(s, j, m - 1);
    }
}

/// `trim` slices exactly `[a, b)` when the outside is whitespace and the
/// boundary characters are not.
pub proof fn lemma_trim_exact(s: Seq<char>, a: int, b: int)
    requires
        0 <= a < b <= s.len(),
        forall|k: int| 0 <= k < a ==> is_space(s[k]),
        forall|k: int| b <= k < s.len() ==> is_space(s[k]),
        !is_space(s[a]),
        !is_space(s[b - 1]),
    ensures
        trim(s) == s.subrange(a, b),
    decreases s.len(),
{
    lemma_skip_ws_value(s, 0, a);
    lemma_trim_end_value_h(s, b, s.len() as int);
}

/// The view of each string in a vector, as a sequence of char sequences.
pub open spec fn views_of(v: Seq<String>) -> Seq<Seq<char>> {
    v.map(|_i: int, l: String| l@)
}

pub proof fn lemma_views_of_push(v: Seq<String>, x: String)
    ensures
        views_of(v.push(x)) =~= views_of(v).push(x@),
{
}

/// Drop a single trailing carriage return, as the line splitter does.
pub open spec fn strip_cr(s: Seq<char>) -> Seq<char> {
    if s.len() > 0 && s[s.len() - 1] == '\r' {
        s.subrange(0, s.len() - 1)
    } else {
        s
    }
}

/// The lines of `s`: split at `'\n'`, every line stripped of one trailing
/// `'\r'`; a final trailing newline yields no extra empty line.
pub open spec fn spec_lines(s: Seq<char>) -> Seq<Seq<char>>
    decreases s.len(),
{
    if s.len() == 0 {
        Seq::empty()
    } else {
        let i = find_from(s, 0, '\n');
        if 0 <= i < s.len() {
            seq![strip_cr(s.subrange(0, i))] + spec_lines(s.subrange(i + 1, s.len() as int))
        } else {
            seq![strip_cr(s)]
        }
    }
}

/// `find_from` looks only at the suffix it scans, so it commutes with
/// taking that suffix as a subrange.
pub proof fn lemma_find_from_shift(s: Seq<char>, pos: int, c: char)
    requires
        0 <= pos <= s.len(),
    ensures
        find_from(s.subrange(pos, s.len() as int), 0, c) == find_from(s, pos, c) - pos,
    decreases s.len() - pos,
{
    let suf = s.subrange(pos, s.len() as int);
    if pos == s.len() {
    } else if s[pos] == c {
    } else {
        lemma_find_from_shift(s, pos + 1, c);
        assert(s.subrange(pos + 1, s.len() as int) =~= suf.subrange(1, suf.len() as int));
        lemma_find_from_tail(suf, c);
    }
}

/// Unfolding of `find_from` at the head of a nonempty sequence.
pub proof fn lemma_find_from_tail(s: Seq<char>, c: char)
    requires
        s.len() > 0,
        s[0] != c,
    ensures
        find_from(s, 0, c) == 1 + find_from(s.subrange(1, s.len() as int), 0, c),
    decreases s.len(),
{
    let t = s.subrange(1, s.len() as int);
    lemma_find_step(s, 1, c, t, 0);
}

/// `find_from` on `s` starting at `i + k` mirrors `find_from` on the suffix
/// dropped by `i`, starting at `k`.
proof fn lemma_find_step(s: Seq<char>, i: int, c: char, t: Seq<char>, k: int)
    requires
        0 <= i,
        0 <= k,
        i + t.len() == s.len(),
        k <= t.len(),
        forall|j: int| 0 <= j < t.len() ==> t[j] == s[i + j],
    ensures
        find_from(s, i + k, c) == i + find_from(t, k, c),
    decreases t.len() - k,
{
    if k < t.len() && t[k] != c {
        lemma_find_step(s, i, c, t, k + 1);
    }
}

/// Split `s` into its lines.
pub fn split_lines(s: &str) -> (r: Vec<String>)
    ensures
        views_of(r@) == spec_lines(s@),
{
    let len = s.unicode_len();
    let mut out: Vec<String> = Vec::new();
    let mut pos: usize = 0;
    proof {
        assert(s@.subrange(0, len as int) =~= s@);
    }
    while pos < len
        invariant
            0 <= pos <= len,
            len == s@.len(),
            spec_lines(s@) =~= views_of(out@) + spec_lines(s@.subrange(pos as int, len as int)),
        decreases len - pos,
    {
        let nl = find_char(s, pos, '\n');
        proof {
            lemma_find_from_bounds(s@, pos as int, '\n');
        }
        let mut line_end = nl;
        if nl > pos && s.get_char(nl - 1) == '\r' {
            line_end = nl - 1;
        }
        let line = s.substring_char(pos, line_end).to_owned();
        proof {
            let suf = s@.subrange(pos as int, len as int);
            lemma_find_from_shift(s@, pos as int, '\n');
            assert(suf.subrange(0, nl - pos) =~= s@.subrange(pos as int, nl as int));
            assert(strip_cr(suf.subrange(0, nl - pos)) =~= line@);
            if nl < len {
                assert(suf.subrange(nl - pos + 1, suf.len() as int) =~= s@.subrange(
                    nl as int + 1,
                    len as int,
                ));
            } else {
                assert(strip_cr(suf) =~= line@);
            }
            lemma_views_of_push(out@, line);
        }
        out.push(line);
        if nl == len {
            pos = len;
        } else {
            pos = nl + 1;
        }
    }
    proof {
        assert(s@.subrange(len as int, len as int) =~= Seq::<char>::empty());
    }
    out
}

/// The segments of `s` between occurrences of `'='`; `n` separators yield
/// `n + 1` segments, the empty string yields one empty segment.
pub open spec fn spec_split_eq(s: Seq<char>) -> Seq<Seq<char>>
    decreases s.len(),
{
    let i = find_from(s, 0, '=');
    if 0 <= i < s.len() {
        seq![s.subrange(0, i)] + spec_split_eq(s.subrange(i + 1, s.len() as int))
    } else {
        seq![s]
    }
}

/// Split `s` at every `'='`.
pub fn split_on_eq(s: &str) -> (r: Vec<String>)
    ensures
        views_of(r@) == spec_split_eq(s@),
        r@.len() >= 1,
{
    let len = s.unicode_len();
    let mut out: Vec<String> = Vec::new();
    let mut pos: usize = 0;
    proof {
        assert(s@.subrange(0, len as int) =~= s@);
    }
    loop
        invariant_except_break
            spec_split_eq(s@) =~= views_of(out@) + spec_split_eq(
                s@.subrange(pos as int, len as int),
            ),
        invariant
            0 <= pos <= len,
            len == s@.len(),
        ensures
            views_of(out@) =~= spec_split_eq(s@),
            out@.len() >= 1,
        decreases len + 1 - pos,
    {
        let eq = find_char(s, pos, '=');
        proof {
            lemma_find_from_bounds(s@, pos as int, '=');
        }
        let seg = s.substring_char(pos, eq).to_owned();
        proof {
            let suf = s@.subrange(pos as int, len as int);
            lemma_find_from_shift(s@, pos as int, '=');
            assert(suf.subrange(0, eq - pos) =~= s@.subrange(pos as int, eq as int));
            if eq < len {
                assert(suf.subrange(eq - pos + 1, suf.len() as int) =~= s@.subrange(
                    eq as int + 1,
                    len as int,
                ));
            } else {
                assert(suf =~= seg@);
            }
            lemma_views_of_push(out@, seg);
        }
        out.push(seg);
        if eq == len {
            break;
        }
        pos = eq + 1;
    }
    out
}

/// `s` begins with `p`.
pub open spec fn starts_with(s: Seq<char>, p: Seq<char>) -> bool {
    matches_at(s, 0, p, false)
}

/// Executable prefix test.
pub fn starts_with_str(s: &str, p: &str) -> (r: bool)
    ensures
        r == starts_with(s@, p@),
{
    matches_at_exec(s, 0, p, false)
}

} // verus!
