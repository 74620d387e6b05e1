//! The parser: recovers state from marker-delimited descriptor text.
//!
//! Markers are located by substring search; a region's content is the
//! text strictly between the end of the start marker's line and the
//! start of the end marker's line, with trailing blank or comment-only
//! lines stripped.

use vstd::prelude::*;

use crate::text::{chars_to_string, contains_in, contains_sub, find_in, has_prefix,
    lemma_find_from_bounds, push_all, rfind_char_last, spec_find, spec_find_from, spec_lines,
    spec_rfind_char, spec_trim, starts_with_chars, str_to_chars, subvec, trim_chars};

verus! {

/// A format error: the text is not managed, or one marker of a pair is
/// missing.
#[derive(Debug, Clone, PartialEq, Eq)]
pub enum ParseError {
    NotMicaManaged,
    MissingMarker(String),
}

impl ParseError {
    /// A human-readable description of the error.
    pub fn message(&self) -> (r: String)
        ensures
            self is NotMicaManaged ==> r@ == "not a mica-managed nix file"@,
            self matches ParseError::MissingMarker(m) ==> r@ == "missing marker: "@ + m@,
    {
        match self {
            ParseError::NotMicaManaged => {
                let v = str_to_chars("not a mica-managed nix file");
                chars_to_string(&v)
            },
            ParseError::MissingMarker(m) => {
                let mut v = str_to_chars("missing marker: ");
                push_all(&mut v, &str_to_chars(m.as_str()));
                chars_to_string(&v)
            },
        }
    }
}

// ---------- marker geometry ----------

/// The start of the line containing position `idx`.
pub open spec fn spec_line_start(c: Seq<char>, idx: int) -> int {
    match spec_rfind_char(c, '\n', idx - 1) {
        Some(p) => p + 1,
        None => 0,
    }
}

/// One past the end of the line containing position `idx` (past its
/// newline if it has one).
pub open spec fn spec_line_end(c: Seq<char>, idx: int) -> int {
    match spec_find_from(c, seq!['\n'], idx) {
        Some(p) => p + 1,
        None => c.len() as int,
    }
}

pub proof fn lemma_rfind_bounds(s: Seq<char>, c: char, from: int)
    ensures
        spec_rfind_char(s, c, from) matches Some(e) ==> 0 <= e <= from && e < s.len(),
    decreases from + 1,
{
    if !(from < 0 || from >= s.len()) {
        if s[from] != c {
            lemma_rfind_bounds(s, c, from - 1);
        }
    }
}

/// A line whose trimmed text is empty or all `#`.
pub open spec fn is_stub_line(l: Seq<char>) -> bool {
    forall|i: int| 0 <= i < spec_trim(l).len() ==> spec_trim(l)[i] == '#'
}

/// Removes trailing stub lines.
pub open spec fn spec_strip_loop(v: Seq<char>) -> Seq<char>
    decreases v.len(),
    via spec_strip_loop_dec
{
    match spec_rfind_char(v, '\n', v.len() - 1) {
        None => v,
        Some(i) => if is_stub_line(v.skip(i + 1)) {
            spec_strip_loop(v.take(i))
        } else {
            v
        },
    }
}

#[via_fn]
proof fn spec_strip_loop_dec(v: Seq<char>) {
    lemma_rfind_bounds(v, '\n', v.len() - 1);
}

/// An extracted slice with trailing blank or comment-only lines removed;
/// a slice that is nothing but stub lines becomes empty.
pub open spec fn spec_strip_stub(v: Seq<char>) -> Seq<char> {
    if is_stub_line(v) {
        Seq::empty()
    } else {
        spec_strip_loop(v)
    }
}

fn is_stub_line_exec(l: &Vec<char>) -> (r: bool)
    ensures
        r == is_stub_line(l@),
{
    let t = trim_chars(l);
    let mut i: usize = 0;
    while i < t.len()
        invariant
            i <= t@.len(),
            t@ == spec_trim(l@),
            forall|j: int| 0 <= j < i ==> t@[j] == '#',
        decreases t@.len() - i,
    {
        if t[i] != '#' {
            return false;
        }
        i = i + 1;
    }
    true
}

fn strip_trailing_stub(v: Vec<char>) -> (r: Vec<char>)
    ensures
        r@ == spec_strip_stub(v@),
{
    if is_stub_line_exec(&v) {
        let r: Vec<char> = Vec::new();
        return r;
    }
    let mut out = v;
    loop
        invariant
            spec_strip_loop(out@) == spec_strip_loop(v@),
            !is_stub_line(v@),
        decreases out@.len(),
    {
        proof {
            lemma_rfind_bounds(out@, '\n', out@.len() - 1);
        }
        match rfind_char_last(&out, '\n') {
            None => {
                assert(spec_strip_loop(out@) == out@);
                assert(out@ == spec_strip_stub(v@));
                return out;
            },
            Some(i) => {
                let n = out.len();
                assert(i as int <= out@.len() - 1);
                let tail = subvec(&out, i + 1, n);
                assert(tail@ =~= out@.skip(i as int + 1));
                if is_stub_line_exec(&tail) {
                    let next = subvec(&out, 0, i);
                    assert(next@ =~= out@.take(i as int));
                    assert(spec_strip_loop(out@) == spec_strip_loop(next@));
                    out = next;
                } else {
                    assert(spec_strip_loop(out@) == out@);
                    return out;
                }
            },
        }
    }
}

/// Bounds of the line holding the first occurrence of `m`, if present.
fn marker_line_bounds(c: &Vec<char>, m: &Vec<char>) -> (r: Option<(usize, usize)>)
    ensures
        match r {
            Some(b) => {
                &&& spec_find(c@, m@) is Some
                &&& b.0 as int == spec_line_start(c@, spec_find(c@, m@)->Some_0)
                &&& b.1 as int == spec_line_end(c@, spec_find(c@, m@)->Some_0)
                &&& b.0 <= c@.len()
                &&& b.1 <= c@.len()
            },
            None => spec_find(c@, m@) is None,
        },
{
    proof {
        lemma_find_from_bounds(c@, m@, 0);
    }
    let idx = match find_in(c, m, 0) {
        Some(i) => i,
        None => {
            return None;
        },
    };
    // line start: last newline strictly before idx
    let pre = subvec(c, 0, idx);
    assert(pre@ =~= c@.take(idx as int));
    let start: usize = match rfind_char_last(&pre, '\n') {
        Some(p) => {
            proof {
                lemma_rfind_bounds(pre@, '\n', pre@.len() - 1);
                lemma_rfind_prefix(c@, idx as int, p as int);
            }
            p + 1
        },
        None => {
            proof {
                lemma_rfind_prefix_none(c@, idx as int);
            }
            0
        },
    };
    let nl: Vec<char> = vec!['\n'];
    assert(nl@ =~= seq!['\n']);
    proof {
        lemma_find_from_bounds(c@, nl@, idx as int);
    }
    let clen = c.len();
    let end: usize = match find_in(c, &nl, idx) {
        Some(p) => {
            assert(p as int + nl@.len() <= c@.len());
            assert(p < clen);
            p + 1
        },
        None => clen,
    };
    Some((start, end))
}

/// Searching the prefix up to `idx` for the last newline is the same as
/// searching the whole text from `idx - 1` down.
proof fn lemma_rfind_prefix(c: Seq<char>, idx: int, p: int)
    requires
        0 <= idx <= c.len(),
        spec_rfind_char(c.take(idx), '\n', idx - 1) == Some(p),
    ensures
        spec_rfind_char(c, '\n', idx - 1) == Some(p),
    decreases idx,
{
    lemma_rfind_agree(c, idx, idx - 1);
}

proof fn lemma_rfind_prefix_none(c: Seq<char>, idx: int)
    requires
        0 <= idx <= c.len(),
        spec_rfind_char(c.take(idx), '\n', idx - 1) is None,
    ensures
        spec_rfind_char(c, '\n', idx - 1) is None,
{
    lemma_rfind_agree(c, idx, idx - 1);
}

proof fn lemma_rfind_agree(c: Seq<char>, idx: int, from: int)
    requires
        0 <= idx <= c.len(),
        from < idx,
    ensures
        spec_rfind_char(c.take(idx), '\n', from) == spec_rfind_char(c, '\n', from),
    decreases from + 1,
{
    if from >= 0 {
        assert(c.take(idx)[from] == c[from]);
        if c[from] != '\n' {
            lemma_rfind_agree(c, idx, from - 1);
        }
    }
}

/// The slice between a start marker's line end and an end marker's line
/// start; empty when they overlap backwards.
pub open spec fn spec_extract_between(c: Seq<char>, s: Seq<char>, e: Seq<char>) -> Seq<char> {
    let sle = spec_line_end(c, spec_find(c, s)->Some_0);
    let els = spec_line_start(c, spec_find(c, e)->Some_0);
    if els <= sle {
        Seq::empty()
    } else {
        spec_strip_stub(c.subrange(sle, els))
    }
}

/// Everything before the marker's line, stub lines stripped.
pub open spec fn spec_extract_before(c: Seq<char>, m: Seq<char>) -> Seq<char> {
    spec_strip_stub(c.take(spec_line_start(c, spec_find(c, m)->Some_0)))
}

/// Everything after the marker's line, stub lines stripped.
pub open spec fn spec_extract_after(c: Seq<char>, m: Seq<char>) -> Seq<char> {
    spec_strip_stub(c.skip(spec_line_end(c, spec_find(c, m)->Some_0)))
}

fn extract_between_markers(c: &Vec<char>, s: &Vec<char>, e: &Vec<char>) -> (r: Result<
    Vec<char>,
    Vec<char>,
>)
    ensures
        match r {
            Ok(v) => contains_sub(c@, s@) && contains_sub(c@, e@) && v@ == spec_extract_between(
                c@,
                s@,
                e@,
            ),
            Err(m) => (!contains_sub(c@, s@) && m@ == s@) || (contains_sub(c@, s@)
                && !contains_sub(c@, e@) && m@ == e@),
        },
{
    let sb = match marker_line_bounds(c, s) {
        Some(b) => b,
        None => {
            return Err(subvec(s, 0, s.len()));
        },
    };
    let eb = match marker_line_bounds(c, e) {
        Some(b) => b,
        None => {
            return Err(subvec(e, 0, e.len()));
        },
    };
    if eb.0 <= sb.1 {
        let r: Vec<char> = Vec::new();
        return Ok(r);
    }
    let body = subvec(c, sb.1, eb.0);
    assert(body@ =~= c@.subrange(sb.1 as int, eb.0 as int));
    Ok(strip_trailing_stub(body))
}

fn extract_between_markers_optional(c: &Vec<char>, s: &Vec<char>, e: &Vec<char>) -> (r: Result<
    Option<Vec<char>>,
    Vec<char>,
>)
    ensures
        match r {
            Ok(v) => match v {
                Some(body) => contains_sub(c@, s@) && contains_sub(c@, e@) && body@
                    == spec_extract_between(c@, s@, e@),
                None => !contains_sub(c@, s@) && !contains_sub(c@, e@),
            },
            Err(m) => (contains_sub(c@, s@) && !contains_sub(c@, e@) && m@ == e@) || (
            !contains_sub(c@, s@) && contains_sub(c@, e@) && m@ == s@),
        },
{
    let has_s = contains_in(c, s);
    let has_e = contains_in(c, e);
    if !has_s && !has_e {
        return Ok(None);
    }
    if has_s && !has_e {
        return Err(subvec(e, 0, e.len()));
    }
    if !has_s && has_e {
        return Err(subvec(s, 0, s.len()));
    }
    match extract_between_markers(c, s, e) {
        Ok(v) => Ok(Some(v)),
        Err(m) => Err(m),
    }
}

fn extract_before_marker(c: &Vec<char>, m: &Vec<char>) -> (r: Result<Vec<char>, Vec<char>>)
    ensures
        match r {
            Ok(v) => contains_sub(c@, m@) && v@ == spec_extract_before(c@, m@),
            Err(e) => !contains_sub(c@, m@) && e@ == m@,
        },
{
    match marker_line_bounds(c, m) {
        Some(b) => {
            let body = subvec(c, 0, b.0);
            assert(body@ =~= c@.take(b.0 as int));
            Ok(strip_trailing_stub(body))
        },
        None => Err(subvec(m, 0, m.len())),
    }
}

fn extract_after_marker(c: &Vec<char>, m: &Vec<char>) -> (r: Result<Vec<char>, Vec<char>>)
    ensures
        match r {
            Ok(v) => contains_sub(c@, m@) && v@ == spec_extract_after(c@, m@),
            Err(e) => !contains_sub(c@, m@) && e@ == m@,
        },
{
    match marker_line_bounds(c, m) {
        Some(b) => {
            let body = subvec(c, b.1, c.len());
            assert(body@ =~= c@.skip(b.1 as int));
            Ok(strip_trailing_stub(body))
        },
        None => Err(subvec(m, 0, m.len())),
    }
}

} // verus!

verus! {

// ---------- the parsed shapes ----------

/// The raw marker-delimited slices of a project descriptor.
#[derive(Debug, Clone, PartialEq, Eq)]
pub struct ParsedNix {
    pub pin_section: String,
    pub pins_section: Option<String>,
    pub let_section: Option<String>,
    pub packages_section: String,
    pub packages_raw_section: Option<String>,
    pub scripts_section: Option<String>,
    pub env_section: String,
    pub env_raw_section: Option<String>,
    pub shell_hook_section: String,
    pub override_section: Option<String>,
    pub override_shellhook_section: Option<String>,
    pub override_merge_section: Option<String>,
    pub preamble: String,
    pub postamble: String,
}

/// The raw marker-delimited slices of a profile descriptor.
#[derive(Debug, Clone, PartialEq, Eq)]
pub struct ParsedProfileNix {
    pub pins_section: String,
    pub paths_section: String,
    pub preamble: String,
    pub postamble: String,
}

// ---------- which marker a failing parse names ----------

/// The error a required marker pair yields: the start, then the end.
pub open spec fn req_err(c: Seq<char>, s: Seq<char>, e: Seq<char>) -> Option<Seq<char>> {
    if !contains_sub(c, s) {
        Some(s)
    } else if !contains_sub(c, e) {
        Some(e)
    } else {
        None
    }
}

/// The error an optional marker pair yields: only when exactly one of
/// the two markers is present.
pub open spec fn opt_err(c: Seq<char>, s: Seq<char>, e: Seq<char>) -> Option<Seq<char>> {
    if contains_sub(c, s) && !contains_sub(c, e) {
        Some(e)
    } else if !contains_sub(c, s) && contains_sub(c, e) {
        Some(s)
    } else {
        None
    }
}

/// The first missing marker a project parse reports, in the order the
/// regions are read.
pub open spec fn spec_project_parse_err(c: Seq<char>) -> Option<Seq<char>> {
    if req_err(c, "mica:pin:begin"@, "mica:pin:end"@) is Some {
        req_err(c, "mica:pin:begin"@, "mica:pin:end"@)
    } else if opt_err(c, "mica:pins:begin"@, "mica:pins:end"@) is Some {
        opt_err(c, "mica:pins:begin"@, "mica:pins:end"@)
    } else if opt_err(c, "mica:let:begin"@, "mica:let:end"@) is Some {
        opt_err(c, "mica:let:begin"@, "mica:let:end"@)
    } else if req_err(c, "mica:packages:begin"@, "mica:packages:end"@) is Some {
        req_err(c, "mica:packages:begin"@, "mica:packages:end"@)
    } else if opt_err(c, "mica:packages-raw:begin"@, "mica:packages-raw:end"@) is Some {
        opt_err(c, "mica:packages-raw:begin"@, "mica:packages-raw:end"@)
    } else if opt_err(c, "mica:scripts:begin"@, "mica:scripts:end"@) is Some {
        opt_err(c, "mica:scripts:begin"@, "mica:scripts:end"@)
    } else if req_err(c, "mica:env:begin"@, "mica:env:end"@) is Some {
        req_err(c, "mica:env:begin"@, "mica:env:end"@)
    } else if opt_err(c, "mica:env-raw:begin"@, "mica:env-raw:end"@) is Some {
        opt_err(c, "mica:env-raw:begin"@, "mica:env-raw:end"@)
    } else if req_err(c, "mica:shellhook:begin"@, "mica:shellhook:end"@) is Some {
        req_err(c, "mica:shellhook:begin"@, "mica:shellhook:end"@)
    } else if opt_err(c, "mica:override:begin"@, "mica:override:end"@) is Some {
        opt_err(c, "mica:override:begin"@, "mica:override:end"@)
    } else if opt_err(c, "mica:override-shellhook:begin"@, "mica:override-shellhook:end"@)
        is Some {
        opt_err(c, "mica:override-shellhook:begin"@, "mica:override-shellhook:end"@)
    } else if opt_err(c, "mica:override-merge:begin"@, "mica:override-merge:end"@) is Some {
        opt_err(c, "mica:override-merge:begin"@, "mica:override-merge:end"@)
    } else {
        None
    }
}

// ---------- the postamble ----------

pub open spec fn spec_first_nonblank(lines: Seq<Seq<char>>, i: int) -> Option<int>
    decreases lines.len() - i,
{
    if i < 0 || i >= lines.len() {
        None
    } else if spec_trim(lines[i]).len() > 0 {
        Some(i)
    } else {
        spec_first_nonblank(lines, i + 1)
    }
}

/// Drops the generator's own structural merge-expression line when it is
/// the first non-blank line of the recovered postamble.
pub open spec fn spec_strip_scripts_merge(v: Seq<char>) -> Seq<char> {
    let lines = spec_lines(v);
    match spec_first_nonblank(lines, 0) {
        Some(k) => if spec_trim(lines[k]) == "// { inherit scripts; }"@ {
            crate::text::spec_join_nl(lines.take(k) + lines.skip(k + 1))
        } else {
            v
        },
        None => v,
    }
}

/// The postamble: text after the latest-present terminal marker, so
/// older files lacking newer optional markers still parse.
pub open spec fn spec_postamble(c: Seq<char>) -> Seq<char> {
    if contains_sub(c, "mica:override-merge:end"@) {
        spec_strip_scripts_merge(spec_extract_after(c, "mica:override-merge:end"@))
    } else if contains_sub(c, "mica:override-shellhook:end"@) {
        spec_extract_after(c, "mica:override-shellhook:end"@)
    } else if contains_sub(c, "mica:override:end"@) {
        spec_extract_after(c, "mica:override:end"@)
    } else {
        spec_extract_after(c, "mica:shellhook:end"@)
    }
}

fn strip_scripts_merge(v: &Vec<char>) -> (r: Vec<char>)
    ensures
        r@ == spec_strip_scripts_merge(v@),
{
    let lines = crate::text::split_lines(v);
    let ghost lv = crate::text::views_of(lines@);
    let mut k: usize = 0;
    let mut found: Option<usize> = None;
    while k < lines.len() && found.is_none()
        invariant
            k <= lines@.len(),
            lv == crate::text::views_of(lines@),
            match found {
                Some(f) => f == k && f < lines@.len() && spec_first_nonblank(lv, 0) == Some(
                    f as int,
                ),
                None => spec_first_nonblank(lv, 0) == spec_first_nonblank(lv, k as int),
            },
        decreases lines@.len() - k + (if found is None {
            1int
        } else {
            0int
        }),
    {
        let t = trim_chars(&lines[k]);
        assert(lv[k as int] == lines@[k as int]@);
        if t.len() > 0 {
            found = Some(k);
        } else {
            k = k + 1;
        }
    }
    let f = match found {
        Some(f) => f,
        None => {
            assert(spec_first_nonblank(lv, 0) is None);
            return subvec(v, 0, v.len());
        },
    };
    let t = trim_chars(&lines[f]);
    let lit = str_to_chars("// { inherit scripts; }");
    if !crate::text::chars_eq(t.as_slice(), lit.as_slice()) {
        return subvec(v, 0, v.len());
    }
    assert(spec_trim(lv[f as int]) == "// { inherit scripts; }"@);
    let mut kept: Vec<Vec<char>> = Vec::new();
    let mut i: usize = 0;
    while i < lines.len()
        invariant
            i <= lines@.len(),
            f < lines@.len(),
            lv == crate::text::views_of(lines@),
            crate::text::views_of(kept@) == if i <= f {
                lv.take(i as int)
            } else {
                lv.take(f as int) + lv.subrange(f as int + 1, i as int)
            },
        decreases lines@.len() - i,
    {
        let ghost prev = crate::text::views_of(kept@);
        if i != f {
            let cl = subvec(&lines[i], 0, lines[i].len());
            assert(cl@ =~= lines@[i as int]@);
            assert(cl@ == lv[i as int]);
            kept.push(cl);
            assert(crate::text::views_of(kept@) =~= prev.push(lv[i as int]));
        }
        i = i + 1;
        proof {
            if i <= f {
                assert(crate::text::views_of(kept@) =~= lv.take(i as int));
            } else if i == f + 1 {
                assert(crate::text::views_of(kept@) =~= lv.take(f as int) + lv.subrange(
                    f as int + 1,
                    i as int,
                ));
            } else {
                assert(crate::text::views_of(kept@) =~= lv.take(f as int) + lv.subrange(
                    f as int + 1,
                    i as int,
                ));
            }
        }
    }
    assert(crate::text::views_of(kept@) =~= lv.take(f as int) + lv.skip(f as int + 1));
    crate::text::join_nl(&kept)
}

fn extract_postamble(c: &Vec<char>) -> (r: Result<Vec<char>, Vec<char>>)
    requires
        contains_sub(c@, "mica:shellhook:end"@),
    ensures
        r is Ok && r->Ok_0@ == spec_postamble(c@),
{
    let om = str_to_chars("mica:override-merge:end");
    let osh = str_to_chars("mica:override-shellhook:end");
    let ov = str_to_chars("mica:override:end");
    let sh = str_to_chars("mica:shellhook:end");
    if contains_in(c, &om) {
        let post = match extract_after_marker(c, &om) {
            Ok(p) => p,
            Err(e) => {
                return Err(e);
            },
        };
        Ok(strip_scripts_merge(&post))
    } else if contains_in(c, &osh) {
        extract_after_marker(c, &osh)
    } else if contains_in(c, &ov) {
        extract_after_marker(c, &ov)
    } else {
        extract_after_marker(c, &sh)
    }
}

} // verus!

verus! {

/// Marker symmetry for an optional region: with neither marker present
/// the region parses as absent and contributes no error; with exactly
/// one present, the parse fails naming the absent marker.
pub proof fn lemma_marker_symmetry(c: Seq<char>, s: Seq<char>, e: Seq<char>)
    ensures
        (!contains_sub(c, s) && !contains_sub(c, e)) ==> opt_err(c, s, e) is None,
        (contains_sub(c, s) && !contains_sub(c, e)) ==> opt_err(c, s, e) == Some(e),
        (!contains_sub(c, s) && contains_sub(c, e)) ==> opt_err(c, s, e) == Some(s),
{
}

/// What each field of a successful project parse holds.
pub open spec fn parsed_nix_ok(p: ParsedNix, c: Seq<char>) -> bool {
    &&& p.pin_section@ == spec_extract_between(c, "mica:pin:begin"@, "mica:pin:end"@)
    &&& crate::state::opt_str_view(p.pins_section) == (if contains_sub(c, "mica:pins:begin"@) {
        Some(spec_extract_between(c, "mica:pins:begin"@, "mica:pins:end"@))
    } else {
        None
    })
    &&& crate::state::opt_str_view(p.let_section) == (if contains_sub(c, "mica:let:begin"@) {
        Some(spec_extract_between(c, "mica:let:begin"@, "mica:let:end"@))
    } else {
        None
    })
    &&& p.packages_section@ == spec_extract_between(
        c,
        "mica:packages:begin"@,
        "mica:packages:end"@,
    )
    &&& crate::state::opt_str_view(p.packages_raw_section) == (if contains_sub(
        c,
        "mica:packages-raw:begin"@,
    ) {
        Some(spec_extract_between(c, "mica:packages-raw:begin"@, "mica:packages-raw:end"@))
    } else {
        None
    })
    &&& crate::state::opt_str_view(p.scripts_section) == (if contains_sub(
        c,
        "mica:scripts:begin"@,
    ) {
        Some(spec_extract_between(c, "mica:scripts:begin"@, "mica:scripts:end"@))
    } else {
        None
    })
    &&& p.env_section@ == spec_extract_between(c, "mica:env:begin"@, "mica:env:end"@)
    &&& crate::state::opt_str_view(p.env_raw_section) == (if contains_sub(
        c,
        "mica:env-raw:begin"@,
    ) {
        Some(spec_extract_between(c, "mica:env-raw:begin"@, "mica:env-raw:end"@))
    } else {
        None
    })
    &&& p.shell_hook_section@ == spec_extract_between(
        c,
        "mica:shellhook:begin"@,
        "mica:shellhook:end"@,
    )
    &&& crate::state::opt_str_view(p.override_section) == (if contains_sub(
        c,
        "mica:override:begin"@,
    ) {
        Some(spec_extract_between(c, "mica:override:begin"@, "mica:override:end"@))
    } else {
        None
    })
    &&& crate::state::opt_str_view(p.override_shellhook_section) == (if contains_sub(
        c,
        "mica:override-shellhook:begin"@,
    ) {
        Some(
            spec_extract_between(
                c,
                "mica:override-shellhook:begin"@,
                "mica:override-shellhook:end"@,
            ),
        )
    } else {
        None
    })
    &&& crate::state::opt_str_view(p.override_merge_section) == (if contains_sub(
        c,
        "mica:override-merge:begin"@,
    ) {
        Some(spec_extract_between(c, "mica:override-merge:begin"@, "mica:override-merge:end"@))
    } else {
        None
    })
    &&& p.preamble@ == spec_extract_before(c, "mica:pin:begin"@)
    &&& p.postamble@ == spec_postamble(c)
}

/// Splits a managed project descriptor into its marker-delimited
/// regions. Fails when the text is not managed, or when a marker of a
/// required pair — or exactly one marker of an optional pair — is
/// missing, naming the absent marker.
pub fn parse_nix_file(content: &str) -> (r: Result<ParsedNix, ParseError>)
    ensures
        match r {
            Ok(p) => has_prefix(content@, "# Managed by Mica"@) && spec_project_parse_err(
                content@,
            ) is None && parsed_nix_ok(p, content@),
            Err(e) => match e {
                ParseError::NotMicaManaged => !has_prefix(content@, "# Managed by Mica"@),
                ParseError::MissingMarker(m) => has_prefix(content@, "# Managed by Mica"@)
                    && spec_project_parse_err(content@) == Some(m@),
            },
        },
{
    let c = str_to_chars(content);
    let sig = str_to_chars("# Managed by Mica");
    if !starts_with_chars(&c, &sig) {
        return Err(ParseError::NotMicaManaged);
    }
    let pin_b = str_to_chars("mica:pin:begin");
    let pin_e = str_to_chars("mica:pin:end");
    let preamble = match extract_before_marker(&c, &pin_b) {
        Ok(v) => v,
        Err(m) => {
            return Err(ParseError::MissingMarker(chars_to_string(&m)));
        },
    };
    let pin_section = match extract_between_markers(&c, &pin_b, &pin_e) {
        Ok(v) => v,
        Err(m) => {
            return Err(ParseError::MissingMarker(chars_to_string(&m)));
        },
    };
    let pins_section = match extract_between_markers_optional(
        &c,
        &str_to_chars("mica:pins:begin"),
        &str_to_chars("mica:pins:end"),
    ) {
        Ok(v) => v,
        Err(m) => {
            return Err(ParseError::MissingMarker(chars_to_string(&m)));
        },
    };
    let let_section = match extract_between_markers_optional(
        &c,
        &str_to_chars("mica:let:begin"),
        &str_to_chars("mica:let:end"),
    ) {
        Ok(v) => v,
        Err(m) => {
            return Err(ParseError::MissingMarker(chars_to_string(&m)));
        },
    };
    let packages_section = match extract_between_markers(
        &c,
        &str_to_chars("mica:packages:begin"),
        &str_to_chars("mica:packages:end"),
    ) {
        Ok(v) => v,
        Err(m) => {
            return Err(ParseError::MissingMarker(chars_to_string(&m)));
        },
    };
    let packages_raw_section = match extract_between_markers_optional(
        &c,
        &str_to_chars("mica:packages-raw:begin"),
        &str_to_chars("mica:packages-raw:end"),
    ) {
        Ok(v) => v,
        Err(m) => {
            return Err(ParseError::MissingMarker(chars_to_string(&m)));
        },
    };
    let scripts_section = match extract_between_markers_optional(
        &c,
        &str_to_chars("mica:scripts:begin"),
        &str_to_chars("mica:scripts:end"),
    ) {
        Ok(v) => v,
        Err(m) => {
            return Err(ParseError::MissingMarker(chars_to_string(&m)));
        },
    };
    let env_section = match extract_between_markers(
        &c,
        &str_to_chars("mica:env:begin"),
        &str_to_chars("mica:env:end"),
    ) {
        Ok(v) => v,
        Err(m) => {
            return Err(ParseError::MissingMarker(chars_to_string(&m)));
        },
    };
    let env_raw_section = match extract_between_markers_optional(
        &c,
        &str_to_chars("mica:env-raw:begin"),
        &str_to_chars("mica:env-raw:end"),
    ) {
        Ok(v) => v,
        Err(m) => {
            return Err(ParseError::MissingMarker(chars_to_string(&m)));
        },
    };
    let shell_hook_section = match extract_between_markers(
        &c,
        &str_to_chars("mica:shellhook:begin"),
        &str_to_chars("mica:shellhook:end"),
    ) {
        Ok(v) => v,
        Err(m) => {
            return Err(ParseError::MissingMarker(chars_to_string(&m)));
        },
    };
    let override_section = match extract_between_markers_optional(
        &c,
        &str_to_chars("mica:override:begin"),
        &str_to_chars("mica:override:end"),
    ) {
        Ok(v) => v,
        Err(m) => {
            return Err(ParseError::MissingMarker(chars_to_string(&m)));
        },
    };
    let override_shellhook_section = match extract_between_markers_optional(
        &c,
        &str_to_chars("mica:override-shellhook:begin"),
        &str_to_chars("mica:override-shellhook:end"),
    ) {
        Ok(v) => v,
        Err(m) => {
            return Err(ParseError::MissingMarker(chars_to_string(&m)));
        },
    };
    let override_merge_section = match extract_between_markers_optional(
        &c,
        &str_to_chars("mica:override-merge:begin"),
        &str_to_chars("mica:override-merge:end"),
    ) {
        Ok(v) => v,
        Err(m) => {
            return Err(ParseError::MissingMarker(chars_to_string(&m)));
        },
    };
    let postamble = match extract_postamble(&c) {
        Ok(v) => v,
        Err(m) => {
            return Err(ParseError::MissingMarker(chars_to_string(&m)));
        },
    };
    Ok(
        ParsedNix {
            pin_section: chars_to_string(&pin_section),
            pins_section: opt_chars_to_string(pins_section),
            let_section: opt_chars_to_string(let_section),
            packages_section: chars_to_string(&packages_section),
            packages_raw_section: opt_chars_to_string(packages_raw_section),
            scripts_section: opt_chars_to_string(scripts_section),
            env_section: chars_to_string(&env_section),
            env_raw_section: opt_chars_to_string(env_raw_section),
            shell_hook_section: chars_to_string(&shell_hook_section),
            override_section: opt_chars_to_string(override_section),
            override_shellhook_section: opt_chars_to_string(override_shellhook_section),
            override_merge_section: opt_chars_to_string(override_merge_section),
            preamble: chars_to_string(&preamble),
            postamble: chars_to_string(&postamble),
        },
    )
}

fn opt_chars_to_string(v: Option<Vec<char>>) -> (r: Option<String>)
    ensures
        crate::state::opt_str_view(r) == (match v {
            Some(b) => Some(b@),
            None => None::<Seq<char>>,
        }),
{
    match v {
        Some(b) => Some(chars_to_string(&b)),
        None => None,
    }
}

/// The first missing marker a profile parse reports.
pub open spec fn spec_profile_parse_err(c: Seq<char>) -> Option<Seq<char>> {
    if req_err(c, "mica:pins:begin"@, "mica:pins:end"@) is Some {
        req_err(c, "mica:pins:begin"@, "mica:pins:end"@)
    } else if req_err(c, "mica:paths:begin"@, "mica:paths:end"@) is Some {
        req_err(c, "mica:paths:begin"@, "mica:paths:end"@)
    } else {
        None
    }
}

pub open spec fn parsed_profile_ok(p: ParsedProfileNix, c: Seq<char>) -> bool {
    &&& p.pins_section@ == spec_extract_between(c, "mica:pins:begin"@, "mica:pins:end"@)
    &&& p.paths_section@ == spec_extract_between(c, "mica:paths:begin"@, "mica:paths:end"@)
    &&& p.preamble@ == spec_extract_before(c, "mica:pins:begin"@)
    &&& p.postamble@ == spec_extract_after(c, "mica:paths:end"@)
}

/// Splits a managed profile descriptor into its two regions.
pub fn parse_profile_nix(content: &str) -> (r: Result<ParsedProfileNix, ParseError>)
    ensures
        match r {
            Ok(p) => has_prefix(content@, "# Managed by Mica"@) && spec_profile_parse_err(
                content@,
            ) is None && parsed_profile_ok(p, content@),
            Err(e) => match e {
                ParseError::NotMicaManaged => !has_prefix(content@, "# Managed by Mica"@),
                ParseError::MissingMarker(m) => has_prefix(content@, "# Managed by Mica"@)
                    && spec_profile_parse_err(content@) == Some(m@),
            },
        },
{
    let c = str_to_chars(content);
    let sig = str_to_chars("# Managed by Mica");
    if !starts_with_chars(&c, &sig) {
        return Err(ParseError::NotMicaManaged);
    }
    let pins_b = str_to_chars("mica:pins:begin");
    let pins_e = str_to_chars("mica:pins:end");
    let paths_b = str_to_chars("mica:paths:begin");
    let paths_e = str_to_chars("mica:paths:end");
    let preamble = match extract_before_marker(&c, &pins_b) {
        Ok(v) => v,
        Err(m) => {
            return Err(ParseError::MissingMarker(chars_to_string(&m)));
        },
    };
    let pins_section = match extract_between_markers(&c, &pins_b, &pins_e) {
        Ok(v) => v,
        Err(m) => {
            return Err(ParseError::MissingMarker(chars_to_string(&m)));
        },
    };
    let paths_section = match extract_between_markers(&c, &paths_b, &paths_e) {
        Ok(v) => v,
        Err(m) => {
            return Err(ParseError::MissingMarker(chars_to_string(&m)));
        },
    };
    let postamble = match extract_after_marker(&c, &paths_e) {
        Ok(v) => v,
        Err(m) => {
            return Err(ParseError::MissingMarker(chars_to_string(&m)));
        },
    };
    Ok(
        ParsedProfileNix {
            pins_section: chars_to_string(&pins_section),
            paths_section: chars_to_string(&paths_section),
            preamble: chars_to_string(&preamble),
            postamble: chars_to_string(&postamble),
        },
    )
}

} // verus!

verus! {

// ---------- scalar helpers ----------

/// Suffix occurrences of `suf` removed repeatedly from the end.
pub open spec fn spec_strip_suffix_rep(s: Seq<char>, suf: Seq<char>) -> Seq<char>
    decreases s.len(),
{
    if suf.len() > 0 && crate::text::has_suffix(s, suf) {
        spec_strip_suffix_rep(s.take(s.len() - suf.len()), suf)
    } else {
        s
    }
}

fn strip_suffix_rep(s: &Vec<char>, suf: &Vec<char>) -> (r: Vec<char>)
    ensures
        r@ == spec_strip_suffix_rep(s@, suf@),
{
    let mut out = subvec(s, 0, s.len());
    assert(out@ =~= s@);
    loop
        invariant
            spec_strip_suffix_rep(out@, suf@) == spec_strip_suffix_rep(s@, suf@),
        decreases out@.len() + 1,
    {
        if suf.len() == 0 || !crate::text::ends_with_chars(&out, suf) {
            assert(spec_strip_suffix_rep(out@, suf@) == out@);
            return out;
        }
        let next = subvec(&out, 0, out.len() - suf.len());
        assert(next@ =~= out@.take(out@.len() - suf@.len()));
        out = next;
    }
}

/// The revision embedded in a fetch URL: the piece between the first
/// `/archive/` and the next, with `.tar.gz` endings removed.
pub open spec fn spec_rev_from_url(url: Seq<char>) -> Option<Seq<char>> {
    match spec_find(url, "/archive/"@) {
        Some(p) => {
            let rest = url.skip(p + "/archive/"@.len());
            let piece = match spec_find(rest, "/archive/"@) {
                Some(q) => rest.take(q),
                None => rest,
            };
            Some(spec_strip_suffix_rep(piece, ".tar.gz"@))
        },
        None => None,
    }
}

pub fn extract_rev_from_url(url: &Vec<char>) -> (r: Option<Vec<char>>)
    ensures
        match r {
            Some(v) => spec_rev_from_url(url@) == Some(v@),
            None => spec_rev_from_url(url@) is None,
        },
{
    let arch = str_to_chars("/archive/");
    proof {
        lemma_find_from_bounds(url@, arch@, 0);
    }
    let p = match find_in(url, &arch, 0) {
        Some(p) => p,
        None => {
            return None;
        },
    };
    let n = url.len();
    assert(p as int + arch@.len() <= n);
    let rest = subvec(url, p + arch.len(), n);
    assert(rest@ =~= url@.skip(p as int + "/archive/"@.len()));
    proof {
        lemma_find_from_bounds(rest@, arch@, 0);
    }
    let piece = match find_in(&rest, &arch, 0) {
        Some(q) => {
            let v = subvec(&rest, 0, q);
            assert(v@ =~= rest@.take(q as int));
            v
        },
        None => rest,
    };
    let suf = str_to_chars(".tar.gz");
    Some(strip_suffix_rep(&piece, &suf))
}

/// The URL with its `/archive/...` tail removed.
pub open spec fn spec_trim_archive_url(url: Seq<char>) -> Seq<char> {
    match spec_find(url, "/archive/"@) {
        Some(p) => url.take(p),
        None => url,
    }
}

pub fn trim_archive_url(url: &Vec<char>) -> (r: Vec<char>)
    ensures
        r@ == spec_trim_archive_url(url@),
{
    let arch = str_to_chars("/archive/");
    proof {
        lemma_find_from_bounds(url@, arch@, 0);
    }
    match find_in(url, &arch, 0) {
        Some(p) => {
            let v = subvec(url, 0, p);
            assert(v@ =~= url@.take(p as int));
            v
        },
        None => subvec(url, 0, url.len()),
    }
}

/// A package name with a `nixos.` or `pkgs.` prefix removed.
pub open spec fn spec_normalize_package_name(v: Seq<char>) -> Seq<char> {
    if has_prefix(v, "nixos."@) {
        v.skip("nixos."@.len() as int)
    } else if has_prefix(v, "pkgs."@) {
        v.skip("pkgs."@.len() as int)
    } else {
        v
    }
}

pub fn normalize_package_name(v: &Vec<char>) -> (r: Vec<char>)
    ensures
        r@ == spec_normalize_package_name(v@),
{
    let nixos = str_to_chars("nixos.");
    let pkgs = str_to_chars("pkgs.");
    if starts_with_chars(v, &nixos) {
        let r = subvec(v, nixos.len(), v.len());
        assert(r@ =~= v@.skip("nixos."@.len() as int));
        r
    } else if starts_with_chars(v, &pkgs) {
        let r = subvec(v, pkgs.len(), v.len());
        assert(r@ =~= v@.skip("pkgs."@.len() as int));
        r
    } else {
        subvec(v, 0, v.len())
    }
}

/// The value an attribute line `key = value;` carries, quotes stripped.
pub open spec fn spec_attr_of_line(l: Seq<char>, key: Seq<char>) -> Option<Seq<char>> {
    let t = spec_trim(l);
    if t.len() == 0 || t[0] == '#' {
        None
    } else if has_prefix(t, key + " ="@) {
        Some(
            crate::envvalue::spec_trim_quotes(
                spec_trim(
                    crate::envvalue::spec_strip_trail(
                        spec_trim(t.skip(key.len() as int + " ="@.len() as int)),
                        ';',
                    ),
                ),
            ),
        )
    } else {
        None
    }
}

pub open spec fn spec_find_attr(lines: Seq<Seq<char>>, i: int, key: Seq<char>) -> Option<
    Seq<char>,
>
    decreases lines.len() - i,
{
    if i < 0 || i >= lines.len() {
        None
    } else {
        match spec_attr_of_line(lines[i], key) {
            Some(v) => Some(v),
            None => spec_find_attr(lines, i + 1, key),
        }
    }
}

/// The first `key = value;` line's value within a section.
pub open spec fn spec_find_attr_value(section: Seq<char>, key: Seq<char>) -> Option<Seq<char>> {
    spec_find_attr(spec_lines(section), 0, key)
}

fn attr_of_line(l: &Vec<char>, key: &Vec<char>) -> (r: Option<Vec<char>>)
    ensures
        match r {
            Some(v) => spec_attr_of_line(l@, key@) == Some(v@),
            None => spec_attr_of_line(l@, key@) is None,
        },
{
    let t = trim_chars(l);
    if t.len() == 0 || t[0] != '#' {
    }
    if t.len() == 0 {
        return None;
    }
    if t[0] == '#' {
        return None;
    }
    let mut needle = subvec(key, 0, key.len());
    push_all(&mut needle, &str_to_chars(" ="));
    assert(needle@ =~= key@ + " ="@);
    if !starts_with_chars(&t, &needle) {
        return None;
    }
    let rest = subvec(&t, needle.len(), t.len());
    assert(rest@ =~= t@.skip(key@.len() as int + " ="@.len() as int));
    let v1 = trim_chars(&rest);
    let v2 = crate::envvalue::strip_trail_chars(&v1, ';');
    let v3 = trim_chars(&v2);
    Some(crate::envvalue::trim_quotes_chars(&v3))
}

pub fn find_attr_value(section: &Vec<char>, key: &Vec<char>) -> (r: Option<Vec<char>>)
    ensures
        match r {
            Some(v) => spec_find_attr_value(section@, key@) == Some(v@),
            None => spec_find_attr_value(section@, key@) is None,
        },
{
    let lines = crate::text::split_lines(section);
    let ghost lv = crate::text::views_of(lines@);
    let mut i: usize = 0;
    while i < lines.len()
        invariant
            i <= lines@.len(),
            lv == crate::text::views_of(lines@),
            lv == spec_lines(section@),
            spec_find_attr(lv, 0, key@) == spec_find_attr(lv, i as int, key@),
        decreases lines@.len() - i,
    {
        assert(lines@[i as int]@ == lv[i as int]);
        match attr_of_line(&lines[i], key) {
            Some(v) => {
                assert(spec_find_attr(lv, i as int, key@) == Some(v@));
                return Some(v);
            },
            None => {},
        }
        i = i + 1;
    }
    None
}

// ---------- the environment section ----------

/// One pass over the env section's lines: raw-block text is skipped,
/// comments and blanks ignored, and each `KEY = value;` classified.
pub open spec fn spec_env_section_step(
    lines: Seq<Seq<char>>,
    i: int,
    in_raw: bool,
    acc: Seq<(Seq<char>, Seq<char>)>,
) -> Seq<(Seq<char>, Seq<char>)>
    decreases lines.len() - i,
{
    if i < 0 || i >= lines.len() {
        acc
    } else {
        let t = spec_trim(lines[i]);
        if contains_sub(t, "mica:env-raw:begin"@) {
            spec_env_section_step(lines, i + 1, true, acc)
        } else if contains_sub(t, "mica:env-raw:end"@) {
            spec_env_section_step(lines, i + 1, false, acc)
        } else if in_raw {
            spec_env_section_step(lines, i + 1, in_raw, acc)
        } else if t.len() == 0 || t[0] == '#' {
            spec_env_section_step(lines, i + 1, in_raw, acc)
        } else {
            match spec_find(t, seq!['=']) {
                Some(p) => {
                    let key = spec_trim(t.take(p));
                    let value = spec_trim(
                        crate::envvalue::spec_strip_trail(spec_trim(t.skip(p + 1)), ';'),
                    );
                    spec_env_section_step(
                        lines,
                        i + 1,
                        in_raw,
                        crate::smap::spec_insert_kv(
                            acc,
                            key,
                            crate::envvalue::spec_parse_env_value(value),
                        ),
                    )
                },
                None => spec_env_section_step(lines, i + 1, in_raw, acc),
            }
        }
    }
}

pub open spec fn spec_parse_env_section(section: Seq<char>) -> Seq<(Seq<char>, Seq<char>)> {
    spec_env_section_step(spec_lines(section), 0, false, Seq::empty())
}

/// Recovers the structured environment entries from the env region.
pub fn parse_env_section(section: &str) -> (r: crate::smap::StrMap<String>)
    ensures
        r.wf(),
        crate::smap::kv_view(r.entries@) == spec_parse_env_section(section@),
{
    let sc = str_to_chars(section);
    let lines = crate::text::split_lines(&sc);
    let ghost lv = crate::text::views_of(lines@);
    let mut env: crate::smap::StrMap<String> = crate::smap::StrMap::new();
    let mut in_raw: bool = false;
    let mut i: usize = 0;
    let raw_b = str_to_chars("mica:env-raw:begin");
    let raw_e = str_to_chars("mica:env-raw:end");
    let eq: Vec<char> = vec!['='];
    assert(eq@ =~= seq!['=']);
    assert(crate::smap::kv_view(env.entries@) =~= Seq::<(Seq<char>, Seq<char>)>::empty());
    while i < lines.len()
        invariant
            i <= lines@.len(),
            lv == crate::text::views_of(lines@),
            lv == spec_lines(sc@),
            sc@ == section@,
            raw_b@ == "mica:env-raw:begin"@,
            raw_e@ == "mica:env-raw:end"@,
            eq@ == seq!['='],
            env.wf(),
            spec_env_section_step(lv, 0, false, Seq::empty()) == spec_env_section_step(
                lv,
                i as int,
                in_raw,
                crate::smap::kv_view(env.entries@),
            ),
        decreases lines@.len() - i,
    {
        assert(lines@[i as int]@ == lv[i as int]);
        let t = trim_chars(&lines[i]);
        if contains_in(&t, &raw_b) {
            in_raw = true;
        } else if contains_in(&t, &raw_e) {
            in_raw = false;
        } else if in_raw {
        } else if t.len() == 0 {
        } else if t[0] == '#' {
        } else {
            proof {
                lemma_find_from_bounds(t@, seq!['='], 0);
            }
            match find_in(&t, &eq, 0) {
                Some(p) => {
                    let keyp = subvec(&t, 0, p);
                    assert(keyp@ =~= t@.take(p as int));
                    let key = trim_chars(&keyp);
                    let restp = subvec(&t, p + 1, t.len());
                    assert(restp@ =~= t@.skip(p as int + 1));
                    let v1 = trim_chars(&restp);
                    let v2 = crate::envvalue::strip_trail_chars(&v1, ';');
                    let value = trim_chars(&v2);
                    let stored = crate::envvalue::parse_env_value_chars(&value);
                    let ghost before = env.entries@;
                    let ks = chars_to_string(&key);
                    let vs = chars_to_string(&stored);
                    proof {
                        crate::smap::lemma_insert_entries_view(before, ks, vs);
                    }
                    env.insert(ks, vs);
                },
                None => {},
            }
        }
        i = i + 1;
    }
    env
}

// ---------- the shell hook ----------

pub open spec fn spec_hook_scan(
    lines: Seq<Seq<char>>,
    i: int,
    in_hook: bool,
    buf: Seq<char>,
) -> Seq<char>
    decreases lines.len() - i,
{
    if i < 0 || i >= lines.len() {
        buf
    } else if !in_hook {
        if contains_sub(lines[i], "shellHook = ''"@) {
            spec_hook_scan(lines, i + 1, true, buf)
        } else {
            spec_hook_scan(lines, i + 1, false, buf)
        }
    } else if contains_sub(lines[i], "'';"@) {
        buf
    } else {
        spec_hook_scan(lines, i + 1, true, buf + lines[i] + seq!['\n'])
    }
}

/// The hook text between the opening `shellHook = ''` and the line with
/// its closing token; empty text means no hook.
pub open spec fn spec_parse_shell_hook(section: Seq<char>) -> Option<Seq<char>> {
    let b = spec_hook_scan(spec_lines(section), 0, false, Seq::empty());
    if b.len() == 0 {
        None
    } else {
        Some(b)
    }
}

pub fn parse_shell_hook(section: &str) -> (r: Option<String>)
    ensures
        crate::state::opt_str_view(r) == spec_parse_shell_hook(section@),
{
    let sc = str_to_chars(section);
    parse_shell_hook_chars(&sc)
}

fn parse_shell_hook_chars(sc: &Vec<char>) -> (r: Option<String>)
    ensures
        crate::state::opt_str_view(r) == spec_parse_shell_hook(sc@),
{
    let lines = crate::text::split_lines(sc);
    let ghost lv = crate::text::views_of(lines@);
    let opener = str_to_chars("shellHook = ''");
    let closer = str_to_chars("'';");
    let mut buf: Vec<char> = Vec::new();
    let mut in_hook: bool = false;
    let mut i: usize = 0;
    assert(buf@ =~= Seq::<char>::empty());
    while i < lines.len()
        invariant
            i <= lines@.len(),
            lv == crate::text::views_of(lines@),
            lv == spec_lines(sc@),
            opener@ == "shellHook = ''"@,
            closer@ == "'';"@,
            spec_hook_scan(lv, 0, false, Seq::empty()) == spec_hook_scan(
                lv,
                i as int,
                in_hook,
                buf@,
            ),
        decreases lines@.len() - i,
    {
        assert(lines@[i as int]@ == lv[i as int]);
        if !in_hook {
            if contains_in(&lines[i], &opener) {
                in_hook = true;
            }
        } else {
            if contains_in(&lines[i], &closer) {
                assert(spec_hook_scan(lv, i as int, true, buf@) == buf@);
                if buf.len() == 0 {
                    return None;
                }
                return Some(chars_to_string(&buf));
            }
            let ghost before = buf@;
            push_all(&mut buf, &lines[i]);
            buf.push('\n');
            assert(buf@ =~= before + lv[i as int] + seq!['\n']);
        }
        i = i + 1;
    }
    assert(spec_hook_scan(lv, i as int, in_hook, buf@) == buf@);
    if buf.len() == 0 {
        None
    } else {
        Some(chars_to_string(&buf))
    }
}

// ---------- block normalization ----------

/// The count of leading whitespace characters.
pub open spec fn spec_leading_ws(l: Seq<char>) -> int {
    l.len() - crate::text::spec_trim_start(l).len()
}

pub open spec fn spec_min_indent(lines: Seq<Seq<char>>, i: int, cur: Option<int>) -> Option<int>
    decreases lines.len() - i,
{
    if i < 0 || i >= lines.len() {
        cur
    } else if spec_trim(lines[i]).len() == 0 {
        spec_min_indent(lines, i + 1, cur)
    } else {
        let ind = spec_leading_ws(lines[i]);
        spec_min_indent(
            lines,
            i + 1,
            match cur {
                Some(c) => if ind < c {
                    Some(ind)
                } else {
                    Some(c)
                },
                None => Some(ind),
            },
        )
    }
}

pub open spec fn spec_dedent(lines: Seq<Seq<char>>, i: int, ind: int) -> Seq<char>
    decreases lines.len() - i,
{
    if i < 0 || i >= lines.len() {
        Seq::empty()
    } else {
        let off = if ind < lines[i].len() {
            ind
        } else {
            lines[i].len() as int
        };
        lines[i].skip(if off < 0 {
            0
        } else {
            off
        }) + seq!['\n'] + spec_dedent(lines, i + 1, ind)
    }
}

/// An optional raw block, re-anchored: surrounding newlines dropped, the
/// common indentation removed, no trailing newline; an all-blank block
/// becomes absent.
pub open spec fn spec_normalize_block(v: Option<Seq<char>>) -> Option<Seq<char>> {
    match v {
        None => None,
        Some(raw) => {
            let t = crate::envvalue::spec_trim_matches(raw, '\n');
            if spec_trim(t).len() == 0 {
                None
            } else {
                let lines = spec_lines(t);
                let ind = match spec_min_indent(lines, 0, None) {
                    Some(m) => m,
                    None => 0,
                };
                Some(crate::envvalue::spec_strip_trail(spec_dedent(lines, 0, ind), '\n'))
            }
        },
    }
}

/// Normalizes a recovered optional block.
pub fn normalize_optional_block(v: Option<Vec<char>>) -> (r: Option<String>)
    ensures
        crate::state::opt_str_view(r) == spec_normalize_block(
            match v {
                Some(b) => Some(b@),
                None => None::<Seq<char>>,
            },
        ),
{
    let raw = match v {
        Some(b) => b,
        None => {
            return None;
        },
    };
    let t = crate::envvalue::trim_matches_chars(&raw, '\n');
    let tt = trim_chars(&t);
    if tt.len() == 0 {
        return None;
    }
    let lines = crate::text::split_lines(&t);
    let ghost lv = crate::text::views_of(lines@);
    // smallest indentation over the non-blank lines
    let mut ind: Option<usize> = None;
    let mut i: usize = 0;
    while i < lines.len()
        invariant
            i <= lines@.len(),
            lv == crate::text::views_of(lines@),
            spec_min_indent(lv, 0, None) == spec_min_indent(
                lv,
                i as int,
                match ind {
                    Some(m) => Some(m as int),
                    None => None::<int>,
                },
            ),
        decreases lines@.len() - i,
    {
        assert(lines@[i as int]@ == lv[i as int]);
        let lt = trim_chars(&lines[i]);
        if lt.len() > 0 {
            let a = crate::text::trim_start_index(&lines[i]);
            let here = a;
            assert(here as int == spec_leading_ws(lv[i as int])) by {
                assert(crate::text::spec_trim_start(lv[i as int]) == lv[i as int].skip(a as int));
            }
            ind = match ind {
                Some(m) => if here < m {
                    Some(here)
                } else {
                    Some(m)
                },
                None => Some(here),
            };
        }
        i = i + 1;
    }
    let indent: usize = match ind {
        Some(m) => m,
        None => 0,
    };
    // drop the indentation from every line
    let mut out: Vec<char> = Vec::new();
    let mut j: usize = 0;
    assert(out@ =~= Seq::<char>::empty());
    while j < lines.len()
        invariant
            j <= lines@.len(),
            lv == crate::text::views_of(lines@),
            out@ + spec_dedent(lv, j as int, indent as int) == spec_dedent(lv, 0, indent as int),
        decreases lines@.len() - j,
    {
        let ghost before = out@;
        assert(lines@[j as int]@ == lv[j as int]);
        let ll = lines[j].len();
        let off = if indent < ll {
            indent
        } else {
            ll
        };
        let piece = subvec(&lines[j], off, ll);
        assert(piece@ =~= lv[j as int].skip(off as int));
        push_all(&mut out, &piece);
        out.push('\n');
        assert(out@ + spec_dedent(lv, j as int + 1, indent as int) =~= before + spec_dedent(
            lv,
            j as int,
            indent as int,
        ));
        j = j + 1;
    }
    assert(spec_dedent(lv, j as int, indent as int).len() == 0);
    assert(out@ =~= spec_dedent(lv, 0, indent as int));
    let stripped = crate::envvalue::strip_trail_chars(&out, '\n');
    Some(chars_to_string(&stripped))
}

} // verus!

verus! {

/// A state recovery error: a nested format error, or a pin block with a
/// missing or underivable field.
#[derive(Debug, Clone, PartialEq, Eq)]
pub enum StateParseError {
    Nix(ParseError),
    MissingPinUrl,
    MissingPinSha,
    MissingPinRev,
}

/// A name attribute counts only when its trimmed text is nonempty.
pub open spec fn spec_pin_name_attr(section: Seq<char>) -> Option<Seq<char>> {
    match spec_find_attr_value(section, "name"@) {
        Some(n) => if spec_trim(n).len() > 0 {
            Some(n)
        } else {
            None
        },
        None => None,
    }
}

/// The pin a pin region describes, or which field was missing.
pub open spec fn spec_parse_pin_section(section: Seq<char>) -> Result<
    crate::state::PinView,
    StateParseError,
> {
    match spec_find_attr_value(section, "url"@) {
        None => Err(StateParseError::MissingPinUrl),
        Some(url) => match spec_find_attr_value(section, "sha256"@) {
            None => Err(StateParseError::MissingPinSha),
            Some(sha) => match spec_rev_from_url(url) {
                None => Err(StateParseError::MissingPinRev),
                Some(rev) => Ok(
                    crate::state::PinView {
                        name: spec_pin_name_attr(section),
                        url: spec_trim_archive_url(url),
                        rev: rev,
                        sha256: sha,
                        branch: Seq::empty(),
                        updated: crate::state::Date { year: 1970, month: 1, day: 1 },
                    },
                ),
            },
        },
    }
}

/// Recovers the primary pin from the pin region: URL and revision from
/// the fetch location, the hash from its own field; each absence is a
/// distinct fatal error.
pub fn parse_pin_section(section: &str) -> (r: Result<crate::state::Pin, StateParseError>)
    ensures
        match r {
            Ok(pin) => spec_parse_pin_section(section@) == Ok::<_, StateParseError>(pin@),
            Err(e) => spec_parse_pin_section(section@) == Err::<crate::state::PinView, _>(e),
        },
{
    let sc = str_to_chars(section);
    parse_pin_section_chars(&sc)
}

pub fn parse_pin_section_chars(sc: &Vec<char>) -> (r: Result<crate::state::Pin, StateParseError>)
    ensures
        match r {
            Ok(pin) => spec_parse_pin_section(sc@) == Ok::<_, StateParseError>(pin@),
            Err(e) => spec_parse_pin_section(sc@) == Err::<crate::state::PinView, _>(e),
        },
{
    let url = match find_attr_value(sc, &str_to_chars("url")) {
        Some(u) => u,
        None => {
            return Err(StateParseError::MissingPinUrl);
        },
    };
    let sha = match find_attr_value(sc, &str_to_chars("sha256")) {
        Some(s) => s,
        None => {
            return Err(StateParseError::MissingPinSha);
        },
    };
    let rev = match extract_rev_from_url(&url) {
        Some(v) => v,
        None => {
            return Err(StateParseError::MissingPinRev);
        },
    };
    let name: Option<String> = match find_attr_value(sc, &str_to_chars("name")) {
        Some(n) => {
            let t = trim_chars(&n);
            if t.len() > 0 {
                Some(chars_to_string(&n))
            } else {
                None
            }
        },
        None => None,
    };
    let base = trim_archive_url(&url);
    let empty: Vec<char> = Vec::new();
    Ok(
        crate::state::Pin {
            name,
            url: chars_to_string(&base),
            rev: chars_to_string(&rev),
            sha256: chars_to_string(&sha),
            branch: chars_to_string(&empty),
            updated: crate::state::Date::epoch(),
        },
    )
}

} // verus!

verus! {

// ---------- recovering named extra pins from the raw pins region ----------

/// The scan state while walking the pins region line by line.
pub struct PinScan {
    pub pins: Seq<(Seq<char>, crate::state::PinView)>,
    pub raw: Seq<Seq<char>>,
    pub cur: Option<(Seq<char>, Seq<Seq<char>>)>,
    pub cn: Option<Seq<char>>,
    pub cu: Option<Seq<char>>,
    pub cs: Option<Seq<char>>,
}

/// The view of an open pin block under construction.
pub open spec fn cur_view(c: Option<(Vec<char>, Vec<Vec<char>>)>) -> Option<
    (Seq<char>, Seq<Seq<char>>),
> {
    match c {
        Some(p) => Some((p.0@, crate::text::views_of(p.1@))),
        None => None,
    }
}

/// The attribute value a block line carries after a given prefix:
/// trailing semicolons dropped, trimmed, quotes stripped.
pub open spec fn spec_block_attr(t: Seq<char>, prefix: Seq<char>) -> Seq<char> {
    crate::envvalue::spec_trim_quotes(
        spec_trim(crate::envvalue::spec_strip_trail(t.skip(prefix.len() as int), ';')),
    )
}

/// One line of the pins-region scan.
pub open spec fn spec_pin_scan_line(st: PinScan, line: Seq<char>) -> PinScan {
    let t = spec_trim(line);
    match st.cur {
        None => {
            if crate::text::has_prefix(t, seq![',']) && contains_sub(
                t,
                "? import (fetchTarball"@,
            ) {
                let rest = spec_trim(crate::envvalue::spec_strip_lead(t, ','));
                match spec_find(rest, seq!['?']) {
                    Some(p) => PinScan {
                        cur: Some((spec_trim(rest.take(p)), seq![line])),
                        cn: None,
                        cu: None,
                        cs: None,
                        ..st
                    },
                    None => PinScan { raw: st.raw.push(line), ..st },
                }
            } else {
                PinScan { raw: st.raw.push(line), ..st }
            }
        },
        Some(cur) => {
            let st1 = PinScan { cur: Some((cur.0, cur.1.push(line))), ..st };
            let st2 = if crate::text::has_prefix(t, "url ="@) {
                PinScan { cu: Some(spec_block_attr(t, "url ="@)), ..st1 }
            } else if crate::text::has_prefix(t, "sha256 ="@) {
                PinScan { cs: Some(spec_block_attr(t, "sha256 ="@)), ..st1 }
            } else if crate::text::has_prefix(t, "name ="@) {
                PinScan { cn: Some(spec_block_attr(t, "name ="@)), ..st1 }
            } else {
                st1
            };
            if contains_sub(t, "})"@) {
                let lines1 = st2.cur->Some_0.1;
                let name = st2.cur->Some_0.0;
                match (st2.cu, st2.cs) {
                    (Some(url), Some(sha)) => match spec_rev_from_url(url) {
                        Some(rev) => PinScan {
                            pins: crate::smap::spec_insert_kv(
                                st2.pins,
                                name,
                                crate::state::PinView {
                                    name: match st2.cn {
                                        Some(n) => if spec_trim(n).len() > 0 {
                                            Some(n)
                                        } else {
                                            None
                                        },
                                        None => None,
                                    },
                                    url: spec_trim_archive_url(url),
                                    rev: rev,
                                    sha256: sha,
                                    branch: Seq::empty(),
                                    updated: crate::state::Date { year: 1970, month: 1, day: 1 },
                                },
                            ),
                            raw: st2.raw,
                            cur: None,
                            cn: None,
                            cu: None,
                            cs: None,
                        },
                        None => PinScan {
                            raw: st2.raw + lines1,
                            cur: None,
                            cu: None,
                            cs: None,
                            ..st2
                        },
                    },
                    _ => PinScan { raw: st2.raw + lines1, cur: None, cu: None, cs: None, ..st2 },
                }
            } else {
                st2
            }
        },
    }
}

pub open spec fn spec_pin_scan(lines: Seq<Seq<char>>, i: int, st: PinScan) -> PinScan
    decreases lines.len() - i,
{
    if i < 0 || i >= lines.len() {
        st
    } else {
        spec_pin_scan(lines, i + 1, spec_pin_scan_line(st, lines[i]))
    }
}

pub open spec fn pin_scan_init() -> PinScan {
    PinScan {
        pins: Seq::empty(),
        raw: Seq::empty(),
        cur: None::<(Seq<char>, Seq<Seq<char>>)>,
        cn: None::<Seq<char>>,
        cu: None::<Seq<char>>,
        cs: None::<Seq<char>>,
    }
}

/// The named pins and the leftover raw block the pins region yields.
pub open spec fn spec_parse_pin_args(section: Option<Seq<char>>) -> (
    Seq<(Seq<char>, crate::state::PinView)>,
    Option<Seq<char>>,
) {
    match section {
        None => (Seq::empty(), None),
        Some(sec) => {
            let st = spec_pin_scan(spec_lines(sec), 0, pin_scan_init());
            let raw = match st.cur {
                Some(cur) => st.raw + cur.1,
                None => st.raw,
            };
            let block = crate::text::spec_join_nl(raw);
            (
                st.pins,
                if spec_trim(block).len() == 0 {
                    None
                } else {
                    Some(block)
                },
            )
        },
    }
}

fn block_attr(t: &Vec<char>, prefix: &Vec<char>) -> (r: Vec<char>)
    requires
        crate::text::has_prefix(t@, prefix@),
    ensures
        r@ == spec_block_attr(t@, prefix@),
{
    let rest = subvec(t, prefix.len(), t.len());
    assert(rest@ =~= t@.skip(prefix@.len() as int));
    let v1 = crate::envvalue::strip_trail_chars(&rest, ';');
    let v2 = trim_chars(&v1);
    crate::envvalue::trim_quotes_chars(&v2)
}

/// Recovers the named extra pins declared in the pins region; lines that
/// do not form a complete pin block are kept verbatim as the raw block.
#[verifier::rlimit(60)]
pub fn parse_pin_args(section: &Option<String>) -> (r: (crate::smap::StrMap<crate::state::Pin>, Option<String>))
    ensures
        r.0.wf(),
        ({
            let s = spec_parse_pin_args(crate::state::opt_str_view(*section));
            &&& crate::smap::kv_view(r.0.entries@) == s.0
            &&& crate::state::opt_str_view(r.1) == s.1
        }),
{
    let sec = match section {
        Some(s) => s,
        None => {
            let pins: crate::smap::StrMap<crate::state::Pin> = crate::smap::StrMap::new();
            assert(crate::smap::kv_view(pins.entries@) =~= Seq::<
                (Seq<char>, crate::state::PinView),
            >::empty());
            return (pins, None);
        },
    };
    let sc = str_to_chars(sec.as_str());
    let lines = crate::text::split_lines(&sc);
    let ghost lv = crate::text::views_of(lines@);

    let mut pins: crate::smap::StrMap<crate::state::Pin> = crate::smap::StrMap::new();
    let mut raw: Vec<Vec<char>> = Vec::new();
    let mut cur: Option<(Vec<char>, Vec<Vec<char>>)> = None;
    let mut cn: Option<Vec<char>> = None;
    let mut cu: Option<Vec<char>> = None;
    let mut cs: Option<Vec<char>> = None;

    let ghost st0 = pin_scan_init();
    assert(crate::smap::kv_view(pins.entries@) =~= st0.pins);
    assert(crate::text::views_of(raw@) =~= st0.raw);

    let comma: Vec<char> = vec![','];
    assert(comma@ =~= seq![',']);
    let q: Vec<char> = vec!['?'];
    assert(q@ =~= seq!['?']);
    let fetch_marker = str_to_chars("? import (fetchTarball");
    let url_prefix = str_to_chars("url =");
    let sha_prefix = str_to_chars("sha256 =");
    let name_prefix = str_to_chars("name =");
    let close_marker = str_to_chars("})");

    let mut i: usize = 0;
    while i < lines.len()
        invariant
            i <= lines@.len(),
            lv == crate::text::views_of(lines@),
            comma@ == seq![','],
            q@ == seq!['?'],
            fetch_marker@ == "? import (fetchTarball"@,
            url_prefix@ == "url ="@,
            sha_prefix@ == "sha256 ="@,
            name_prefix@ == "name ="@,
            close_marker@ == "})"@,
            pins.wf(),
            ({
                let st = spec_pin_scan(lv, i as int, PinScan {
                    pins: crate::smap::kv_view(pins.entries@),
                    raw: crate::text::views_of(raw@),
                    cur: cur_view(cur),
                    cn: crate::state::opt_chars_view(cn),
                    cu: crate::state::opt_chars_view(cu),
                    cs: crate::state::opt_chars_view(cs),
                });
                st == spec_pin_scan(lv, 0, pin_scan_init())
            }),
        decreases lines@.len() - i,
    {
        let ghost st_in = PinScan {
            pins: crate::smap::kv_view(pins.entries@),
            raw: crate::text::views_of(raw@),
            cur: cur_view(cur),
            cn: crate::state::opt_chars_view(cn),
            cu: crate::state::opt_chars_view(cu),
            cs: crate::state::opt_chars_view(cs),
        };
        assert(lines@[i as int]@ == lv[i as int]);
        let line = &lines[i];
        let t = trim_chars(line);
        let mut took_new_block = false;
        match &cur {
            None => {
                let mut started = false;
                if starts_with_chars(&t, &comma) && contains_in(&t, &fetch_marker) {
                    let rest0 = crate::envvalue::strip_lead_chars(&t, ',');
                    let rest = trim_chars(&rest0);
                    proof {
                        lemma_find_from_bounds(rest@, q@, 0);
                    }
                    match find_in(&rest, &q, 0) {
                        Some(p) => {
                            let head = subvec(&rest, 0, p);
                            assert(head@ =~= rest@.take(p as int));
                            let name = trim_chars(&head);
                            let mut ls: Vec<Vec<char>> = Vec::new();
                            let cl0 = subvec(line, 0, line.len());
                            assert(cl0@ =~= lv[i as int]);
                            ls.push(cl0);
                            assert(crate::text::views_of(ls@) =~= seq![lv[i as int]]);
                            cur = Some((name, ls));
                            cn = None;
                            cu = None;
                            cs = None;
                            started = true;
                        },
                        None => {},
                    }
                }
                if !started {
                    let ghost rprev = crate::text::views_of(raw@);
                    let cl0 = subvec(line, 0, line.len());
                    assert(cl0@ =~= lv[i as int]);
                    raw.push(cl0);
                    assert(crate::text::views_of(raw@) =~= rprev.push(lv[i as int]));
                }
            },
            Some(_) => {
                // collect the line into the open block
                let mut c = cur.take().unwrap();
                let ghost cur_lines_prev = crate::text::views_of(c.1@);
                let cl0 = subvec(line, 0, line.len());
                assert(cl0@ =~= lv[i as int]);
                c.1.push(cl0);
                assert(crate::text::views_of(c.1@) =~= cur_lines_prev.push(lv[i as int]));
                if starts_with_chars(&t, &url_prefix) {
                    cu = Some(block_attr(&t, &url_prefix));
                } else if starts_with_chars(&t, &sha_prefix) {
                    cs = Some(block_attr(&t, &sha_prefix));
                } else if starts_with_chars(&t, &name_prefix) {
                    cn = Some(block_attr(&t, &name_prefix));
                }
                if contains_in(&t, &close_marker) {
                    took_new_block = true;
                    let mut inserted = false;
                    match (&cu, &cs) {
                        (Some(u), Some(s)) => {
                            match extract_rev_from_url(u) {
                                Some(rev) => {
                                    let nm: Option<String> = match &cn {
                                        Some(n) => {
                                            let nt = trim_chars(n);
                                            if nt.len() > 0 {
                                                Some(chars_to_string(n))
                                            } else {
                                                None
                                            }
                                        },
                                        None => None,
                                    };
                                    let base = trim_archive_url(u);
                                    let empty: Vec<char> = Vec::new();
                                    let pin = crate::state::Pin {
                                        name: nm,
                                        url: chars_to_string(&base),
                                        rev: chars_to_string(&rev),
                                        sha256: chars_to_string(s),
                                        branch: chars_to_string(&empty),
                                        updated: crate::state::Date::epoch(),
                                    };
                                    let ghost before = pins.entries@;
                                    let key = chars_to_string(&c.0);
                                    proof {
                                        crate::smap::lemma_insert_entries_view(before, key, pin);
                                    }
                                    pins.insert(key, pin);
                                    inserted = true;
                                },
                                None => {},
                            }
                        },
                        _ => {},
                    }
                    if !inserted {
                        let ghost rprev = crate::text::views_of(raw@);
                        let ghost clv = crate::text::views_of(c.1@);
                        let mut w: usize = 0;
                        while w < c.1.len()
                            invariant
                                w <= c.1@.len(),
                                clv == crate::text::views_of(c.1@),
                                crate::text::views_of(raw@) == rprev + clv.take(w as int),
                            decreases c.1@.len() - w,
                        {
                            let ghost r2 = crate::text::views_of(raw@);
                            let cl = subvec(&c.1[w], 0, c.1[w].len());
                            assert(cl@ =~= c.1@[w as int]@);
                            assert(cl@ == clv[w as int]);
                            raw.push(cl);
                            assert(crate::text::views_of(raw@) =~= r2.push(clv[w as int]));
                            w = w + 1;
                            assert(crate::text::views_of(raw@) =~= rprev + clv.take(w as int));
                        }
                        assert(crate::text::views_of(raw@) =~= rprev + clv);
                    }
                    cur = None;
                    cu = None;
                    cs = None;
                    if inserted {
                        cn = None;
                    }
                } else {
                    cur = Some(c);
                }
            },
        }
        proof {
            let st_out = PinScan {
                pins: crate::smap::kv_view(pins.entries@),
                raw: crate::text::views_of(raw@),
                cur: cur_view(cur),
                cn: crate::state::opt_chars_view(cn),
                cu: crate::state::opt_chars_view(cu),
                cs: crate::state::opt_chars_view(cs),
            };
            assert(st_out == spec_pin_scan_line(st_in, lv[i as int]));
        }
        i = i + 1;
    }

    // a block left open contributes its lines to the raw text
    match cur.take() {
        Some(c) => {
            let ghost rprev = crate::text::views_of(raw@);
            let ghost clv = crate::text::views_of(c.1@);
            let mut w: usize = 0;
            while w < c.1.len()
                invariant
                    w <= c.1@.len(),
                    clv == crate::text::views_of(c.1@),
                    crate::text::views_of(raw@) == rprev + clv.take(w as int),
                decreases c.1@.len() - w,
            {
                let ghost r2 = crate::text::views_of(raw@);
                let cl = subvec(&c.1[w], 0, c.1[w].len());
                assert(cl@ =~= c.1@[w as int]@);
                assert(cl@ == clv[w as int]);
                raw.push(cl);
                assert(crate::text::views_of(raw@) =~= r2.push(clv[w as int]));
                w = w + 1;
                assert(crate::text::views_of(raw@) =~= rprev + clv.take(w as int));
            }
            assert(crate::text::views_of(raw@) =~= rprev + clv);
        },
        None => {},
    }
    let block = crate::text::join_nl(&raw);
    let bt = trim_chars(&block);
    if bt.len() == 0 {
        (pins, None)
    } else {
        (pins, Some(chars_to_string(&block)))
    }
}

} // verus!

verus! {

// ---------- recovering profile pins ----------

/// The scan state while walking the profile pins region.
pub struct ProfileScan {
    pub pins: Seq<(Seq<char>, crate::state::PinView)>,
    pub cur: Option<Seq<char>>,
    pub cn: Option<Seq<char>>,
    pub cu: Option<Seq<char>>,
    pub cs: Option<Seq<char>>,
}

pub open spec fn profile_scan_init() -> ProfileScan {
    ProfileScan {
        pins: Seq::empty(),
        cur: None::<Seq<char>>,
        cn: None::<Seq<char>>,
        cu: None::<Seq<char>>,
        cs: None::<Seq<char>>,
    }
}

pub open spec fn spec_profile_scan_line(st: ProfileScan, line: Seq<char>) -> ProfileScan {
    let t = spec_trim(line);
    match st.cur {
        None => {
            if crate::text::has_prefix(t, "pkgs-"@) && contains_sub(
                t,
                "= import (fetchTarball"@,
            ) {
                match spec_find(t, seq!['=']) {
                    Some(p) => ProfileScan {
                        cur: Some(spec_trim(t.take(p))),
                        cn: None,
                        cu: None,
                        cs: None,
                        ..st
                    },
                    None => st,
                }
            } else {
                st
            }
        },
        Some(curname) => {
            let st2 = if crate::text::has_prefix(t, "name ="@) {
                ProfileScan { cn: Some(spec_block_attr(t, "name ="@)), ..st }
            } else if crate::text::has_prefix(t, "url ="@) {
                ProfileScan { cu: Some(spec_block_attr(t, "url ="@)), ..st }
            } else if crate::text::has_prefix(t, "sha256 ="@) {
                ProfileScan { cs: Some(spec_block_attr(t, "sha256 ="@)), ..st }
            } else {
                st
            };
            if crate::text::has_prefix(t, "})"@) {
                match (st2.cu, st2.cs) {
                    (Some(url), Some(sha)) => ProfileScan {
                        pins: crate::smap::spec_insert_kv(
                            st2.pins,
                            curname,
                            crate::state::PinView {
                                name: st2.cn,
                                url: spec_trim_archive_url(url),
                                rev: match spec_rev_from_url(url) {
                                    Some(rev) => rev,
                                    None => Seq::empty(),
                                },
                                sha256: sha,
                                branch: Seq::empty(),
                                updated: crate::state::Date { year: 1970, month: 1, day: 1 },
                            },
                        ),
                        cur: None,
                        cn: None,
                        cu: None,
                        cs: None,
                    },
                    _ => ProfileScan { cur: None, cu: None, cs: None, ..st2 },
                }
            } else {
                st2
            }
        },
    }
}

pub open spec fn spec_profile_scan(lines: Seq<Seq<char>>, i: int, st: ProfileScan) -> ProfileScan
    decreases lines.len() - i,
{
    if i < 0 || i >= lines.len() {
        st
    } else {
        spec_profile_scan(lines, i + 1, spec_profile_scan_line(st, lines[i]))
    }
}

pub open spec fn spec_parse_profile_pins(section: Seq<char>) -> Seq<
    (Seq<char>, crate::state::PinView),
> {
    spec_profile_scan(spec_lines(section), 0, profile_scan_init()).pins
}

/// Recovers the pinned-package pin bindings from the profile pins region.
#[verifier::rlimit(60)]
pub fn parse_profile_pins(section: &str) -> (r: crate::smap::StrMap<crate::state::Pin>)
    ensures
        r.wf(),
        crate::smap::kv_view(r.entries@) == spec_parse_profile_pins(section@),
{
    let sc = str_to_chars(section);
    let lines = crate::text::split_lines(&sc);
    let ghost lv = crate::text::views_of(lines@);

    let mut pins: crate::smap::StrMap<crate::state::Pin> = crate::smap::StrMap::new();
    let mut cur: Option<Vec<char>> = None;
    let mut cn: Option<Vec<char>> = None;
    let mut cu: Option<Vec<char>> = None;
    let mut cs: Option<Vec<char>> = None;

    assert(crate::smap::kv_view(pins.entries@) =~= profile_scan_init().pins);

    let pkgs_prefix = str_to_chars("pkgs-");
    let fetch_marker = str_to_chars("= import (fetchTarball");
    let eq: Vec<char> = vec!['='];
    assert(eq@ =~= seq!['=']);
    let url_prefix = str_to_chars("url =");
    let sha_prefix = str_to_chars("sha256 =");
    let name_prefix = str_to_chars("name =");
    let close_prefix = str_to_chars("})");

    let mut i: usize = 0;
    while i < lines.len()
        invariant
            i <= lines@.len(),
            lv == crate::text::views_of(lines@),
            pkgs_prefix@ == "pkgs-"@,
            fetch_marker@ == "= import (fetchTarball"@,
            eq@ == seq!['='],
            url_prefix@ == "url ="@,
            sha_prefix@ == "sha256 ="@,
            name_prefix@ == "name ="@,
            close_prefix@ == "})"@,
            pins.wf(),
            spec_profile_scan(lv, i as int, ProfileScan {
                pins: crate::smap::kv_view(pins.entries@),
                cur: crate::state::opt_chars_view(cur),
                cn: crate::state::opt_chars_view(cn),
                cu: crate::state::opt_chars_view(cu),
                cs: crate::state::opt_chars_view(cs),
            }) == spec_profile_scan(lv, 0, profile_scan_init()),
        decreases lines@.len() - i,
    {
        let ghost st_in = ProfileScan {
            pins: crate::smap::kv_view(pins.entries@),
            cur: crate::state::opt_chars_view(cur),
            cn: crate::state::opt_chars_view(cn),
            cu: crate::state::opt_chars_view(cu),
            cs: crate::state::opt_chars_view(cs),
        };
        assert(lines@[i as int]@ == lv[i as int]);
        let t = trim_chars(&lines[i]);
        let cur_is_none = cur.is_none();
        if cur_is_none {
            if starts_with_chars(&t, &pkgs_prefix) && contains_in(&t, &fetch_marker) {
                proof {
                    lemma_find_from_bounds(t@, eq@, 0);
                }
                match find_in(&t, &eq, 0) {
                    Some(p) => {
                        let head = subvec(&t, 0, p);
                        assert(head@ =~= t@.take(p as int));
                        cur = Some(trim_chars(&head));
                        cn = None;
                        cu = None;
                        cs = None;
                    },
                    None => {},
                }
            }
        } else {
            if starts_with_chars(&t, &name_prefix) {
                cn = Some(block_attr(&t, &name_prefix));
            } else if starts_with_chars(&t, &url_prefix) {
                cu = Some(block_attr(&t, &url_prefix));
            } else if starts_with_chars(&t, &sha_prefix) {
                cs = Some(block_attr(&t, &sha_prefix));
            }
            if starts_with_chars(&t, &close_prefix) {
                let mut inserted = false;
                match (&cur, &cu, &cs) {
                    (Some(curname), Some(u), Some(s)) => {
                        let rev: Vec<char> = match extract_rev_from_url(u) {
                            Some(v) => v,
                            None => Vec::new(),
                        };
                        let nm: Option<String> = match &cn {
                            Some(n) => Some(chars_to_string(n)),
                            None => None,
                        };
                        let base = trim_archive_url(u);
                        let empty: Vec<char> = Vec::new();
                        let pin = crate::state::Pin {
                            name: nm,
                            url: chars_to_string(&base),
                            rev: chars_to_string(&rev),
                            sha256: chars_to_string(s),
                            branch: chars_to_string(&empty),
                            updated: crate::state::Date::epoch(),
                        };
                        let ghost before = pins.entries@;
                        let key = chars_to_string(curname);
                        proof {
                            crate::smap::lemma_insert_entries_view(before, key, pin);
                        }
                        pins.insert(key, pin);
                        inserted = true;
                        cn = None;
                    },
                    _ => {},
                }
                cur = None;
                cu = None;
                cs = None;
                let _ = inserted;
            }
        }
        proof {
            let st_out = ProfileScan {
                pins: crate::smap::kv_view(pins.entries@),
                cur: crate::state::opt_chars_view(cur),
                cn: crate::state::opt_chars_view(cn),
                cu: crate::state::opt_chars_view(cu),
                cs: crate::state::opt_chars_view(cs),
            };
            assert(st_out == spec_profile_scan_line(st_in, lv[i as int]));
        }
        i = i + 1;
    }
    pins
}

} // verus!

verus! {

// ---------- recovering the package list ----------

/// The first value bound to this key, over view-level entries.
pub open spec fn spec_lookup_kv<T>(s: Seq<(Seq<char>, T)>, k: Seq<char>, i: int) -> Option<T>
    decreases s.len() - i,
{
    if i < 0 || i >= s.len() {
        None
    } else if s[i].0 == k {
        Some(s[i].1)
    } else {
        spec_lookup_kv(s, k, i + 1)
    }
}

proof fn lemma_lookup_pin(s: Seq<(String, crate::state::Pin)>, k: Seq<char>, i: int)
    ensures
        spec_lookup_kv(crate::smap::kv_view(s), k, i) == match crate::smap::spec_get_from(
            s,
            k,
            i,
        ) {
            Some(p) => Some(p@),
            None => None::<crate::state::PinView>,
        },
    decreases s.len() - i,
{
    if 0 <= i < s.len() {
        assert(crate::smap::kv_view(s)[i] == (s[i].0@, s[i].1@));
        if s[i].0@ != k {
            lemma_lookup_pin(s, k, i + 1);
        }
    }
}

/// The scan state while walking the package list region.
pub struct PkgScan {
    pub packages: Seq<Seq<char>>,
    pub presets: Seq<Seq<char>>,
    pub pinned: Seq<(Seq<char>, crate::state::PinnedPackageView)>,
    pub names: Seq<Seq<char>>,
    pub in_raw: bool,
}

pub open spec fn pkg_scan_init() -> PkgScan {
    PkgScan {
        packages: Seq::empty(),
        presets: Seq::empty(),
        pinned: Seq::empty(),
        names: Seq::empty(),
        in_raw: false,
    }
}

pub open spec fn spec_pkg_scan_line(
    st: PkgScan,
    line: Seq<char>,
    pins: Seq<(Seq<char>, crate::state::PinView)>,
) -> PkgScan {
    let t = spec_trim(line);
    if contains_sub(t, "mica:packages-raw:begin"@) {
        PkgScan { in_raw: true, ..st }
    } else if contains_sub(t, "mica:packages-raw:end"@) {
        PkgScan { in_raw: false, ..st }
    } else if st.in_raw {
        st
    } else if t.len() == 0 || t[0] == '#' {
        if crate::text::has_prefix(t, "# Preset: "@) {
            PkgScan { presets: st.presets.push(spec_trim(t.skip("# Preset: "@.len() as int))), ..st }
        } else {
            st
        }
    } else if contains_sub(t, "packages ="@) || crate::text::has_prefix(t, "tools ="@)
        || contains_sub(t, "= with pkgs; ["@) || t == "["@ || t == "];"@ || crate::text::has_prefix(
        t,
        "] ++"@,
    ) {
        st
    } else {
        let raw_item = spec_trim(crate::envvalue::spec_strip_trail(t, ','));
        let item = match spec_find(raw_item, seq!['#']) {
            Some(p) => spec_trim(raw_item.take(p)),
            None => raw_item,
        };
        let comment = match spec_find(raw_item, seq!['#']) {
            Some(p) => Some(spec_trim(raw_item.skip(p + 1))),
            None => None::<Seq<char>>,
        };
        if item.len() == 0 || item[0] == '#' {
            st
        } else {
            let dot = spec_find(item, seq!['.']);
            let looked = match dot {
                Some(p) => if crate::text::has_prefix(item.take(p), "pkgs-"@) {
                    spec_lookup_kv(pins, item.take(p), 0)
                } else {
                    None
                },
                None => None,
            };
            match looked {
                Some(pin) => {
                    let p = dot->Some_0;
                    let attr = item.skip(p + 1);
                    let name = spec_normalize_package_name(attr);
                    let version = match comment {
                        Some(cm) => cm,
                        None => "unknown"@,
                    };
                    PkgScan {
                        pinned: crate::smap::spec_insert_kv(
                            st.pinned,
                            name,
                            crate::state::PinnedPackageView { version, pin },
                        ),
                        names: st.names.push(item.take(p)),
                        ..st
                    }
                },
                None => PkgScan {
                    packages: st.packages.push(spec_normalize_package_name(item)),
                    ..st
                },
            }
        }
    }
}

pub open spec fn spec_pkg_scan(
    lines: Seq<Seq<char>>,
    i: int,
    st: PkgScan,
    pins: Seq<(Seq<char>, crate::state::PinView)>,
) -> PkgScan
    decreases lines.len() - i,
{
    if i < 0 || i >= lines.len() {
        st
    } else {
        spec_pkg_scan(lines, i + 1, spec_pkg_scan_line(st, lines[i], pins), pins)
    }
}

pub open spec fn spec_parse_package_list(
    section: Seq<char>,
    pins: Seq<(Seq<char>, crate::state::PinView)>,
) -> PkgScan {
    spec_pkg_scan(spec_lines(section), 0, pkg_scan_init(), pins)
}

/// Recovers plain packages, active preset labels, pinned packages and
/// the pin parameters they consumed from the package list region.
#[verifier::rlimit(100)]
pub fn parse_package_list(
    section: &str,
    pins: &crate::smap::StrMap<crate::state::Pin>,
) -> (r: (Vec<String>, Vec<String>, crate::smap::StrMap<crate::state::PinnedPackage>, Vec<String>))
    requires
        pins.wf(),
    ensures
        r.2.wf(),
        ({
            let st = spec_parse_package_list(section@, crate::smap::kv_view(pins.entries@));
            &&& crate::text::strs_view(r.0@) == st.packages
            &&& crate::text::strs_view(r.1@) == st.presets
            &&& crate::smap::kv_view(r.2.entries@) == st.pinned
            &&& crate::text::strs_view(r.3@) == st.names
        }),
{
    let sc = str_to_chars(section);
    let lines = crate::text::split_lines(&sc);
    let ghost lv = crate::text::views_of(lines@);

    let mut packages: Vec<String> = Vec::new();
    let mut presets: Vec<String> = Vec::new();
    let mut pinned: crate::smap::StrMap<crate::state::PinnedPackage> =
        crate::smap::StrMap::new();
    let mut names: Vec<String> = Vec::new();
    let mut in_raw: bool = false;

    assert(crate::text::strs_view(packages@) =~= pkg_scan_init().packages);
    assert(crate::text::strs_view(presets@) =~= pkg_scan_init().presets);
    assert(crate::smap::kv_view(pinned.entries@) =~= pkg_scan_init().pinned);
    assert(crate::text::strs_view(names@) =~= pkg_scan_init().names);

    let raw_b = str_to_chars("mica:packages-raw:begin");
    let raw_e = str_to_chars("mica:packages-raw:end");
    let preset_prefix = str_to_chars("# Preset: ");
    let pkgs_eq = str_to_chars("packages =");
    let tools_eq = str_to_chars("tools =");
    let with_pkgs = str_to_chars("= with pkgs; [");
    let lbracket = str_to_chars("[");
    let rbracket = str_to_chars("];");
    let concat_pp = str_to_chars("] ++");
    let hash: Vec<char> = vec!['#'];
    assert(hash@ =~= seq!['#']);
    let dotc: Vec<char> = vec!['.'];
    assert(dotc@ =~= seq!['.']);
    let pkgs_dash = str_to_chars("pkgs-");
    let unknown = str_to_chars("unknown");

    let mut i: usize = 0;
    while i < lines.len()
        invariant
            i <= lines@.len(),
            lv == crate::text::views_of(lines@),
            raw_b@ == "mica:packages-raw:begin"@,
            raw_e@ == "mica:packages-raw:end"@,
            preset_prefix@ == "# Preset: "@,
            pkgs_eq@ == "packages ="@,
            tools_eq@ == "tools ="@,
            with_pkgs@ == "= with pkgs; ["@,
            lbracket@ == "["@,
            rbracket@ == "];"@,
            concat_pp@ == "] ++"@,
            hash@ == seq!['#'],
            dotc@ == seq!['.'],
            pkgs_dash@ == "pkgs-"@,
            unknown@ == "unknown"@,
            pins.wf(),
            pinned.wf(),
            spec_pkg_scan(lv, i as int, PkgScan {
                packages: crate::text::strs_view(packages@),
                presets: crate::text::strs_view(presets@),
                pinned: crate::smap::kv_view(pinned.entries@),
                names: crate::text::strs_view(names@),
                in_raw: in_raw,
            }, crate::smap::kv_view(pins.entries@)) == spec_pkg_scan(
                lv,
                0,
                pkg_scan_init(),
                crate::smap::kv_view(pins.entries@),
            ),
        decreases lines@.len() - i,
    {
        let ghost st_in = PkgScan {
            packages: crate::text::strs_view(packages@),
            presets: crate::text::strs_view(presets@),
            pinned: crate::smap::kv_view(pinned.entries@),
            names: crate::text::strs_view(names@),
            in_raw: in_raw,
        };
        assert(lines@[i as int]@ == lv[i as int]);
        let t = trim_chars(&lines[i]);
        if contains_in(&t, &raw_b) {
            in_raw = true;
        } else if contains_in(&t, &raw_e) {
            in_raw = false;
        } else if in_raw {
        } else if t.len() == 0 || t[0] == '#' {
            if starts_with_chars(&t, &preset_prefix) {
                let rest = subvec(&t, preset_prefix.len(), t.len());
                assert(rest@ =~= t@.skip("# Preset: "@.len() as int));
                let nm = trim_chars(&rest);
                let ghost pprev = crate::text::strs_view(presets@);
                presets.push(chars_to_string(&nm));
                assert(crate::text::strs_view(presets@) =~= pprev.push(nm@));
            }
        } else if contains_in(&t, &pkgs_eq) || starts_with_chars(&t, &tools_eq) || contains_in(
            &t,
            &with_pkgs,
        ) || crate::text::chars_eq(t.as_slice(), lbracket.as_slice()) || crate::text::chars_eq(
            t.as_slice(),
            rbracket.as_slice(),
        ) || starts_with_chars(&t, &concat_pp) {
        } else {
            let stripped = crate::envvalue::strip_trail_chars(&t, ',');
            let raw_item = trim_chars(&stripped);
            proof {
                lemma_find_from_bounds(raw_item@, hash@, 0);
            }
            let (item, comment): (Vec<char>, Option<Vec<char>>) = match find_in(
                &raw_item,
                &hash,
                0,
            ) {
                Some(p) => {
                    let rlen = raw_item.len();
                    assert(p as int + hash@.len() <= raw_item@.len());
                    let left = subvec(&raw_item, 0, p);
                    assert(left@ =~= raw_item@.take(p as int));
                    let right = subvec(&raw_item, p + 1, rlen);
                    assert(right@ =~= raw_item@.skip(p as int + 1));
                    (trim_chars(&left), Some(trim_chars(&right)))
                },
                None => (raw_item, None),
            };
            if item.len() == 0 || item[0] == '#' {
            } else {
                proof {
                    lemma_find_from_bounds(item@, dotc@, 0);
                }
                let mut handled = false;
                match find_in(&item, &dotc, 0) {
                    Some(p) => {
                        let prefix = subvec(&item, 0, p);
                        assert(prefix@ =~= item@.take(p as int));
                        if starts_with_chars(&prefix, &pkgs_dash) {
                            proof {
                                lemma_lookup_pin(pins.entries@, prefix@, 0);
                            }
                            match pins.get(&prefix) {
                                Some(pin) => {
                                    let attr = subvec(&item, p + 1, item.len());
                                    assert(attr@ =~= item@.skip(p as int + 1));
                                    let name = normalize_package_name(&attr);
                                    let version: Vec<char> = match &comment {
                                        Some(cm) => subvec(cm, 0, cm.len()),
                                        None => subvec(&unknown, 0, unknown.len()),
                                    };
                                    assert(version@ == (match crate::state::opt_chars_view(
                                        comment,
                                    ) {
                                        Some(cm) => cm,
                                        None => "unknown"@,
                                    }));
                                    let entry = crate::state::PinnedPackage {
                                        version: chars_to_string(&version),
                                        pin: pin.clone_pin(),
                                    };
                                    let ghost before = pinned.entries@;
                                    let key = chars_to_string(&name);
                                    proof {
                                        crate::smap::lemma_insert_entries_view(
                                            before,
                                            key,
                                            entry,
                                        );
                                    }
                                    pinned.insert(key, entry);
                                    let ghost nprev = crate::text::strs_view(names@);
                                    names.push(chars_to_string(&prefix));
                                    assert(crate::text::strs_view(names@) =~= nprev.push(
                                        prefix@,
                                    ));
                                    handled = true;
                                },
                                None => {},
                            }
                        }
                    },
                    None => {},
                }
                if !handled {
                    let nm = normalize_package_name(&item);
                    let ghost qprev = crate::text::strs_view(packages@);
                    packages.push(chars_to_string(&nm));
                    assert(crate::text::strs_view(packages@) =~= qprev.push(
                        spec_normalize_package_name(item@),
                    ));
                }
            }
        }
        proof {
            let st_out = PkgScan {
                packages: crate::text::strs_view(packages@),
                presets: crate::text::strs_view(presets@),
                pinned: crate::smap::kv_view(pinned.entries@),
                names: crate::text::strs_view(names@),
                in_raw: in_raw,
            };
            assert(st_out == spec_pkg_scan_line(
                st_in,
                lv[i as int],
                crate::smap::kv_view(pins.entries@),
            ));
        }
        i = i + 1;
    }
    (packages, presets, pinned, names)
}

} // verus!

verus! {

// ---------- recovering the profile path list ----------

pub struct PathScan {
    pub packages: Seq<Seq<char>>,
    pub pinned: Seq<(Seq<char>, crate::state::PinnedPackageView)>,
}

pub open spec fn spec_path_scan_line(
    st: PathScan,
    line: Seq<char>,
    pins: Seq<(Seq<char>, crate::state::PinView)>,
) -> PathScan {
    let t = spec_trim(line);
    if t.len() == 0 || t[0] == '#' {
        st
    } else if contains_sub(t, "paths ="@) || t == "["@ || t == "];"@ {
        st
    } else {
        let raw_item = spec_trim(crate::envvalue::spec_strip_trail(t, ','));
        let item = match spec_find(raw_item, seq!['#']) {
            Some(p) => spec_trim(raw_item.take(p)),
            None => raw_item,
        };
        let comment = match spec_find(raw_item, seq!['#']) {
            Some(p) => Some(spec_trim(raw_item.skip(p + 1))),
            None => None::<Seq<char>>,
        };
        let dot = spec_find(item, seq!['.']);
        let looked = match dot {
            Some(p) => if crate::text::has_prefix(item.take(p), "pkgs-"@) {
                spec_lookup_kv(pins, item.take(p), 0)
            } else {
                None
            },
            None => None,
        };
        match looked {
            Some(pin) => {
                let p = dot->Some_0;
                let attr = item.skip(p + 1);
                let name = spec_normalize_package_name(attr);
                let version = match comment {
                    Some(cm) => cm,
                    None => "unknown"@,
                };
                PathScan {
                    pinned: crate::smap::spec_insert_kv(
                        st.pinned,
                        name,
                        crate::state::PinnedPackageView { version, pin },
                    ),
                    ..st
                }
            },
            None => {
                if crate::text::has_prefix(item, "pkgs."@) {
                    PathScan { packages: st.packages.push(item.skip("pkgs."@.len() as int)), ..st }
                } else {
                    st
                }
            },
        }
    }
}

pub open spec fn spec_path_scan(
    lines: Seq<Seq<char>>,
    i: int,
    st: PathScan,
    pins: Seq<(Seq<char>, crate::state::PinView)>,
) -> PathScan
    decreases lines.len() - i,
{
    if i < 0 || i >= lines.len() {
        st
    } else {
        spec_path_scan(lines, i + 1, spec_path_scan_line(st, lines[i], pins), pins)
    }
}

pub open spec fn spec_parse_profile_paths(
    section: Seq<char>,
    pins: Seq<(Seq<char>, crate::state::PinView)>,
) -> PathScan {
    spec_path_scan(
        spec_lines(section),
        0,
        PathScan { packages: Seq::empty(), pinned: Seq::empty() },
        pins,
    )
}

/// Recovers plain and pinned packages from the profile path list.
#[verifier::rlimit(100)]
pub fn parse_profile_paths(
    section: &str,
    pins: &crate::smap::StrMap<crate::state::Pin>,
) -> (r: (Vec<String>, crate::smap::StrMap<crate::state::PinnedPackage>))
    requires
        pins.wf(),
    ensures
        r.1.wf(),
        ({
            let st = spec_parse_profile_paths(section@, crate::smap::kv_view(pins.entries@));
            &&& crate::text::strs_view(r.0@) == st.packages
            &&& crate::smap::kv_view(r.1.entries@) == st.pinned
        }),
{
    let sc = str_to_chars(section);
    let lines = crate::text::split_lines(&sc);
    let ghost lv = crate::text::views_of(lines@);

    let mut packages: Vec<String> = Vec::new();
    let mut pinned: crate::smap::StrMap<crate::state::PinnedPackage> =
        crate::smap::StrMap::new();
    assert(crate::text::strs_view(packages@) =~= Seq::<Seq<char>>::empty());
    assert(crate::smap::kv_view(pinned.entries@) =~= Seq::<
        (Seq<char>, crate::state::PinnedPackageView),
    >::empty());

    let paths_eq = str_to_chars("paths =");
    let lbracket = str_to_chars("[");
    let rbracket = str_to_chars("];");
    let hash: Vec<char> = vec!['#'];
    assert(hash@ =~= seq!['#']);
    let dotc: Vec<char> = vec!['.'];
    assert(dotc@ =~= seq!['.']);
    let pkgs_dash = str_to_chars("pkgs-");
    let pkgs_dot = str_to_chars("pkgs.");
    let unknown = str_to_chars("unknown");

    let mut i: usize = 0;
    while i < lines.len()
        invariant
            i <= lines@.len(),
            lv == crate::text::views_of(lines@),
            paths_eq@ == "paths ="@,
            lbracket@ == "["@,
            rbracket@ == "];"@,
            hash@ == seq!['#'],
            dotc@ == seq!['.'],
            pkgs_dash@ == "pkgs-"@,
            pkgs_dot@ == "pkgs."@,
            unknown@ == "unknown"@,
            pins.wf(),
            pinned.wf(),
            spec_path_scan(lv, i as int, PathScan {
                packages: crate::text::strs_view(packages@),
                pinned: crate::smap::kv_view(pinned.entries@),
            }, crate::smap::kv_view(pins.entries@)) == spec_path_scan(lv, 0, PathScan {
                packages: Seq::empty(),
                pinned: Seq::empty(),
            }, crate::smap::kv_view(pins.entries@)),
        decreases lines@.len() - i,
    {
        let ghost st_in = PathScan {
            packages: crate::text::strs_view(packages@),
            pinned: crate::smap::kv_view(pinned.entries@),
        };
        assert(lines@[i as int]@ == lv[i as int]);
        let t = trim_chars(&lines[i]);
        if t.len() == 0 || t[0] == '#' {
        } else if contains_in(&t, &paths_eq) || crate::text::chars_eq(
            t.as_slice(),
            lbracket.as_slice(),
        ) || crate::text::chars_eq(t.as_slice(), rbracket.as_slice()) {
        } else {
            let stripped = crate::envvalue::strip_trail_chars(&t, ',');
            let raw_item = trim_chars(&stripped);
            proof {
                lemma_find_from_bounds(raw_item@, hash@, 0);
            }
            let (item, comment): (Vec<char>, Option<Vec<char>>) = match find_in(
                &raw_item,
                &hash,
                0,
            ) {
                Some(p) => {
                    let rlen = raw_item.len();
                    assert(p as int + hash@.len() <= raw_item@.len());
                    let left = subvec(&raw_item, 0, p);
                    assert(left@ =~= raw_item@.take(p as int));
                    let right = subvec(&raw_item, p + 1, rlen);
                    assert(right@ =~= raw_item@.skip(p as int + 1));
                    (trim_chars(&left), Some(trim_chars(&right)))
                },
                None => (raw_item, None),
            };
            proof {
                lemma_find_from_bounds(item@, dotc@, 0);
            }
            let mut handled = false;
            match find_in(&item, &dotc, 0) {
                Some(p) => {
                    let prefix = subvec(&item, 0, p);
                    assert(prefix@ =~= item@.take(p as int));
                    if starts_with_chars(&prefix, &pkgs_dash) {
                        proof {
                            lemma_lookup_pin(pins.entries@, prefix@, 0);
                        }
                        match pins.get(&prefix) {
                            Some(pin) => {
                                let ilen = item.len();
                                assert(p as int + dotc@.len() <= item@.len());
                                let attr = subvec(&item, p + 1, ilen);
                                assert(attr@ =~= item@.skip(p as int + 1));
                                let name = normalize_package_name(&attr);
                                let version: Vec<char> = match &comment {
                                    Some(cm) => subvec(cm, 0, cm.len()),
                                    None => subvec(&unknown, 0, unknown.len()),
                                };
                                assert(version@ == (match crate::state::opt_chars_view(comment) {
                                    Some(cm) => cm,
                                    None => "unknown"@,
                                }));
                                let entry = crate::state::PinnedPackage {
                                    version: chars_to_string(&version),
                                    pin: pin.clone_pin(),
                                };
                                let ghost before = pinned.entries@;
                                let key = chars_to_string(&name);
                                proof {
                                    crate::smap::lemma_insert_entries_view(before, key, entry);
                                }
                                pinned.insert(key, entry);
                                handled = true;
                            },
                            None => {},
                        }
                    }
                },
                None => {},
            }
            if !handled {
                if starts_with_chars(&item, &pkgs_dot) {
                    let attr = subvec(&item, pkgs_dot.len(), item.len());
                    assert(attr@ =~= item@.skip("pkgs."@.len() as int));
                    let ghost qprev = crate::text::strs_view(packages@);
                    packages.push(chars_to_string(&attr));
                    assert(crate::text::strs_view(packages@) =~= qprev.push(attr@));
                }
            }
        }
        proof {
            let st_out = PathScan {
                packages: crate::text::strs_view(packages@),
                pinned: crate::smap::kv_view(pinned.entries@),
            };
            assert(st_out == spec_path_scan_line(
                st_in,
                lv[i as int],
                crate::smap::kv_view(pins.entries@),
            ));
        }
        i = i + 1;
    }
    (packages, pinned)
}

/// The override-shellhook fragment: the hook text inside the region,
/// normalized like any other raw block.
pub open spec fn spec_parse_override_shellhook(section: Option<Seq<char>>) -> Option<Seq<char>> {
    match section {
        None => None,
        Some(raw) => match spec_parse_shell_hook(raw) {
            None => None,
            Some(hook) => spec_normalize_block(Some(hook)),
        },
    }
}

pub fn parse_override_shellhook(section: &Option<String>) -> (r: Option<String>)
    ensures
        crate::state::opt_str_view(r) == spec_parse_override_shellhook(
            crate::state::opt_str_view(*section),
        ),
{
    let raw = match section {
        Some(s) => s,
        None => {
            return None;
        },
    };
    let rawc = str_to_chars(raw.as_str());
    let hook = match parse_shell_hook_chars(&rawc) {
        Some(h) => h,
        None => {
            return None;
        },
    };
    let hookc = str_to_chars(hook.as_str());
    normalize_optional_block(Some(hookc))
}

} // verus!

verus! {

// ---------- the recovered states ----------

/// The project state fragments recovered from descriptor text.
#[derive(Debug, Clone)]
pub struct ParsedProjectState {
    pub pin: crate::state::Pin,
    pub pins: crate::smap::StrMap<crate::state::Pin>,
    pub packages: Vec<String>,
    pub pinned: crate::smap::StrMap<crate::state::PinnedPackage>,
    pub env: crate::smap::StrMap<String>,
    pub shell_hook: Option<String>,
    pub presets: Vec<String>,
    pub nix: crate::state::NixBlocks,
}

/// The profile state fragments recovered from descriptor text.
#[derive(Debug, Clone)]
pub struct ParsedProfileState {
    pub pin: crate::state::Pin,
    pub packages: Vec<String>,
    pub pinned: crate::smap::StrMap<crate::state::PinnedPackage>,
}

/// Removing the listed keys in order.
pub open spec fn spec_remove_keys<T>(
    s: Seq<(Seq<char>, T)>,
    names: Seq<Seq<char>>,
    i: int,
) -> Seq<(Seq<char>, T)>
    decreases names.len() - i,
{
    if i < 0 || i >= names.len() {
        s
    } else {
        spec_remove_keys(spec_remove_kv(s, names[i]), names, i + 1)
    }
}

/// `spec_remove_entries`, stated over views.
pub open spec fn spec_remove_kv<T>(s: Seq<(Seq<char>, T)>, k: Seq<char>) -> Seq<(Seq<char>, T)>
    decreases s.len(),
{
    if s.len() == 0 {
        s
    } else if s[0].0 == k {
        s.drop_first()
    } else {
        seq![s[0]] + spec_remove_kv(s.drop_first(), k)
    }
}

/// The project-shape sections of the text, as the state recovery reads
/// them.
pub open spec fn spec_project_sections(c: Seq<char>) -> bool {
    has_prefix(c, "# Managed by Mica"@) && spec_project_parse_err(c) is None
}

/// What a successful project state recovery holds, given the text.
pub open spec fn parsed_project_state_ok(st: ParsedProjectState, c: Seq<char>) -> bool {
    let pin_sec = spec_extract_between(c, "mica:pin:begin"@, "mica:pin:end"@);
    let pins_sec = if contains_sub(c, "mica:pins:begin"@) {
        Some(spec_extract_between(c, "mica:pins:begin"@, "mica:pins:end"@))
    } else {
        None
    };
    let pkg_sec = spec_extract_between(c, "mica:packages:begin"@, "mica:packages:end"@);
    let env_sec = spec_extract_between(c, "mica:env:begin"@, "mica:env:end"@);
    let hook_sec = spec_extract_between(c, "mica:shellhook:begin"@, "mica:shellhook:end"@);
    let args = spec_parse_pin_args(pins_sec);
    let pkgs = spec_parse_package_list(pkg_sec, args.0);
    let let_sec = if contains_sub(c, "mica:let:begin"@) {
        Some(spec_extract_between(c, "mica:let:begin"@, "mica:let:end"@))
    } else {
        None
    };
    let pkgraw_sec = if contains_sub(c, "mica:packages-raw:begin"@) {
        Some(spec_extract_between(c, "mica:packages-raw:begin"@, "mica:packages-raw:end"@))
    } else {
        None
    };
    let scripts_sec = if contains_sub(c, "mica:scripts:begin"@) {
        Some(spec_extract_between(c, "mica:scripts:begin"@, "mica:scripts:end"@))
    } else {
        None
    };
    let envraw_sec = if contains_sub(c, "mica:env-raw:begin"@) {
        Some(spec_extract_between(c, "mica:env-raw:begin"@, "mica:env-raw:end"@))
    } else {
        None
    };
    let ov_sec = if contains_sub(c, "mica:override:begin"@) {
        Some(spec_extract_between(c, "mica:override:begin"@, "mica:override:end"@))
    } else {
        None
    };
    let ovsh_sec = if contains_sub(c, "mica:override-shellhook:begin"@) {
        Some(
            spec_extract_between(
                c,
                "mica:override-shellhook:begin"@,
                "mica:override-shellhook:end"@,
            ),
        )
    } else {
        None
    };
    let ovm_sec = if contains_sub(c, "mica:override-merge:begin"@) {
        Some(spec_extract_between(c, "mica:override-merge:begin"@, "mica:override-merge:end"@))
    } else {
        None
    };
    &&& spec_parse_pin_section(pin_sec) == Ok::<_, StateParseError>(st.pin@)
    &&& crate::smap::kv_view(st.pins.entries@) == spec_remove_keys(args.0, pkgs.names, 0)
    &&& st.pins.wf()
    &&& crate::text::strs_view(st.packages@) == pkgs.packages
    &&& crate::smap::kv_view(st.pinned.entries@) == pkgs.pinned
    &&& st.pinned.wf()
    &&& crate::smap::kv_view(st.env.entries@) == spec_parse_env_section(env_sec)
    &&& st.env.wf()
    &&& crate::state::opt_str_view(st.shell_hook) == spec_parse_shell_hook(hook_sec)
    &&& crate::text::strs_view(st.presets@) == pkgs.presets
    &&& crate::state::opt_str_view(st.nix.let_block) == spec_normalize_block(let_sec)
    &&& crate::state::opt_str_view(st.nix.pins) == spec_normalize_block(args.1)
    &&& crate::state::opt_str_view(st.nix.packages_raw) == spec_normalize_block(pkgraw_sec)
    &&& crate::state::opt_str_view(st.nix.scripts) == spec_normalize_block(scripts_sec)
    &&& crate::state::opt_str_view(st.nix.env_raw) == spec_normalize_block(envraw_sec)
    &&& crate::state::opt_str_view(st.nix.override_attrs) == spec_normalize_block(ov_sec)
    &&& crate::state::opt_str_view(st.nix.override_merge) == spec_normalize_block(ovm_sec)
    &&& crate::state::opt_str_view(st.nix.override_shell_hook) == spec_parse_override_shellhook(
        ovsh_sec,
    )
}

/// Recovers project state from descriptor text: the pin, extra pins,
/// the package and preset lists, pinned packages, environment, shell
/// hook and raw fragments.
pub fn parse_project_state_from_nix(content: &str) -> (r: Result<
    ParsedProjectState,
    StateParseError,
>)
    ensures
        match r {
            Ok(st) => spec_project_sections(content@) && parsed_project_state_ok(st, content@),
            Err(e) => match e {
                StateParseError::Nix(pe) => match pe {
                    ParseError::NotMicaManaged => !has_prefix(content@, "# Managed by Mica"@),
                    ParseError::MissingMarker(m) => has_prefix(content@, "# Managed by Mica"@)
                        && spec_project_parse_err(content@) == Some(m@),
                },
                _ => spec_project_sections(content@) && spec_parse_pin_section(
                    spec_extract_between(content@, "mica:pin:begin"@, "mica:pin:end"@),
                ) == Err::<crate::state::PinView, _>(e),
            },
        },
{
    let parsed = match parse_nix_file(content) {
        Ok(p) => p,
        Err(e) => {
            return Err(StateParseError::Nix(e));
        },
    };
    let pin = match parse_pin_section(parsed.pin_section.as_str()) {
        Ok(p) => p,
        Err(e) => {
            return Err(e);
        },
    };
    let (mut pins, pins_block) = parse_pin_args(&parsed.pins_section);
    let (packages, presets, pinned, pinned_pin_names) = parse_package_list(
        parsed.packages_section.as_str(),
        &pins,
    );
    let ghost args0 = crate::smap::kv_view(pins.entries@);
    let ghost namesv = crate::text::strs_view(pinned_pin_names@);
    let mut w: usize = 0;
    while w < pinned_pin_names.len()
        invariant
            w <= pinned_pin_names@.len(),
            namesv == crate::text::strs_view(pinned_pin_names@),
            pins.wf(),
            spec_remove_keys(crate::smap::kv_view(pins.entries@), namesv, w as int)
                == spec_remove_keys(args0, namesv, 0),
        decreases pinned_pin_names@.len() - w,
    {
        let nm = str_to_chars(pinned_pin_names[w].as_str());
        assert(nm@ == namesv[w as int]);
        let ghost before = pins.entries@;
        proof {
            lemma_remove_kv_view(before, nm@);
        }
        pins.remove_key(&nm);
        w = w + 1;
    }
    let env = parse_env_section(parsed.env_section.as_str());
    let shell_hook = parse_shell_hook(parsed.shell_hook_section.as_str());
    let nix = crate::state::NixBlocks {
        let_block: normalize_optional_block(opt_str_chars(&parsed.let_section)),
        pins: normalize_optional_block(opt_str_chars(&pins_block)),
        packages_raw: normalize_optional_block(opt_str_chars(&parsed.packages_raw_section)),
        scripts: normalize_optional_block(opt_str_chars(&parsed.scripts_section)),
        env_raw: normalize_optional_block(opt_str_chars(&parsed.env_raw_section)),
        override_attrs: normalize_optional_block(opt_str_chars(&parsed.override_section)),
        override_merge: normalize_optional_block(opt_str_chars(&parsed.override_merge_section)),
        override_shell_hook: parse_override_shellhook(&parsed.override_shellhook_section),
    };
    Ok(
        ParsedProjectState {
            pin,
            pins,
            packages,
            pinned,
            env,
            shell_hook,
            presets,
            nix,
        },
    )
}

fn opt_str_chars(s: &Option<String>) -> (r: Option<Vec<char>>)
    ensures
        crate::state::opt_chars_view(r) == crate::state::opt_str_view(*s),
{
    match s {
        Some(v) => Some(str_to_chars(v.as_str())),
        None => None,
    }
}

proof fn lemma_remove_kv_view<V: View>(s: Seq<(String, V)>, k: Seq<char>)
    ensures
        crate::smap::kv_view(crate::smap::spec_remove_entries(s, k)) == spec_remove_kv(
            crate::smap::kv_view(s),
            k,
        ),
    decreases s.len(),
{
    if s.len() == 0 {
        assert(crate::smap::kv_view(crate::smap::spec_remove_entries(s, k)) =~= spec_remove_kv(
            crate::smap::kv_view(s),
            k,
        ));
    } else {
        assert(crate::smap::kv_view(s)[0] == (s[0].0@, s[0].1@));
        let t = s.drop_first();
        assert(crate::smap::kv_view(t) =~= crate::smap::kv_view(s).drop_first()) by {
            assert(forall|i: int| 0 <= i < t.len() ==> (#[trigger] t[i]) == s[i + 1]);
        }
        if s[0].0@ == k {
        } else {
            lemma_remove_kv_view(t, k);
            assert(crate::smap::kv_view(seq![s[0]] + crate::smap::spec_remove_entries(t, k))
                =~= seq![(s[0].0@, s[0].1@)] + crate::smap::kv_view(
                crate::smap::spec_remove_entries(t, k),
            ));
        }
    }
}

/// What a successful profile state recovery holds, given the text.
pub open spec fn parsed_profile_state_ok(st: ParsedProfileState, c: Seq<char>) -> bool {
    let pins_sec = spec_extract_between(c, "mica:pins:begin"@, "mica:pins:end"@);
    let paths_sec = spec_extract_between(c, "mica:paths:begin"@, "mica:paths:end"@);
    let pinned_pins = spec_parse_profile_pins(pins_sec);
    let paths = spec_parse_profile_paths(paths_sec, pinned_pins);
    &&& spec_parse_pin_section(pins_sec) == Ok::<_, StateParseError>(st.pin@)
    &&& crate::text::strs_view(st.packages@) == paths.packages
    &&& crate::smap::kv_view(st.pinned.entries@) == paths.pinned
    &&& st.pinned.wf()
}

pub open spec fn spec_profile_sections(c: Seq<char>) -> bool {
    has_prefix(c, "# Managed by Mica"@) && spec_profile_parse_err(c) is None
}

/// Recovers profile state from descriptor text.
pub fn parse_profile_state_from_nix(content: &str) -> (r: Result<
    ParsedProfileState,
    StateParseError,
>)
    ensures
        match r {
            Ok(st) => spec_profile_sections(content@) && parsed_profile_state_ok(st, content@),
            Err(e) => match e {
                StateParseError::Nix(pe) => match pe {
                    ParseError::NotMicaManaged => !has_prefix(content@, "# Managed by Mica"@),
                    ParseError::MissingMarker(m) => has_prefix(content@, "# Managed by Mica"@)
                        && spec_profile_parse_err(content@) == Some(m@),
                },
                _ => spec_profile_sections(content@) && spec_parse_pin_section(
                    spec_extract_between(content@, "mica:pins:begin"@, "mica:pins:end"@),
                ) == Err::<crate::state::PinView, _>(e),
            },
        },
{
    let parsed = match parse_profile_nix(content) {
        Ok(p) => p,
        Err(e) => {
            return Err(StateParseError::Nix(e));
        },
    };
    let pin = match parse_pin_section(parsed.pins_section.as_str()) {
        Ok(p) => p,
        Err(e) => {
            return Err(e);
        },
    };
    let pinned_pins = parse_profile_pins(parsed.pins_section.as_str());
    let (packages, pinned) = parse_profile_paths(parsed.paths_section.as_str(), &pinned_pins);
    Ok(ParsedProfileState { pin, packages, pinned })
}

} // verus!
