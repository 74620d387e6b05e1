//! The drift diff: a longest-common-subsequence alignment over lines,
//! preferring removal over insertion when the subsequence table ties,
//! and a per-section drift report.

use vstd::prelude::*;

use crate::text::{chars_to_string, push_all, split_lines, spec_lines, str_to_chars, strs_view,
    views_of};

verus! {

pub open spec fn max_nat(a: nat, b: nat) -> nat {
    if a >= b {
        a
    } else {
        b
    }
}

/// The length of the longest common subsequence of two line lists.
pub open spec fn lcs_len(a: Seq<Seq<char>>, b: Seq<Seq<char>>) -> nat
    decreases a.len() + b.len(),
{
    if a.len() == 0 || b.len() == 0 {
        0
    } else if a[0] == b[0] {
        1 + lcs_len(a.drop_first(), b.drop_first())
    } else {
        max_nat(lcs_len(a.drop_first(), b), lcs_len(a, b.drop_first()))
    }
}

proof fn lemma_lcs_bound(a: Seq<Seq<char>>, b: Seq<Seq<char>>)
    ensures
        lcs_len(a, b) <= a.len(),
        lcs_len(a, b) <= b.len(),
    decreases a.len() + b.len(),
{
    if a.len() == 0 || b.len() == 0 {
    } else if a[0] == b[0] {
        lemma_lcs_bound(a.drop_first(), b.drop_first());
    } else {
        lemma_lcs_bound(a.drop_first(), b);
        lemma_lcs_bound(a, b.drop_first());
    }
}

/// The diff walk: kept lines while they agree; on disagreement, removal
/// is taken when dropping the old line loses no common subsequence
/// length compared to dropping the new one — the deterministic tie-break.
pub open spec fn spec_diff(a: Seq<Seq<char>>, b: Seq<Seq<char>>) -> Seq<Seq<char>>
    decreases a.len() + b.len(),
{
    if a.len() > 0 && b.len() > 0 {
        if a[0] == b[0] {
            seq!["  "@ + a[0]] + spec_diff(a.drop_first(), b.drop_first())
        } else if lcs_len(a.drop_first(), b) >= lcs_len(a, b.drop_first()) {
            seq!["- "@ + a[0]] + spec_diff(a.drop_first(), b)
        } else {
            seq!["+ "@ + b[0]] + spec_diff(a, b.drop_first())
        }
    } else if a.len() > 0 {
        seq!["- "@ + a[0]] + spec_diff(a.drop_first(), b)
    } else if b.len() > 0 {
        seq!["+ "@ + b[0]] + spec_diff(a, b.drop_first())
    } else {
        Seq::empty()
    }
}

fn zero_row(count: usize) -> (r: Vec<usize>)
    ensures
        r@.len() == count,
        forall|j: int| 0 <= j < count ==> r@[j] == 0,
{
    let mut row: Vec<usize> = Vec::new();
    let mut z: usize = 0;
    while z < count
        invariant
            z <= count,
            row@.len() == z,
            forall|j: int| 0 <= j < z ==> row@[j] == 0,
        decreases count - z,
    {
        row.push(0);
        z = z + 1;
    }
    row
}

fn prefixed_line(prefix: &str, l: &Vec<char>) -> (r: String)
    ensures
        r@ == prefix@ + l@,
{
    let mut v = str_to_chars(prefix);
    push_all(&mut v, l);
    chars_to_string(&v)
}

/// Line-level drift preview: every line of the alignment, kept lines
/// prefixed with two spaces, removals with `- `, additions with `+ `.
#[verifier::rlimit(100)]
pub fn diff_lines(old_text: &str, new_text: &str) -> (r: Vec<String>)
    ensures
        strs_view(r@) == spec_diff(spec_lines(old_text@), spec_lines(new_text@)),
{
    let oc = str_to_chars(old_text);
    let nc = str_to_chars(new_text);
    let old_lines = split_lines(&oc);
    let new_lines = split_lines(&nc);
    let ghost av = views_of(old_lines@);
    let ghost bv = views_of(new_lines@);
    let n = old_lines.len();
    let m = new_lines.len();

    // rows_rev[k][j] holds the subsequence length of old[n-k..] vs new[j..]
    let mut rows_rev: Vec<Vec<usize>> = Vec::new();
    let mut zrow: Vec<usize> = zero_row(m);
    zrow.push(0);
    proof {
        assert forall|j: int| 0 <= j <= m implies lcs_len(av.skip(n as int), bv.skip(j)) == 0 by {
            assert(av.skip(n as int).len() == 0);
        }
    }
    rows_rev.push(zrow);
    let mut kb: usize = 0;
    while kb < n
        invariant
            kb <= n,
            n == av.len(),
            m == bv.len(),
            av == views_of(old_lines@),
            bv == views_of(new_lines@),
            rows_rev@.len() == kb + 1,
            forall|kk: int| 0 <= kk <= kb ==> (#[trigger] rows_rev@[kk]@).len() == m + 1,
            forall|kk: int, j: int|
                0 <= kk <= kb && 0 <= j <= m ==> (#[trigger] rows_rev@[kk]@[j]) == lcs_len(
                    av.skip(n - kk),
                    bv.skip(j),
                ),
        decreases n - kb,
    {
        let k = kb + 1;
        let mut row: Vec<usize> = zero_row(m);
        row.push(0);
        assert(row@[m as int] == 0);
        assert(lcs_len(av.skip(n - k), bv.skip(m as int)) == 0) by {
            assert(bv.skip(m as int).len() == 0);
        }
        let mut j: usize = m;
        while j > 0
            invariant
                j <= m,
                1 <= k <= n,
                k == kb + 1,
                n == av.len(),
                m == bv.len(),
                av == views_of(old_lines@),
                bv == views_of(new_lines@),
                rows_rev@.len() == k,
                row@.len() == m + 1,
                forall|kk: int| 0 <= kk < k ==> (#[trigger] rows_rev@[kk]@).len() == m + 1,
                forall|kk: int, jj: int|
                    0 <= kk < k && 0 <= jj <= m ==> (#[trigger] rows_rev@[kk]@[jj]) == lcs_len(
                        av.skip(n - kk),
                        bv.skip(jj),
                    ),
                av == views_of(old_lines@),
                bv == views_of(new_lines@),
                forall|jj: int|
                    j <= jj <= m ==> #[trigger] row@[jj] == lcs_len(av.skip(n - k), bv.skip(jj)),
            decreases j,
        {
            let jj = j - 1;
            let i2 = n - k;
            assert(old_lines@[i2 as int]@ == av[i2 as int]);
            assert(new_lines@[jj as int]@ == bv[jj as int]);
            let ghost ta = av.skip(i2 as int);
            let ghost tb = bv.skip(jj as int);
            assert(ta[0] == av[i2 as int] && tb[0] == bv[jj as int]);
            assert(ta.drop_first() =~= av.skip(i2 as int + 1));
            assert(tb.drop_first() =~= bv.skip(jj as int + 1));
            proof {
                lemma_lcs_bound(ta.drop_first(), tb.drop_first());
            }
            let same = crate::text::chars_eq(
                old_lines[i2].as_slice(),
                new_lines[jj].as_slice(),
            );
            assert(rows_rev@[k - 1]@.len() == m + 1);
            let v: usize = if same {
                let below = rows_rev[k - 1][jj + 1];
                assert(below == lcs_len(av.skip(n - k + 1), bv.skip(jj + 1)));
                assert(below <= av.skip(n - k + 1).len()) by {
                    lemma_lcs_bound(av.skip(n - k + 1), bv.skip(jj + 1));
                }
                below + 1
            } else {
                let d1 = rows_rev[k - 1][jj];
                let d2 = row[jj + 1];
                if d1 >= d2 {
                    d1
                } else {
                    d2
                }
            };
            assert(v == lcs_len(ta, tb));
            row[jj] = v;
            j = j - 1;
        }
        let ghost oldrows = rows_rev@;
        rows_rev.push(row);
        kb = kb + 1;
        assert forall|kk: int| 0 <= kk <= kb implies (#[trigger] rows_rev@[kk]@).len() == m
            + 1 by {
            if kk < kb {
                assert(rows_rev@[kk] == oldrows[kk]);
            }
        }
        assert forall|kk: int, j2: int|
            0 <= kk <= kb && 0 <= j2 <= m implies (#[trigger] rows_rev@[kk]@[j2]) == lcs_len(
            av.skip(n - kk),
            bv.skip(j2),
        ) by {
            if kk < kb {
                assert(rows_rev@[kk] == oldrows[kk]);
                assert(oldrows[kk]@[j2] == lcs_len(av.skip(n - kk), bv.skip(j2)));
            }
        }
    }

    // the walk
    let mut out: Vec<String> = Vec::new();
    let mut i: usize = 0;
    let mut j: usize = 0;
    assert(strs_view(out@) =~= Seq::<Seq<char>>::empty());
    assert(av.skip(0) =~= av);
    assert(bv.skip(0) =~= bv);
    while i < n && j < m
        invariant
            i <= n,
            j <= m,
            n == av.len(),
            m == bv.len(),
            av == views_of(old_lines@),
            bv == views_of(new_lines@),
            rows_rev@.len() == n + 1,
            forall|kk: int| 0 <= kk <= n ==> (#[trigger] rows_rev@[kk]@).len() == m + 1,
            forall|kk: int, jj: int|
                0 <= kk <= n && 0 <= jj <= m ==> (#[trigger] rows_rev@[kk]@[jj]) == lcs_len(
                    av.skip(n - kk),
                    bv.skip(jj),
                ),
            spec_diff(av, bv) == strs_view(out@) + spec_diff(av.skip(i as int), bv.skip(j as int)),
        decreases n - i + m - j,
    {
        let ghost prev = strs_view(out@);
        let ghost ta = av.skip(i as int);
        let ghost tb = bv.skip(j as int);
        assert(old_lines@[i as int]@ == av[i as int]);
        assert(new_lines@[j as int]@ == bv[j as int]);
        assert(ta[0] == av[i as int] && tb[0] == bv[j as int]);
        assert(ta.drop_first() =~= av.skip(i as int + 1));
        assert(tb.drop_first() =~= bv.skip(j as int + 1));
        let same = crate::text::chars_eq(old_lines[i].as_slice(), new_lines[j].as_slice());
        if same {
            out.push(prefixed_line("  ", &old_lines[i]));
            assert(strs_view(out@) =~= prev.push("  "@ + ta[0]));
            i = i + 1;
            j = j + 1;
        } else {
            assert(rows_rev@[n - i - 1]@.len() == m + 1);
            assert(rows_rev@[n - i]@.len() == m + 1);
            let d1 = rows_rev[n - i - 1][j];
            let d2 = rows_rev[n - i][j + 1];
            assert(d1 == lcs_len(av.skip(i as int + 1), bv.skip(j as int)));
            assert(d2 == lcs_len(av.skip(i as int), bv.skip(j as int + 1)));
            if d1 >= d2 {
                out.push(prefixed_line("- ", &old_lines[i]));
                assert(strs_view(out@) =~= prev.push("- "@ + ta[0]));
                i = i + 1;
            } else {
                out.push(prefixed_line("+ ", &new_lines[j]));
                assert(strs_view(out@) =~= prev.push("+ "@ + tb[0]));
                j = j + 1;
            }
        }
        assert(spec_diff(av, bv) =~= strs_view(out@) + spec_diff(
            av.skip(i as int),
            bv.skip(j as int),
        ));
    }
    while i < n
        invariant
            i <= n,
            j <= m,
            i < n ==> j == m,
            m == bv.len(),
            n == av.len(),
            av == views_of(old_lines@),
            bv == views_of(new_lines@),
            spec_diff(av, bv) == strs_view(out@) + spec_diff(av.skip(i as int), bv.skip(j as int)),
        decreases n - i,
    {
        let ghost prev = strs_view(out@);
        let ghost ta = av.skip(i as int);
        assert(old_lines@[i as int]@ == av[i as int]);
        assert(ta[0] == av[i as int]);
        assert(ta.drop_first() =~= av.skip(i as int + 1));
        assert(bv.skip(j as int).len() == 0);
        out.push(prefixed_line("- ", &old_lines[i]));
        assert(strs_view(out@) =~= prev.push("- "@ + ta[0]));
        i = i + 1;
        assert(spec_diff(av, bv) =~= strs_view(out@) + spec_diff(
            av.skip(i as int),
            bv.skip(j as int),
        ));
    }
    while j < m
        invariant
            i == n,
            j <= m,
            m == bv.len(),
            n == av.len(),
            av == views_of(old_lines@),
            bv == views_of(new_lines@),
            spec_diff(av, bv) == strs_view(out@) + spec_diff(av.skip(i as int), bv.skip(j as int)),
        decreases m - j,
    {
        let ghost prev = strs_view(out@);
        let ghost tb = bv.skip(j as int);
        assert(new_lines@[j as int]@ == bv[j as int]);
        assert(tb[0] == bv[j as int]);
        assert(tb.drop_first() =~= bv.skip(j as int + 1));
        assert(av.skip(i as int).len() == 0);
        out.push(prefixed_line("+ ", &new_lines[j]));
        assert(strs_view(out@) =~= prev.push("+ "@ + tb[0]));
        j = j + 1;
        assert(spec_diff(av, bv) =~= strs_view(out@) + spec_diff(
            av.skip(i as int),
            bv.skip(j as int),
        ));
    }
    assert(spec_diff(av.skip(i as int), bv.skip(j as int)).len() == 0);
    assert(strs_view(out@) =~= spec_diff(av, bv));
    out
}

/// The changed lines of the alignment only.
pub open spec fn spec_changes_only(d: Seq<Seq<char>>, i: int) -> Seq<Seq<char>>
    decreases d.len() - i,
{
    if i < 0 || i >= d.len() {
        Seq::empty()
    } else if d[i].len() > 0 && (d[i][0] == '+' || d[i][0] == '-') {
        seq![d[i]] + spec_changes_only(d, i + 1)
    } else {
        spec_changes_only(d, i + 1)
    }
}

/// Line-level drift preview restricted to additions and removals.
pub fn diff_lines_changes_only(old_text: &str, new_text: &str) -> (r: Vec<String>)
    ensures
        strs_view(r@) == spec_changes_only(
            spec_diff(spec_lines(old_text@), spec_lines(new_text@)),
            0,
        ),
{
    let full = diff_lines(old_text, new_text);
    let ghost dv = strs_view(full@);
    let mut out: Vec<String> = Vec::new();
    let mut i: usize = 0;
    assert(strs_view(out@) =~= Seq::<Seq<char>>::empty());
    while i < full.len()
        invariant
            i <= full@.len(),
            dv == strs_view(full@),
            spec_changes_only(dv, 0) == strs_view(out@) + spec_changes_only(dv, i as int),
        decreases full@.len() - i,
    {
        let ghost prev = strs_view(out@);
        let lc = str_to_chars(full[i].as_str());
        assert(lc@ == dv[i as int]);
        if lc.len() > 0 && (lc[0] == '+' || lc[0] == '-') {
            out.push(crate::state::clone_string(&full[i]));
            assert(strs_view(out@) =~= prev.push(dv[i as int]));
        }
        i = i + 1;
        assert(spec_changes_only(dv, 0) =~= strs_view(out@) + spec_changes_only(dv, i as int));
    }
    assert(strs_view(out@) =~= spec_changes_only(dv, 0));
    out
}

} // verus!

verus! {

/// One region's drift: its name and whether the fresh and existing
/// slices differ.
#[derive(Debug, Clone, PartialEq, Eq)]
pub struct SectionChange {
    pub section: String,
    pub changed: bool,
}

/// Whether a project region's slice differs between two texts that both
/// parse (absent regions compare as equal only when absent in both).
pub open spec fn spec_section_changed(g: Seq<char>, e: Seq<char>, s: Seq<char>, en: Seq<char>,
) -> bool {
    (if crate::text::contains_sub(g, s) {
        Some(crate::nixparse::spec_extract_between(g, s, en))
    } else {
        None
    }) != (if crate::text::contains_sub(e, s) {
        Some(crate::nixparse::spec_extract_between(e, s, en))
    } else {
        None
    })
}

/// What each entry of the section-level drift report says, by index.
pub open spec fn spec_section_report(g: Seq<char>, e: Seq<char>, i: int) -> (Seq<char>, bool) {
    if i == 0 {
        ("pin"@, spec_section_changed(g, e, "mica:pin:begin"@, "mica:pin:end"@))
    } else if i == 1 {
        ("let"@, spec_section_changed(g, e, "mica:let:begin"@, "mica:let:end"@))
    } else if i == 2 {
        ("packages"@, spec_section_changed(g, e, "mica:packages:begin"@, "mica:packages:end"@))
    } else if i == 3 {
        ("env"@, spec_section_changed(g, e, "mica:env:begin"@, "mica:env:end"@))
    } else if i == 4 {
        ("shellHook"@, spec_section_changed(g, e, "mica:shellhook:begin"@, "mica:shellhook:end"@))
    } else if i == 5 {
        ("override"@, spec_section_changed(g, e, "mica:override:begin"@, "mica:override:end"@))
    } else if i == 6 {
        (
            "override shellHook"@,
            spec_section_changed(
                g,
                e,
                "mica:override-shellhook:begin"@,
                "mica:override-shellhook:end"@,
            ),
        )
    } else {
        (
            "override merge"@,
            spec_section_changed(g, e, "mica:override-merge:begin"@, "mica:override-merge:end"@),
        )
    }
}

fn opt_views_eq(a: &Option<String>, b: &Option<String>) -> (r: bool)
    ensures
        r == (crate::state::opt_str_view(*a) == crate::state::opt_str_view(*b)),
{
    match (a, b) {
        (Some(x), Some(y)) => {
            let xc = str_to_chars(x.as_str());
            let yc = str_to_chars(y.as_str());
            crate::text::chars_eq(xc.as_slice(), yc.as_slice())
        },
        (None, None) => true,
        _ => false,
    }
}

fn str_views_eq(a: &String, b: &String) -> (r: bool)
    ensures
        r == (a@ == b@),
{
    let xc = str_to_chars(a.as_str());
    let yc = str_to_chars(b.as_str());
    crate::text::chars_eq(xc.as_slice(), yc.as_slice())
}

fn change_entry(name: &str, changed: bool) -> (r: SectionChange)
    ensures
        r.section@ == name@,
        r.changed == changed,
{
    let v = str_to_chars(name);
    SectionChange { section: chars_to_string(&v), changed }
}

/// Section-level drift: parses the fresh and the existing text and
/// reports, for each of the eight logical regions, whether its slice
/// changed; fails when either text fails to parse.
pub fn section_diff(fresh: &str, existing: &str) -> (r: Result<
    Vec<SectionChange>,
    crate::nixparse::ParseError,
>)
    ensures
        match r {
            Ok(report) => {
                &&& crate::assemble::spec_parses(fresh@)
                &&& crate::assemble::spec_parses(existing@)
                &&& report@.len() == 8
                &&& forall|i: int|
                    0 <= i < 8 ==> (#[trigger] report@[i].section@) == spec_section_report(
                        fresh@,
                        existing@,
                        i,
                    ).0 && report@[i].changed == spec_section_report(fresh@, existing@, i).1
            },
            Err(_) => !crate::assemble::spec_parses(fresh@) || !crate::assemble::spec_parses(
                existing@,
            ),
        },
{
    let pg = match crate::nixparse::parse_nix_file(fresh) {
        Ok(p) => p,
        Err(e) => {
            return Err(e);
        },
    };
    let pe = match crate::nixparse::parse_nix_file(existing) {
        Ok(p) => p,
        Err(e) => {
            return Err(e);
        },
    };
    let mut report: Vec<SectionChange> = Vec::new();
    report.push(change_entry("pin", !str_views_eq(&pg.pin_section, &pe.pin_section)));
    report.push(change_entry("let", !opt_views_eq(&pg.let_section, &pe.let_section)));
    report.push(
        change_entry("packages", !str_views_eq(&pg.packages_section, &pe.packages_section)),
    );
    report.push(change_entry("env", !str_views_eq(&pg.env_section, &pe.env_section)));
    report.push(
        change_entry(
            "shellHook",
            !str_views_eq(&pg.shell_hook_section, &pe.shell_hook_section),
        ),
    );
    report.push(
        change_entry("override", !opt_views_eq(&pg.override_section, &pe.override_section)),
    );
    report.push(
        change_entry(
            "override shellHook",
            !opt_views_eq(&pg.override_shellhook_section, &pe.override_shellhook_section),
        ),
    );
    report.push(
        change_entry(
            "override merge",
            !opt_views_eq(&pg.override_merge_section, &pe.override_merge_section),
        ),
    );
    Ok(report)
}

} // verus!
