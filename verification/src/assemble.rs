//! The assembler: reconciles freshly generated text with an existing
//! file, keeping the human-authored preamble and postamble while every
//! managed region comes from the fresh generation; plus the post-pass
//! that collapses empty marker blocks and excess blank lines.

use vstd::prelude::*;

use crate::envvalue::{spec_trim_matches, trim_matches_chars};
use crate::nixparse::spec_project_parse_err;
use crate::text::{chars_to_string, contains_in, contains_sub, has_prefix, push_all,
    push_str_chars, spec_trim, str_to_chars, subvec, trim_chars, views_of};

verus! {

// ---------- reassembling from sections ----------

/// The slices an assembled project descriptor is rebuilt from.
pub struct ProjectNixParts {
    pub preamble: String,
    pub pin_section: String,
    pub pins_section: String,
    pub let_section: String,
    pub packages_section: String,
    pub scripts_section: String,
    pub env_section: String,
    pub shell_section: String,
    pub override_section: String,
    pub override_shellhook_section: String,
    pub override_merge_section: String,
    pub project_name: String,
    pub postamble: String,
}

/// One marker block: the begin comment, the section body re-anchored,
/// the end comment.
pub open spec fn spec_marker_block(ind: Seq<char>, name: Seq<char>, section: Seq<char>) -> Seq<
    char,
> {
    let t = spec_trim_matches(section, '\n');
    ind + "# "@ + name + ":begin\n"@ + (if t.len() > 0 {
        t + seq!['\n']
    } else {
        Seq::<char>::empty()
    }) + ind + "# "@ + name + ":end\n"@
}

/// Appends one marker block.
pub fn push_marker_block(out: &mut Vec<char>, indent: &str, name: &str, section: &str)
    ensures
        final(out)@ == old(out)@ + spec_marker_block(indent@, name@, section@),
{
    let ghost start = out@;
    push_str_chars(out, indent);
    push_str_chars(out, "# ");
    push_str_chars(out, name);
    push_str_chars(out, ":begin\n");
    let sc = str_to_chars(section);
    let t = trim_matches_chars(&sc, '\n');
    if t.len() > 0 {
        push_all(out, &t);
        out.push('\n');
    }
    push_str_chars(out, indent);
    push_str_chars(out, "# ");
    push_str_chars(out, name);
    push_str_chars(out, ":end\n");
    assert(out@ =~= start + spec_marker_block(indent@, name@, section@));
}

/// The slices, as mathematical values.
pub struct PartsView {
    pub preamble: Seq<char>,
    pub pin_section: Seq<char>,
    pub pins_section: Seq<char>,
    pub let_section: Seq<char>,
    pub packages_section: Seq<char>,
    pub scripts_section: Seq<char>,
    pub env_section: Seq<char>,
    pub shell_section: Seq<char>,
    pub override_section: Seq<char>,
    pub override_shellhook_section: Seq<char>,
    pub override_merge_section: Seq<char>,
    pub project_name: Seq<char>,
    pub postamble: Seq<char>,
}

impl View for ProjectNixParts {
    type V = PartsView;

    open spec fn view(&self) -> PartsView {
        PartsView {
            preamble: self.preamble@,
            pin_section: self.pin_section@,
            pins_section: self.pins_section@,
            let_section: self.let_section@,
            packages_section: self.packages_section@,
            scripts_section: self.scripts_section@,
            env_section: self.env_section@,
            shell_section: self.shell_section@,
            override_section: self.override_section@,
            override_shellhook_section: self.override_shellhook_section@,
            override_merge_section: self.override_merge_section@,
            project_name: self.project_name@,
            postamble: self.postamble@,
        }
    }
}

/// The assembled document: the given preamble, every managed region from
/// the given sections, the fixed scaffolding between them, and the given
/// postamble.
pub open spec fn spec_assemble_parts(p: PartsView) -> Seq<char> {
    p.preamble + (if p.preamble.len() > 0 && p.preamble.last() == '\n' {
        Seq::<char>::empty()
    } else {
        seq!['\n']
    }) + spec_marker_block("    "@, "mica:pin"@, p.pin_section) + "  }) {}\n"@
        + spec_marker_block("  "@, "mica:pins"@, p.pins_section) + "}:\n\n"@ + "let\n"@
        + "  name = \""@ + crate::envvalue::spec_escape(p.project_name) + "\";\n\n"@
        + spec_marker_block("  "@, "mica:let"@, p.let_section) + "\n"@
        + "  scripts = with pkgs; {\n"@ + spec_marker_block(
        "    "@,
        "mica:scripts"@,
        p.scripts_section,
    ) + "  };\n\n"@ + spec_marker_block("  "@, "mica:packages"@, p.packages_section) + "\n"@
        + "  paths = pkgs.lib.flatten [ tools ];\n"@ + "  env = pkgs.buildEnv {\n"@
        + "    inherit name paths; buildInputs = paths;\n"@ + spec_marker_block(
        "    "@,
        "mica:env"@,
        p.env_section,
    ) + "\n"@ + spec_marker_block("    "@, "mica:shellhook"@, p.shell_section) + "  };\n"@
        + "in\n"@ + "env.overrideAttrs (prev: {\n"@ + spec_marker_block(
        "  "@,
        "mica:override"@,
        p.override_section,
    ) + (if spec_trim(p.override_shellhook_section).len() > 0 {
        spec_marker_block("  "@, "mica:override-shellhook"@, p.override_shellhook_section)
    } else {
        Seq::<char>::empty()
    }) + "}\n"@ + spec_marker_block("  "@, "mica:override-merge"@, p.override_merge_section)
        + "  // { inherit scripts; }\n"@ + p.postamble
}

/// Rebuilds the document around the given sections.
#[verifier::rlimit(100)]
pub fn assemble_project_nix(parts: &ProjectNixParts) -> (r: String)
    ensures
        r@ == spec_assemble_parts(parts@),
{
    let mut out: Vec<char> = Vec::new();
    push_str_chars(&mut out, parts.preamble.as_str());
    let pre = str_to_chars(parts.preamble.as_str());
    if !(pre.len() > 0 && pre[pre.len() - 1] == '\n') {
        out.push('\n');
    }
    push_marker_block(&mut out, "    ", "mica:pin", parts.pin_section.as_str());
    push_str_chars(&mut out, "  }) {}\n");
    push_marker_block(&mut out, "  ", "mica:pins", parts.pins_section.as_str());
    push_str_chars(&mut out, "}:\n\n");
    push_str_chars(&mut out, "let\n");
    push_str_chars(&mut out, "  name = \"");
    let pnc = str_to_chars(parts.project_name.as_str());
    let esc = crate::envvalue::escape_chars(&pnc);
    push_all(&mut out, &esc);
    push_str_chars(&mut out, "\";\n\n");
    push_marker_block(&mut out, "  ", "mica:let", parts.let_section.as_str());
    push_str_chars(&mut out, "\n");
    push_str_chars(&mut out, "  scripts = with pkgs; {\n");
    push_marker_block(&mut out, "    ", "mica:scripts", parts.scripts_section.as_str());
    push_str_chars(&mut out, "  };\n\n");
    push_marker_block(&mut out, "  ", "mica:packages", parts.packages_section.as_str());
    push_str_chars(&mut out, "\n");
    push_str_chars(&mut out, "  paths = pkgs.lib.flatten [ tools ];\n");
    push_str_chars(&mut out, "  env = pkgs.buildEnv {\n");
    push_str_chars(&mut out, "    inherit name paths; buildInputs = paths;\n");
    push_marker_block(&mut out, "    ", "mica:env", parts.env_section.as_str());
    push_str_chars(&mut out, "\n");
    push_marker_block(&mut out, "    ", "mica:shellhook", parts.shell_section.as_str());
    push_str_chars(&mut out, "  };\n");
    push_str_chars(&mut out, "in\n");
    push_str_chars(&mut out, "env.overrideAttrs (prev: {\n");
    push_marker_block(&mut out, "  ", "mica:override", parts.override_section.as_str());
    let osh = str_to_chars(parts.override_shellhook_section.as_str());
    let osh_t = trim_chars(&osh);
    if osh_t.len() > 0 {
        push_marker_block(
            &mut out,
            "  ",
            "mica:override-shellhook",
            parts.override_shellhook_section.as_str(),
        );
    }
    push_str_chars(&mut out, "}\n");
    push_marker_block(
        &mut out,
        "  ",
        "mica:override-merge",
        parts.override_merge_section.as_str(),
    );
    push_str_chars(&mut out, "  // { inherit scripts; }\n");
    push_str_chars(&mut out, parts.postamble.as_str());
    assert(out@ =~= spec_assemble_parts(parts@));
    chars_to_string(&out)
}

// ---------- the write-path reconciliation ----------

/// How the assembler combined fresh and existing text.
#[derive(Debug, Clone, PartialEq, Eq)]
pub enum AssembleOutcome {
    /// Both texts parsed; the existing preamble (and possibly postamble)
    /// was kept around the fresh regions.
    Assembled(String),
    /// One of the texts did not parse; the fresh generation is returned
    /// unmodified.
    FreshOnly(String),
}

impl AssembleOutcome {
    /// The assembled text, whichever way it was produced.
    pub fn text(self) -> (r: String)
        ensures
            self matches AssembleOutcome::Assembled(t) ==> r@ == t@,
            self matches AssembleOutcome::FreshOnly(t) ==> r@ == t@,
    {
        match self {
            AssembleOutcome::Assembled(t) => t,
            AssembleOutcome::FreshOnly(t) => t,
        }
    }
}

/// Whether the existing file's postamble already reflects the
/// override-aware format (it holds some override marker).
pub open spec fn spec_keeps_existing_postamble(e: Seq<char>) -> bool {
    contains_sub(e, "mica:override-merge:begin"@) || contains_sub(e, "mica:override:begin"@)
        || contains_sub(e, "mica:override-shellhook:begin"@)
}

/// Whether a text parses cleanly as a project descriptor.
pub open spec fn spec_parses(c: Seq<char>) -> bool {
    has_prefix(c, "# Managed by Mica"@) && spec_project_parse_err(c) is None
}

/// One region of the fresh text, or empty when the region is absent.
pub open spec fn spec_region_or_empty(g: Seq<char>, s: Seq<char>, e: Seq<char>) -> Seq<char> {
    if contains_sub(g, s) {
        crate::nixparse::spec_extract_between(g, s, e)
    } else {
        Seq::empty()
    }
}

/// The parts an assembly combines: the existing text's preamble, every
/// managed region from the fresh text, and the existing postamble unless
/// the existing file predates the override markers.
pub open spec fn spec_assembled_parts(g: Seq<char>, e: Seq<char>, name: Seq<char>) -> PartsView {
    PartsView {
        preamble: crate::nixparse::spec_extract_before(e, "mica:pin:begin"@),
        pin_section: crate::nixparse::spec_extract_between(g, "mica:pin:begin"@, "mica:pin:end"@),
        pins_section: spec_region_or_empty(g, "mica:pins:begin"@, "mica:pins:end"@),
        let_section: spec_region_or_empty(g, "mica:let:begin"@, "mica:let:end"@),
        packages_section: crate::nixparse::spec_extract_between(
            g,
            "mica:packages:begin"@,
            "mica:packages:end"@,
        ),
        scripts_section: spec_region_or_empty(g, "mica:scripts:begin"@, "mica:scripts:end"@),
        env_section: crate::nixparse::spec_extract_between(g, "mica:env:begin"@, "mica:env:end"@),
        shell_section: crate::nixparse::spec_extract_between(
            g,
            "mica:shellhook:begin"@,
            "mica:shellhook:end"@,
        ),
        override_section: spec_region_or_empty(g, "mica:override:begin"@, "mica:override:end"@),
        override_shellhook_section: spec_region_or_empty(
            g,
            "mica:override-shellhook:begin"@,
            "mica:override-shellhook:end"@,
        ),
        override_merge_section: spec_region_or_empty(
            g,
            "mica:override-merge:begin"@,
            "mica:override-merge:end"@,
        ),
        project_name: name,
        postamble: if spec_keeps_existing_postamble(e) {
            crate::nixparse::spec_postamble(e)
        } else {
            crate::nixparse::spec_postamble(g)
        },
    }
}

/// Reconciles freshly generated text with an existing file: if both
/// parse, the output reuses the existing file's preamble and, when the
/// existing file already carries override markers, its postamble, while
/// all managed regions come from the fresh text; if either fails to
/// parse, the fresh text is returned unmodified.
pub fn assemble(generated: &str, existing: &str, project_name: &str) -> (r: AssembleOutcome)
    ensures
        match r {
            AssembleOutcome::Assembled(out) => spec_parses(generated@) && spec_parses(existing@)
                && out@ == spec_assemble_parts(
                spec_assembled_parts(generated@, existing@, project_name@),
            ),
            AssembleOutcome::FreshOnly(out) => out@ == generated@ && (!spec_parses(existing@)
                || !spec_parses(generated@)),
        },
{
    let pe = match crate::nixparse::parse_nix_file(existing) {
        Ok(p) => p,
        Err(_) => {
            return AssembleOutcome::FreshOnly(fresh_copy(generated));
        },
    };
    let pg = match crate::nixparse::parse_nix_file(generated) {
        Ok(p) => p,
        Err(_) => {
            return AssembleOutcome::FreshOnly(fresh_copy(generated));
        },
    };
    let keeps = pe.override_merge_section.is_some() || pe.override_section.is_some()
        || pe.override_shellhook_section.is_some();
    let parts = ProjectNixParts {
        preamble: pe.preamble,
        pin_section: pg.pin_section,
        pins_section: unwrap_or_empty(pg.pins_section),
        let_section: unwrap_or_empty(pg.let_section),
        packages_section: pg.packages_section,
        scripts_section: unwrap_or_empty(pg.scripts_section),
        env_section: pg.env_section,
        shell_section: pg.shell_hook_section,
        override_section: unwrap_or_empty(pg.override_section),
        override_shellhook_section: unwrap_or_empty(pg.override_shellhook_section),
        override_merge_section: unwrap_or_empty(pg.override_merge_section),
        project_name: fresh_copy(project_name),
        postamble: if keeps {
            pe.postamble
        } else {
            pg.postamble
        },
    };
    assert(parts@ == spec_assembled_parts(generated@, existing@, project_name@));
    AssembleOutcome::Assembled(assemble_project_nix(&parts))
}

pub open spec fn spec_unwrap_or_empty(v: Option<Seq<char>>) -> Seq<char> {
    match v {
        Some(s) => s,
        None => Seq::empty(),
    }
}

fn unwrap_or_empty(v: Option<String>) -> (r: String)
    ensures
        r@ == spec_unwrap_or_empty(crate::state::opt_str_view(v)),
{
    match v {
        Some(s) => s,
        None => {
            let e: Vec<char> = Vec::new();
            chars_to_string(&e)
        },
    }
}

fn fresh_copy(s: &str) -> (r: String)
    ensures
        r@ == s@,
{
    let v = str_to_chars(s);
    chars_to_string(&v)
}

} // verus!

verus! {

// ---------- the normalization post-pass ----------

pub open spec fn line_blank(l: Seq<char>) -> bool {
    spec_trim(l).len() == 0
}

/// The first line at or after `i` whose text holds `m`.
pub open spec fn spec_find_line(lines: Seq<Seq<char>>, i: int, m: Seq<char>) -> Option<int>
    decreases lines.len() - i,
{
    if i < 0 || i >= lines.len() {
        None
    } else if contains_sub(lines[i], m) {
        Some(i)
    } else {
        spec_find_line(lines, i + 1, m)
    }
}

proof fn lemma_find_line_bounds(lines: Seq<Seq<char>>, i: int, m: Seq<char>)
    ensures
        spec_find_line(lines, i, m) matches Some(j) ==> i <= j < lines.len() && 0 <= j,
    decreases lines.len() - i,
{
    if !(i < 0 || i >= lines.len()) && !contains_sub(lines[i], m) {
        lemma_find_line_bounds(lines, i + 1, m);
    }
}

/// Leading blank lines removed.
pub open spec fn drop_lead_blank(ls: Seq<Seq<char>>) -> Seq<Seq<char>>
    decreases ls.len(),
{
    if ls.len() > 0 && line_blank(ls[0]) {
        drop_lead_blank(ls.drop_first())
    } else {
        ls
    }
}

proof fn lemma_drop_lead_blank_len(ls: Seq<Seq<char>>)
    ensures
        drop_lead_blank(ls).len() <= ls.len(),
    decreases ls.len(),
{
    if ls.len() > 0 && line_blank(ls[0]) {
        lemma_drop_lead_blank_len(ls.drop_first());
    }
}

pub open spec fn all_blank_between(lines: Seq<Seq<char>>, a: int, b: int) -> bool {
    forall|k: int| a <= k < b ==> line_blank(#[trigger] lines[k])
}

/// Removes each marker pair whose body is entirely blank, together with
/// the blank lines that follow it.
pub open spec fn spec_strip_empty_block(
    lines: Seq<Seq<char>>,
    i: int,
    s: Seq<char>,
    e: Seq<char>,
) -> Seq<Seq<char>>
    decreases lines.len(), lines.len() - i,
    via spec_strip_empty_block_dec
{
    if i < 0 || i >= lines.len() {
        lines
    } else if contains_sub(lines[i], s) {
        match spec_find_line(lines, i + 1, e) {
            Some(j) => if all_blank_between(lines, i + 1, j) {
                spec_strip_empty_block(lines.take(i) + drop_lead_blank(lines.skip(j + 1)), i, s, e)
            } else {
                spec_strip_empty_block(lines, i + 1, s, e)
            },
            None => spec_strip_empty_block(lines, i + 1, s, e),
        }
    } else {
        spec_strip_empty_block(lines, i + 1, s, e)
    }
}

#[via_fn]
proof fn spec_strip_empty_block_dec(lines: Seq<Seq<char>>, i: int, s: Seq<char>, e: Seq<char>) {
    lemma_find_line_bounds(lines, i + 1, e);
    if 0 <= i < lines.len() && contains_sub(lines[i], s) {
        match spec_find_line(lines, i + 1, e) {
            Some(j) => {
                lemma_drop_lead_blank_len(lines.skip(j + 1));
            },
            None => {},
        }
    }
}

/// Collapses runs of blank lines right after a marker comment to at most
/// one.
pub open spec fn spec_first_nonblank_from(lines: Seq<Seq<char>>, i: int) -> int
    decreases lines.len() - i,
{
    if i < 0 || i >= lines.len() {
        lines.len() as int
    } else if line_blank(lines[i]) {
        spec_first_nonblank_from(lines, i + 1)
    } else {
        i
    }
}

proof fn lemma_first_nonblank_bounds(lines: Seq<Seq<char>>, i: int)
    requires
        0 <= i <= lines.len(),
    ensures
        i <= spec_first_nonblank_from(lines, i) <= lines.len(),
    decreases lines.len() - i,
{
    if i < lines.len() && line_blank(lines[i]) {
        lemma_first_nonblank_bounds(lines, i + 1);
    }
}

pub open spec fn spec_collapse_ws(lines: Seq<Seq<char>>, i: int) -> Seq<Seq<char>>
    decreases lines.len(), lines.len() - i,
    via spec_collapse_ws_dec
{
    if i < 0 || i >= lines.len() {
        lines
    } else if contains_sub(lines[i], "# mica:"@) {
        let j = spec_first_nonblank_from(lines, i + 1);
        if j > i + 2 {
            spec_collapse_ws(lines.take(i + 2) + lines.skip(j), i + 1)
        } else {
            spec_collapse_ws(lines, i + 1)
        }
    } else {
        spec_collapse_ws(lines, i + 1)
    }
}

#[via_fn]
proof fn spec_collapse_ws_dec(lines: Seq<Seq<char>>, i: int) {
    if 0 <= i < lines.len() {
        lemma_first_nonblank_bounds(lines, i + 1);
    }
}

/// Trailing blank lines removed.
pub open spec fn drop_trail_blank(ls: Seq<Seq<char>>) -> Seq<Seq<char>>
    decreases ls.len(),
{
    if ls.len() > 0 && line_blank(ls.last()) {
        drop_trail_blank(ls.drop_last())
    } else {
        ls
    }
}

fn splice_lines(lines: &Vec<Vec<char>>, a: usize, b: usize) -> (r: Vec<Vec<char>>)
    requires
        a <= b <= lines@.len(),
    ensures
        views_of(r@) == views_of(lines@).take(a as int) + views_of(lines@).skip(b as int),
{
    let ghost lv = views_of(lines@);
    let mut r: Vec<Vec<char>> = Vec::new();
    let mut i: usize = 0;
    assert(views_of(r@) =~= Seq::<Seq<char>>::empty());
    while i < a
        invariant
            i <= a <= b <= lines@.len(),
            lv == views_of(lines@),
            views_of(r@) == lv.take(i as int),
        decreases a - i,
    {
        let ghost prev = views_of(r@);
        let cl = subvec(&lines[i], 0, lines[i].len());
        assert(cl@ =~= lines@[i as int]@);
        assert(cl@ == lv[i as int]);
        r.push(cl);
        assert(views_of(r@) =~= prev.push(lv[i as int]));
        i = i + 1;
        assert(views_of(r@) =~= lv.take(i as int));
    }
    let mut j: usize = b;
    while j < lines.len()
        invariant
            a <= b <= j <= lines@.len(),
            lv == views_of(lines@),
            views_of(r@) == lv.take(a as int) + lv.subrange(b as int, j as int),
        decreases lines@.len() - j,
    {
        let ghost prev = views_of(r@);
        let cl = subvec(&lines[j], 0, lines[j].len());
        assert(cl@ =~= lines@[j as int]@);
        assert(cl@ == lv[j as int]);
        r.push(cl);
        assert(views_of(r@) =~= prev.push(lv[j as int]));
        j = j + 1;
        assert(views_of(r@) =~= lv.take(a as int) + lv.subrange(b as int, j as int));
    }
    assert(views_of(r@) =~= lv.take(a as int) + lv.skip(b as int));
    r
}

fn line_is_blank(l: &Vec<char>) -> (r: bool)
    ensures
        r == line_blank(l@),
{
    let t = trim_chars(l);
    t.len() == 0
}

fn find_line_containing(lines: &Vec<Vec<char>>, from: usize, m: &Vec<char>) -> (r: Option<usize>)
    ensures
        match r {
            Some(j) => spec_find_line(views_of(lines@), from as int, m@) == Some(j as int) && j
                < lines@.len(),
            None => spec_find_line(views_of(lines@), from as int, m@) is None,
        },
{
    let ghost lv = views_of(lines@);
    let mut j: usize = from;
    while j < lines.len()
        invariant
            from <= j,
            lv == views_of(lines@),
            spec_find_line(lv, from as int, m@) == spec_find_line(lv, j as int, m@),
        decreases lines@.len() - j,
    {
        assert(lines@[j as int]@ == lv[j as int]);
        if contains_in(&lines[j], m) {
            return Some(j);
        }
        j = j + 1;
    }
    None
}

/// Removes marker pairs with entirely blank bodies, plus trailing blanks.
fn strip_empty_marker_block(lines: Vec<Vec<char>>, s: &Vec<char>, e: &Vec<char>) -> (r: Vec<
    Vec<char>,
>)
    ensures
        views_of(r@) == spec_strip_empty_block(views_of(lines@), 0, s@, e@),
{
    let mut cur = lines;
    let mut i: usize = 0;
    loop
        invariant
            i <= cur@.len(),
            spec_strip_empty_block(views_of(cur@), i as int, s@, e@) == spec_strip_empty_block(
                views_of(lines@),
                0,
                s@,
                e@,
            ),
        decreases cur@.len() - i + cur@.len(),
    {
        let ghost lv = views_of(cur@);
        if i >= cur.len() {
            assert(spec_strip_empty_block(lv, i as int, s@, e@) == lv);
            return cur;
        }
        assert(cur@[i as int]@ == lv[i as int]);
        let mut pruned = false;
        if contains_in(&cur[i], s) {
            proof {
                lemma_find_line_bounds(lv, i as int + 1, e@);
            }
            match find_line_containing(&cur, i + 1, e) {
                Some(j) => {
                    // is everything between the pair blank?
                    let mut all_blank = true;
                    let mut k: usize = i + 1;
                    while k < j && all_blank
                        invariant
                            i + 1 <= k <= j,
                            lv == views_of(cur@),
                            j < cur@.len(),
                            all_blank == all_blank_between(lv, i as int + 1, k as int),
                        decreases j - k,
                    {
                        assert(cur@[k as int]@ == lv[k as int]);
                        if !line_is_blank(&cur[k]) {
                            all_blank = false;
                            assert(!all_blank_between(lv, i as int + 1, k as int + 1));
                        } else {
                            assert(all_blank_between(lv, i as int + 1, k as int)
                                ==> all_blank_between(lv, i as int + 1, k as int + 1));
                        }
                        k = k + 1;
                    }
                    if all_blank && k == j {
                        // drop the pair and any blank lines that follow
                        let mut drop_to: usize = j + 1;
                        while drop_to < cur.len() && line_is_blank(&cur[drop_to])
                            invariant
                                j + 1 <= drop_to <= cur@.len(),
                                lv == views_of(cur@),
                                drop_lead_blank(lv.skip(j as int + 1)) == drop_lead_blank(
                                    lv.skip(drop_to as int),
                                ),
                            decreases cur@.len() - drop_to,
                        {
                            assert(cur@[drop_to as int]@ == lv[drop_to as int]);
                            assert(lv.skip(drop_to as int).drop_first() =~= lv.skip(
                                drop_to as int + 1,
                            ));
                            drop_to = drop_to + 1;
                        }
                        assert(drop_lead_blank(lv.skip(drop_to as int)) == lv.skip(
                            drop_to as int,
                        ));
                        let next = splice_lines(&cur, i, drop_to);
                        assert(views_of(next@) =~= lv.take(i as int) + drop_lead_blank(
                            lv.skip(j as int + 1),
                        ));
                        proof {
                            lemma_drop_lead_blank_len(lv.skip(j as int + 1));
                        }
                        cur = next;
                        pruned = true;
                    }
                },
                None => {},
            }
        }
        if !pruned {
            i = i + 1;
        }
    }
}

/// Collapses blank-line runs after marker comments to at most one line.
fn collapse_marker_whitespace(lines: Vec<Vec<char>>) -> (r: Vec<Vec<char>>)
    ensures
        views_of(r@) == spec_collapse_ws(views_of(lines@), 0),
{
    let marker = str_to_chars("# mica:");
    let mut cur = lines;
    let mut i: usize = 0;
    loop
        invariant
            i <= cur@.len(),
            marker@ == "# mica:"@,
            spec_collapse_ws(views_of(cur@), i as int) == spec_collapse_ws(views_of(lines@), 0),
        decreases cur@.len() - i + cur@.len(),
    {
        let ghost lv = views_of(cur@);
        if i >= cur.len() {
            assert(spec_collapse_ws(lv, i as int) == lv);
            return cur;
        }
        assert(cur@[i as int]@ == lv[i as int]);
        if contains_in(&cur[i], &marker) {
            let mut j: usize = i + 1;
            while j < cur.len() && line_is_blank(&cur[j])
                invariant
                    i + 1 <= j <= cur@.len(),
                    lv == views_of(cur@),
                    spec_first_nonblank_from(lv, i as int + 1) == spec_first_nonblank_from(
                        lv,
                        j as int,
                    ),
                decreases cur@.len() - j,
            {
                assert(cur@[j as int]@ == lv[j as int]);
                j = j + 1;
            }
            assert(spec_first_nonblank_from(lv, j as int) == j as int || (j == cur@.len()
                && spec_first_nonblank_from(lv, j as int) == lv.len()));
            if j - i > 2 {
                let next = splice_lines(&cur, i + 2, j);
                assert(views_of(next@) =~= lv.take(i as int + 2) + lv.skip(j as int));
                cur = next;
            }
        }
        i = i + 1;
    }
}

fn trim_trailing_blank_lines(lines: Vec<Vec<char>>) -> (r: Vec<Vec<char>>)
    ensures
        views_of(r@) == drop_trail_blank(views_of(lines@)),
{
    let mut cur = lines;
    loop
        invariant
            drop_trail_blank(views_of(cur@)) == drop_trail_blank(views_of(lines@)),
        decreases cur@.len(),
    {
        let ghost lv = views_of(cur@);
        let n = cur.len();
        if n == 0 {
            return cur;
        }
        assert(cur@[n - 1]@ == lv[n - 1]);
        assert(lv.last() == lv[n - 1]);
        if !line_is_blank(&cur[n - 1]) {
            return cur;
        }
        let _ = cur.pop();
        assert(views_of(cur@) =~= lv.drop_last());
    }
}

/// The text after the whole normalization pass: every empty managed
/// block removed, blank runs after markers collapsed, trailing blank
/// lines trimmed, and the source text's trailing newline kept.
pub open spec fn spec_cleanup(source: Seq<char>) -> Seq<char> {
    let lines0 = crate::text::spec_lines(source).map_values(
        |l: Seq<char>| crate::text::spec_trim_end(l),
    );
    let a = spec_strip_empty_block(lines0, 0, "mica:let:begin"@, "mica:let:end"@);
    let b = spec_strip_empty_block(a, 0, "mica:pins:begin"@, "mica:pins:end"@);
    let c = spec_strip_empty_block(b, 0, "mica:packages-raw:begin"@, "mica:packages-raw:end"@);
    let d = spec_strip_empty_block(c, 0, "mica:scripts:begin"@, "mica:scripts:end"@);
    let e = spec_strip_empty_block(d, 0, "mica:env-raw:begin"@, "mica:env-raw:end"@);
    let f = spec_strip_empty_block(e, 0, "mica:override:begin"@, "mica:override:end"@);
    let g = spec_strip_empty_block(
        f,
        0,
        "mica:override-shellhook:begin"@,
        "mica:override-shellhook:end"@,
    );
    let h = spec_strip_empty_block(g, 0, "mica:override-merge:begin"@, "mica:override-merge:end"@);
    let k = drop_trail_blank(spec_collapse_ws(h, 0));
    let joined = crate::text::spec_join_nl(k);
    if source.len() > 0 && source.last() == '\n' {
        joined + seq!['\n']
    } else {
        joined
    }
}

/// Normalizes assembled text: collapses empty managed blocks and excess
/// blank lines.
pub fn cleanup_mica_markers(source: &str) -> (r: String)
    ensures
        r@ == spec_cleanup(source@),
{
    let sc = str_to_chars(source);
    let had_nl = sc.len() > 0 && sc[sc.len() - 1] == '\n';
    let raw_lines = crate::text::split_lines(&sc);
    let ghost rl = views_of(raw_lines@);
    // each line loses its trailing whitespace
    let mut lines: Vec<Vec<char>> = Vec::new();
    let mut i: usize = 0;
    assert(views_of(lines@) =~= Seq::<Seq<char>>::empty());
    while i < raw_lines.len()
        invariant
            i <= raw_lines@.len(),
            rl == views_of(raw_lines@),
            views_of(lines@) == rl.take(i as int).map_values(
                |l: Seq<char>| crate::text::spec_trim_end(l),
            ),
        decreases raw_lines@.len() - i,
    {
        let ghost prev = views_of(lines@);
        assert(raw_lines@[i as int]@ == rl[i as int]);
        let b = crate::text::trim_end_index(&raw_lines[i]);
        let t = subvec(&raw_lines[i], 0, b);
        assert(t@ =~= rl[i as int].take(b as int));
        assert(t@ == crate::text::spec_trim_end(rl[i as int]));
        lines.push(t);
        assert(views_of(lines@) =~= prev.push(crate::text::spec_trim_end(rl[i as int])));
        i = i + 1;
        assert(views_of(lines@) =~= rl.take(i as int).map_values(
            |l: Seq<char>| crate::text::spec_trim_end(l),
        ));
    }
    assert(rl.take(i as int) =~= rl);
    let lines = strip_empty_marker_block(
        lines,
        &str_to_chars("mica:let:begin"),
        &str_to_chars("mica:let:end"),
    );
    let lines = strip_empty_marker_block(
        lines,
        &str_to_chars("mica:pins:begin"),
        &str_to_chars("mica:pins:end"),
    );
    let lines = strip_empty_marker_block(
        lines,
        &str_to_chars("mica:packages-raw:begin"),
        &str_to_chars("mica:packages-raw:end"),
    );
    let lines = strip_empty_marker_block(
        lines,
        &str_to_chars("mica:scripts:begin"),
        &str_to_chars("mica:scripts:end"),
    );
    let lines = strip_empty_marker_block(
        lines,
        &str_to_chars("mica:env-raw:begin"),
        &str_to_chars("mica:env-raw:end"),
    );
    let lines = strip_empty_marker_block(
        lines,
        &str_to_chars("mica:override:begin"),
        &str_to_chars("mica:override:end"),
    );
    let lines = strip_empty_marker_block(
        lines,
        &str_to_chars("mica:override-shellhook:begin"),
        &str_to_chars("mica:override-shellhook:end"),
    );
    let lines = strip_empty_marker_block(
        lines,
        &str_to_chars("mica:override-merge:begin"),
        &str_to_chars("mica:override-merge:end"),
    );
    let lines = collapse_marker_whitespace(lines);
    let lines = trim_trailing_blank_lines(lines);
    let mut out = crate::text::join_nl(&lines);
    if had_nl {
        out.push('\n');
        assert(out@ =~= crate::text::spec_join_nl(views_of(lines@)) + seq!['\n']);
    }
    chars_to_string(&out)
}

// ---------- the syntax sanity check ----------

/// Whether this text parses as a syntactically well-formed descriptor
/// expression; the answer depends on the text alone.
pub uninterp spec fn nix_syntax_ok(s: Seq<char>) -> bool;

/// Relies on rnix::Root::parse and Parse::errors: parsing the text and
/// asking for its syntax errors; a fixed grammar, so the result is a
/// function of the text alone.
#[verifier::external_body]
fn nix_parse_ok(s: &str) -> (r: bool)
    ensures
        r == nix_syntax_ok(s@),
{
    rnix::Root::parse(s).errors().is_empty()
}

/// Normalizes the text, keeping the normalization only when the result
/// still passes the syntax sanity check.
pub fn format_mica_nix(source: &str) -> (r: String)
    ensures
        nix_syntax_ok(spec_cleanup(source@)) ==> r@ == spec_cleanup(source@),
        !nix_syntax_ok(spec_cleanup(source@)) ==> r@ == source@,
{
    let cleaned = cleanup_mica_markers(source);
    if nix_parse_ok(cleaned.as_str()) {
        cleaned
    } else {
        fresh_copy(source)
    }
}

} // verus!
