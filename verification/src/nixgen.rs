//! The generator: renders the merged result and state as canonical
//! descriptor text, wrapped in paired marker comments.

use vstd::prelude::*;

use crate::envvalue::spec_escape;
use crate::preset::{GroupView, MergedResult};
use crate::smap::StrMap;
use crate::state::{GlobalProfileState, Pin, PinnedPackage, ProjectState};
use crate::text::{chars_to_string, push_all, push_str_chars, str_to_chars, strs_view,
    strs_contain, subvec};

verus! {

pub open spec fn is_ident_char(c: char) -> bool {
    ('a' <= c && c <= 'z') || ('A' <= c && c <= 'Z') || ('0' <= c && c <= '9') || c == '_'
}

pub open spec fn is_digit(c: char) -> bool {
    '0' <= c && c <= '9'
}

/// Identifier sanitization: every character outside `[A-Za-z0-9_]`
/// becomes `_`; an empty result becomes the fallback name; a leading
/// digit gets a `_` prefix.
pub open spec fn spec_sanitize_ident(s: Seq<char>) -> Seq<char> {
    let mapped = s.map_values(
        |c: char|
            if is_ident_char(c) {
                c
            } else {
                '_'
            },
    );
    if mapped.len() == 0 {
        "_pin"@
    } else if is_digit(mapped[0]) {
        seq!['_'] + mapped
    } else {
        mapped
    }
}

pub fn sanitize_ident_chars(s: &Vec<char>) -> (r: Vec<char>)
    ensures
        r@ == spec_sanitize_ident(s@),
{
    let ghost mapped = s@.map_values(
        |c: char|
            if is_ident_char(c) {
                c
            } else {
                '_'
            },
    );
    let mut out: Vec<char> = Vec::new();
    let mut i: usize = 0;
    while i < s.len()
        invariant
            i <= s@.len(),
            mapped == s@.map_values(
                |c: char|
                    if is_ident_char(c) {
                        c
                    } else {
                        '_'
                    },
            ),
            out@ == mapped.take(i as int),
        decreases s@.len() - i,
    {
        let c = s[i];
        let keep = ('a' <= c && c <= 'z') || ('A' <= c && c <= 'Z') || ('0' <= c && c <= '9') || c
            == '_';
        if keep {
            out.push(c);
        } else {
            out.push('_');
        }
        i = i + 1;
        assert(out@ =~= mapped.take(i as int));
    }
    assert(out@ =~= mapped);
    if out.len() == 0 {
        return str_to_chars("_pin");
    }
    let first = out[0];
    if '0' <= first && first <= '9' {
        let mut r: Vec<char> = vec!['_'];
        assert(r@ =~= seq!['_']);
        push_all(&mut r, &out);
        return r;
    }
    out
}

/// The decimal digit characters.
pub open spec fn digit_char(d: int) -> char {
    if d == 0 {
        '0'
    } else if d == 1 {
        '1'
    } else if d == 2 {
        '2'
    } else if d == 3 {
        '3'
    } else if d == 4 {
        '4'
    } else if d == 5 {
        '5'
    } else if d == 6 {
        '6'
    } else if d == 7 {
        '7'
    } else if d == 8 {
        '8'
    } else {
        '9'
    }
}

/// The decimal rendering of a non-negative number.
pub open spec fn spec_dec_digits(n: int) -> Seq<char>
    decreases n,
    via spec_dec_digits_dec
{
    if n < 10 {
        seq![digit_char(n)]
    } else {
        spec_dec_digits(n / 10).push(digit_char(n % 10))
    }
}

#[via_fn]
proof fn spec_dec_digits_dec(n: int) {
    if n >= 10 {
        assert(0 <= n / 10 < n) by (nonlinear_arith)
            requires
                n >= 10,
        ;
    }
}

pub fn digit_of(d: usize) -> (c: char)
    requires
        d < 10,
    ensures
        c == digit_char(d as int),
{
    if d == 0 {
        '0'
    } else if d == 1 {
        '1'
    } else if d == 2 {
        '2'
    } else if d == 3 {
        '3'
    } else if d == 4 {
        '4'
    } else if d == 5 {
        '5'
    } else if d == 6 {
        '6'
    } else if d == 7 {
        '7'
    } else if d == 8 {
        '8'
    } else {
        '9'
    }
}

pub fn dec_digits(n: usize) -> (r: Vec<char>)
    ensures
        r@ == spec_dec_digits(n as int),
    decreases n,
{
    if n < 10 {
        let r: Vec<char> = vec![digit_of(n)];
        assert(r@ =~= seq![digit_char(n as int)]);
        r
    } else {
        assert(0 <= n / 10 < n) by (nonlinear_arith)
            requires
                n >= 10,
        ;
        let mut r = dec_digits(n / 10);
        r.push(digit_of(n % 10));
        assert(r@ =~= spec_dec_digits(n as int / 10).push(digit_char(n as int % 10)));
        r
    }
}

proof fn lemma_digits_nonempty(n: int)
    ensures
        spec_dec_digits(n).len() >= 1,
    decreases n,
{
}

proof fn lemma_digits_injective(a: int, b: int)
    requires
        a >= 0,
        b >= 0,
        spec_dec_digits(a) == spec_dec_digits(b),
    ensures
        a == b,
    decreases a,
{
    if a < 10 && b < 10 {
        assert(spec_dec_digits(a)[0] == digit_char(a));
        assert(spec_dec_digits(b)[0] == digit_char(b));
        assert(a == b);
    } else if a < 10 {
        lemma_digits_nonempty(b / 10);
        assert(spec_dec_digits(b).len() >= 2);
    } else if b < 10 {
        lemma_digits_nonempty(a / 10);
        assert(spec_dec_digits(a).len() >= 2);
    } else {
        let da = spec_dec_digits(a / 10);
        let db = spec_dec_digits(b / 10);
        assert(da.push(digit_char(a % 10)).drop_last() =~= da);
        assert(db.push(digit_char(b % 10)).drop_last() =~= db);
        assert(da == db);
        assert(digit_char(a % 10) == digit_char(b % 10)) by {
            assert(da.push(digit_char(a % 10)).last() == digit_char(a % 10));
            assert(db.push(digit_char(b % 10)).last() == digit_char(b % 10));
        }
        assert(a % 10 == b % 10);
        assert(0 <= a / 10 < a) by (nonlinear_arith)
            requires
                a >= 10,
        ;
        lemma_digits_injective(a / 10, b / 10);
        assert(a == 10 * (a / 10) + a % 10) by (nonlinear_arith);
        assert(b == 10 * (b / 10) + b % 10) by (nonlinear_arith);
    }
}

/// The n-th candidate variable name for a sanitized base: the base
/// itself first, then `base_2`, `base_3`, and so on.
pub open spec fn spec_candidate(base: Seq<char>, n: int) -> Seq<char> {
    if n <= 1 {
        base
    } else {
        base + seq!['_'] + spec_dec_digits(n)
    }
}

proof fn lemma_candidate_injective(base: Seq<char>, n: int, m: int)
    requires
        1 <= n,
        1 <= m,
        n != m,
    ensures
        spec_candidate(base, n) != spec_candidate(base, m),
{
    if n == 1 {
        lemma_digits_nonempty(m);
        assert(spec_candidate(base, m).len() > base.len());
    } else if m == 1 {
        lemma_digits_nonempty(n);
        assert(spec_candidate(base, n).len() > base.len());
    } else {
        if spec_candidate(base, n) == spec_candidate(base, m) {
            let cn = base + seq!['_'] + spec_dec_digits(n);
            let cm = base + seq!['_'] + spec_dec_digits(m);
            assert(cn.len() == cm.len());
            assert(spec_dec_digits(n).len() == spec_dec_digits(m).len());
            assert(spec_dec_digits(n) =~= cn.subrange(base.len() as int + 1, cn.len() as int));
            assert(spec_dec_digits(m) =~= cm.subrange(base.len() as int + 1, cm.len() as int));
            lemma_digits_injective(n, m);
            assert(false);
        }
    }
}

/// Searching from the n-th candidate with the given fuel: the first
/// candidate not yet used, as long as the fuel lasts.
pub open spec fn spec_pick(base: Seq<char>, used: Seq<Seq<char>>, n: int, fuel: nat) -> Seq<char>
    decreases fuel,
{
    if fuel == 0 || !used.contains(spec_candidate(base, n)) {
        spec_candidate(base, n)
    } else {
        spec_pick(base, used, n + 1, (fuel - 1) as nat)
    }
}

/// Among the first `used.len() + 1` candidates, one is always free.
proof fn lemma_exists_fresh(base: Seq<char>, used: Seq<Seq<char>>, lo: int)
    requires
        1 <= lo,
    ensures
        exists|m: int| lo <= m <= lo + used.len() && !used.contains(#[trigger] spec_candidate(base, m)),
{
    let n = used.len() as int;
    if forall|m: int| lo <= m <= lo + n ==> used.contains(#[trigger] spec_candidate(base, m)) {
        let cands = Seq::new((n + 1) as nat, |i: int| spec_candidate(base, lo + i));
        assert(cands.no_duplicates()) by {
            assert forall|i: int, j: int|
                0 <= i < cands.len() && 0 <= j < cands.len() && i != j implies cands[i] != cands[j] by {
                lemma_candidate_injective(base, lo + i, lo + j);
            }
        }
        cands.unique_seq_to_set();
        used.lemma_cardinality_of_set();
        broadcast use vstd::seq_lib::seq_to_set_is_finite;

        assert(cands.to_set().subset_of(used.to_set())) by {
            assert forall|x: Seq<char>| cands.to_set().contains(x) implies used.to_set().contains(
                x,
            ) by {
                let i = choose|i: int| 0 <= i < cands.len() && cands[i] == x;
                assert(used.contains(spec_candidate(base, lo + i)));
            }
        }
        vstd::set_lib::lemma_len_subset(cands.to_set(), used.to_set());
        assert(false);
    }
}

proof fn lemma_pick_fresh(base: Seq<char>, used: Seq<Seq<char>>, n: int, fuel: nat)
    requires
        exists|m: int| n <= m <= n + fuel && !used.contains(#[trigger] spec_candidate(base, m)),
    ensures
        !used.contains(spec_pick(base, used, n, fuel)),
    decreases fuel,
{
    if used.contains(spec_candidate(base, n)) {
        let m = choose|m: int|
            n <= m <= n + fuel && !used.contains(#[trigger] spec_candidate(base, m));
        assert(m >= n + 1);
        assert(fuel >= 1);
        lemma_pick_fresh(base, used, n + 1, (fuel - 1) as nat);
    }
}

/// The variable names assigned to the pinned-package attributes, in key
/// order: each is the first free candidate over its sanitized base.
pub open spec fn spec_var_names(keys: Seq<Seq<char>>, i: int, names: Seq<Seq<char>>) -> Seq<
    Seq<char>,
>
    decreases keys.len() - i,
{
    if i < 0 || i >= keys.len() {
        names
    } else {
        let nm = spec_pick(spec_sanitize_ident(keys[i]), names, 1, (names.len() + 1) as nat);
        spec_var_names(keys, i + 1, names.push(nm))
    }
}

pub open spec fn spec_pinned_var_names(keys: Seq<Seq<char>>) -> Seq<Seq<char>> {
    spec_var_names(keys, 0, Seq::empty())
}

/// The keys of string-keyed entries.
pub open spec fn keys_view<V>(s: Seq<(String, V)>) -> Seq<Seq<char>> {
    Seq::new(s.len(), |i: int| s[i].0@)
}

fn pick_name(base: &Vec<char>, names: &Vec<String>) -> (r: Vec<char>)
    requires
        names@.len() < usize::MAX,
    ensures
        r@ == spec_pick(base@, strs_view(names@), 1, (strs_view(names@).len() + 1) as nat),
        !strs_view(names@).contains(r@),
{
    let ghost used = strs_view(names@);
    let ghost fuel0 = (used.len() + 1) as nat;
    proof {
        lemma_exists_fresh(base@, used, 1);
        lemma_pick_fresh(base@, used, 1, fuel0);
    }
    let mut n: usize = 1;
    let mut cand = subvec(base, 0, base.len());
    assert(cand@ =~= base@);
    assert(cand@ == spec_candidate(base@, 1));
    while strs_contain(names, &cand)
        invariant
            1 <= n,
            n <= used.len() + 1,
            used.len() < usize::MAX,
            used == strs_view(names@),
            fuel0 == (used.len() + 1) as nat,
            cand@ == spec_candidate(base@, n as int),
            spec_pick(base@, used, 1, fuel0) == spec_pick(
                base@,
                used,
                n as int,
                (fuel0 - (n - 1)) as nat,
            ),
            exists|m: int|
                n <= m <= used.len() + 1 && !used.contains(#[trigger] spec_candidate(base@, m)),
        decreases used.len() + 1 - n,
    {
        proof {
            let m = choose|m: int|
                n <= m <= used.len() + 1 && !used.contains(#[trigger] spec_candidate(base@, m));
            assert(m >= n + 1);
            assert(n <= used.len());
        }
        n = n + 1;
        let mut c2 = subvec(base, 0, base.len());
        c2.push('_');
        let d = dec_digits(n);
        push_all(&mut c2, &d);
        assert(c2@ =~= base@ + seq!['_'] + spec_dec_digits(n as int));
        cand = c2;
    }
    assert(spec_pick(base@, used, n as int, (fuel0 - (n - 1)) as nat) == cand@);
    cand
}

/// Assigns each pinned-package attribute its descriptor variable name,
/// aligned with the map's key order. The names are pairwise distinct:
/// colliding sanitized attributes get `_2`, `_3`, ... suffixes.
pub fn build_pinned_var_names(pinned: &StrMap<PinnedPackage>) -> (r: Vec<String>)
    requires
        pinned.entries@.len() < usize::MAX,
    ensures
        r@.len() == pinned.entries@.len(),
        strs_view(r@) == spec_pinned_var_names(keys_view(pinned.entries@)),
        forall|i: int, j: int|
            0 <= i < j < r@.len() ==> strs_view(r@)[i] != strs_view(r@)[j],
{
    let ghost keys = keys_view(pinned.entries@);
    let mut names: Vec<String> = Vec::new();
    let mut i: usize = 0;
    assert(strs_view(names@) =~= Seq::<Seq<char>>::empty());
    while i < pinned.entries.len()
        invariant
            i <= pinned.entries@.len(),
            names@.len() == i,
            keys == keys_view(pinned.entries@),
            spec_pinned_var_names(keys) == spec_var_names(keys, i as int, strs_view(names@)),
            forall|a: int, b: int|
                0 <= a < b < i ==> strs_view(names@)[a] != strs_view(names@)[b],
        decreases pinned.entries@.len() - i,
    {
        let ghost prev = strs_view(names@);
        let kc = str_to_chars(pinned.entries[i].0.as_str());
        assert(kc@ == keys[i as int]);
        let base = sanitize_ident_chars(&kc);
        let nm = pick_name(&base, &names);
        names.push(chars_to_string(&nm));
        i = i + 1;
        assert(strs_view(names@) =~= prev.push(nm@));
        assert forall|a: int, b: int|
            0 <= a < b < i implies strs_view(names@)[a] != strs_view(names@)[b] by {
            if b < i - 1 {
                assert(strs_view(names@)[a] == prev[a] && strs_view(names@)[b] == prev[b]);
            } else {
                assert(strs_view(names@)[b] == nm@);
                assert(strs_view(names@)[a] == prev[a]);
                assert(!prev.contains(nm@));
            }
        }
    }
    names
}

/// Collision-free identifiers: the variable names assigned to any key
/// list are pairwise distinct.
pub proof fn lemma_pinned_var_names_distinct(keys: Seq<Seq<char>>, i: int, names: Seq<Seq<char>>)
    requires
        0 <= i <= keys.len(),
        forall|a: int, b: int| 0 <= a < b < names.len() ==> names[a] != names[b],
    ensures
        ({
            let r = spec_var_names(keys, i, names);
            forall|a: int, b: int| 0 <= a < b < r.len() ==> r[a] != r[b]
        }),
    decreases keys.len() - i,
{
    if i < keys.len() {
        let base = spec_sanitize_ident(keys[i]);
        lemma_exists_fresh(base, names, 1);
        lemma_pick_fresh(base, names, 1, (names.len() + 1) as nat);
        let nm = spec_pick(base, names, 1, (names.len() + 1) as nat);
        assert forall|a: int, b: int|
            0 <= a < b < names.push(nm).len() implies names.push(nm)[a] != names.push(nm)[b] by {
            if b == names.len() {
                assert(names.push(nm)[b] == nm);
                assert(names.push(nm)[a] == names[a]);
                assert(names.contains(names[a]));
            }
        }
        assert(spec_var_names(keys, i, names) == spec_var_names(keys, i + 1, names.push(nm)));
        lemma_pinned_var_names_distinct(keys, i + 1, names.push(nm));
    }
}

} // verus!

verus! {

// ---------- shared rendering pieces ----------

/// One block's lines, each indented and newline-terminated.
pub open spec fn spec_indent_lines(lines: Seq<Seq<char>>, i: int, ind: Seq<char>) -> Seq<char>
    decreases lines.len() - i,
{
    if i < 0 || i >= lines.len() {
        Seq::empty()
    } else {
        ind + lines[i] + seq!['\n'] + spec_indent_lines(lines, i + 1, ind)
    }
}

/// The blocks, blank-line separated, each re-indented line by line.
pub open spec fn spec_write_blocks(blocks: Seq<Seq<char>>, i: int, ind: Seq<char>) -> Seq<char>
    decreases blocks.len() - i,
{
    if i < 0 || i >= blocks.len() {
        Seq::empty()
    } else {
        (if i > 0 {
            seq!['\n']
        } else {
            Seq::empty()
        }) + spec_indent_lines(crate::text::spec_lines(blocks[i]), 0, ind) + spec_write_blocks(
            blocks,
            i + 1,
            ind,
        )
    }
}

/// Appends the blocks to `out` as `spec_write_blocks` describes.
pub fn write_blocks(out: &mut Vec<char>, indent: &str, blocks: &Vec<String>)
    ensures
        final(out)@ == old(out)@ + spec_write_blocks(strs_view(blocks@), 0, indent@),
{
    let ind = str_to_chars(indent);
    let ghost bl = strs_view(blocks@);
    let mut i: usize = 0;
    while i < blocks.len()
        invariant
            i <= blocks@.len(),
            ind@ == indent@,
            bl == strs_view(blocks@),
            out@ + spec_write_blocks(bl, i as int, ind@) == old(out)@ + spec_write_blocks(
                bl,
                0,
                ind@,
            ),
        decreases blocks@.len() - i,
    {
        let ghost at_entry = out@;
        if i > 0 {
            out.push('\n');
        }
        let bc = str_to_chars(blocks[i].as_str());
        assert(bc@ == bl[i as int]);
        let lines = crate::text::split_lines(&bc);
        let ghost lv = crate::text::views_of(lines@);
        let mut j: usize = 0;
        let ghost base = out@;
        while j < lines.len()
            invariant
                j <= lines@.len(),
                ind@ == indent@,
                lv == crate::text::views_of(lines@),
                out@ + spec_indent_lines(lv, j as int, ind@) == base + spec_indent_lines(
                    lv,
                    0,
                    ind@,
                ),
            decreases lines@.len() - j,
        {
            let ghost before = out@;
            push_all(out, &ind);
            push_all(out, &lines[j]);
            out.push('\n');
            assert(lines@[j as int]@ == lv[j as int]);
            assert(out@ =~= before + (ind@ + lv[j as int] + seq!['\n']));
            assert(spec_indent_lines(lv, j as int, ind@) == ind@ + lv[j as int] + seq!['\n']
                + spec_indent_lines(lv, j as int + 1, ind@));
            assert(out@ + spec_indent_lines(lv, j as int + 1, ind@) =~= before
                + spec_indent_lines(lv, j as int, ind@));
            j = j + 1;
        }
        assert(spec_indent_lines(lv, j as int, ind@).len() == 0);
        assert(out@ =~= base + spec_indent_lines(lv, 0, ind@));
        proof {
            assert(spec_write_blocks(bl, i as int, ind@) == (if i > 0 {
                seq!['\n']
            } else {
                Seq::<char>::empty()
            }) + spec_indent_lines(crate::text::spec_lines(bl[i as int]), 0, ind@)
                + spec_write_blocks(bl, i as int + 1, ind@));
        }
        assert(out@ + spec_write_blocks(bl, i as int + 1, ind@) =~= at_entry + spec_write_blocks(
            bl,
            i as int,
            ind@,
        ));
        assert(at_entry + spec_write_blocks(bl, i as int, ind@) =~= old(out)@ + spec_write_blocks(
            bl,
            0,
            ind@,
        ));
        i = i + 1;
    }
    assert(spec_write_blocks(bl, i as int, ind@).len() == 0);
    assert(out@ =~= old(out)@ + spec_write_blocks(bl, 0, ind@));
}

// ---------- recognizing raw extra-pin blocks ----------

/// The parameter name a raw pin block declares on a line like
/// `, name ? import (fetchTarball ...`.
pub open spec fn spec_pin_name_of_line(l: Seq<char>) -> Option<Seq<char>> {
    let t = crate::text::spec_trim(l);
    if crate::text::has_prefix(t, seq![',']) && crate::text::contains_sub(
        t,
        "? import (fetchTarball"@,
    ) {
        let rest = crate::text::spec_trim(crate::envvalue::spec_strip_lead(t, ','));
        match crate::text::spec_find(rest, seq!['?']) {
            Some(p) => Some(crate::text::spec_trim(rest.take(p))),
            None => None,
        }
    } else {
        None
    }
}

pub open spec fn spec_pin_name_in_lines(lines: Seq<Seq<char>>, i: int) -> Option<Seq<char>>
    decreases lines.len() - i,
{
    if i < 0 || i >= lines.len() {
        None
    } else {
        match spec_pin_name_of_line(lines[i]) {
            Some(n) => Some(n),
            None => spec_pin_name_in_lines(lines, i + 1),
        }
    }
}

/// The declared parameter name of a raw pin block, if any line declares one.
pub open spec fn spec_extract_pin_name(block: Seq<char>) -> Option<Seq<char>> {
    spec_pin_name_in_lines(crate::text::spec_lines(block), 0)
}

fn pin_name_of_line(l: &Vec<char>) -> (r: Option<Vec<char>>)
    ensures
        match r {
            Some(n) => spec_pin_name_of_line(l@) == Some(n@),
            None => spec_pin_name_of_line(l@) is None,
        },
{
    let t = crate::text::trim_chars(l);
    let comma: Vec<char> = vec![','];
    assert(comma@ =~= seq![',']);
    let marker = str_to_chars("? import (fetchTarball");
    if !crate::text::starts_with_chars(&t, &comma) || !crate::text::contains_in(&t, &marker) {
        return None;
    }
    let rest0 = crate::envvalue::strip_lead_chars(&t, ',');
    let rest = crate::text::trim_chars(&rest0);
    let q: Vec<char> = vec!['?'];
    assert(q@ =~= seq!['?']);
    proof {
        crate::text::lemma_find_from_bounds(rest@, q@, 0);
    }
    match crate::text::find_in(&rest, &q, 0) {
        Some(p) => {
            let head = subvec(&rest, 0, p);
            assert(head@ =~= rest@.take(p as int));
            Some(crate::text::trim_chars(&head))
        },
        None => None,
    }
}

/// The parameter name declared by a raw pin block, if any.
pub fn extract_pin_name_from_block(block: &Vec<char>) -> (r: Option<Vec<char>>)
    ensures
        match r {
            Some(n) => spec_extract_pin_name(block@) == Some(n@),
            None => spec_extract_pin_name(block@) is None,
        },
{
    let lines = crate::text::split_lines(block);
    let ghost lv = crate::text::views_of(lines@);
    let mut i: usize = 0;
    while i < lines.len()
        invariant
            i <= lines@.len(),
            lv == crate::text::views_of(lines@),
            lv == crate::text::spec_lines(block@),
            spec_pin_name_in_lines(lv, 0) == spec_pin_name_in_lines(lv, i as int),
        decreases lines@.len() - i,
    {
        assert(lines@[i as int]@ == lv[i as int]);
        match pin_name_of_line(&lines[i]) {
            Some(n) => {
                assert(spec_pin_name_in_lines(lv, i as int) == Some(n@));
                return Some(n);
            },
            None => {},
        }
        i = i + 1;
    }
    None
}

} // verus!

verus! {

// ---------- section specs ----------

/// The `name`/`url`/`sha256` fields of a fetchTarball call.
pub open spec fn spec_fetch_fields(pin: crate::state::PinView, ind: Seq<char>) -> Seq<char> {
    (match pin.name {
        Some(n) => ind + "name = \""@ + spec_escape(n) + "\";\n"@,
        None => Seq::<char>::empty(),
    }) + ind + "url = \""@ + pin.url + "/archive/"@ + pin.rev + ".tar.gz\";\n"@ + ind
        + "sha256 = \""@ + pin.sha256 + "\";\n"@
}

pub open spec fn spec_header(at: Seq<char>) -> Seq<char> {
    "# Managed by Mica v0.1.0\n"@ + "# Do not edit sections between mica: markers\n"@
        + "# Manual additions outside markers will be preserved\n"@ + "# Last generated: "@ + at
        + "\n\n"@
}

pub open spec fn spec_primary_pin(pin: crate::state::PinView) -> Seq<char> {
    "{ pkgs ? import (fetchTarball {\n"@ + "    # mica:pin:begin\n"@ + spec_fetch_fields(
        pin,
        "    "@,
    ) + "    # mica:pin:end\n"@ + "  }) {}\n"@
}

/// The named extra-pin parameters, in key order.
pub open spec fn spec_extra_pins(
    pins: Seq<(Seq<char>, crate::state::PinView)>,
    i: int,
) -> Seq<char>
    decreases pins.len() - i,
{
    if i < 0 || i >= pins.len() {
        Seq::empty()
    } else {
        "  , "@ + spec_sanitize_ident(pins[i].0) + " ? import (fetchTarball {\n"@
            + spec_fetch_fields(pins[i].1, "      "@) + "    }) {}\n"@ + spec_extra_pins(
            pins,
            i + 1,
        )
    }
}

/// The pinned-package pin parameters, named by the assigned variables.
pub open spec fn spec_pinned_params(
    pinned: Seq<(Seq<char>, crate::state::PinnedPackageView)>,
    vars: Seq<Seq<char>>,
    i: int,
) -> Seq<char>
    decreases pinned.len() - i,
{
    if i < 0 || i >= pinned.len() || pinned.len() != vars.len() {
        Seq::empty()
    } else {
        "  , pkgs-"@ + vars[i] + " ? import (fetchTarball {\n"@ + spec_fetch_fields(
            pinned[i].1.pin,
            "      "@,
        ) + "    }) {}\n"@ + spec_pinned_params(pinned, vars, i + 1)
    }
}

/// Raw pin blocks that redeclare a named extra pin are dropped.
pub open spec fn spec_filter_pin_blocks(
    blocks: Seq<Seq<char>>,
    i: int,
    keys: Seq<Seq<char>>,
) -> Seq<Seq<char>>
    decreases blocks.len() - i,
{
    if i < 0 || i >= blocks.len() {
        Seq::empty()
    } else {
        let rest = spec_filter_pin_blocks(blocks, i + 1, keys);
        match spec_extract_pin_name(blocks[i]) {
            Some(n) => if keys.contains(n) {
                rest
            } else {
                seq![blocks[i]] + rest
            },
            None => seq![blocks[i]] + rest,
        }
    }
}

/// The labeled preset package groups; `pkg_prefix` is empty for the
/// project shape and `pkgs.` for the profile shape.
pub open spec fn spec_group_lines(pkgs: Seq<Seq<char>>, j: int, pkg_prefix: Seq<char>) -> Seq<char>
    decreases pkgs.len() - j,
{
    if j < 0 || j >= pkgs.len() {
        Seq::empty()
    } else {
        "    "@ + pkg_prefix + pkgs[j] + "\n"@ + spec_group_lines(pkgs, j + 1, pkg_prefix)
    }
}

pub open spec fn spec_groups_lines(groups: Seq<GroupView>, i: int, pkg_prefix: Seq<char>) -> Seq<
    char,
>
    decreases groups.len() - i,
{
    if i < 0 || i >= groups.len() {
        Seq::empty()
    } else {
        "    # Preset: "@ + groups[i].preset + "\n"@ + spec_group_lines(
            groups[i].packages,
            0,
            pkg_prefix,
        ) + "\n"@ + spec_groups_lines(groups, i + 1, pkg_prefix)
    }
}

pub open spec fn spec_user_lines(user: Seq<Seq<char>>, pkg_prefix: Seq<char>) -> Seq<char> {
    if user.len() == 0 {
        Seq::empty()
    } else {
        "    # User additions\n"@ + spec_group_lines(user, 0, pkg_prefix)
    }
}

/// The pinned package references with their version comments.
pub open spec fn spec_pinned_refs(
    pinned: Seq<(Seq<char>, crate::state::PinnedPackageView)>,
    vars: Seq<Seq<char>>,
    i: int,
) -> Seq<char>
    decreases pinned.len() - i,
{
    if i < 0 || i >= pinned.len() || pinned.len() != vars.len() {
        Seq::empty()
    } else {
        "    pkgs-"@ + vars[i] + "."@ + pinned[i].0 + "  # "@ + pinned[i].1.version + "\n"@
            + spec_pinned_refs(pinned, vars, i + 1)
    }
}

pub open spec fn spec_pinned_refs_section(
    pinned: Seq<(Seq<char>, crate::state::PinnedPackageView)>,
    vars: Seq<Seq<char>>,
) -> Seq<char> {
    if pinned.len() == 0 {
        Seq::empty()
    } else {
        "    # Pinned packages\n"@ + spec_pinned_refs(pinned, vars, 0)
    }
}

/// The structured environment entries.
pub open spec fn spec_env_lines(env: Seq<(Seq<char>, Seq<char>)>, i: int) -> Seq<char>
    decreases env.len() - i,
{
    if i < 0 || i >= env.len() {
        Seq::empty()
    } else {
        "    "@ + env[i].0 + " = "@ + crate::envvalue::spec_render_env_value(env[i].1) + ";\n"@
            + spec_env_lines(env, i + 1)
    }
}

pub open spec fn spec_hook_pieces(hooks: Seq<Seq<char>>, i: int) -> Seq<char>
    decreases hooks.len() - i,
{
    if i < 0 || i >= hooks.len() {
        Seq::empty()
    } else {
        (if i > 0 {
            seq!['\n']
        } else {
            Seq::<char>::empty()
        }) + hooks[i] + (if hooks[i].len() > 0 && hooks[i].last() == '\n' {
            Seq::<char>::empty()
        } else {
            seq!['\n']
        }) + spec_hook_pieces(hooks, i + 1)
    }
}

/// The shell-hook block: the collected hooks concatenated, or an empty
/// hook when there are none.
pub open spec fn spec_shellhook_section(hooks: Seq<Seq<char>>) -> Seq<char> {
    if hooks.len() == 0 {
        "    shellHook = ''\n    '';\n"@
    } else {
        "    shellHook = ''\n"@ + spec_hook_pieces(hooks, 0) + "    '';\n"@
    }
}

/// The optional override-shellhook region, present only when fragments
/// contributed to it.
pub open spec fn spec_override_shellhook_section(blocks: Seq<Seq<char>>) -> Seq<char> {
    if blocks.len() == 0 {
        Seq::empty()
    } else {
        "  # mica:override-shellhook:begin\n"@ + "  shellHook = ''\n"@
            + "    ${prev.shellHook or \"\"}\n"@ + spec_write_blocks(blocks, 0, "    "@)
            + "  '';\n"@ + "  # mica:override-shellhook:end\n"@
    }
}

/// The whole generated project descriptor.
pub open spec fn spec_generate_project(
    state: ProjectState,
    merged: MergedResult,
    project_name: Seq<char>,
    generated_at: Seq<char>,
) -> Seq<char> {
    let pinnedv = crate::smap::kv_view(state.packages.pinned.entries@);
    let vars = spec_pinned_var_names(keys_view(state.packages.pinned.entries@));
    spec_header(generated_at) + spec_primary_pin(state.pin@) + "  # mica:pins:begin\n"@
        + spec_extra_pins(crate::smap::kv_view(state.pins.entries@), 0) + spec_pinned_params(
        pinnedv,
        vars,
        0,
    ) + spec_write_blocks(
        spec_filter_pin_blocks(strs_view(merged.pin_blocks@), 0, keys_view(state.pins.entries@)),
        0,
        "  "@,
    ) + "  # mica:pins:end\n"@ + "}:\n\n"@ + "let\n"@ + "  name = \""@ + spec_escape(project_name)
        + "\";\n\n"@ + "  # mica:let:begin\n"@ + spec_write_blocks(
        strs_view(merged.let_blocks@),
        0,
        "  "@,
    ) + "  # mica:let:end\n\n"@ + "  scripts = with pkgs; {\n"@ + "    # mica:scripts:begin\n"@
        + spec_write_blocks(strs_view(merged.scripts_blocks@), 0, "    "@)
        + "    # mica:scripts:end\n"@ + "  };\n\n"@ + "  # mica:packages:begin\n"@
        + "  tools = with pkgs; [\n"@ + spec_groups_lines(
        crate::preset::groups_view(merged.preset_packages@),
        0,
        Seq::<char>::empty(),
    ) + spec_user_lines(strs_view(merged.user_packages@), Seq::<char>::empty())
        + spec_pinned_refs_section(pinnedv, vars) + "    # mica:packages-raw:begin\n"@
        + spec_write_blocks(strs_view(merged.packages_raw_blocks@), 0, "    "@)
        + "    # mica:packages-raw:end\n"@ + "  ] ++ (pkgs.lib.attrsets.attrValues scripts);\n"@
        + "  # mica:packages:end\n\n"@ + "  paths = pkgs.lib.flatten [ tools ];\n"@
        + "  env = pkgs.buildEnv {\n"@ + "    inherit name paths; buildInputs = paths;\n"@
        + "    # mica:env:begin\n"@ + spec_env_lines(crate::smap::kv_view(merged.env.entries@), 0)
        + "    # mica:env-raw:begin\n"@ + spec_write_blocks(
        strs_view(merged.env_raw_blocks@),
        0,
        "    "@,
    ) + "    # mica:env-raw:end\n"@ + "    # mica:env:end\n\n"@ + "    # mica:shellhook:begin\n"@
        + spec_shellhook_section(strs_view(merged.shell_hooks@)) + "    # mica:shellhook:end\n"@
        + "  };\n"@ + "in\n"@ + "env.overrideAttrs (prev: {\n"@ + "  # mica:override:begin\n"@
        + spec_write_blocks(strs_view(merged.override_blocks@), 0, "  "@)
        + "  # mica:override:end\n"@ + spec_override_shellhook_section(
        strs_view(merged.override_shellhook_blocks@),
    ) + "}\n"@ + "  # mica:override-merge:begin\n"@ + spec_write_blocks(
        strs_view(merged.override_merge_blocks@),
        0,
        "  "@,
    ) + "  # mica:override-merge:end\n"@ + "  // { inherit scripts; }\n"@ + ")\n"@
}

} // verus!

verus! {

// ---------- executable generator ----------

fn push_fetch_fields(out: &mut Vec<char>, pin: &Pin, ind: &str)
    ensures
        final(out)@ == old(out)@ + spec_fetch_fields(pin@, ind@),
{
    let ghost start = out@;
    match &pin.name {
        Some(n) => {
            push_str_chars(out, ind);
            push_str_chars(out, "name = \"");
            let nc = str_to_chars(n.as_str());
            let esc = crate::envvalue::escape_chars(&nc);
            push_all(out, &esc);
            push_str_chars(out, "\";\n");
        },
        None => {},
    }
    push_str_chars(out, ind);
    push_str_chars(out, "url = \"");
    push_str_chars(out, pin.url.as_str());
    push_str_chars(out, "/archive/");
    push_str_chars(out, pin.rev.as_str());
    push_str_chars(out, ".tar.gz\";\n");
    push_str_chars(out, ind);
    push_str_chars(out, "sha256 = \"");
    push_str_chars(out, pin.sha256.as_str());
    push_str_chars(out, "\";\n");
    assert(out@ =~= start + spec_fetch_fields(pin@, ind@));
}

fn filter_pin_blocks(blocks: &Vec<String>, pins: &StrMap<Pin>) -> (r: Vec<String>)
    ensures
        strs_view(r@) == spec_filter_pin_blocks(
            strs_view(blocks@),
            0,
            keys_view(pins.entries@),
        ),
{
    let ghost bl = strs_view(blocks@);
    let ghost keys = keys_view(pins.entries@);
    let mut out: Vec<String> = Vec::new();
    let mut i: usize = blocks.len();
    assert(strs_view(out@) =~= spec_filter_pin_blocks(bl, blocks@.len() as int, keys));
    // build from the back so the spec's front recursion lines up
    while i > 0
        invariant
            i <= blocks@.len(),
            bl == strs_view(blocks@),
            keys == keys_view(pins.entries@),
            strs_view(out@) == spec_filter_pin_blocks(bl, i as int, keys),
        decreases i,
    {
        i = i - 1;
        let ghost prev = strs_view(out@);
        let bc = str_to_chars(blocks[i].as_str());
        assert(bc@ == bl[i as int]);
        let keep: bool = match extract_pin_name_from_block(&bc) {
            Some(n) => !pins_contains_key(pins, &n),
            None => true,
        };
        if keep {
            out.insert(0, crate::state::clone_string(&blocks[i]));
            assert(strs_view(out@) =~= seq![bl[i as int]] + prev);
        }
    }
    out
}

fn pins_contains_key(pins: &StrMap<Pin>, k: &Vec<char>) -> (r: bool)
    ensures
        r == keys_view(pins.entries@).contains(k@),
{
    let ghost keys = keys_view(pins.entries@);
    let mut i: usize = 0;
    while i < pins.entries.len()
        invariant
            i <= pins.entries@.len(),
            keys == keys_view(pins.entries@),
            forall|j: int| 0 <= j < i ==> keys[j] != k@,
        decreases pins.entries@.len() - i,
    {
        let ek = str_to_chars(pins.entries[i].0.as_str());
        if crate::text::chars_eq(ek.as_slice(), k.as_slice()) {
            assert(keys[i as int] == k@);
            return true;
        }
        assert(keys[i as int] == pins.entries@[i as int].0@);
        i = i + 1;
    }
    assert(!keys.contains(k@)) by {
        if keys.contains(k@) {
            let j = choose|j: int| 0 <= j < keys.len() && keys[j] == k@;
            assert(keys[j] != k@);
        }
    }
    false
}

/// Renders the project descriptor: fixed section order, each managed
/// region wrapped in its marker comment pair.
#[verifier::rlimit(100)]
pub fn generate_project_nix(
    state: &ProjectState,
    merged: &MergedResult,
    project_name: &str,
    generated_at: &str,
) -> (r: String)
    requires
        state.packages.pinned.entries@.len() < usize::MAX,
    ensures
        r@ == spec_generate_project(*state, *merged, project_name@, generated_at@),
{
    let ghost pinnedv = crate::smap::kv_view(state.packages.pinned.entries@);
    let ghost pkeys = keys_view(state.packages.pinned.entries@);
    let vars = build_pinned_var_names(&state.packages.pinned);
    let ghost varsv = strs_view(vars@);

    let mut out: Vec<char> = Vec::new();
    push_str_chars(&mut out, "# Managed by Mica v0.1.0\n");
    push_str_chars(&mut out, "# Do not edit sections between mica: markers\n");
    push_str_chars(&mut out, "# Manual additions outside markers will be preserved\n");
    push_str_chars(&mut out, "# Last generated: ");
    push_str_chars(&mut out, generated_at);
    push_str_chars(&mut out, "\n\n");
    assert(out@ =~= spec_header(generated_at@));

    let ghost acc1 = out@;
    push_str_chars(&mut out, "{ pkgs ? import (fetchTarball {\n");
    push_str_chars(&mut out, "    # mica:pin:begin\n");
    push_fetch_fields(&mut out, &state.pin, "    ");
    push_str_chars(&mut out, "    # mica:pin:end\n");
    push_str_chars(&mut out, "  }) {}\n");
    assert(out@ =~= acc1 + spec_primary_pin(state.pin@));

    push_str_chars(&mut out, "  # mica:pins:begin\n");

    // named extra pins
    let ghost pinsv = crate::smap::kv_view(state.pins.entries@);
    let ghost acc2 = out@;
    let mut i: usize = 0;
    while i < state.pins.entries.len()
        invariant
            i <= state.pins.entries@.len(),
            pinsv == crate::smap::kv_view(state.pins.entries@),
            out@ + spec_extra_pins(pinsv, i as int) == acc2 + spec_extra_pins(pinsv, 0),
        decreases state.pins.entries@.len() - i,
    {
        let ghost before = out@;
        assert(pinsv[i as int] == (state.pins.entries@[i as int].0@, state.pins.entries@[i as int].1@));
        let kc = str_to_chars(state.pins.entries[i].0.as_str());
        let name = sanitize_ident_chars(&kc);
        push_str_chars(&mut out, "  , ");
        push_all(&mut out, &name);
        push_str_chars(&mut out, " ? import (fetchTarball {\n");
        push_fetch_fields(&mut out, &state.pins.entries[i].1, "      ");
        push_str_chars(&mut out, "    }) {}\n");
        assert(out@ =~= before + ("  , "@ + spec_sanitize_ident(pinsv[i as int].0)
            + " ? import (fetchTarball {\n"@ + spec_fetch_fields(pinsv[i as int].1, "      "@)
            + "    }) {}\n"@));
        assert(out@ + spec_extra_pins(pinsv, i as int + 1) =~= before + spec_extra_pins(
            pinsv,
            i as int,
        ));
        i = i + 1;
    }
    assert(spec_extra_pins(pinsv, i as int).len() == 0);
    assert(out@ =~= acc2 + spec_extra_pins(pinsv, 0));

    // pinned-package pin parameters
    let ghost acc3 = out@;
    let mut k: usize = 0;
    assert(varsv.len() == pinnedv.len());
    while k < state.packages.pinned.entries.len()
        invariant
            k <= state.packages.pinned.entries@.len(),
            pinnedv == crate::smap::kv_view(state.packages.pinned.entries@),
            varsv == strs_view(vars@),
            varsv.len() == pinnedv.len(),
            out@ + spec_pinned_params(pinnedv, varsv, k as int) == acc3 + spec_pinned_params(
                pinnedv,
                varsv,
                0,
            ),
        decreases state.packages.pinned.entries@.len() - k,
    {
        let ghost before = out@;
        assert(pinnedv[k as int] == (
            state.packages.pinned.entries@[k as int].0@,
            state.packages.pinned.entries@[k as int].1@,
        ));
        assert(varsv[k as int] == vars@[k as int]@);
        push_str_chars(&mut out, "  , pkgs-");
        push_str_chars(&mut out, vars[k].as_str());
        push_str_chars(&mut out, " ? import (fetchTarball {\n");
        push_fetch_fields(&mut out, &state.packages.pinned.entries[k].1.pin, "      ");
        push_str_chars(&mut out, "    }) {}\n");
        assert(out@ =~= before + ("  , pkgs-"@ + varsv[k as int] + " ? import (fetchTarball {\n"@
            + spec_fetch_fields(pinnedv[k as int].1.pin, "      "@) + "    }) {}\n"@));
        assert(out@ + spec_pinned_params(pinnedv, varsv, k as int + 1) =~= before
            + spec_pinned_params(pinnedv, varsv, k as int));
        k = k + 1;
    }
    assert(spec_pinned_params(pinnedv, varsv, k as int).len() == 0);
    assert(out@ =~= acc3 + spec_pinned_params(pinnedv, varsv, 0));

    let filtered = filter_pin_blocks(&merged.pin_blocks, &state.pins);
    write_blocks(&mut out, "  ", &filtered);
    push_str_chars(&mut out, "  # mica:pins:end\n");
    push_str_chars(&mut out, "}:\n\n");

    push_str_chars(&mut out, "let\n");
    push_str_chars(&mut out, "  name = \"");
    let pnc = str_to_chars(project_name);
    let pesc = crate::envvalue::escape_chars(&pnc);
    push_all(&mut out, &pesc);
    push_str_chars(&mut out, "\";\n\n");
    push_str_chars(&mut out, "  # mica:let:begin\n");
    write_blocks(&mut out, "  ", &merged.let_blocks);
    push_str_chars(&mut out, "  # mica:let:end\n\n");
    push_str_chars(&mut out, "  scripts = with pkgs; {\n");
    push_str_chars(&mut out, "    # mica:scripts:begin\n");
    write_blocks(&mut out, "    ", &merged.scripts_blocks);
    push_str_chars(&mut out, "    # mica:scripts:end\n");
    push_str_chars(&mut out, "  };\n\n");
    push_str_chars(&mut out, "  # mica:packages:begin\n");
    push_str_chars(&mut out, "  tools = with pkgs; [\n");

    // preset package groups
    let ghost groupsv = crate::preset::groups_view(merged.preset_packages@);
    let ghost acc4 = out@;
    let mut g: usize = 0;
    while g < merged.preset_packages.len()
        invariant
            g <= merged.preset_packages@.len(),
            groupsv == crate::preset::groups_view(merged.preset_packages@),
            out@ + spec_groups_lines(groupsv, g as int, Seq::<char>::empty()) == acc4
                + spec_groups_lines(groupsv, 0, Seq::<char>::empty()),
        decreases merged.preset_packages@.len() - g,
    {
        let ghost before = out@;
        assert(groupsv[g as int] == merged.preset_packages@[g as int]@);
        assert(groupsv[g as int].preset == merged.preset_packages@[g as int].preset@);
        push_str_chars(&mut out, "    # Preset: ");
        push_str_chars(&mut out, merged.preset_packages[g].preset.as_str());
        push_str_chars(&mut out, "\n");
        let ghost pkgl = groupsv[g as int].packages;
        let ghost base = out@;
        let mut q: usize = 0;
        while q < merged.preset_packages[g].packages.len()
            invariant
                g < merged.preset_packages@.len(),
                q <= merged.preset_packages@[g as int].packages@.len(),
                groupsv == crate::preset::groups_view(merged.preset_packages@),
                groupsv[g as int] == merged.preset_packages@[g as int]@,
                pkgl == groupsv[g as int].packages,
                base == before + "    # Preset: "@ + groupsv[g as int].preset + "\n"@,
                before + spec_groups_lines(groupsv, g as int, Seq::<char>::empty()) == acc4
                    + spec_groups_lines(groupsv, 0, Seq::<char>::empty()),
                out@ + spec_group_lines(pkgl, q as int, Seq::<char>::empty()) == base
                    + spec_group_lines(pkgl, 0, Seq::<char>::empty()),
            decreases merged.preset_packages@[g as int].packages@.len() - q,
        {
            let ghost b2 = out@;
            assert(pkgl[q as int] == merged.preset_packages@[g as int].packages@[q as int]@);
            push_str_chars(&mut out, "    ");
            push_str_chars(&mut out, merged.preset_packages[g].packages[q].as_str());
            push_str_chars(&mut out, "\n");
            assert(out@ + spec_group_lines(pkgl, q as int + 1, Seq::<char>::empty()) =~= b2
                + spec_group_lines(pkgl, q as int, Seq::<char>::empty()));
            q = q + 1;
        }
        assert(spec_group_lines(pkgl, q as int, Seq::<char>::empty()).len() == 0);
        assert(out@ =~= base + spec_group_lines(pkgl, 0, Seq::<char>::empty()));
        push_str_chars(&mut out, "\n");
        assert(out@ + spec_groups_lines(groupsv, g as int + 1, Seq::<char>::empty()) =~= before
            + spec_groups_lines(groupsv, g as int, Seq::<char>::empty()));
        g = g + 1;
    }
    assert(spec_groups_lines(groupsv, g as int, Seq::<char>::empty()).len() == 0);

    // user additions
    let ghost userv = strs_view(merged.user_packages@);
    let ghost acc5 = out@;
    if merged.user_packages.len() > 0 {
        push_str_chars(&mut out, "    # User additions\n");
        let ghost base = out@;
        let mut q: usize = 0;
        while q < merged.user_packages.len()
            invariant
                q <= merged.user_packages@.len(),
                userv == strs_view(merged.user_packages@),
                userv.len() > 0,
                base == acc5 + "    # User additions\n"@,
                out@ + spec_group_lines(userv, q as int, Seq::<char>::empty()) == base
                    + spec_group_lines(userv, 0, Seq::<char>::empty()),
            decreases merged.user_packages@.len() - q,
        {
            let ghost b2 = out@;
            assert(userv[q as int] == merged.user_packages@[q as int]@);
            push_str_chars(&mut out, "    ");
            push_str_chars(&mut out, merged.user_packages[q].as_str());
            push_str_chars(&mut out, "\n");
            assert(out@ + spec_group_lines(userv, q as int + 1, Seq::<char>::empty()) =~= b2
                + spec_group_lines(userv, q as int, Seq::<char>::empty()));
            q = q + 1;
        }
        assert(spec_group_lines(userv, q as int, Seq::<char>::empty()).len() == 0);
        assert(out@ =~= acc5 + spec_user_lines(userv, Seq::<char>::empty()));
    }
    assert(out@ == acc5 + spec_user_lines(userv, Seq::<char>::empty()));

    // pinned package references
    let ghost acc6 = out@;
    if state.packages.pinned.entries.len() > 0 {
        push_str_chars(&mut out, "    # Pinned packages\n");
        let ghost base = out@;
        let mut k2: usize = 0;
        while k2 < state.packages.pinned.entries.len()
            invariant
                k2 <= state.packages.pinned.entries@.len(),
                pinnedv == crate::smap::kv_view(state.packages.pinned.entries@),
                varsv == strs_view(vars@),
                varsv.len() == pinnedv.len(),
                pinnedv.len() > 0,
                base == acc6 + "    # Pinned packages\n"@,
                out@ + spec_pinned_refs(pinnedv, varsv, k2 as int) == base + spec_pinned_refs(
                    pinnedv,
                    varsv,
                    0,
                ),
            decreases state.packages.pinned.entries@.len() - k2,
        {
            let ghost b2 = out@;
            assert(pinnedv[k2 as int] == (
                state.packages.pinned.entries@[k2 as int].0@,
                state.packages.pinned.entries@[k2 as int].1@,
            ));
            assert(varsv[k2 as int] == vars@[k2 as int]@);
            push_str_chars(&mut out, "    pkgs-");
            push_str_chars(&mut out, vars[k2].as_str());
            push_str_chars(&mut out, ".");
            push_str_chars(&mut out, state.packages.pinned.entries[k2].0.as_str());
            push_str_chars(&mut out, "  # ");
            push_str_chars(&mut out, state.packages.pinned.entries[k2].1.version.as_str());
            push_str_chars(&mut out, "\n");
            assert(out@ + spec_pinned_refs(pinnedv, varsv, k2 as int + 1) =~= b2
                + spec_pinned_refs(pinnedv, varsv, k2 as int));
            k2 = k2 + 1;
        }
        assert(spec_pinned_refs(pinnedv, varsv, k2 as int).len() == 0);
        assert(out@ =~= acc6 + spec_pinned_refs_section(pinnedv, varsv));
    }
    assert(out@ == acc6 + spec_pinned_refs_section(pinnedv, varsv));

    push_str_chars(&mut out, "    # mica:packages-raw:begin\n");
    write_blocks(&mut out, "    ", &merged.packages_raw_blocks);
    push_str_chars(&mut out, "    # mica:packages-raw:end\n");
    push_str_chars(&mut out, "  ] ++ (pkgs.lib.attrsets.attrValues scripts);\n");
    push_str_chars(&mut out, "  # mica:packages:end\n\n");
    push_str_chars(&mut out, "  paths = pkgs.lib.flatten [ tools ];\n");
    push_str_chars(&mut out, "  env = pkgs.buildEnv {\n");
    push_str_chars(&mut out, "    inherit name paths; buildInputs = paths;\n");
    push_str_chars(&mut out, "    # mica:env:begin\n");

    // structured environment entries
    let ghost envv = crate::smap::kv_view(merged.env.entries@);
    let ghost acc7 = out@;
    let mut e: usize = 0;
    while e < merged.env.entries.len()
        invariant
            e <= merged.env.entries@.len(),
            envv == crate::smap::kv_view(merged.env.entries@),
            out@ + spec_env_lines(envv, e as int) == acc7 + spec_env_lines(envv, 0),
        decreases merged.env.entries@.len() - e,
    {
        let ghost before = out@;
        assert(envv[e as int] == (merged.env.entries@[e as int].0@, merged.env.entries@[e as int].1@));
        push_str_chars(&mut out, "    ");
        push_str_chars(&mut out, merged.env.entries[e].0.as_str());
        push_str_chars(&mut out, " = ");
        let vc = str_to_chars(merged.env.entries[e].1.as_str());
        let rendered = crate::envvalue::render_env_value_chars(&vc);
        push_all(&mut out, &rendered);
        push_str_chars(&mut out, ";\n");
        assert(out@ + spec_env_lines(envv, e as int + 1) =~= before + spec_env_lines(
            envv,
            e as int,
        ));
        e = e + 1;
    }
    assert(spec_env_lines(envv, e as int).len() == 0);
    assert(out@ =~= acc7 + spec_env_lines(envv, 0));

    push_str_chars(&mut out, "    # mica:env-raw:begin\n");
    write_blocks(&mut out, "    ", &merged.env_raw_blocks);
    push_str_chars(&mut out, "    # mica:env-raw:end\n");
    push_str_chars(&mut out, "    # mica:env:end\n\n");
    push_str_chars(&mut out, "    # mica:shellhook:begin\n");

    // shell hooks
    let ghost hooksv = strs_view(merged.shell_hooks@);
    let ghost acc8 = out@;
    if merged.shell_hooks.len() > 0 {
        push_str_chars(&mut out, "    shellHook = ''\n");
        let ghost base = out@;
        let mut h: usize = 0;
        while h < merged.shell_hooks.len()
            invariant
                h <= merged.shell_hooks@.len(),
                hooksv == strs_view(merged.shell_hooks@),
                hooksv.len() > 0,
                base == acc8 + "    shellHook = ''\n"@,
                out@ + spec_hook_pieces(hooksv, h as int) == base + spec_hook_pieces(hooksv, 0),
            decreases merged.shell_hooks@.len() - h,
        {
            let ghost b2 = out@;
            assert(hooksv[h as int] == merged.shell_hooks@[h as int]@);
            if h > 0 {
                out.push('\n');
            }
            push_str_chars(&mut out, merged.shell_hooks[h].as_str());
            let hc = str_to_chars(merged.shell_hooks[h].as_str());
            let nl: Vec<char> = vec!['\n'];
            assert(nl@ =~= seq!['\n']);
            if !crate::text::ends_with_chars(&hc, &nl) {
                out.push('\n');
            }
            proof {
                if hooksv[h as int].len() > 0 && hooksv[h as int].last() == '\n' {
                    assert(crate::text::has_suffix(hooksv[h as int], seq!['\n'])) by {
                        assert(hooksv[h as int].skip(hooksv[h as int].len() - 1)
                            =~= seq![hooksv[h as int].last()]);
                    }
                } else {
                    assert(!crate::text::has_suffix(hooksv[h as int], seq!['\n'])) by {
                        if crate::text::has_suffix(hooksv[h as int], seq!['\n']) {
                            assert(hooksv[h as int].skip(hooksv[h as int].len() - 1)[0]
                                == hooksv[h as int].last());
                        }
                    }
                }
            }
            assert(out@ + spec_hook_pieces(hooksv, h as int + 1) =~= b2 + spec_hook_pieces(
                hooksv,
                h as int,
            ));
            h = h + 1;
        }
        assert(spec_hook_pieces(hooksv, h as int).len() == 0);
        push_str_chars(&mut out, "    '';\n");
        assert(out@ =~= acc8 + spec_shellhook_section(hooksv));
    } else {
        push_str_chars(&mut out, "    shellHook = ''\n    '';\n");
        assert(out@ =~= acc8 + spec_shellhook_section(hooksv));
    }

    push_str_chars(&mut out, "    # mica:shellhook:end\n");
    push_str_chars(&mut out, "  };\n");
    push_str_chars(&mut out, "in\n");
    push_str_chars(&mut out, "env.overrideAttrs (prev: {\n");
    push_str_chars(&mut out, "  # mica:override:begin\n");
    write_blocks(&mut out, "  ", &merged.override_blocks);
    push_str_chars(&mut out, "  # mica:override:end\n");

    // optional override shell hook
    let ghost acc9 = out@;
    if merged.override_shellhook_blocks.len() > 0 {
        push_str_chars(&mut out, "  # mica:override-shellhook:begin\n");
        push_str_chars(&mut out, "  shellHook = ''\n");
        push_str_chars(&mut out, "    ${prev.shellHook or \"\"}\n");
        write_blocks(&mut out, "    ", &merged.override_shellhook_blocks);
        push_str_chars(&mut out, "  '';\n");
        push_str_chars(&mut out, "  # mica:override-shellhook:end\n");
        assert(out@ =~= acc9 + spec_override_shellhook_section(
            strs_view(merged.override_shellhook_blocks@),
        ));
    }
    assert(out@ == acc9 + spec_override_shellhook_section(
        strs_view(merged.override_shellhook_blocks@),
    ));

    push_str_chars(&mut out, "}\n");
    push_str_chars(&mut out, "  # mica:override-merge:begin\n");
    write_blocks(&mut out, "  ", &merged.override_merge_blocks);
    push_str_chars(&mut out, "  # mica:override-merge:end\n");
    push_str_chars(&mut out, "  // { inherit scripts; }\n");
    push_str_chars(&mut out, ")\n");

    assert(out@ =~= spec_generate_project(*state, *merged, project_name@, generated_at@));
    chars_to_string(&out)
}

} // verus!

verus! {

// ---------- the profile shape ----------

pub open spec fn spec_profile_header(at: Seq<char>) -> Seq<char> {
    "# Managed by Mica v0.1.0\n"@
        + "# Global user profile - install with: nix-env -if ~/.config/mica/profile.nix\n"@
        + "# Last generated: "@ + at + "\n\n"@
}

/// The profile's pinned-package bindings inside the `let`.
pub open spec fn spec_profile_pins(
    pinned: Seq<(Seq<char>, crate::state::PinnedPackageView)>,
    vars: Seq<Seq<char>>,
    i: int,
) -> Seq<char>
    decreases pinned.len() - i,
{
    if i < 0 || i >= pinned.len() || pinned.len() != vars.len() {
        Seq::empty()
    } else {
        "\n  # Pin for "@ + pinned[i].0 + "\n"@ + "  pkgs-"@ + vars[i]
            + " = import (fetchTarball {\n"@ + spec_fetch_fields(pinned[i].1.pin, "    "@)
            + "  }) {};\n"@ + spec_profile_pins(pinned, vars, i + 1)
    }
}

/// The whole generated profile descriptor.
pub open spec fn spec_generate_profile(
    state: GlobalProfileState,
    merged: crate::preset::MergedProfileResult,
    generated_at: Seq<char>,
) -> Seq<char> {
    let pinnedv = crate::smap::kv_view(state.packages.pinned.entries@);
    let vars = spec_pinned_var_names(keys_view(state.packages.pinned.entries@));
    spec_profile_header(generated_at) + "let\n"@ + "  # mica:pins:begin\n"@
        + "  # Primary nixpkgs\n"@ + "  pkgs = import (fetchTarball {\n"@ + spec_fetch_fields(
        state.pin@,
        "    "@,
    ) + "  }) {};\n"@ + spec_profile_pins(pinnedv, vars, 0) + "  # mica:pins:end\n\n"@
        + "in pkgs.buildEnv {\n"@ + "  name = \"mica-profile\";\n\n"@ + "  # mica:paths:begin\n"@
        + "  paths = [\n"@ + spec_groups_lines(
        crate::preset::groups_view(merged.preset_packages@),
        0,
        "pkgs."@,
    ) + spec_user_lines(strs_view(merged.user_packages@), "pkgs."@) + spec_pinned_refs(
        pinnedv,
        vars,
        0,
    ) + "  ];\n"@ + "  # mica:paths:end\n\n"@ + "  pathsToLink = [ \"/bin\" \"/share\" ];\n"@
        + "  extraOutputsToInstall = [ \"man\" \"doc\" ];\n"@ + "}\n"@
}

/// Renders the profile descriptor: a pins block, then a flat path list.
#[verifier::rlimit(100)]
pub fn generate_profile_nix(
    state: &GlobalProfileState,
    merged: &crate::preset::MergedProfileResult,
    generated_at: &str,
) -> (r: String)
    requires
        state.packages.pinned.entries@.len() < usize::MAX,
    ensures
        r@ == spec_generate_profile(*state, *merged, generated_at@),
{
    let ghost pinnedv = crate::smap::kv_view(state.packages.pinned.entries@);
    let vars = build_pinned_var_names(&state.packages.pinned);
    let ghost varsv = strs_view(vars@);

    let mut out: Vec<char> = Vec::new();
    push_str_chars(&mut out, "# Managed by Mica v0.1.0\n");
    push_str_chars(
        &mut out,
        "# Global user profile - install with: nix-env -if ~/.config/mica/profile.nix\n",
    );
    push_str_chars(&mut out, "# Last generated: ");
    push_str_chars(&mut out, generated_at);
    push_str_chars(&mut out, "\n\n");
    assert(out@ =~= spec_profile_header(generated_at@));

    push_str_chars(&mut out, "let\n");
    push_str_chars(&mut out, "  # mica:pins:begin\n");
    push_str_chars(&mut out, "  # Primary nixpkgs\n");
    push_str_chars(&mut out, "  pkgs = import (fetchTarball {\n");
    push_fetch_fields(&mut out, &state.pin, "    ");
    push_str_chars(&mut out, "  }) {};\n");

    let ghost acc1 = out@;
    let mut k: usize = 0;
    assert(varsv.len() == pinnedv.len());
    while k < state.packages.pinned.entries.len()
        invariant
            k <= state.packages.pinned.entries@.len(),
            pinnedv == crate::smap::kv_view(state.packages.pinned.entries@),
            varsv == strs_view(vars@),
            varsv.len() == pinnedv.len(),
            out@ + spec_profile_pins(pinnedv, varsv, k as int) == acc1 + spec_profile_pins(
                pinnedv,
                varsv,
                0,
            ),
        decreases state.packages.pinned.entries@.len() - k,
    {
        let ghost before = out@;
        assert(pinnedv[k as int] == (
            state.packages.pinned.entries@[k as int].0@,
            state.packages.pinned.entries@[k as int].1@,
        ));
        assert(varsv[k as int] == vars@[k as int]@);
        push_str_chars(&mut out, "\n  # Pin for ");
        push_str_chars(&mut out, state.packages.pinned.entries[k].0.as_str());
        push_str_chars(&mut out, "\n");
        push_str_chars(&mut out, "  pkgs-");
        push_str_chars(&mut out, vars[k].as_str());
        push_str_chars(&mut out, " = import (fetchTarball {\n");
        push_fetch_fields(&mut out, &state.packages.pinned.entries[k].1.pin, "    ");
        push_str_chars(&mut out, "  }) {};\n");
        assert(out@ + spec_profile_pins(pinnedv, varsv, k as int + 1) =~= before
            + spec_profile_pins(pinnedv, varsv, k as int));
        k = k + 1;
    }
    assert(spec_profile_pins(pinnedv, varsv, k as int).len() == 0);
    assert(out@ =~= acc1 + spec_profile_pins(pinnedv, varsv, 0));

    push_str_chars(&mut out, "  # mica:pins:end\n\n");
    push_str_chars(&mut out, "in pkgs.buildEnv {\n");
    push_str_chars(&mut out, "  name = \"mica-profile\";\n\n");
    push_str_chars(&mut out, "  # mica:paths:begin\n");
    push_str_chars(&mut out, "  paths = [\n");

    // preset package groups, paths prefixed with pkgs.
    let ghost groupsv = crate::preset::groups_view(merged.preset_packages@);
    let ghost acc4 = out@;
    let mut g: usize = 0;
    while g < merged.preset_packages.len()
        invariant
            g <= merged.preset_packages@.len(),
            groupsv == crate::preset::groups_view(merged.preset_packages@),
            out@ + spec_groups_lines(groupsv, g as int, "pkgs."@) == acc4 + spec_groups_lines(
                groupsv,
                0,
                "pkgs."@,
            ),
        decreases merged.preset_packages@.len() - g,
    {
        let ghost before = out@;
        assert(groupsv[g as int] == merged.preset_packages@[g as int]@);
        assert(groupsv[g as int].preset == merged.preset_packages@[g as int].preset@);
        push_str_chars(&mut out, "    # Preset: ");
        push_str_chars(&mut out, merged.preset_packages[g].preset.as_str());
        push_str_chars(&mut out, "\n");
        let ghost pkgl = groupsv[g as int].packages;
        let ghost base = out@;
        let mut q: usize = 0;
        while q < merged.preset_packages[g].packages.len()
            invariant
                g < merged.preset_packages@.len(),
                q <= merged.preset_packages@[g as int].packages@.len(),
                groupsv == crate::preset::groups_view(merged.preset_packages@),
                groupsv[g as int] == merged.preset_packages@[g as int]@,
                pkgl == groupsv[g as int].packages,
                base == before + "    # Preset: "@ + groupsv[g as int].preset + "\n"@,
                before + spec_groups_lines(groupsv, g as int, "pkgs."@) == acc4
                    + spec_groups_lines(groupsv, 0, "pkgs."@),
                out@ + spec_group_lines(pkgl, q as int, "pkgs."@) == base + spec_group_lines(
                    pkgl,
                    0,
                    "pkgs."@,
                ),
            decreases merged.preset_packages@[g as int].packages@.len() - q,
        {
            let ghost b2 = out@;
            assert(pkgl[q as int] == merged.preset_packages@[g as int].packages@[q as int]@);
            push_str_chars(&mut out, "    ");
            push_str_chars(&mut out, "pkgs.");
            push_str_chars(&mut out, merged.preset_packages[g].packages[q].as_str());
            push_str_chars(&mut out, "\n");
            assert(out@ + spec_group_lines(pkgl, q as int + 1, "pkgs."@) =~= b2
                + spec_group_lines(pkgl, q as int, "pkgs."@));
            q = q + 1;
        }
        assert(spec_group_lines(pkgl, q as int, "pkgs."@).len() == 0);
        assert(out@ =~= base + spec_group_lines(pkgl, 0, "pkgs."@));
        push_str_chars(&mut out, "\n");
        assert(out@ + spec_groups_lines(groupsv, g as int + 1, "pkgs."@) =~= before
            + spec_groups_lines(groupsv, g as int, "pkgs."@));
        g = g + 1;
    }
    assert(spec_groups_lines(groupsv, g as int, "pkgs."@).len() == 0);

    // user additions
    let ghost userv = strs_view(merged.user_packages@);
    let ghost acc5 = out@;
    if merged.user_packages.len() > 0 {
        push_str_chars(&mut out, "    # User additions\n");
        let ghost base = out@;
        let mut q: usize = 0;
        while q < merged.user_packages.len()
            invariant
                q <= merged.user_packages@.len(),
                userv == strs_view(merged.user_packages@),
                userv.len() > 0,
                base == acc5 + "    # User additions\n"@,
                out@ + spec_group_lines(userv, q as int, "pkgs."@) == base + spec_group_lines(
                    userv,
                    0,
                    "pkgs."@,
                ),
            decreases merged.user_packages@.len() - q,
        {
            let ghost b2 = out@;
            assert(userv[q as int] == merged.user_packages@[q as int]@);
            push_str_chars(&mut out, "    ");
            push_str_chars(&mut out, "pkgs.");
            push_str_chars(&mut out, merged.user_packages[q].as_str());
            push_str_chars(&mut out, "\n");
            assert(out@ + spec_group_lines(userv, q as int + 1, "pkgs."@) =~= b2
                + spec_group_lines(userv, q as int, "pkgs."@));
            q = q + 1;
        }
        assert(spec_group_lines(userv, q as int, "pkgs."@).len() == 0);
        assert(out@ =~= acc5 + spec_user_lines(userv, "pkgs."@));
    }
    assert(out@ == acc5 + spec_user_lines(userv, "pkgs."@));

    // pinned references, without the comment header
    let ghost acc6 = out@;
    let mut k2: usize = 0;
    while k2 < state.packages.pinned.entries.len()
        invariant
            k2 <= state.packages.pinned.entries@.len(),
            pinnedv == crate::smap::kv_view(state.packages.pinned.entries@),
            varsv == strs_view(vars@),
            varsv.len() == pinnedv.len(),
            out@ + spec_pinned_refs(pinnedv, varsv, k2 as int) == acc6 + spec_pinned_refs(
                pinnedv,
                varsv,
                0,
            ),
        decreases state.packages.pinned.entries@.len() - k2,
    {
        let ghost b2 = out@;
        assert(pinnedv[k2 as int] == (
            state.packages.pinned.entries@[k2 as int].0@,
            state.packages.pinned.entries@[k2 as int].1@,
        ));
        assert(varsv[k2 as int] == vars@[k2 as int]@);
        push_str_chars(&mut out, "    pkgs-");
        push_str_chars(&mut out, vars[k2].as_str());
        push_str_chars(&mut out, ".");
        push_str_chars(&mut out, state.packages.pinned.entries[k2].0.as_str());
        push_str_chars(&mut out, "  # ");
        push_str_chars(&mut out, state.packages.pinned.entries[k2].1.version.as_str());
        push_str_chars(&mut out, "\n");
        assert(out@ + spec_pinned_refs(pinnedv, varsv, k2 as int + 1) =~= b2 + spec_pinned_refs(
            pinnedv,
            varsv,
            k2 as int,
        ));
        k2 = k2 + 1;
    }
    assert(spec_pinned_refs(pinnedv, varsv, k2 as int).len() == 0);
    assert(out@ =~= acc6 + spec_pinned_refs(pinnedv, varsv, 0));

    push_str_chars(&mut out, "  ];\n");
    push_str_chars(&mut out, "  # mica:paths:end\n\n");
    push_str_chars(&mut out, "  pathsToLink = [ \"/bin\" \"/share\" ];\n");
    push_str_chars(&mut out, "  extraOutputsToInstall = [ \"man\" \"doc\" ];\n");
    push_str_chars(&mut out, "}\n");

    assert(out@ =~= spec_generate_profile(*state, *merged, generated_at@));
    chars_to_string(&out)
}

// ---------- idempotence ----------

/// Generation is deterministic: the same state, merged result, display
/// name and timestamp always give byte-identical descriptor text. Only
/// the timestamp argument distinguishes successive generations.
pub proof fn lemma_generate_project_deterministic(
    state: ProjectState,
    merged: MergedResult,
    project_name: Seq<char>,
    at1: Seq<char>,
    at2: Seq<char>,
)
    requires
        at1 == at2,
    ensures
        spec_generate_project(state, merged, project_name, at1) == spec_generate_project(
            state,
            merged,
            project_name,
            at2,
        ),
{
}

/// The profile generator is deterministic in the same way.
pub proof fn lemma_generate_profile_deterministic(
    state: GlobalProfileState,
    merged: crate::preset::MergedProfileResult,
    at1: Seq<char>,
    at2: Seq<char>,
)
    requires
        at1 == at2,
    ensures
        spec_generate_profile(state, merged, at1) == spec_generate_profile(state, merged, at2),
{
}

// ---------- public string-level names ----------

/// Sanitizes a name for the descriptor's identifier syntax.
pub fn sanitize_nix_identifier(name: &str) -> (r: String)
    ensures
        r@ == spec_sanitize_ident(name@),
{
    let nc = str_to_chars(name);
    let out = sanitize_ident_chars(&nc);
    chars_to_string(&out)
}

/// Sanitizes a pinned-package attribute into a variable name base.
pub fn sanitize_var_name(name: &str) -> (r: String)
    ensures
        r@ == spec_sanitize_ident(name@),
{
    sanitize_nix_identifier(name)
}

} // verus!
