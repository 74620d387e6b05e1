//! Character-sequence utilities shared by the generator, parser and diff.
//!
//! Executable code works on `Vec<char>`; every function's behaviour is
//! stated over `Seq<char>` by a spec function of the same shape.

use vstd::prelude::*;

verus! {

/// The ASCII whitespace characters that `trim` removes.
pub open spec fn is_space(c: char) -> bool {
    c == ' ' || c == '\t' || c == '\n' || c == '\r' || c == '\u{0b}' || c == '\u{0c}'
}

pub open spec fn spec_trim_start(s: Seq<char>) -> Seq<char>
    decreases s.len(),
{
    if s.len() > 0 && is_space(s[0]) {
        spec_trim_start(s.drop_first())
    } else {
        s
    }
}

pub open spec fn spec_trim_end(s: Seq<char>) -> Seq<char>
    decreases s.len(),
{
    if s.len() > 0 && is_space(s.last()) {
        spec_trim_end(s.drop_last())
    } else {
        s
    }
}

pub open spec fn spec_trim(s: Seq<char>) -> Seq<char> {
    spec_trim_end(spec_trim_start(s))
}

pub open spec fn has_prefix(s: Seq<char>, p: Seq<char>) -> bool {
    p.len() <= s.len() && s.take(p.len() as int) == p
}

pub open spec fn has_suffix(s: Seq<char>, p: Seq<char>) -> bool {
    p.len() <= s.len() && s.skip(s.len() - p.len()) == p
}

/// First position at or after `from` where `m` occurs in `s`.
pub open spec fn spec_find_from(s: Seq<char>, m: Seq<char>, from: int) -> Option<int>
    decreases s.len() - from,
{
    if from < 0 || from + m.len() > s.len() {
        None
    } else if m.len() == 0 {
        Some(from)
    } else if s.subrange(from, from + m.len()) == m {
        Some(from)
    } else {
        spec_find_from(s, m, from + 1)
    }
}

pub proof fn lemma_find_from_bounds(s: Seq<char>, m: Seq<char>, from: int)
    ensures
        spec_find_from(s, m, from) matches Some(e) ==> {
            &&& from <= e
            &&& 0 <= e
            &&& e + m.len() <= s.len()
            &&& s.subrange(e, e + m.len()) == m
        },
    decreases s.len() - from,
{
    if from < 0 || from + m.len() > s.len() {
    } else if m.len() == 0 {
        assert(s.subrange(from, from) =~= m);
    } else if s.subrange(from, from + m.len()) == m {
    } else {
        lemma_find_from_bounds(s, m, from + 1);
    }
}

pub open spec fn spec_find(s: Seq<char>, m: Seq<char>) -> Option<int> {
    spec_find_from(s, m, 0)
}

pub open spec fn contains_sub(s: Seq<char>, m: Seq<char>) -> bool {
    spec_find(s, m) is Some
}

/// Last position at or before `from` where character `c` occurs.
pub open spec fn spec_rfind_char(s: Seq<char>, c: char, from: int) -> Option<int>
    decreases from + 1,
{
    if from < 0 || from >= s.len() {
        None
    } else if s[from] == c {
        Some(from)
    } else {
        spec_rfind_char(s, c, from - 1)
    }
}

pub open spec fn strip_cr(l: Seq<char>) -> Seq<char> {
    if l.len() > 0 && l.last() == '\r' {
        l.drop_last()
    } else {
        l
    }
}

/// Strict lexicographic order on character sequences by code point.
pub open spec fn lex_lt(a: Seq<char>, b: Seq<char>) -> bool
    decreases a.len(),
{
    if b.len() == 0 {
        false
    } else if a.len() == 0 {
        true
    } else if a[0] < b[0] {
        true
    } else if a[0] == b[0] {
        lex_lt(a.drop_first(), b.drop_first())
    } else {
        false
    }
}

pub proof fn lemma_lex_lt_connected(a: Seq<char>, b: Seq<char>)
    ensures
        lex_lt(a, b) || lex_lt(b, a) || a == b,
    decreases a.len(),
{
    if b.len() == 0 {
        if a.len() == 0 {
            assert(a =~= b);
        }
    } else if a.len() == 0 {
    } else if a[0] < b[0] || b[0] < a[0] {
    } else {
        assert(a[0] == b[0]);
        lemma_lex_lt_connected(a.drop_first(), b.drop_first());
        if a.drop_first() == b.drop_first() {
            assert(a.drop_first().len() == b.drop_first().len());
            assert(a.len() == b.len());
            assert forall|i: int| 0 <= i < a.len() implies a[i] == b[i] by {
                if i >= 1 {
                    assert(a[i] == a.drop_first()[i - 1]);
                    assert(b[i] == b.drop_first()[i - 1]);
                }
            }
            assert(a =~= b);
        }
    }
}

pub proof fn lemma_lex_lt_irrefl(a: Seq<char>)
    ensures
        !lex_lt(a, a),
    decreases a.len(),
{
    if a.len() > 0 {
        lemma_lex_lt_irrefl(a.drop_first());
    }
}

pub proof fn lemma_lex_lt_trans(a: Seq<char>, b: Seq<char>, c: Seq<char>)
    requires
        lex_lt(a, b),
        lex_lt(b, c),
    ensures
        lex_lt(a, c),
    decreases a.len(),
{
    if a.len() == 0 {
    } else {
        // b is nonempty since lex_lt(a, b) with a nonempty; c nonempty since lex_lt(b, c).
        if a[0] == b[0] && b[0] == c[0] {
            lemma_lex_lt_trans(a.drop_first(), b.drop_first(), c.drop_first());
        }
    }
}

/// Converts a string slice into its character vector.
pub fn str_to_chars(s: &str) -> (r: Vec<char>)
    ensures
        r@ == s@,
{
    let n = s.unicode_len();
    let mut r: Vec<char> = Vec::new();
    let mut i: usize = 0;
    while i < n
        invariant
            n == s@.len(),
            i <= n,
            r@ == s@.take(i as int),
        decreases n - i,
    {
        let c = s.get_char(i);
        r.push(c);
        i = i + 1;
        assert(r@ =~= s@.take(i as int));
    }
    assert(r@ =~= s@);
    r
}

/// Relies on `String: FromIterator<char>`: collecting characters yields
/// the string with exactly those characters in order.
#[verifier::external_body]
pub(crate) fn chars_to_string(v: &Vec<char>) -> (s: String)
    ensures
        s@ == v@,
{
    v.iter().collect()
}

pub fn chars_eq(a: &[char], b: &[char]) -> (r: bool)
    ensures
        r == (a@ == b@),
{
    if a.len() != b.len() {
        assert(a@ != b@);
        return false;
    }
    let mut i: usize = 0;
    while i < a.len()
        invariant
            a@.len() == b@.len(),
            i <= a@.len(),
            forall|j: int| 0 <= j < i ==> a@[j] == b@[j],
        decreases a@.len() - i,
    {
        if a[i] != b[i] {
            return false;
        }
        i = i + 1;
    }
    assert(a@ =~= b@);
    true
}

pub fn is_space_char(c: char) -> (r: bool)
    ensures
        r == is_space(c),
{
    c == ' ' || c == '\t' || c == '\n' || c == '\r' || c == '\u{0b}' || c == '\u{0c}'
}

pub fn subvec(s: &Vec<char>, a: usize, b: usize) -> (r: Vec<char>)
    requires
        a <= b <= s@.len(),
    ensures
        r@ == s@.subrange(a as int, b as int),
{
    let mut r: Vec<char> = Vec::new();
    let mut i: usize = a;
    while i < b
        invariant
            a <= i <= b <= s@.len(),
            r@ == s@.subrange(a as int, i as int),
        decreases b - i,
    {
        r.push(s[i]);
        i = i + 1;
        assert(r@ =~= s@.subrange(a as int, i as int));
    }
    r
}

/// Appends all of `b` to `out`.
pub fn push_all(out: &mut Vec<char>, b: &Vec<char>)
    ensures
        final(out)@ == old(out)@ + b@,
{
    let mut i: usize = 0;
    while i < b.len()
        invariant
            i <= b@.len(),
            out@ == old(out)@ + b@.take(i as int),
        decreases b@.len() - i,
    {
        out.push(b[i]);
        i = i + 1;
        assert(out@ =~= old(out)@ + b@.take(i as int));
    }
    assert(out@ =~= old(out)@ + b@);
}

/// Appends the characters of a string slice to `out`.
pub fn push_str_chars(out: &mut Vec<char>, s: &str)
    ensures
        final(out)@ == old(out)@ + s@,
{
    let v = str_to_chars(s);
    push_all(out, &v);
}


/// The views of a sequence of character vectors.
pub open spec fn views_of(v: Seq<Vec<char>>) -> Seq<Seq<char>> {
    Seq::new(v.len(), |i: int| v[i]@)
}

fn window_eq(s: &Vec<char>, i: usize, m: &Vec<char>) -> (r: bool)
    requires
        i + m@.len() <= s@.len(),
    ensures
        r == (s@.subrange(i as int, i + m@.len()) == m@),
{
    let n = s.len();
    let mut j: usize = 0;
    while j < m.len()
        invariant
            n == s@.len(),
            i + m@.len() <= n,
            j <= m@.len(),
            forall|k: int| 0 <= k < j ==> s@[i + k] == m@[k],
        decreases m@.len() - j,
    {
        assert(i + j < n);
        if s[i + j] != m[j] {
            assert(s@.subrange(i as int, i + m@.len())[j as int] != m@[j as int]);
            return false;
        }
        j = j + 1;
    }
    assert(s@.subrange(i as int, i + m@.len()) =~= m@);
    true
}

/// First occurrence of `m` in `s` at or after `from`.
pub fn find_in(s: &Vec<char>, m: &Vec<char>, from: usize) -> (r: Option<usize>)
    ensures
        match r {
            Some(e) => spec_find_from(s@, m@, from as int) == Some(e as int),
            None => spec_find_from(s@, m@, from as int) is None,
        },
{
    if m.len() == 0 {
        if from <= s.len() {
            return Some(from);
        } else {
            return None;
        }
    }
    if m.len() > s.len() || from > s.len() - m.len() {
        return None;
    }
    let mut i: usize = from;
    while i <= s.len() - m.len()
        invariant
            from <= i,
            m@.len() >= 1,
            m@.len() <= s@.len(),
            i <= s@.len(),
            spec_find_from(s@, m@, from as int) == spec_find_from(s@, m@, i as int),
        decreases s@.len() - i,
    {
        if window_eq(s, i, m) {
            return Some(i);
        }
        i = i + 1;
    }
    assert(spec_find_from(s@, m@, i as int) is None);
    None
}

pub fn contains_in(s: &Vec<char>, m: &Vec<char>) -> (r: bool)
    ensures
        r == contains_sub(s@, m@),
{
    find_in(s, m, 0).is_some()
}

/// Last occurrence of character `c` anywhere in `s`.
pub fn rfind_char_last(s: &Vec<char>, c: char) -> (r: Option<usize>)
    ensures
        match r {
            Some(e) => spec_rfind_char(s@, c, s@.len() - 1) == Some(e as int),
            None => spec_rfind_char(s@, c, s@.len() - 1) is None,
        },
{
    if s.len() == 0 {
        return None;
    }
    let from = s.len() - 1;
    let mut i: usize = from;
    loop
        invariant
            i <= from < s@.len(),
            from == s@.len() - 1,
            spec_rfind_char(s@, c, from as int) == spec_rfind_char(s@, c, i as int),
        decreases i,
    {
        if s[i] == c {
            return Some(i);
        }
        if i == 0 {
            assert(spec_rfind_char(s@, c, -1) is None);
            return None;
        }
        i = i - 1;
    }
}

pub fn starts_with_chars(s: &Vec<char>, p: &Vec<char>) -> (r: bool)
    ensures
        r == has_prefix(s@, p@),
{
    if p.len() > s.len() {
        return false;
    }
    let r = window_eq(s, 0, p);
    assert(s@.subrange(0, p@.len() as int) =~= s@.take(p@.len() as int));
    r
}

pub fn ends_with_chars(s: &Vec<char>, p: &Vec<char>) -> (r: bool)
    ensures
        r == has_suffix(s@, p@),
{
    if p.len() > s.len() {
        return false;
    }
    let r = window_eq(s, s.len() - p.len(), p);
    assert(s@.subrange(s@.len() - p@.len(), s@.len() - p@.len() + p@.len()) =~= s@.skip(
        s@.len() - p@.len(),
    ));
    r
}

/// Index of the first character that is not whitespace.
pub fn trim_start_index(s: &Vec<char>) -> (a: usize)
    ensures
        a <= s@.len(),
        spec_trim_start(s@) == s@.skip(a as int),
{
    let mut a: usize = 0;
    assert(s@.skip(0) =~= s@);
    while a < s.len() && is_space_char(s[a])
        invariant
            a <= s@.len(),
            spec_trim_start(s@) == spec_trim_start(s@.skip(a as int)),
        decreases s@.len() - a,
    {
        assert(s@.skip(a as int).drop_first() =~= s@.skip(a as int + 1));
        a = a + 1;
    }
    assert(spec_trim_start(s@.skip(a as int)) == s@.skip(a as int));
    a
}

/// Index just past the last character that is not whitespace.
pub fn trim_end_index(s: &Vec<char>) -> (b: usize)
    ensures
        b <= s@.len(),
        spec_trim_end(s@) == s@.take(b as int),
{
    let mut b: usize = s.len();
    assert(s@.take(b as int) =~= s@);
    while b > 0 && is_space_char(s[b - 1])
        invariant
            b <= s@.len(),
            spec_trim_end(s@) == spec_trim_end(s@.take(b as int)),
        decreases b,
    {
        assert(s@.take(b as int).drop_last() =~= s@.take(b as int - 1));
        assert(s@.take(b as int).last() == s@[b - 1]);
        b = b - 1;
    }
    assert(spec_trim_end(s@.take(b as int)) == s@.take(b as int));
    b
}

/// Both ends trimmed of whitespace.
pub fn trim_chars(s: &Vec<char>) -> (r: Vec<char>)
    ensures
        r@ == spec_trim(s@),
{
    let a = trim_start_index(s);
    let tail = subvec(s, a, s.len());
    assert(tail@ =~= s@.skip(a as int));
    let b = trim_end_index(&tail);
    let r = subvec(&tail, 0, b);
    assert(r@ =~= tail@.take(b as int));
    r
}

pub fn is_blank(s: &Vec<char>) -> (r: bool)
    ensures
        r == (spec_trim(s@).len() == 0),
{
    let t = trim_chars(s);
    t.len() == 0
}

/// The lines of `s`, as `str::lines` yields them: split at `'\n'`,
/// no empty final piece after a trailing newline, and one trailing
/// `'\r'` removed from each piece.
pub open spec fn spec_lines(s: Seq<char>) -> Seq<Seq<char>>
    decreases s.len(),
    via spec_lines_dec
{
    if s.len() == 0 {
        Seq::empty()
    } else {
        match spec_find(s, seq!['\n']) {
            Some(e) => seq![strip_cr(s.take(e))] + spec_lines(s.skip(e + 1)),
            None => seq![strip_cr(s)],
        }
    }
}

#[via_fn]
proof fn spec_lines_dec(s: Seq<char>) {
    lemma_find_from_bounds(s, seq!['\n'], 0);
}

pub proof fn lemma_find_shift(s: Seq<char>, m: Seq<char>, k: int, from: int)
    requires
        0 <= k <= s.len(),
        k <= from,
    ensures
        spec_find_from(s, m, from) == match spec_find_from(s.skip(k), m, from - k) {
            Some(e) => Some(e + k),
            None => None::<int>,
        },
    decreases s.len() - from + 1,
{
    if from + m.len() > s.len() {
    } else if m.len() == 0 {
    } else {
        assert(s.subrange(from, from + m.len()) =~= s.skip(k).subrange(
            from - k,
            from - k + m.len(),
        ));
        if s.subrange(from, from + m.len()) == m {
        } else {
            lemma_find_shift(s, m, k, from + 1);
        }
    }
}

pub fn strip_cr_vec(l: Vec<char>) -> (r: Vec<char>)
    ensures
        r@ == strip_cr(l@),
{
    let mut v = l;
    let ghost orig = v@;
    if v.len() > 0 && v[v.len() - 1] == '\r' {
        let _ = v.pop();
        assert(v@ =~= orig.drop_last());
    }
    v
}

/// Splits `s` into its lines.
pub fn split_lines(s: &Vec<char>) -> (r: Vec<Vec<char>>)
    ensures
        views_of(r@) == spec_lines(s@),
{
    let nl: Vec<char> = vec!['\n'];
    assert(nl@ =~= seq!['\n']);
    let mut out: Vec<Vec<char>> = Vec::new();
    let mut pos: usize = 0;
    assert(s@.skip(0) =~= s@);
    assert(views_of(out@) =~= Seq::<Seq<char>>::empty());
    while pos < s.len()
        invariant
            pos <= s@.len(),
            nl@ == seq!['\n'],
            spec_lines(s@) == views_of(out@) + spec_lines(s@.skip(pos as int)),
        decreases s@.len() - pos,
    {
        let ghost rest = s@.skip(pos as int);
        let ghost prev = views_of(out@);
        proof {
            lemma_find_shift(s@, nl@, pos as int, pos as int);
            lemma_find_from_bounds(s@, nl@, pos as int);
        }
        match find_in(s, &nl, pos) {
            Some(e) => {
                assert(spec_find(rest, seq!['\n']) == Some(e - pos));
                let line = strip_cr_vec(subvec(s, pos, e));
                assert(rest.take(e - pos) =~= s@.subrange(pos as int, e as int));
                out.push(line);
                assert(views_of(out@) =~= prev + seq![strip_cr(rest.take(e - pos))]);
                assert(rest.skip(e - pos + 1) =~= s@.skip(e + 1));
                pos = e + 1;
            },
            None => {
                assert(spec_find(rest, seq!['\n']) is None);
                let line = strip_cr_vec(subvec(s, pos, s.len()));
                assert(rest =~= s@.subrange(pos as int, s@.len() as int));
                out.push(line);
                assert(views_of(out@) =~= prev + seq![strip_cr(rest)]);
                pos = s.len();
                assert(s@.skip(pos as int).len() == 0);
            },
        }
        assert(spec_lines(s@) =~= views_of(out@) + spec_lines(s@.skip(pos as int)));
    }
    assert(s@.skip(pos as int).len() == 0);
    assert(views_of(out@) =~= spec_lines(s@));
    out
}

/// Joins lines with `'\n'` between them (no trailing newline).
pub open spec fn spec_join_nl(lines: Seq<Seq<char>>) -> Seq<char>
    decreases lines.len(),
{
    if lines.len() == 0 {
        Seq::empty()
    } else if lines.len() == 1 {
        lines[0]
    } else {
        lines[0] + seq!['\n'] + spec_join_nl(lines.drop_first())
    }
}

proof fn lemma_join_nl_unfold(lines: Seq<Seq<char>>, i: int)
    requires
        0 <= i < lines.len(),
    ensures
        spec_join_nl(lines.skip(i)) == if i + 1 < lines.len() {
            lines[i] + seq!['\n'] + spec_join_nl(lines.skip(i + 1))
        } else {
            lines[i]
        },
{
    assert(lines.skip(i).len() == lines.len() - i);
    assert(lines.skip(i)[0] == lines[i]);
    if i + 1 < lines.len() {
        assert(lines.skip(i).drop_first() =~= lines.skip(i + 1));
    }
}

pub fn join_nl(lines: &Vec<Vec<char>>) -> (r: Vec<char>)
    ensures
        r@ == spec_join_nl(views_of(lines@)),
{
    let ghost lv = views_of(lines@);
    let mut out: Vec<char> = Vec::new();
    if lines.len() == 0 {
        return out;
    }
    let mut i: usize = 0;
    proof {
        assert(lv.skip(0) =~= lv);
    }
    while i < lines.len()
        invariant
            i <= lines@.len(),
            lines@.len() > 0,
            lv == views_of(lines@),
            (i == 0 && out@ == Seq::<char>::empty()) || (0 < i < lines@.len() && out@
                + seq!['\n'] + spec_join_nl(lv.skip(i as int)) == spec_join_nl(lv)) || (i
                == lines@.len() && out@ == spec_join_nl(lv)),
        decreases lines@.len() - i,
    {
        proof {
            lemma_join_nl_unfold(lv, i as int);
            if i == 0 && lines@.len() > 1 {
                lemma_join_nl_unfold(lv, 0);
                assert(lv.skip(0) =~= lv);
            }
        }
        let ghost prev = out@;
        if i > 0 {
            out.push('\n');
        }
        push_all(&mut out, &lines[i]);
        assert(lines[i as int]@ == lv[i as int]);
        proof {
            if i == 0 {
                assert(out@ =~= lv[0]);
                assert(spec_join_nl(lv.skip(0)) == spec_join_nl(lv));
                if 1 < lv.len() {
                    assert(spec_join_nl(lv) == lv[0] + seq!['\n'] + spec_join_nl(lv.skip(1)));
                    assert(out@ + seq!['\n'] + spec_join_nl(lv.skip(1)) =~= spec_join_nl(lv));
                } else {
                    assert(spec_join_nl(lv) == lv[0]);
                }
            } else {
                assert(out@ =~= prev + seq!['\n'] + lv[i as int]);
                if i + 1 < lv.len() {
                    assert(spec_join_nl(lv.skip(i as int)) == lv[i as int] + seq!['\n']
                        + spec_join_nl(lv.skip(i as int + 1)));
                    assert(out@ + seq!['\n'] + spec_join_nl(lv.skip(i as int + 1)) =~= prev
                        + seq!['\n'] + spec_join_nl(lv.skip(i as int)));
                } else {
                    assert(spec_join_nl(lv.skip(i as int)) == lv[i as int]);
                    assert(out@ =~= prev + seq!['\n'] + spec_join_nl(lv.skip(i as int)));
                }
            }
        }
        i = i + 1;
    }
    out
}

} // verus!

verus! {

/// The views of a sequence of strings.
pub open spec fn strs_view(v: Seq<String>) -> Seq<Seq<char>> {
    Seq::new(v.len(), |i: int| v[i]@)
}

/// Clones a vector of strings, keeping the views.
pub fn clone_strings(v: &Vec<String>) -> (r: Vec<String>)
    ensures
        strs_view(r@) == strs_view(v@),
{
    let mut r: Vec<String> = Vec::new();
    let mut i: usize = 0;
    while i < v.len()
        invariant
            i <= v@.len(),
            r@.len() == i,
            strs_view(r@) == strs_view(v@).take(i as int),
        decreases v@.len() - i,
    {
        let ghost prev = r@;
        r.push(v[i].clone());
        assert(r@[i as int] == v@[i as int]);
        i = i + 1;
        assert forall|j: int| 0 <= j < i implies strs_view(r@)[j] == strs_view(v@).take(
            i as int,
        )[j] by {
            if j < i - 1 {
                assert(r@[j] == prev[j]);
                assert(strs_view(prev)[j] == strs_view(v@).take(i - 1)[j]);
            }
        }
        assert(strs_view(r@) =~= strs_view(v@).take(i as int));
    }
    assert(strs_view(r@) =~= strs_view(v@));
    r
}

/// Whether one of the strings has exactly these characters.
pub fn strs_contain(xs: &Vec<String>, x: &Vec<char>) -> (r: bool)
    ensures
        r == strs_view(xs@).contains(x@),
{
    let mut i: usize = 0;
    while i < xs.len()
        invariant
            i <= xs@.len(),
            forall|j: int| 0 <= j < i ==> strs_view(xs@)[j] != x@,
        decreases xs@.len() - i,
    {
        let c = str_to_chars(xs[i].as_str());
        if chars_eq(c.as_slice(), x.as_slice()) {
            assert(strs_view(xs@)[i as int] == x@);
            return true;
        }
        i = i + 1;
    }
    assert(!strs_view(xs@).contains(x@)) by {
        if strs_view(xs@).contains(x@) {
            let j = choose|j: int| 0 <= j < strs_view(xs@).len() && strs_view(xs@)[j] == x@;
            assert(strs_view(xs@)[j] != x@);
        }
    }
    false
}

} // verus!
