//! Environment values: a tagged union of literal strings and raw
//! expressions, carried through state as a plain string with a reserved
//! prefix. This module renders values into descriptor syntax, classifies
//! descriptor scalars back into tagged values, and proves the tagging
//! round trip.

use vstd::prelude::*;

use crate::text::{has_prefix, has_suffix, is_space, push_all, spec_trim, spec_trim_end,
    spec_trim_start, starts_with_chars, str_to_chars, subvec, trim_chars};

verus! {

/// The reserved tag: a stored value beginning with this prefix is a raw
/// expression; anything else is a literal string.
pub open spec fn prefix_chars() -> Seq<char> {
    "__mica_nix_expr__:"@
}

pub fn nix_expr_prefix_vec() -> (r: Vec<char>)
    ensures
        r@ == prefix_chars(),
{
    str_to_chars("__mica_nix_expr__:")
}

/// Backslash-escaping for literal text embedded in descriptor strings:
/// `\` and `"` get a backslash, and an interpolation opener `${` becomes
/// `\${` so it cannot be read as code.
pub open spec fn spec_escape(s: Seq<char>) -> Seq<char>
    decreases s.len(),
{
    if s.len() == 0 {
        s
    } else if s[0] == '\\' {
        seq!['\\', '\\'] + spec_escape(s.drop_first())
    } else if s[0] == '"' {
        seq!['\\', '"'] + spec_escape(s.drop_first())
    } else if s[0] == '$' && s.len() > 1 && s[1] == '{' {
        seq!['\\', '$', '{'] + spec_escape(s.skip(2))
    } else {
        seq![s[0]] + spec_escape(s.drop_first())
    }
}

pub fn escape_chars(s: &Vec<char>) -> (r: Vec<char>)
    ensures
        r@ == spec_escape(s@),
{
    let mut out: Vec<char> = Vec::new();
    let mut i: usize = 0;
    assert(s@.skip(0) =~= s@);
    while i < s.len()
        invariant
            i <= s@.len(),
            spec_escape(s@) == out@ + spec_escape(s@.skip(i as int)),
        decreases s@.len() - i,
    {
        let ghost rest = s@.skip(i as int);
        assert(rest[0] == s@[i as int]);
        assert(rest.drop_first() =~= s@.skip(i as int + 1));
        if s[i] == '\\' {
            out.push('\\');
            out.push('\\');
            i = i + 1;
        } else if s[i] == '"' {
            out.push('\\');
            out.push('"');
            i = i + 1;
        } else if s[i] == '$' && i + 1 < s.len() && s[i + 1] == '{' {
            assert(rest.len() > 1 && rest[1] == s@[i as int + 1]);
            assert(rest.skip(2) =~= s@.skip(i as int + 2));
            out.push('\\');
            out.push('$');
            out.push('{');
            i = i + 2;
        } else {
            out.push(s[i]);
            i = i + 1;
        }
        assert(spec_escape(s@) =~= out@ + spec_escape(s@.skip(i as int)));
    }
    assert(s@.skip(i as int).len() == 0);
    assert(out@ =~= spec_escape(s@));
    out
}

pub open spec fn spec_strip_lead(s: Seq<char>, c: char) -> Seq<char>
    decreases s.len(),
{
    if s.len() > 0 && s[0] == c {
        spec_strip_lead(s.drop_first(), c)
    } else {
        s
    }
}

pub open spec fn spec_strip_trail(s: Seq<char>, c: char) -> Seq<char>
    decreases s.len(),
{
    if s.len() > 0 && s.last() == c {
        spec_strip_trail(s.drop_last(), c)
    } else {
        s
    }
}

pub open spec fn spec_trim_matches(s: Seq<char>, c: char) -> Seq<char> {
    spec_strip_trail(spec_strip_lead(s, c), c)
}

/// Surrounding double then single quotes removed, as the parser does.
pub open spec fn spec_trim_quotes(s: Seq<char>) -> Seq<char> {
    spec_trim_matches(spec_trim_matches(s, '"'), '\'')
}

fn strip_lead_index(s: &Vec<char>, c: char) -> (a: usize)
    ensures
        a <= s@.len(),
        spec_strip_lead(s@, c) == s@.skip(a as int),
{
    let mut a: usize = 0;
    assert(s@.skip(0) =~= s@);
    while a < s.len() && s[a] == c
        invariant
            a <= s@.len(),
            spec_strip_lead(s@, c) == spec_strip_lead(s@.skip(a as int), c),
        decreases s@.len() - a,
    {
        assert(s@.skip(a as int).drop_first() =~= s@.skip(a as int + 1));
        a = a + 1;
    }
    assert(spec_strip_lead(s@.skip(a as int), c) == s@.skip(a as int));
    a
}

fn strip_trail_index(s: &Vec<char>, c: char) -> (b: usize)
    ensures
        b <= s@.len(),
        spec_strip_trail(s@, c) == s@.take(b as int),
{
    let mut b: usize = s.len();
    assert(s@.take(b as int) =~= s@);
    while b > 0 && s[b - 1] == c
        invariant
            b <= s@.len(),
            spec_strip_trail(s@, c) == spec_strip_trail(s@.take(b as int), c),
        decreases b,
    {
        assert(s@.take(b as int).drop_last() =~= s@.take(b as int - 1));
        assert(s@.take(b as int).last() == s@[b - 1]);
        b = b - 1;
    }
    assert(spec_strip_trail(s@.take(b as int), c) == s@.take(b as int));
    b
}

pub fn trim_matches_chars(s: &Vec<char>, c: char) -> (r: Vec<char>)
    ensures
        r@ == spec_trim_matches(s@, c),
{
    let a = strip_lead_index(s, c);
    let lead = subvec(s, a, s.len());
    assert(lead@ =~= s@.skip(a as int));
    let b = strip_trail_index(&lead, c);
    let r = subvec(&lead, 0, b);
    assert(r@ =~= lead@.take(b as int));
    r
}

pub fn trim_quotes_chars(s: &Vec<char>) -> (r: Vec<char>)
    ensures
        r@ == spec_trim_quotes(s@),
{
    let dq = trim_matches_chars(s, '"');
    trim_matches_chars(&dq, '\'')
}

/// An interpolation opener `${` at `i` whose `$` is not backslash-escaped.
pub open spec fn interp_at(s: Seq<char>, i: int) -> bool {
    0 <= i && i + 1 < s.len() && s[i] == '$' && s[i + 1] == '{' && (i == 0 || s[i - 1] != '\\')
}

pub open spec fn spec_has_unescaped_interp(s: Seq<char>) -> bool {
    exists|i: int| interp_at(s, i)
}

/// Whether the text holds an interpolation opener not hidden behind a
/// backslash.
pub fn contains_unescaped_nix_interpolation_chars(v: &Vec<char>) -> (r: bool)
    ensures
        r == spec_has_unescaped_interp(v@),
{
    if v.len() < 2 {
        assert forall|j: int| !interp_at(v@, j) by {}
        return false;
    }
    let mut i: usize = 0;
    while i < v.len() - 1
        invariant
            v@.len() >= 2,
            i <= v@.len() - 1,
            forall|j: int| 0 <= j < i ==> !interp_at(v@, j),
        decreases v@.len() - i,
    {
        if v[i] == '$' && v[i + 1] == '{' && (i == 0 || v[i - 1] != '\\') {
            assert(interp_at(v@, i as int));
            return true;
        }
        i = i + 1;
    }
    assert forall|j: int| !interp_at(v@, j) by {
        if 0 <= j && j + 1 < v@.len() {
            assert(j < i);
        }
    }
    false
}

/// A fully quoted scalar holding an unescaped interpolation opener.
pub open spec fn spec_is_quoted_nix_expression(v: Seq<char>) -> bool {
    let t = spec_trim(v);
    t.len() >= 2 && t[0] == '"' && t.last() == '"' && spec_has_unescaped_interp(t)
}

pub fn is_quoted_nix_expression_chars(v: &Vec<char>) -> (r: bool)
    ensures
        r == spec_is_quoted_nix_expression(v@),
{
    let t = trim_chars(v);
    if t.len() < 2 || t[0] != '"' || t[t.len() - 1] != '"' {
        return false;
    }
    contains_unescaped_nix_interpolation_chars(&t)
}

/// A fully triple-quoted (indented-string) scalar.
pub open spec fn spec_is_indented_literal(v: Seq<char>) -> bool {
    v.len() >= 4 && has_prefix(v, seq!['\'', '\'']) && has_suffix(v, seq!['\'', '\''])
}

pub fn is_indented_literal_chars(v: &Vec<char>) -> (r: bool)
    ensures
        r == spec_is_indented_literal(v@),
{
    if v.len() < 4 {
        return false;
    }
    if !(v[0] == '\'' && v[1] == '\'' && v[v.len() - 1] == '\'' && v[v.len() - 2] == '\'') {
        return false;
    }
    assert(v@.take(2) =~= seq!['\'', '\'']);
    assert(v@.skip(v@.len() - 2) =~= seq!['\'', '\'']);
    true
}

/// An entirely unquoted scalar.
pub open spec fn spec_is_unquoted_expr(v: Seq<char>) -> bool {
    !(v.len() == 0 || (v[0] == '"' && v.last() == '"') || (has_prefix(v, seq!['\'', '\''])
        && has_suffix(v, seq!['\'', '\''])))
}

pub fn is_unquoted_expr_chars(v: &Vec<char>) -> (r: bool)
    ensures
        r == spec_is_unquoted_expr(v@),
{
    if v.len() == 0 {
        return false;
    }
    if v[0] == '"' && v[v.len() - 1] == '"' {
        return false;
    }
    if v.len() >= 2 && v[0] == '\'' && v[1] == '\'' && v[v.len() - 1] == '\'' && v[v.len() - 2]
        == '\'' {
        assert(v@.take(2) =~= seq!['\'', '\'']);
        assert(v@.skip(v@.len() - 2) =~= seq!['\'', '\'']);
        return false;
    }
    assert(!(has_prefix(v@, seq!['\'', '\'']) && has_suffix(v@, seq!['\'', '\'']))) by {
        if has_prefix(v@, seq!['\'', '\'']) && has_suffix(v@, seq!['\'', '\'']) {
            assert(v@.take(2)[0] == '\'' && v@.take(2)[1] == '\'');
            assert(v@.skip(v@.len() - 2)[0] == '\'' && v@.skip(v@.len() - 2)[1] == '\'');
        }
    }
    true
}

/// Classification of a descriptor scalar back into a stored value:
/// raw expressions are re-tagged with the prefix, payload kept verbatim;
/// any other quoted scalar is a literal with its quotes stripped.
pub open spec fn spec_parse_env_value(v: Seq<char>) -> Seq<char> {
    let t = spec_trim(v);
    if spec_is_quoted_nix_expression(t) || spec_is_indented_literal(t) || spec_is_unquoted_expr(t) {
        prefix_chars() + t
    } else {
        spec_trim_quotes(t)
    }
}

pub fn parse_env_value_chars(v: &Vec<char>) -> (r: Vec<char>)
    ensures
        r@ == spec_parse_env_value(v@),
{
    let t = trim_chars(v);
    if is_quoted_nix_expression_chars(&t) || is_indented_literal_chars(&t) || is_unquoted_expr_chars(
        &t,
    ) {
        let mut out = nix_expr_prefix_vec();
        push_all(&mut out, &t);
        out
    } else {
        trim_quotes_chars(&t)
    }
}

/// How a raw expression payload is emitted: trimmed and verbatim, except
/// an empty payload becomes an empty string and a payload opening with
/// `${` is wrapped in quotes, since a bare interpolation is not a legal
/// standalone expression.
pub open spec fn spec_render_raw(v: Seq<char>) -> Seq<char> {
    let t = spec_trim(v);
    if t.len() == 0 {
        seq!['"', '"']
    } else if has_prefix(t, seq!['$', '{']) {
        seq!['"'] + t + seq!['"']
    } else {
        t
    }
}

pub fn render_raw_chars(v: &Vec<char>) -> (r: Vec<char>)
    ensures
        r@ == spec_render_raw(v@),
{
    let t = trim_chars(v);
    if t.len() == 0 {
        let r: Vec<char> = vec!['"', '"'];
        assert(r@ =~= seq!['"', '"']);
        return r;
    }
    if t.len() >= 2 && t[0] == '$' && t[1] == '{' {
        assert(t@.take(2) =~= seq!['$', '{']);
        let mut out: Vec<char> = vec!['"'];
        assert(out@ =~= seq!['"']);
        push_all(&mut out, &t);
        out.push('"');
        assert(out@ =~= seq!['"'] + t@ + seq!['"']);
        return out;
    }
    assert(!has_prefix(t@, seq!['$', '{'])) by {
        if has_prefix(t@, seq!['$', '{']) {
            assert(t@.take(2)[0] == '$' && t@.take(2)[1] == '{');
        }
    }
    t
}

/// A value that already looks like a quoted or indented descriptor string.
pub open spec fn spec_is_expression_literal(v: Seq<char>) -> bool {
    let t = spec_trim(v);
    (t.len() >= 2 && t[0] == '"' && t.last() == '"') || (t.len() >= 4 && has_prefix(
        t,
        seq!['\'', '\''],
    ) && has_suffix(t, seq!['\'', '\'']))
}

pub fn is_expression_literal_chars(v: &Vec<char>) -> (r: bool)
    ensures
        r == spec_is_expression_literal(v@),
{
    let t = trim_chars(v);
    if t.len() >= 2 && t[0] == '"' && t[t.len() - 1] == '"' {
        return true;
    }
    if t.len() >= 4 && t[0] == '\'' && t[1] == '\'' && t[t.len() - 1] == '\'' && t[t.len() - 2]
        == '\'' {
        assert(t@.take(2) =~= seq!['\'', '\'']);
        assert(t@.skip(t@.len() - 2) =~= seq!['\'', '\'']);
        return true;
    }
    assert(!(t@.len() >= 4 && has_prefix(t@, seq!['\'', '\'']) && has_suffix(
        t@,
        seq!['\'', '\''],
    ))) by {
        if t@.len() >= 4 && has_prefix(t@, seq!['\'', '\'']) && has_suffix(t@, seq!['\'', '\'']) {
            assert(t@.take(2)[0] == '\'' && t@.take(2)[1] == '\'');
            assert(t@.skip(t@.len() - 2)[0] == '\'' && t@.skip(t@.len() - 2)[1] == '\'');
        }
    }
    false
}

/// How a stored environment value is emitted into the descriptor.
pub open spec fn spec_render_env_value(v: Seq<char>) -> Seq<char> {
    if has_prefix(v, prefix_chars()) {
        spec_render_raw(v.skip(prefix_chars().len() as int))
    } else if spec_is_expression_literal(v) {
        spec_trim(v)
    } else {
        seq!['"'] + spec_escape(v) + seq!['"']
    }
}

pub fn render_env_value_chars(v: &Vec<char>) -> (r: Vec<char>)
    ensures
        r@ == spec_render_env_value(v@),
{
    let prefix = nix_expr_prefix_vec();
    if starts_with_chars(v, &prefix) {
        let payload = subvec(v, prefix.len(), v.len());
        assert(payload@ =~= v@.skip(prefix_chars().len() as int));
        return render_raw_chars(&payload);
    }
    if is_expression_literal_chars(v) {
        return trim_chars(v);
    }
    let mut out: Vec<char> = vec!['"'];
    assert(out@ =~= seq!['"']);
    let esc = escape_chars(v);
    push_all(&mut out, &esc);
    out.push('"');
    assert(out@ =~= seq!['"'] + spec_escape(v@) + seq!['"']);
    out
}

/// Whether the editor treats a stored value as raw expression or literal.
#[derive(Debug, Clone, Copy, PartialEq, Eq, Structural)]
pub enum EnvValueMode {
    String,
    NixExpression,
}

impl EnvValueMode {
    pub fn toggle(self) -> (r: EnvValueMode)
        ensures
            self is String ==> r is NixExpression,
            self is NixExpression ==> r is String,
    {
        match self {
            EnvValueMode::String => EnvValueMode::NixExpression,
            EnvValueMode::NixExpression => EnvValueMode::String,
        }
    }
}

/// A stored value that predates the tag but already reads as an
/// expression: a quoted scalar with unescaped interpolation, or an
/// indented string.
pub open spec fn spec_is_legacy_expr(v: Seq<char>) -> bool {
    spec_is_quoted_nix_expression(v) || {
        let t = spec_trim(v);
        t.len() >= 4 && has_prefix(t, seq!['\'', '\'']) && has_suffix(t, seq!['\'', '\''])
    }
}

pub fn is_legacy_nix_expression_value(value: &str) -> (r: bool)
    ensures
        r == spec_is_legacy_expr(value@),
{
    let v = str_to_chars(value);
    let t = trim_chars(&v);
    if is_quoted_nix_expression_chars(&v) {
        return true;
    }
    if t.len() >= 4 && t[0] == '\'' && t[1] == '\'' && t[t.len() - 1] == '\'' && t[t.len() - 2]
        == '\'' {
        assert(t@.take(2) =~= seq!['\'', '\'']);
        assert(t@.skip(t@.len() - 2) =~= seq!['\'', '\'']);
        return true;
    }
    assert(!(t@.len() >= 4 && has_prefix(t@, seq!['\'', '\'']) && has_suffix(
        t@,
        seq!['\'', '\''],
    ))) by {
        if has_prefix(t@, seq!['\'', '\'']) && has_suffix(t@, seq!['\'', '\'']) {
            assert(t@.take(2)[0] == '\'' && t@.take(2)[1] == '\'');
            assert(t@.skip(t@.len() - 2)[0] == '\'' && t@.skip(t@.len() - 2)[1] == '\'');
        }
    }
    false
}

pub fn contains_unescaped_nix_interpolation(value: &str) -> (r: bool)
    ensures
        r == spec_has_unescaped_interp(value@),
{
    let v = str_to_chars(value);
    contains_unescaped_nix_interpolation_chars(&v)
}

/// The editor mode a stored value opens in.
pub fn env_value_mode_from_stored(value: &str) -> (r: EnvValueMode)
    ensures
        (r is NixExpression) == (has_prefix(value@, prefix_chars()) || spec_is_legacy_expr(
            value@,
        )),
{
    let v = str_to_chars(value);
    let prefix = nix_expr_prefix_vec();
    if starts_with_chars(&v, &prefix) || is_legacy_nix_expression_value(value) {
        EnvValueMode::NixExpression
    } else {
        EnvValueMode::String
    }
}

/// The text shown in the editor: the stored value with the tag removed.
pub fn env_value_for_editor(value: &str) -> (r: String)
    ensures
        has_prefix(value@, prefix_chars()) ==> r@ == value@.skip(prefix_chars().len() as int),
        !has_prefix(value@, prefix_chars()) ==> r@ == value@,
{
    let v = str_to_chars(value);
    let prefix = nix_expr_prefix_vec();
    if starts_with_chars(&v, &prefix) {
        let payload = subvec(&v, prefix.len(), v.len());
        assert(payload@ =~= v@.skip(prefix_chars().len() as int));
        crate::text::chars_to_string(&payload)
    } else {
        crate::text::chars_to_string(&v)
    }
}

/// Encodes an editor input back into a stored value: literals are kept
/// as typed; expressions are trimmed and tagged, and an expression that
/// trims to nothing is rejected.
pub fn encode_env_editor_value(raw: &str, mode: EnvValueMode) -> (r: Result<String, String>)
    ensures
        mode is String ==> r is Ok && r->Ok_0@ == raw@,
        mode is NixExpression && spec_trim(raw@).len() == 0 ==> r is Err,
        mode is NixExpression && spec_trim(raw@).len() > 0 ==> r is Ok && r->Ok_0@ == prefix_chars()
            + spec_trim(raw@),
{
    match mode {
        EnvValueMode::String => {
            let v = str_to_chars(raw);
            Ok(crate::text::chars_to_string(&v))
        },
        EnvValueMode::NixExpression => {
            let v = str_to_chars(raw);
            let t = trim_chars(&v);
            if t.len() == 0 {
                let msg = str_to_chars("expression cannot be empty");
                return Err(crate::text::chars_to_string(&msg));
            }
            let mut out = nix_expr_prefix_vec();
            push_all(&mut out, &t);
            Ok(crate::text::chars_to_string(&out))
        },
    }
}

/// Emits a stored environment value as descriptor text.
pub fn render_nix_env_value(value: &str) -> (r: String)
    ensures
        r@ == spec_render_env_value(value@),
{
    let v = str_to_chars(value);
    let out = render_env_value_chars(&v);
    crate::text::chars_to_string(&out)
}

/// Classifies a descriptor scalar back into a stored value.
pub fn parse_env_value(value: &str) -> (r: String)
    ensures
        r@ == spec_parse_env_value(value@),
{
    let v = str_to_chars(value);
    let out = parse_env_value_chars(&v);
    crate::text::chars_to_string(&out)
}

/// A literal with none of the characters that escaping rewrites.
pub open spec fn plain_literal(v: Seq<char>) -> bool {
    forall|i: int|
        0 <= i < v.len() ==> (#[trigger] v[i]) != '\\' && v[i] != '"' && !(v[i] == '$' && i + 1
            < v.len() && v[i + 1] == '{')
}

proof fn lemma_escape_plain(v: Seq<char>)
    requires
        plain_literal(v),
    ensures
        spec_escape(v) == v,
    decreases v.len(),
{
    if v.len() > 0 {
        let t = v.drop_first();
        assert(forall|i: int| 0 <= i < t.len() ==> t[i] == v[i + 1]);
        assert(plain_literal(t));
        lemma_escape_plain(t);
        assert(spec_escape(v) =~= v);
    }
}

proof fn lemma_trim_of_quoted(w: Seq<char>)
    requires
        w.len() >= 2,
        !is_space(w[0]),
        !is_space(w.last()),
    ensures
        spec_trim(w) == w,
{
    assert(spec_trim_start(w) == w);
    assert(spec_trim_end(w) == w);
}

/// The env tagging round trip, literal case: a literal value free of
/// backslashes, quotes and interpolation openers, not itself shaped like
/// a descriptor string, and without single quotes at its ends, renders
/// to a quoted scalar that parses back to exactly the same literal.
pub proof fn lemma_env_literal_round_trip(v: Seq<char>)
    requires
        !has_prefix(v, prefix_chars()),
        plain_literal(v),
        !spec_is_expression_literal(v),
        v.len() > 0 ==> v[0] != '\'' && v.last() != '\'',
    ensures
        spec_parse_env_value(spec_render_env_value(v)) == v,
{
    lemma_escape_plain(v);
    let w = seq!['"'] + spec_escape(v) + seq!['"'];
    assert(w =~= seq!['"'] + v + seq!['"']);
    assert(spec_render_env_value(v) == w);
    assert(w[0] == '"' && w.last() == '"');
    lemma_trim_of_quoted(w);
    // no unescaped interpolation inside the quoted form
    assert forall|i: int| !interp_at(w, i) by {
        if 0 <= i && i + 1 < w.len() {
            if i == 0 {
                assert(w[0] == '"');
            } else if i + 1 == w.len() - 1 {
                assert(w[i + 1] == '"');
            } else {
                assert(w[i] == v[i - 1] && w[i + 1] == v[i]);
            }
        }
    }
    assert(!spec_is_quoted_nix_expression(w));
    assert(!spec_is_indented_literal(w)) by {
        if has_prefix(w, seq!['\'', '\'']) {
            assert(w.take(2)[0] == '\'');
        }
    }
    assert(!spec_is_unquoted_expr(w));
    // stripping the quotes recovers the literal
    assert(spec_trim_quotes(w) == v) by {
        assert(w[0] == '"');
        assert(w.drop_first() =~= v + seq!['"']);
        if v.len() > 0 {
            assert((v + seq!['"'])[0] == v[0] && v[0] != '"');
            assert(spec_strip_lead(v + seq!['"'], '"') == v + seq!['"']);
            assert(spec_strip_lead(w, '"') == spec_strip_lead(w.drop_first(), '"'));
            assert(spec_strip_lead(w, '"') == v + seq!['"']);
            assert((v + seq!['"']).last() == '"');
            assert((v + seq!['"']).drop_last() =~= v);
            assert(v.last() != '"');
            assert(spec_strip_trail(v, '"') == v);
            assert(spec_strip_trail(v + seq!['"'], '"') == spec_strip_trail(
                (v + seq!['"']).drop_last(),
                '"',
            ));
            assert(spec_strip_trail(v + seq!['"'], '"') == v);
            assert(spec_trim_matches(w, '"') == v);
            assert(v[0] != '\'' && v.last() != '\'');
            assert(spec_strip_lead(v, '\'') == v);
            assert(spec_strip_trail(v, '\'') == v);
        } else {
            assert(w.drop_first() =~= seq!['"']);
            assert(seq!['"'].drop_first() =~= Seq::<char>::empty());
            assert(spec_strip_lead(Seq::<char>::empty(), '"') == Seq::<char>::empty());
            assert(spec_strip_lead(seq!['"'], '"') == spec_strip_lead(
                seq!['"'].drop_first(),
                '"',
            ));
            assert(spec_strip_lead(w, '"') == spec_strip_lead(w.drop_first(), '"'));
            assert(spec_strip_lead(w, '"') =~= Seq::<char>::empty());
            assert(spec_strip_trail(Seq::<char>::empty(), '"') == Seq::<char>::empty());
            assert(spec_trim_matches(w, '"') =~= Seq::<char>::empty());
            assert(spec_trim_quotes(w) =~= v);
        }
    }
}

/// The env tagging round trip, raw-expression case: a trimmed nonempty
/// payload that does not open with `${` and is not shaped like a quoted
/// or indented string is emitted verbatim and parses back to the same
/// tagged value.
pub proof fn lemma_env_raw_round_trip(p: Seq<char>)
    requires
        spec_trim(p) == p,
        p.len() > 0,
        !has_prefix(p, seq!['$', '{']),
        !(p[0] == '"' && p.last() == '"'),
        !(has_prefix(p, seq!['\'', '\'']) && has_suffix(p, seq!['\'', '\''])),
    ensures
        spec_parse_env_value(spec_render_env_value(prefix_chars() + p)) == prefix_chars() + p,
{
    let stored = prefix_chars() + p;
    assert(stored.take(prefix_chars().len() as int) =~= prefix_chars());
    assert(has_prefix(stored, prefix_chars()));
    assert(stored.skip(prefix_chars().len() as int) =~= p);
    assert(spec_render_env_value(stored) == spec_render_raw(p));
    assert(spec_render_raw(p) == p);
    assert(!spec_is_quoted_nix_expression(p));
    assert(!spec_is_indented_literal(p));
    assert(spec_is_unquoted_expr(p));
    assert(spec_parse_env_value(p) == prefix_chars() + p);
}

/// The env tagging round trip, bare-interpolation case: a trimmed payload
/// opening with `${` is emitted wrapped in quotes, and parses back tagged
/// with the quoted form as its payload.
pub proof fn lemma_env_raw_interp_round_trip(p: Seq<char>)
    requires
        spec_trim(p) == p,
        has_prefix(p, seq!['$', '{']),
    ensures
        spec_parse_env_value(spec_render_env_value(prefix_chars() + p)) == prefix_chars()
            + seq!['"'] + p + seq!['"'],
{
    let stored = prefix_chars() + p;
    assert(stored.take(prefix_chars().len() as int) =~= prefix_chars());
    assert(has_prefix(stored, prefix_chars()));
    assert(stored.skip(prefix_chars().len() as int) =~= p);
    assert(p.len() >= 2);
    assert(p[0] == '$' && p[1] == '{') by {
        assert(p.take(2)[0] == '$' && p.take(2)[1] == '{');
    }
    let w = seq!['"'] + p + seq!['"'];
    assert(spec_render_env_value(stored) == w);
    assert(w[0] == '"' && w.last() == '"');
    lemma_trim_of_quoted(w);
    assert(interp_at(w, 1)) by {
        assert(w[1] == p[0] && w[2] == p[1] && w[0] == '"');
    }
    assert(spec_is_quoted_nix_expression(w));
    assert(spec_parse_env_value(w) == prefix_chars() + w);
}

} // verus!

verus! {

/// Leading occurrences of `c` removed.
pub fn strip_lead_chars(s: &Vec<char>, c: char) -> (r: Vec<char>)
    ensures
        r@ == spec_strip_lead(s@, c),
{
    let a = strip_lead_index(s, c);
    let r = subvec(s, a, s.len());
    assert(r@ =~= s@.skip(a as int));
    r
}

/// Trailing occurrences of `c` removed.
pub fn strip_trail_chars(s: &Vec<char>, c: char) -> (r: Vec<char>)
    ensures
        r@ == spec_strip_trail(s@, c),
{
    let b = strip_trail_index(s, c);
    let r = subvec(s, 0, b);
    assert(r@ =~= s@.take(b as int));
    r
}

} // verus!

verus! {

/// Whether a stored value carries the raw-expression tag.
pub fn env_value_is_nix_expression(value: &str) -> (r: bool)
    ensures
        r == has_prefix(value@, prefix_chars()),
{
    let v = str_to_chars(value);
    let prefix = nix_expr_prefix_vec();
    starts_with_chars(&v, &prefix)
}

/// The display form of a stored value: the tag removed when present.
pub fn env_value_for_display(value: &str) -> (r: String)
    ensures
        has_prefix(value@, prefix_chars()) ==> r@ == value@.skip(prefix_chars().len() as int),
        !has_prefix(value@, prefix_chars()) ==> r@ == value@,
{
    env_value_for_editor(value)
}

} // verus!

verus! {

/// Escapes free text for embedding in a quoted descriptor string.
pub fn escape_nix_string(value: &str) -> (r: String)
    ensures
        r@ == spec_escape(value@),
{
    let v = str_to_chars(value);
    let out = escape_chars(&v);
    crate::text::chars_to_string(&out)
}

/// Emits a raw-expression payload as descriptor text.
pub fn render_raw_nix_expression(value: &str) -> (r: String)
    ensures
        r@ == spec_render_raw(value@),
{
    let v = str_to_chars(value);
    let out = render_raw_chars(&v);
    crate::text::chars_to_string(&out)
}

/// Whether a value already reads as a quoted or indented descriptor
/// string.
pub fn is_nix_expression_literal(value: &str) -> (r: bool)
    ensures
        r == spec_is_expression_literal(value@),
{
    let v = str_to_chars(value);
    is_expression_literal_chars(&v)
}

/// Surrounding double then single quotes removed.
pub fn trim_quotes(value: &str) -> (r: String)
    ensures
        r@ == spec_trim_quotes(value@),
{
    let v = str_to_chars(value);
    let out = trim_quotes_chars(&v);
    crate::text::chars_to_string(&out)
}

/// A fully quoted scalar holding an unescaped interpolation opener.
pub fn is_quoted_nix_expression(value: &str) -> (r: bool)
    ensures
        r == spec_is_quoted_nix_expression(value@),
{
    let v = str_to_chars(value);
    is_quoted_nix_expression_chars(&v)
}

/// Whether the text holds an unescaped interpolation opener.
pub fn contains_unescaped_interpolation(value: &str) -> (r: bool)
    ensures
        r == spec_has_unescaped_interp(value@),
{
    contains_unescaped_nix_interpolation(value)
}

/// A fully triple-quoted (indented-string) scalar.
pub fn is_indented_string_literal(value: &str) -> (r: bool)
    ensures
        r == spec_is_indented_literal(value@),
{
    let v = str_to_chars(value);
    is_indented_literal_chars(&v)
}

/// An entirely unquoted scalar.
pub fn is_unquoted_nix_expression(value: &str) -> (r: bool)
    ensures
        r == spec_is_unquoted_expr(value@),
{
    let v = str_to_chars(value);
    is_unquoted_expr_chars(&v)
}

} // verus!
