//! Pure helpers from around the core: source-location parsing, pin
//! validation, label sanitization, and index bookkeeping values.

use vstd::prelude::*;

use crate::smap::StrMap;
use crate::state::{Pin, PinnedPackage};
use crate::text::{chars_to_string, chars_eq, has_prefix, has_suffix, push_all, push_str_chars,
    spec_find, spec_trim, str_to_chars, strs_view, subvec, trim_chars};

verus! {

// ---------- source locations ----------

/// The recognized source-host prefixes, in the order they are tried.
pub open spec fn spec_repo_rest(u: Seq<char>) -> Option<Seq<char>> {
    if has_prefix(u, "https://github.com/"@) {
        Some(u.skip("https://github.com/"@.len() as int))
    } else if has_prefix(u, "http://github.com/"@) {
        Some(u.skip("http://github.com/"@.len() as int))
    } else if has_prefix(u, "git@github.com:"@) {
        Some(u.skip("git@github.com:"@.len() as int))
    } else if has_prefix(u, "github.com/"@) {
        Some(u.skip("github.com/"@.len() as int))
    } else {
        None
    }
}

/// The nonempty `/`-separated pieces of a path.
pub open spec fn spec_path_pieces(s: Seq<char>) -> Seq<Seq<char>>
    decreases s.len(),
    via spec_path_pieces_dec
{
    if s.len() == 0 {
        Seq::empty()
    } else {
        match spec_find(s, seq!['/']) {
            Some(p) => (if p == 0 {
                Seq::<Seq<char>>::empty()
            } else {
                seq![s.take(p)]
            }) + spec_path_pieces(s.skip(p + 1)),
            None => seq![s],
        }
    }
}

#[via_fn]
proof fn spec_path_pieces_dec(s: Seq<char>) {
    crate::text::lemma_find_from_bounds(s, seq!['/'], 0);
}

/// Trailing occurrences of a character removed.
pub open spec fn spec_strip_trail_char(s: Seq<char>, c: char) -> Seq<char> {
    crate::envvalue::spec_strip_trail(s, c)
}

/// The owner/repository pair a source URL names: host prefix removed,
/// query or fragment dropped, a `.git` ending stripped, and exactly two
/// path pieces demanded.
pub open spec fn spec_parse_github_repo(url: Seq<char>) -> Option<(Seq<char>, Seq<char>)> {
    let t = spec_trim(url);
    if t.len() == 0 {
        None
    } else {
        match spec_repo_rest(t) {
            None => None,
            Some(rest0) => {
                let rest1 = spec_strip_trail_char(rest0, '/');
                let rest = match spec_find_qf(rest1) {
                    Some(p) => rest1.take(p),
                    None => rest1,
                };
                let pieces = spec_path_pieces(rest);
                if pieces.len() != 2 {
                    None
                } else {
                    let owner = pieces[0];
                    let repo = if has_suffix(pieces[1], ".git"@) {
                        pieces[1].take(pieces[1].len() - ".git"@.len())
                    } else {
                        pieces[1]
                    };
                    if owner.len() == 0 || repo.len() == 0 {
                        None
                    } else {
                        Some((owner, repo))
                    }
                }
            },
        }
    }
}

/// The first `?` or `#`, whichever comes first.
pub open spec fn spec_find_qf(s: Seq<char>) -> Option<int> {
    match (spec_find(s, seq!['?']), spec_find(s, seq!['#'])) {
        (Some(a), Some(b)) => Some(
            if a <= b {
                a
            } else {
                b
            },
        ),
        (Some(a), None) => Some(a),
        (None, Some(b)) => Some(b),
        (None, None) => None,
    }
}

fn find_qf(s: &Vec<char>) -> (r: Option<usize>)
    ensures
        match r {
            Some(p) => spec_find_qf(s@) == Some(p as int) && p <= s@.len(),
            None => spec_find_qf(s@) is None,
        },
{
    let q: Vec<char> = vec!['?'];
    assert(q@ =~= seq!['?']);
    let h: Vec<char> = vec!['#'];
    assert(h@ =~= seq!['#']);
    proof {
        crate::text::lemma_find_from_bounds(s@, q@, 0);
        crate::text::lemma_find_from_bounds(s@, h@, 0);
    }
    match (crate::text::find_in(s, &q, 0), crate::text::find_in(s, &h, 0)) {
        (Some(a), Some(b)) => Some(
            if a <= b {
                a
            } else {
                b
            },
        ),
        (Some(a), None) => Some(a),
        (None, Some(b)) => Some(b),
        (None, None) => None,
    }
}

fn path_pieces(s: &Vec<char>) -> (r: Vec<Vec<char>>)
    ensures
        crate::text::views_of(r@) == spec_path_pieces(s@),
{
    let slash: Vec<char> = vec!['/'];
    assert(slash@ =~= seq!['/']);
    let mut out: Vec<Vec<char>> = Vec::new();
    let mut pos: usize = 0;
    assert(s@.skip(0) =~= s@);
    assert(crate::text::views_of(out@) =~= Seq::<Seq<char>>::empty());
    while pos < s.len()
        invariant
            pos <= s@.len(),
            slash@ == seq!['/'],
            spec_path_pieces(s@) == crate::text::views_of(out@) + spec_path_pieces(
                s@.skip(pos as int),
            ),
        decreases s@.len() - pos,
    {
        let ghost rest = s@.skip(pos as int);
        let ghost prev = crate::text::views_of(out@);
        proof {
            crate::text::lemma_find_shift(s@, slash@, pos as int, pos as int);
            crate::text::lemma_find_from_bounds(s@, slash@, pos as int);
        }
        match crate::text::find_in(s, &slash, pos) {
            Some(e) => {
                assert(spec_find(rest, seq!['/']) == Some(e - pos));
                if e > pos {
                    let piece = subvec(s, pos, e);
                    assert(piece@ =~= rest.take(e - pos));
                    out.push(piece);
                    assert(crate::text::views_of(out@) =~= prev.push(rest.take(e - pos)));
                }
                assert(rest.skip(e - pos + 1) =~= s@.skip(e + 1));
                pos = e + 1;
            },
            None => {
                assert(spec_find(rest, seq!['/']) is None);
                let piece = subvec(s, pos, s.len());
                assert(piece@ =~= rest);
                out.push(piece);
                assert(crate::text::views_of(out@) =~= prev.push(rest));
                pos = s.len();
            },
        }
        assert(spec_path_pieces(s@) =~= crate::text::views_of(out@) + spec_path_pieces(
            s@.skip(pos as int),
        ));
    }
    assert(s@.skip(pos as int).len() == 0);
    assert(crate::text::views_of(out@) =~= spec_path_pieces(s@));
    out
}

/// Splits a source URL into its owner and repository names, or reports
/// the URL as invalid.
pub fn parse_github_repo(url: &str) -> (r: Result<(String, String), String>)
    ensures
        match r {
            Ok(p) => spec_parse_github_repo(url@) == Some((p.0@, p.1@)),
            Err(orig) => spec_parse_github_repo(url@) is None,
        },
{
    let uc = str_to_chars(url);
    let t = trim_chars(&uc);
    if t.len() == 0 {
        return Err(chars_to_string(&uc));
    }
    let prefixes = [
        "https://github.com/",
        "http://github.com/",
        "git@github.com:",
        "github.com/",
    ];
    let p0 = str_to_chars(prefixes[0]);
    let p1 = str_to_chars(prefixes[1]);
    let p2 = str_to_chars(prefixes[2]);
    let p3 = str_to_chars(prefixes[3]);
    let rest0: Vec<char> = if crate::text::starts_with_chars(&t, &p0) {
        let v = subvec(&t, p0.len(), t.len());
        assert(v@ =~= t@.skip("https://github.com/"@.len() as int));
        v
    } else if crate::text::starts_with_chars(&t, &p1) {
        let v = subvec(&t, p1.len(), t.len());
        assert(v@ =~= t@.skip("http://github.com/"@.len() as int));
        v
    } else if crate::text::starts_with_chars(&t, &p2) {
        let v = subvec(&t, p2.len(), t.len());
        assert(v@ =~= t@.skip("git@github.com:"@.len() as int));
        v
    } else if crate::text::starts_with_chars(&t, &p3) {
        let v = subvec(&t, p3.len(), t.len());
        assert(v@ =~= t@.skip("github.com/"@.len() as int));
        v
    } else {
        return Err(chars_to_string(&t));
    };
    let rest1 = crate::envvalue::strip_trail_chars(&rest0, '/');
    let rest = match find_qf(&rest1) {
        Some(p) => {
            let v = subvec(&rest1, 0, p);
            assert(v@ =~= rest1@.take(p as int));
            v
        },
        None => rest1,
    };
    let pieces = path_pieces(&rest);
    let ghost piecesv = crate::text::views_of(pieces@);
    if pieces.len() != 2 {
        return Err(chars_to_string(&t));
    }
    let owner = subvec(&pieces[0], 0, pieces[0].len());
    assert(owner@ =~= piecesv[0]);
    let dot_git = str_to_chars(".git");
    let repo_raw = &pieces[1];
    assert(repo_raw@ == piecesv[1]);
    let repo: Vec<char> = if crate::text::ends_with_chars(repo_raw, &dot_git) {
        let v = subvec(repo_raw, 0, repo_raw.len() - dot_git.len());
        assert(v@ =~= piecesv[1].take(piecesv[1].len() - ".git"@.len()));
        v
    } else {
        subvec(repo_raw, 0, repo_raw.len())
    };
    if owner.len() == 0 || repo.len() == 0 {
        return Err(chars_to_string(&t));
    }
    Ok((chars_to_string(&owner), chars_to_string(&repo)))
}

/// Percent-encoding for a source reference: unreserved characters pass
/// through; every other character is written as `%` and two uppercase
/// hex digits of each of its encoded bytes.
pub open spec fn is_unreserved(b: u8) -> bool {
    (65 <= b && b <= 90) || (97 <= b && b <= 122) || (48 <= b && b <= 57) || b == 45 || b == 95
        || b == 46 || b == 126
}

pub open spec fn hex_digit(d: int) -> char {
    if d < 10 {
        crate::nixgen::digit_char(d)
    } else if d == 10 {
        'A'
    } else if d == 11 {
        'B'
    } else if d == 12 {
        'C'
    } else if d == 13 {
        'D'
    } else if d == 14 {
        'E'
    } else {
        'F'
    }
}

pub open spec fn spec_encode_bytes(bs: Seq<u8>, i: int) -> Seq<char>
    decreases bs.len() - i,
{
    if i < 0 || i >= bs.len() {
        Seq::empty()
    } else {
        (if is_unreserved(bs[i]) {
            seq![bs[i] as char]
        } else {
            seq!['%', hex_digit(bs[i] as int / 16), hex_digit(bs[i] as int % 16)]
        }) + spec_encode_bytes(bs, i + 1)
    }
}

/// Encodes a reference for use inside a request path.
pub fn encode_github_ref(reference: &str) -> (r: String)
    ensures
        r@ == spec_encode_bytes(spec_bytes_of(reference@), 0),
{
    let bs = ref_bytes(reference);
    let ghost bsv = bs@;
    let mut out: Vec<char> = Vec::new();
    let mut i: usize = 0;
    assert(out@ =~= Seq::<char>::empty());
    while i < bs.len()
        invariant
            i <= bs@.len(),
            bsv == bs@,
            spec_encode_bytes(bsv, 0) == out@ + spec_encode_bytes(bsv, i as int),
        decreases bs@.len() - i,
    {
        let ghost prev = out@;
        let b = bs[i];
        let unreserved = (65 <= b && b <= 90) || (97 <= b && b <= 122) || (48 <= b && b <= 57)
            || b == 45 || b == 95 || b == 46 || b == 126;
        if unreserved {
            out.push(byte_to_char(b));
            assert(out@ =~= prev + seq![bsv[i as int] as char]);
        } else {
            out.push('%');
            out.push(hex_of(b / 16));
            out.push(hex_of(b % 16));
            assert(out@ =~= prev + seq![
                '%',
                hex_digit(bsv[i as int] as int / 16),
                hex_digit(bsv[i as int] as int % 16),
            ]);
        }
        i = i + 1;
        assert(spec_encode_bytes(bsv, 0) =~= out@ + spec_encode_bytes(bsv, i as int));
    }
    assert(out@ =~= spec_encode_bytes(bsv, 0));
    chars_to_string(&out)
}

/// The encoded bytes of the text.
pub open spec fn spec_bytes_of(s: Seq<char>) -> Seq<u8> {
    vstd::utf8::encode_utf8(s)
}

/// The text's encoded bytes.
fn ref_bytes(s: &str) -> (r: Vec<u8>)
    ensures
        r@ == spec_bytes_of(s@),
{
    let b = s.as_bytes();
    vstd::slice::slice_to_vec(b)
}

fn hex_of(d: u8) -> (c: char)
    requires
        d < 16,
    ensures
        c == hex_digit(d as int),
{
    if d < 10 {
        crate::nixgen::digit_of(d as usize)
    } else if d == 10 {
        'A'
    } else if d == 11 {
        'B'
    } else if d == 12 {
        'C'
    } else if d == 13 {
        'D'
    } else if d == 14 {
        'E'
    } else {
        'F'
    }
}

/// Relies on Rust's byte-to-char conversion: a byte in the 7-bit range
/// is the character with that code point.
#[verifier::external_body]
fn byte_to_char(b: u8) -> (c: char)
    requires
        is_unreserved(b),
    ensures
        c == b as char,
{
    b as char
}

// ---------- pin validation ----------

/// A pin is complete when its revision and hash are nonblank and neither
/// is the placeholder sentinel.
pub open spec fn spec_pin_complete(pin: crate::state::PinView) -> bool {
    spec_trim(pin.rev).len() > 0 && spec_trim(pin.sha256).len() > 0 && pin.rev != "CHANGEME"@
        && pin.sha256 != "CHANGEME"@
}

/// Checks that a pin can be generated from; an incomplete pin blocks
/// generation.
pub fn ensure_pin_complete(pin: &Pin) -> (r: Result<(), String>)
    ensures
        r is Ok <==> spec_pin_complete(pin@),
{
    let rev = str_to_chars(pin.rev.as_str());
    let sha = str_to_chars(pin.sha256.as_str());
    let sentinel = str_to_chars("CHANGEME");
    let rev_t = trim_chars(&rev);
    let sha_t = trim_chars(&sha);
    if rev_t.len() == 0 || sha_t.len() == 0 || chars_eq(rev.as_slice(), sentinel.as_slice())
        || chars_eq(sha.as_slice(), sentinel.as_slice()) {
        let msg = str_to_chars("incomplete pin");
        return Err(chars_to_string(&msg));
    }
    Ok(())
}

/// Overwrites each pin field for which a new value was given.
pub fn update_pin_fields(
    pin: &mut Pin,
    url: Option<String>,
    rev: Option<String>,
    sha256: Option<String>,
    branch: Option<String>,
)
    ensures
        final(pin).url@ == (match url {
            Some(u) => u@,
            None => old(pin).url@,
        }),
        final(pin).rev@ == (match rev {
            Some(v) => v@,
            None => old(pin).rev@,
        }),
        final(pin).sha256@ == (match sha256 {
            Some(v) => v@,
            None => old(pin).sha256@,
        }),
        final(pin).branch@ == (match branch {
            Some(v) => v@,
            None => old(pin).branch@,
        }),
        final(pin).name == old(pin).name,
        final(pin).updated == old(pin).updated,
{
    match url {
        Some(u) => {
            pin.url = u;
        },
        None => {},
    }
    match rev {
        Some(v) => {
            pin.rev = v;
        },
        None => {},
    }
    match sha256 {
        Some(v) => {
            pin.sha256 = v;
        },
        None => {},
    }
    match branch {
        Some(v) => {
            pin.branch = v;
        },
        None => {},
    }
}

/// A valid pin parameter name: a letter or underscore, then letters,
/// digits and underscores.
pub open spec fn spec_valid_pin_name(n: Seq<char>) -> bool {
    n.len() > 0 && (('a' <= n[0] && n[0] <= 'z') || ('A' <= n[0] && n[0] <= 'Z') || n[0] == '_')
        && (forall|i: int| 0 < i < n.len() ==> crate::nixgen::is_ident_char(#[trigger] n[i]))
}

pub fn is_valid_pin_name(name: &str) -> (r: bool)
    ensures
        r == spec_valid_pin_name(name@),
{
    let nc = str_to_chars(name);
    if nc.len() == 0 {
        return false;
    }
    let first = nc[0];
    if !(('a' <= first && first <= 'z') || ('A' <= first && first <= 'Z') || first == '_') {
        return false;
    }
    let mut i: usize = 1;
    while i < nc.len()
        invariant
            1 <= i <= nc@.len(),
            nc@ == name@,
            forall|j: int| 0 < j < i ==> crate::nixgen::is_ident_char(#[trigger] nc@[j]),
        decreases nc@.len() - i,
    {
        let c = nc[i];
        if !(('a' <= c && c <= 'z') || ('A' <= c && c <= 'Z') || ('0' <= c && c <= '9') || c
            == '_') {
            return false;
        }
        i = i + 1;
    }
    true
}

// ---------- labels and index values ----------

/// A label sanitized for index use: alphanumerics lowered where ASCII,
/// everything else an underscore; empty becomes a fixed label.
pub open spec fn spec_label_char(c: char) -> char {
    if ('a' <= c && c <= 'z') || ('0' <= c && c <= '9') {
        c
    } else if 'A' <= c && c <= 'Z' {
        lower_ascii(c)
    } else {
        '_'
    }
}

/// The lowercase counterpart of an ASCII uppercase letter.
pub uninterp spec fn lower_ascii(c: char) -> char;

/// Relies on char::to_ascii_lowercase: the lowercase counterpart of an
/// ASCII letter, a fixed mapping.
#[verifier::external_body]
fn lower_ascii_exec(c: char) -> (r: char)
    requires
        'A' <= c && c <= 'Z',
    ensures
        r == lower_ascii(c),
{
    c.to_ascii_lowercase()
}

pub open spec fn spec_sanitize_pin_label(s: Seq<char>) -> Seq<char> {
    let mapped = s.map_values(|c: char| spec_label_char(c));
    if mapped.len() == 0 {
        "pin"@
    } else {
        mapped
    }
}

/// Sanitizes a display label into an index-friendly name.
pub fn sanitize_pin_label(value: &str) -> (r: String)
    ensures
        r@ == spec_sanitize_pin_label(value@),
{
    let vc = str_to_chars(value);
    let ghost mapped = vc@.map_values(|c: char| spec_label_char(c));
    let mut out: Vec<char> = Vec::new();
    let mut i: usize = 0;
    while i < vc.len()
        invariant
            i <= vc@.len(),
            vc@ == value@,
            mapped == vc@.map_values(|c: char| spec_label_char(c)),
            out@ == mapped.take(i as int),
        decreases vc@.len() - i,
    {
        let c = vc[i];
        if ('a' <= c && c <= 'z') || ('0' <= c && c <= '9') {
            out.push(c);
        } else if 'A' <= c && c <= 'Z' {
            out.push(lower_ascii_exec(c));
        } else {
            out.push('_');
        }
        i = i + 1;
        assert(out@ =~= mapped.take(i as int));
    }
    assert(out@ =~= mapped);
    if out.len() == 0 {
        let v = str_to_chars("pin");
        return chars_to_string(&v);
    }
    chars_to_string(&out)
}

/// An attribute path with a `nixos.` or `pkgs.` prefix removed.
pub fn normalize_attr_path(value: &str) -> (r: String)
    ensures
        r@ == crate::nixparse::spec_normalize_package_name(value@),
{
    let vc = str_to_chars(value);
    let out = crate::nixparse::normalize_package_name(&vc);
    chars_to_string(&out)
}

/// A descriptor-syntax list of quoted strings.
pub open spec fn spec_nix_string_list(items: Seq<Seq<char>>, i: int) -> Seq<char>
    decreases items.len() - i,
{
    if i < 0 || i >= items.len() {
        Seq::empty()
    } else {
        seq![' ', '"'] + crate::envvalue::spec_escape(items[i]) + seq!['"'] + spec_nix_string_list(
            items,
            i + 1,
        )
    }
}

/// Renders a list of strings as a descriptor list literal.
pub fn nix_string_list(items: &Vec<String>) -> (r: String)
    ensures
        items@.len() == 0 ==> r@ == "[ ]"@,
        items@.len() > 0 ==> r@ == seq!['['] + spec_nix_string_list(strs_view(items@), 0)
            + " ]"@,
{
    if items.len() == 0 {
        let v = str_to_chars("[ ]");
        return chars_to_string(&v);
    }
    let ghost iv = strs_view(items@);
    let mut out: Vec<char> = vec!['['];
    assert(out@ =~= seq!['[']);
    let mut i: usize = 0;
    while i < items.len()
        invariant
            i <= items@.len(),
            iv == strs_view(items@),
            out@ + spec_nix_string_list(iv, i as int) == seq!['['] + spec_nix_string_list(iv, 0),
        decreases items@.len() - i,
    {
        let ghost prev = out@;
        assert(items@[i as int]@ == iv[i as int]);
        out.push(' ');
        out.push('"');
        let ic = str_to_chars(items[i].as_str());
        let esc = crate::envvalue::escape_chars(&ic);
        push_all(&mut out, &esc);
        out.push('"');
        assert(out@ =~= prev + (seq![' ', '"'] + crate::envvalue::spec_escape(iv[i as int])
            + seq!['"']));
        assert(out@ + spec_nix_string_list(iv, i as int + 1) =~= prev + spec_nix_string_list(
            iv,
            i as int,
        ));
        i = i + 1;
    }
    assert(spec_nix_string_list(iv, i as int).len() == 0);
    push_str_chars(&mut out, " ]");
    assert(out@ =~= seq!['['] + spec_nix_string_list(iv, 0) + " ]"@);
    chars_to_string(&out)
}

/// The candidate index locations for a remote snapshot: an explicit
/// `.db` location is kept as is; otherwise the commit-named snapshot is
/// tried first, then the fixed fallback name.
pub open spec fn spec_remote_index_urls(remote: Seq<char>, commit: Option<Seq<char>>) -> Seq<
    Seq<char>,
> {
    let t = spec_trim(remote);
    if t.len() == 0 {
        Seq::empty()
    } else if has_suffix(t, ".db"@) {
        seq![t]
    } else {
        let base = spec_strip_trail_char(t, '/');
        (match commit {
            Some(cm) => if spec_trim(cm).len() > 0 {
                seq![base + seq!['/'] + spec_trim(cm) + ".db"@]
            } else {
                Seq::<Seq<char>>::empty()
            },
            None => Seq::<Seq<char>>::empty(),
        }) + seq![base + "/index.db"@]
    }
}

/// Resolves the locations to try for a remote index snapshot, most
/// specific first.
pub fn resolve_remote_index_urls(remote_url: &str, commit: Option<&str>) -> (r: Vec<String>)
    ensures
        strs_view(r@) == spec_remote_index_urls(
            remote_url@,
            match commit {
                Some(cm) => Some(cm@),
                None => None,
            },
        ),
{
    let rc = str_to_chars(remote_url);
    let t = trim_chars(&rc);
    let mut out: Vec<String> = Vec::new();
    assert(strs_view(out@) =~= Seq::<Seq<char>>::empty());
    if t.len() == 0 {
        return out;
    }
    let db = str_to_chars(".db");
    if crate::text::ends_with_chars(&t, &db) {
        out.push(chars_to_string(&t));
        assert(strs_view(out@) =~= seq![spec_trim(remote_url@)]);
        return out;
    }
    let base = crate::envvalue::strip_trail_chars(&t, '/');
    match commit {
        Some(cm) => {
            let cc = str_to_chars(cm);
            let ct = trim_chars(&cc);
            if ct.len() > 0 {
                let mut u = subvec(&base, 0, base.len());
                assert(u@ =~= base@);
                u.push('/');
                push_all(&mut u, &ct);
                push_str_chars(&mut u, ".db");
                assert(u@ =~= base@ + seq!['/'] + spec_trim(cm@) + ".db"@);
                out.push(chars_to_string(&u));
                assert(strs_view(out@) =~= seq![base@ + seq!['/'] + spec_trim(cm@) + ".db"@]);
            }
        },
        None => {},
    }
    let ghost sofar = strs_view(out@);
    let mut f = subvec(&base, 0, base.len());
    assert(f@ =~= base@);
    push_str_chars(&mut f, "/index.db");
    out.push(chars_to_string(&f));
    assert(strs_view(out@) =~= sofar.push(base@ + "/index.db"@));
    assert(strs_view(out@) =~= spec_remote_index_urls(
        remote_url@,
        match commit {
            Some(cm) => Some(cm@),
            None => None,
        },
    ));
    out
}

/// The fixed-length hash alphabet the prefetch output uses.
pub open spec fn is_base32_char(c: char) -> bool {
    ('0' <= c && c <= '9') || c == 'a' || c == 'b' || c == 'c' || c == 'd' || c == 'f' || c == 'g'
        || c == 'h' || c == 'i' || c == 'j' || c == 'k' || c == 'l' || c == 'm' || c == 'n' || c
        == 'p' || c == 'q' || c == 'r' || c == 's' || c == 'v' || c == 'w' || c == 'x' || c == 'y'
        || c == 'z'
}

pub open spec fn spec_is_base32_hash(s: Seq<char>) -> bool {
    s.len() == 52 && forall|i: int| 0 <= i < s.len() ==> is_base32_char(#[trigger] s[i])
}

/// Whether the text is a 52-character hash in the prefetch alphabet.
pub fn is_nix_base32_hash(value: &str) -> (r: bool)
    ensures
        r == spec_is_base32_hash(value@),
{
    let vc = str_to_chars(value);
    if vc.len() != 52 {
        return false;
    }
    let mut i: usize = 0;
    while i < vc.len()
        invariant
            i <= vc@.len(),
            vc@ == value@,
            forall|j: int| 0 <= j < i ==> is_base32_char(#[trigger] vc@[j]),
        decreases vc@.len() - i,
    {
        let c = vc[i];
        let ok = ('0' <= c && c <= '9') || c == 'a' || c == 'b' || c == 'c' || c == 'd' || c == 'f'
            || c == 'g' || c == 'h' || c == 'i' || c == 'j' || c == 'k' || c == 'l' || c == 'm'
            || c == 'n' || c == 'p' || c == 'q' || c == 'r' || c == 's' || c == 'v' || c == 'w'
            || c == 'x' || c == 'y' || c == 'z';
        if !ok {
            return false;
        }
        i = i + 1;
    }
    true
}

/// The last trimmed line of tool output that is such a hash.
pub open spec fn spec_last_hash_line(lines: Seq<Seq<char>>, i: int) -> Option<Seq<char>>
    decreases i + 1,
{
    if i < 0 || i >= lines.len() {
        None
    } else if spec_is_base32_hash(spec_trim(lines[i])) {
        Some(spec_trim(lines[i]))
    } else {
        spec_last_hash_line(lines, i - 1)
    }
}

/// Finds the hash a prefetch run printed, scanning from the last line.
pub fn extract_nix_base32_hash(output: &str) -> (r: Option<String>)
    ensures
        crate::state::opt_str_view(r) == spec_last_hash_line(
            crate::text::spec_lines(output@),
            crate::text::spec_lines(output@).len() - 1,
        ),
{
    let oc = str_to_chars(output);
    let lines = crate::text::split_lines(&oc);
    let ghost lv = crate::text::views_of(lines@);
    if lines.len() == 0 {
        return None;
    }
    let mut i: usize = lines.len() - 1;
    loop
        invariant
            i < lines@.len(),
            lv == crate::text::views_of(lines@),
            lv == crate::text::spec_lines(output@),
            spec_last_hash_line(lv, lv.len() - 1) == spec_last_hash_line(lv, i as int),
        decreases i,
    {
        assert(lines@[i as int]@ == lv[i as int]);
        let t = trim_chars(&lines[i]);
        let ts = chars_to_string(&t);
        if is_nix_base32_hash(ts.as_str()) {
            return Some(ts);
        }
        if i == 0 {
            assert(spec_last_hash_line(lv, -1) is None);
            return None;
        }
        i = i - 1;
    }
}

/// Whether a metadata table holds the key with the value `true`.
pub open spec fn spec_meta_has_key(meta: Seq<(Seq<char>, Seq<char>)>, needle: Seq<char>) -> bool {
    exists|i: int|
        0 <= i < meta.len() && (#[trigger] meta[i]).0 == needle && meta[i].1 == "true"@
}

pub fn meta_has_key(meta: &Vec<(String, String)>, needle: &str) -> (r: bool)
    ensures
        r == spec_meta_has_key(crate::smap::kv_view(meta@), needle@),
{
    let ghost mv = crate::smap::kv_view(meta@);
    let nc = str_to_chars(needle);
    let tv = str_to_chars("true");
    let mut i: usize = 0;
    while i < meta.len()
        invariant
            i <= meta@.len(),
            mv == crate::smap::kv_view(meta@),
            nc@ == needle@,
            tv@ == "true"@,
            forall|j: int| 0 <= j < i ==> !((#[trigger] mv[j]).0 == needle@ && mv[j].1 == "true"@),
        decreases meta@.len() - i,
    {
        assert(mv[i as int] == (meta@[i as int].0@, meta@[i as int].1@));
        let kc = str_to_chars(meta[i].0.as_str());
        let vc = str_to_chars(meta[i].1.as_str());
        if chars_eq(kc.as_slice(), nc.as_slice()) && chars_eq(vc.as_slice(), tv.as_slice()) {
            return true;
        }
        i = i + 1;
    }
    assert(!spec_meta_has_key(mv, needle@)) by {
        if spec_meta_has_key(mv, needle@) {
            let j = choose|j: int|
                0 <= j < mv.len() && (#[trigger] mv[j]).0 == needle@ && mv[j].1 == "true"@;
            assert(!(mv[j].0 == needle@ && mv[j].1 == "true"@));
        }
    }
    false
}

/// Whether an index metadata value is unusable: blank or the word
/// `unknown` in any ASCII case.
pub open spec fn spec_index_info_unknown(v: Seq<char>) -> bool {
    spec_trim(v).len() == 0 || spec_trim(v).map_values(|c: char| spec_label_char(c))
        == "unknown"@
}

pub fn index_info_unknown(value: &str) -> (r: bool)
    ensures
        r == spec_index_info_unknown(value@),
{
    let vc = str_to_chars(value);
    let t = trim_chars(&vc);
    if t.len() == 0 {
        return true;
    }
    let ghost mapped = t@.map_values(|c: char| spec_label_char(c));
    let mut low: Vec<char> = Vec::new();
    let mut i: usize = 0;
    while i < t.len()
        invariant
            i <= t@.len(),
            mapped == t@.map_values(|c: char| spec_label_char(c)),
            low@ == mapped.take(i as int),
        decreases t@.len() - i,
    {
        let c = t[i];
        if ('a' <= c && c <= 'z') || ('0' <= c && c <= '9') {
            low.push(c);
        } else if 'A' <= c && c <= 'Z' {
            low.push(lower_ascii_exec(c));
        } else {
            low.push('_');
        }
        i = i + 1;
        assert(low@ =~= mapped.take(i as int));
    }
    assert(low@ =~= mapped);
    let unknown = str_to_chars("unknown");
    chars_eq(low.as_slice(), unknown.as_slice())
}

/// Folds the active presets' required packages into one name list and
/// keeps only the recovered packages that neither a preset supplies nor
/// a pinned entry claims: the re-derived user additions.
pub open spec fn spec_preset_supplied(
    catalog: Seq<crate::preset::PresetView>,
    names: Seq<Seq<char>>,
    i: int,
    acc: Seq<Seq<char>>,
) -> Seq<Seq<char>>
    decreases names.len() - i,
{
    if i < 0 || i >= names.len() {
        acc
    } else {
        match crate::preset::spec_find_preset(catalog, names[i], 0) {
            Some(p) => spec_preset_supplied(catalog, names, i + 1, acc + p.packages_required),
            None => spec_preset_supplied(catalog, names, i + 1, acc),
        }
    }
}

pub open spec fn spec_added_filter(
    packages: Seq<Seq<char>>,
    i: int,
    supplied: Seq<Seq<char>>,
    pinned_keys: Seq<Seq<char>>,
    acc: Seq<Seq<char>>,
) -> Seq<Seq<char>>
    decreases packages.len() - i,
{
    if i < 0 || i >= packages.len() {
        acc
    } else if supplied.contains(packages[i]) || pinned_keys.contains(packages[i]) {
        spec_added_filter(packages, i + 1, supplied, pinned_keys, acc)
    } else {
        spec_added_filter(packages, i + 1, supplied, pinned_keys, acc.push(packages[i]))
    }
}

/// The user-added packages implied by a recovered package list: preset
/// packages are re-derived, never stored, and pinned names are kept in
/// their own table.
pub fn compute_added_packages(
    packages: &Vec<String>,
    presets: &Vec<String>,
    catalog: &Vec<crate::preset::Preset>,
    pinned: &StrMap<PinnedPackage>,
) -> (r: Vec<String>)
    ensures
        strs_view(r@) == spec_added_filter(
            strs_view(packages@),
            0,
            (if presets@.len() == 0 {
                Seq::<Seq<char>>::empty()
            } else {
                spec_preset_supplied(
                    crate::preset::presets_view(catalog@),
                    strs_view(presets@),
                    0,
                    Seq::empty(),
                )
            }),
            crate::nixgen::keys_view(pinned.entries@),
            Seq::empty(),
        ),
{
    let ghost cat = crate::preset::presets_view(catalog@);
    let ghost namesv = strs_view(presets@);
    let mut supplied: Vec<String> = Vec::new();
    assert(strs_view(supplied@) =~= Seq::<Seq<char>>::empty());
    if presets.len() > 0 {
        let mut i: usize = 0;
        while i < presets.len()
            invariant
                i <= presets@.len(),
                cat == crate::preset::presets_view(catalog@),
                namesv == strs_view(presets@),
                spec_preset_supplied(cat, namesv, 0, Seq::empty()) == spec_preset_supplied(
                    cat,
                    namesv,
                    i as int,
                    strs_view(supplied@),
                ),
            decreases presets@.len() - i,
        {
            assert(namesv[i as int] == presets@[i as int]@);
            let nm = str_to_chars(presets[i].as_str());
            match crate::preset::find_preset_in(catalog, &nm) {
                Some(j) => {
                    let ghost prev = strs_view(supplied@);
                    let mut q: usize = 0;
                    while q < catalog[j].packages_required.len()
                        invariant
                            j < catalog@.len(),
                            q <= catalog@[j as int].packages_required@.len(),
                            cat == crate::preset::presets_view(catalog@),
                            strs_view(supplied@) == prev + strs_view(
                                catalog@[j as int].packages_required@,
                            ).take(q as int),
                        decreases catalog@[j as int].packages_required@.len() - q,
                    {
                        let ghost sp = strs_view(supplied@);
                        supplied.push(crate::state::clone_string(
                            &catalog[j].packages_required[q],
                        ));
                        assert(strs_view(supplied@) =~= sp.push(
                            catalog@[j as int].packages_required@[q as int]@,
                        ));
                        q = q + 1;
                        assert(strs_view(supplied@) =~= prev + strs_view(
                            catalog@[j as int].packages_required@,
                        ).take(q as int));
                    }
                    assert(cat[j as int].packages_required == strs_view(
                        catalog@[j as int].packages_required@,
                    ));
                    assert(strs_view(supplied@) =~= prev + cat[j as int].packages_required);
                },
                None => {},
            }
            i = i + 1;
        }
    }
    let ghost suppliedv = if presets@.len() == 0 {
        Seq::<Seq<char>>::empty()
    } else {
        spec_preset_supplied(cat, namesv, 0, Seq::empty())
    };
    assert(strs_view(supplied@) == suppliedv) by {
        if presets@.len() == 0 {
            assert(strs_view(supplied@) =~= Seq::<Seq<char>>::empty());
        }
    }
    let ghost pkeys = crate::nixgen::keys_view(pinned.entries@);
    let ghost pkgsv = strs_view(packages@);
    let mut out: Vec<String> = Vec::new();
    let mut i: usize = 0;
    assert(strs_view(out@) =~= Seq::<Seq<char>>::empty());
    while i < packages.len()
        invariant
            i <= packages@.len(),
            pkgsv == strs_view(packages@),
            pkeys == crate::nixgen::keys_view(pinned.entries@),
            suppliedv == strs_view(supplied@),
            spec_added_filter(pkgsv, 0, suppliedv, pkeys, Seq::empty()) == spec_added_filter(
                pkgsv,
                i as int,
                suppliedv,
                pkeys,
                strs_view(out@),
            ),
        decreases packages@.len() - i,
    {
        assert(pkgsv[i as int] == packages@[i as int]@);
        let pc = str_to_chars(packages[i].as_str());
        let in_supplied = crate::text::strs_contain(&supplied, &pc);
        let in_pinned = pinned_keys_contain(pinned, &pc);
        if !in_supplied && !in_pinned {
            let ghost prev = strs_view(out@);
            out.push(crate::state::clone_string(&packages[i]));
            assert(strs_view(out@) =~= prev.push(pkgsv[i as int]));
        }
        i = i + 1;
    }
    out
}

fn pinned_keys_contain(pinned: &StrMap<PinnedPackage>, k: &Vec<char>) -> (r: bool)
    ensures
        r == crate::nixgen::keys_view(pinned.entries@).contains(k@),
{
    let ghost keys = crate::nixgen::keys_view(pinned.entries@);
    let mut i: usize = 0;
    while i < pinned.entries.len()
        invariant
            i <= pinned.entries@.len(),
            keys == crate::nixgen::keys_view(pinned.entries@),
            forall|j: int| 0 <= j < i ==> (#[trigger] keys[j]) != k@,
        decreases pinned.entries@.len() - i,
    {
        assert(keys[i as int] == pinned.entries@[i as int].0@);
        let kc = str_to_chars(pinned.entries[i].0.as_str());
        if chars_eq(kc.as_slice(), k.as_slice()) {
            assert(keys[i as int] == k@);
            return true;
        }
        i = i + 1;
    }
    assert(!keys.contains(k@)) by {
        if keys.contains(k@) {
            let j = choose|j: int| 0 <= j < keys.len() && keys[j] == k@;
            assert(keys[j] != k@);
        }
    }
    false
}

} // verus!

verus! {

/// A glob turned into an anchored pattern: `*` becomes `.*`, the
/// pattern language's own punctuation is escaped, everything else is
/// kept.
pub open spec fn spec_glob_char(c: char) -> Seq<char> {
    if c == '*' {
        seq!['.', '*']
    } else if c == '.' || c == '+' || c == '?' || c == '(' || c == ')' || c == '[' || c == ']'
        || c == '{' || c == '}' || c == '^' || c == '$' || c == '|' || c == '\\' {
        seq!['\\', c]
    } else {
        seq![c]
    }
}

pub open spec fn spec_glob_body(p: Seq<char>, i: int) -> Seq<char>
    decreases p.len() - i,
{
    if i < 0 || i >= p.len() {
        Seq::empty()
    } else {
        spec_glob_char(p[i]) + spec_glob_body(p, i + 1)
    }
}

pub fn glob_to_regex(pattern: &str) -> (r: String)
    ensures
        r@ == seq!['^'] + spec_glob_body(pattern@, 0) + seq!['$'],
{
    let pc = str_to_chars(pattern);
    let mut out: Vec<char> = vec!['^'];
    assert(out@ =~= seq!['^']);
    let mut i: usize = 0;
    while i < pc.len()
        invariant
            i <= pc@.len(),
            pc@ == pattern@,
            out@ + spec_glob_body(pattern@, i as int) == seq!['^'] + spec_glob_body(pattern@, 0),
        decreases pc@.len() - i,
    {
        let ghost prev = out@;
        let c = pc[i];
        if c == '*' {
            out.push('.');
            out.push('*');
        } else if c == '.' || c == '+' || c == '?' || c == '(' || c == ')' || c == '[' || c == ']'
            || c == '{' || c == '}' || c == '^' || c == '$' || c == '|' || c == '\\' {
            out.push('\\');
            out.push(c);
        } else {
            out.push(c);
        }
        assert(out@ =~= prev + spec_glob_char(pattern@[i as int]));
        i = i + 1;
        assert(out@ + spec_glob_body(pattern@, i as int) =~= seq!['^'] + spec_glob_body(
            pattern@,
            0,
        ));
    }
    assert(spec_glob_body(pattern@, i as int).len() == 0);
    out.push('$');
    assert(out@ =~= seq!['^'] + spec_glob_body(pattern@, 0) + seq!['$']);
    chars_to_string(&out)
}

} // verus!
