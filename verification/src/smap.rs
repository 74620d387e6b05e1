//! An association list ordered by key, standing in for an ordered map:
//! keys are strings, held strictly increasing in lexicographic order,
//! so iteration over `entries` visits keys in ascending order.

use vstd::prelude::*;

use crate::text::{lemma_lex_lt_connected, lemma_lex_lt_irrefl, lemma_lex_lt_trans, lex_lt,
    str_to_chars, chars_eq};

verus! {

#[derive(Debug, Clone)]
pub struct StrMap<V> {
    pub entries: Vec<(String, V)>,
}

/// What inserting `k` into already-sorted entries yields: before the first
/// key not below `k`, unchanged; an equal key is replaced; otherwise `k`
/// is placed there.
pub open spec fn spec_insert_entries<V>(s: Seq<(String, V)>, k: String, v: V) -> Seq<(String, V)>
    decreases s.len(),
{
    if s.len() == 0 {
        seq![(k, v)]
    } else if lex_lt(k@, s[0].0@) {
        seq![(k, v)] + s
    } else if k@ == s[0].0@ {
        seq![(k, v)] + s.drop_first()
    } else {
        seq![s[0]] + spec_insert_entries(s.drop_first(), k, v)
    }
}

pub open spec fn spec_get_from<V>(s: Seq<(String, V)>, k: Seq<char>, i: int) -> Option<V>
    decreases s.len() - i,
{
    if i < 0 || i >= s.len() {
        None
    } else if s[i].0@ == k {
        Some(s[i].1)
    } else {
        spec_get_from(s, k, i + 1)
    }
}

impl<V> StrMap<V> {
    pub open spec fn key_at(&self, i: int) -> Seq<char> {
        self.entries@[i].0@
    }

    pub open spec fn spec_len(&self) -> nat {
        self.entries@.len()
    }

    /// Keys strictly ascending: the map's invariant.
    pub open spec fn wf(&self) -> bool {
        forall|i: int, j: int|
            0 <= i < j < self.entries@.len() ==> lex_lt(
                #[trigger] self.entries@[i].0@,
                #[trigger] self.entries@[j].0@,
            )
    }

    pub open spec fn spec_contains(&self, k: Seq<char>) -> bool {
        exists|i: int| 0 <= i < self.entries@.len() && (#[trigger] self.entries@[i].0@) == k
    }

    pub open spec fn spec_get(&self, k: Seq<char>) -> Option<V> {
        spec_get_from(self.entries@, k, 0)
    }

    pub fn new() -> (r: StrMap<V>)
        ensures
            r.entries@.len() == 0,
            r.wf(),
    {
        StrMap { entries: Vec::new() }
    }

    pub fn len(&self) -> (r: usize)
        ensures
            r == self.spec_len(),
    {
        self.entries.len()
    }

    pub fn is_empty(&self) -> (r: bool)
        ensures
            r == (self.spec_len() == 0),
    {
        self.entries.len() == 0
    }

    fn index_of(&self, k: &Vec<char>) -> (r: Option<usize>)
        ensures
            match r {
                Some(i) => i < self.entries@.len() && self.entries@[i as int].0@ == k@
                    && self.spec_contains(k@),
                None => !self.spec_contains(k@),
            },
    {
        let mut i: usize = 0;
        while i < self.entries.len()
            invariant
                i <= self.entries@.len(),
                forall|j: int| 0 <= j < i ==> (#[trigger] self.entries@[j].0@) != k@,
            decreases self.entries@.len() - i,
        {
            let ek = str_to_chars(self.entries[i].0.as_str());
            if chars_eq(ek.as_slice(), k.as_slice()) {
                assert(self.entries@[i as int].0@ == k@);
                return Some(i);
            }
            i = i + 1;
        }
        None
    }

    pub fn contains_key(&self, k: &Vec<char>) -> (r: bool)
        ensures
            r == self.spec_contains(k@),
    {
        self.index_of(k).is_some()
    }

    pub fn get<'a>(&'a self, k: &Vec<char>) -> (r: Option<&'a V>)
        requires
            self.wf(),
        ensures
            match r {
                Some(v) => self.spec_get(k@) == Some(*v) && self.spec_contains(k@),
                None => self.spec_get(k@) is None && !self.spec_contains(k@),
            },
    {
        proof {
            self.lemma_get_contains(k@, 0);
        }
        match self.index_of(k) {
            Some(i) => {
                proof {
                    self.lemma_get_at(k@, i as int, 0);
                }
                Some(&self.entries[i].1)
            },
            None => None,
        }
    }

    proof fn lemma_get_contains(&self, k: Seq<char>, i: int)
        requires
            0 <= i,
        ensures
            (spec_get_from(self.entries@, k, i) is Some) == (exists|j: int|
                i <= j < self.entries@.len() && (#[trigger] self.entries@[j].0@) == k),
        decreases self.entries@.len() - i,
    {
        if i < self.entries@.len() {
            self.lemma_get_contains(k, i + 1);
            if self.entries@[i].0@ == k {
                assert(i <= i < self.entries@.len() && self.entries@[i].0@ == k);
            }
        }
    }

    proof fn lemma_get_at(&self, k: Seq<char>, i: int, from: int)
        requires
            self.wf(),
            0 <= from <= i < self.entries@.len(),
            self.entries@[i].0@ == k,
        ensures
            spec_get_from(self.entries@, k, from) == Some(self.entries@[i].1),
        decreases i - from,
    {
        if from < i {
            // keys before i differ from k since the order is strict
            lemma_lex_lt_irrefl(k);
            assert(lex_lt(self.entries@[from].0@, self.entries@[i].0@));
            assert(self.entries@[from].0@ != k);
            self.lemma_get_at(k, i, from + 1);
        }
    }

    fn find_slot(&self, kc: &Vec<char>) -> (r: (usize, bool))
        ensures
            r.0 <= self.entries@.len(),
            forall|j: int| 0 <= j < r.0 ==> lex_lt(#[trigger] self.entries@[j].0@, kc@),
            r.1 ==> r.0 < self.entries@.len() && self.entries@[r.0 as int].0@ == kc@,
            !r.1 && r.0 < self.entries@.len() ==> !lex_lt(self.entries@[r.0 as int].0@, kc@)
                && self.entries@[r.0 as int].0@ != kc@,
    {
        let mut p: usize = 0;
        while p < self.entries.len()
            invariant
                p <= self.entries@.len(),
                forall|j: int| 0 <= j < p ==> lex_lt(#[trigger] self.entries@[j].0@, kc@),
            decreases self.entries@.len() - p,
        {
            let ek = str_to_chars(self.entries[p].0.as_str());
            if chars_eq(ek.as_slice(), kc.as_slice()) {
                return (p, true);
            }
            if !chars_lt(&ek, &kc) {
                return (p, false);
            }
            p = p + 1;
        }
        (p, false)
    }

    /// Inserts `k`, replacing any entry with an equal key, keeping order.
    pub fn insert(&mut self, k: String, v: V)
        requires
            old(self).wf(),
        ensures
            final(self).wf(),
            final(self).entries@ == spec_insert_entries(old(self).entries@, k, v),
    {
        let kc = str_to_chars(k.as_str());
        let (p, eq_at_p) = self.find_slot(&kc);
        let ghost olds = self.entries@;
        if eq_at_p {
            proof {
                lemma_lex_lt_irrefl(k@);
                lemma_insert_at(olds, k, v, p as int);
            }
            self.entries.remove(p);
            self.entries.insert(p, (k, v));
            assert(self.entries@ =~= olds.take(p as int) + seq![(k, v)] + olds.skip(p as int + 1));
            proof {
                lemma_wf_after_insert(olds, self.entries@, k, v, p as int, true);
            }
        } else {
            proof {
                if p < olds.len() {
                    lemma_lex_lt_connected(olds[p as int].0@, k@);
                }
                lemma_insert_at(olds, k, v, p as int);
            }
            self.entries.insert(p, (k, v));
            assert(self.entries@ =~= olds.take(p as int) + seq![(k, v)] + olds.skip(p as int));
            proof {
                lemma_wf_after_insert(olds, self.entries@, k, v, p as int, false);
            }
        }
    }

    /// Removes the entry with key `k` if it is present.
    pub fn remove_key(&mut self, k: &Vec<char>)
        requires
            old(self).wf(),
        ensures
            final(self).wf(),
            final(self).entries@ == spec_remove_entries(old(self).entries@, k@),
    {
        let ghost olds = self.entries@;
        match self.index_of(k) {
            Some(i) => {
                proof {
                    lemma_lex_lt_irrefl(k@);
                    lemma_remove_at(olds, k@, i as int);
                }
                self.entries.remove(i);
                assert(self.entries@ =~= olds.take(i as int) + olds.skip(i as int + 1));
                assert forall|a: int, b: int|
                    0 <= a < b < self.entries@.len() implies lex_lt(
                    #[trigger] self.entries@[a].0@,
                    #[trigger] self.entries@[b].0@,
                ) by {
                    if a < i {
                        assert(self.entries@[a] == olds[a]);
                    } else {
                        assert(self.entries@[a] == olds[a + 1]);
                    }
                    if b < i {
                        assert(self.entries@[b] == olds[b]);
                    } else {
                        assert(self.entries@[b] == olds[b + 1]);
                    }
                }
            },
            None => {
                proof {
                    lemma_remove_absent(olds, k@, 0);
                }
            },
        }
    }
}

/// What removing key `k` from the entries yields.
pub open spec fn spec_remove_entries<V>(s: Seq<(String, V)>, k: Seq<char>) -> Seq<(String, V)>
    decreases s.len(),
{
    if s.len() == 0 {
        s
    } else if s[0].0@ == k {
        s.drop_first()
    } else {
        seq![s[0]] + spec_remove_entries(s.drop_first(), k)
    }
}

proof fn lemma_remove_at<V>(s: Seq<(String, V)>, k: Seq<char>, i: int)
    requires
        0 <= i < s.len(),
        s[i].0@ == k,
        forall|j: int| 0 <= j < i ==> (#[trigger] s[j].0@) != k,
    ensures
        spec_remove_entries(s, k) == s.take(i) + s.skip(i + 1),
    decreases i,
{
    if i == 0 {
        assert(spec_remove_entries(s, k) =~= s.take(0) + s.skip(1));
    } else {
        let t = s.drop_first();
        assert(forall|j: int| 0 <= j < i - 1 ==> (#[trigger] t[j].0@) != k) by {
            assert(forall|j: int| 0 <= j < i - 1 ==> t[j] == s[j + 1]);
        }
        assert(t[i - 1] == s[i]);
        lemma_remove_at(t, k, i - 1);
        assert(spec_remove_entries(s, k) =~= s.take(i) + s.skip(i + 1)) by {
            assert(spec_remove_entries(s, k) == seq![s[0]] + spec_remove_entries(t, k));
            assert(spec_remove_entries(t, k) == t.take(i - 1) + t.skip(i));
        }
    }
}

proof fn lemma_remove_absent<V>(s: Seq<(String, V)>, k: Seq<char>, i: int)
    requires
        forall|j: int| 0 <= j < s.len() ==> (#[trigger] s[j].0@) != k,
    ensures
        spec_remove_entries(s, k) == s,
    decreases s.len(),
{
    if s.len() > 0 {
        let t = s.drop_first();
        assert(forall|j: int| 0 <= j < t.len() ==> (#[trigger] t[j].0@) != k) by {
            assert(forall|j: int| 0 <= j < t.len() ==> t[j] == s[j + 1]);
        }
        lemma_remove_absent(t, k, 0);
        assert(spec_remove_entries(s, k) =~= s) by {
            assert(spec_remove_entries(s, k) == seq![s[0]] + t);
            assert(seq![s[0]] + t =~= s);
        }
    }
}

/// Code-point order on character vectors.
pub fn chars_lt(a: &Vec<char>, b: &Vec<char>) -> (r: bool)
    ensures
        r == lex_lt(a@, b@),
{
    let mut i: usize = 0;
    assert(a@.skip(0) =~= a@);
    assert(b@.skip(0) =~= b@);
    loop
        invariant
            i <= a@.len(),
            i <= b@.len(),
            lex_lt(a@, b@) == lex_lt(a@.skip(i as int), b@.skip(i as int)),
        decreases a@.len() - i,
    {
        proof {
            if i < a@.len() && i < b@.len() {
                assert(a@.skip(i as int).drop_first() =~= a@.skip(i as int + 1));
                assert(b@.skip(i as int).drop_first() =~= b@.skip(i as int + 1));
            }
        }
        if i >= b.len() {
            assert(b@.skip(i as int).len() == 0);
            return false;
        }
        if i >= a.len() {
            assert(a@.skip(i as int).len() == 0);
            return true;
        }
        assert(a@.skip(i as int)[0] == a@[i as int]);
        assert(b@.skip(i as int)[0] == b@[i as int]);
        if a[i] < b[i] {
            return true;
        }
        if a[i] != b[i] {
            assert(!lex_lt(a@.skip(i as int), b@.skip(i as int)));
            return false;
        }
        i = i + 1;
    }
}

proof fn lemma_insert_at<V>(s: Seq<(String, V)>, k: String, v: V, p: int)
    requires
        0 <= p <= s.len(),
        forall|i: int| 0 <= i < p ==> lex_lt(#[trigger] s[i].0@, k@),
        p < s.len() ==> !lex_lt(s[p].0@, k@),
    ensures
        spec_insert_entries(s, k, v) == if p < s.len() && s[p].0@ == k@ {
            s.take(p) + seq![(k, v)] + s.skip(p + 1)
        } else {
            s.take(p) + seq![(k, v)] + s.skip(p)
        },
    decreases s.len(),
{
    if s.len() == 0 {
        assert(spec_insert_entries(s, k, v) =~= s.take(p) + seq![(k, v)] + s.skip(p));
    } else if p == 0 {
        if !lex_lt(s[0].0@, k@) && s[0].0@ != k@ {
            lemma_lex_lt_connected(k@, s[0].0@);
            assert(lex_lt(k@, s[0].0@));
            assert(spec_insert_entries(s, k, v) =~= s.take(0) + seq![(k, v)] + s.skip(0));
        } else {
            assert(s[0].0@ == k@);
            assert(spec_insert_entries(s, k, v) =~= s.take(0) + seq![(k, v)] + s.skip(1));
        }
    } else {
        // the head is below k, so insertion happens in the tail
        lemma_lex_lt_irrefl(k@);
        assert(lex_lt(s[0].0@, k@));
        if lex_lt(k@, s[0].0@) {
            lemma_lex_lt_trans(k@, s[0].0@, k@);
            assert(false);
        }
        assert(k@ != s[0].0@);
        let t = s.drop_first();
        assert(forall|i: int| 0 <= i < p - 1 ==> lex_lt(#[trigger] t[i].0@, k@)) by {
            assert(forall|i: int| 0 <= i < p - 1 ==> t[i] == s[i + 1]);
        }
        assert(p - 1 < t.len() ==> t[p - 1] == s[p]);
        lemma_insert_at(t, k, v, p - 1);
        if p < s.len() && s[p].0@ == k@ {
            assert(spec_insert_entries(s, k, v) =~= s.take(p) + seq![(k, v)] + s.skip(p + 1)) by {
                assert(spec_insert_entries(s, k, v) == seq![s[0]] + spec_insert_entries(t, k, v));
                assert(spec_insert_entries(t, k, v) == t.take(p - 1) + seq![(k, v)] + t.skip(p));
            }
        } else {
            assert(spec_insert_entries(s, k, v) =~= s.take(p) + seq![(k, v)] + s.skip(p)) by {
                assert(spec_insert_entries(s, k, v) == seq![s[0]] + spec_insert_entries(t, k, v));
                assert(spec_insert_entries(t, k, v) == t.take(p - 1) + seq![(k, v)] + t.skip(
                    p - 1,
                ));
            }
        }
    }
}

proof fn lemma_wf_after_insert<V>(
    olds: Seq<(String, V)>,
    news: Seq<(String, V)>,
    k: String,
    v: V,
    p: int,
    replaced: bool,
)
    requires
        0 <= p <= olds.len(),
        replaced ==> p < olds.len() && olds[p].0@ == k@,
        !replaced && p < olds.len() ==> lex_lt(k@, olds[p].0@),
        forall|i: int| 0 <= i < p ==> lex_lt(#[trigger] olds[i].0@, k@),
        forall|i: int, j: int|
            0 <= i < j < olds.len() ==> lex_lt(#[trigger] olds[i].0@, #[trigger] olds[j].0@),
        news == if replaced {
            olds.take(p) + seq![(k, v)] + olds.skip(p + 1)
        } else {
            olds.take(p) + seq![(k, v)] + olds.skip(p)
        },
    ensures
        forall|i: int, j: int|
            0 <= i < j < news.len() ==> lex_lt(#[trigger] news[i].0@, #[trigger] news[j].0@),
{
    let off: int = if replaced {
        1
    } else {
        0
    };
    assert forall|i: int, j: int|
        0 <= i < j < news.len() implies lex_lt(
        #[trigger] news[i].0@,
        #[trigger] news[j].0@,
    ) by {
        if i < p {
            assert(news[i] == olds[i]);
        } else if i > p {
            assert(news[i] == olds[i - 1 + off]);
        }
        if j < p {
            assert(news[j] == olds[j]);
        } else if j > p {
            assert(news[j] == olds[j - 1 + off]);
        }
        if j == p {
            // i < p: olds[i] is below k
            assert(lex_lt(olds[i].0@, k@));
        } else if i == p && j > p {
            let jo = j - 1 + off;
            if replaced {
                assert(jo > p);
                assert(lex_lt(olds[p].0@, olds[jo].0@));
            } else {
                assert(jo >= p);
                if jo == p {
                    assert(lex_lt(k@, olds[p].0@));
                } else {
                    lemma_lex_lt_trans(k@, olds[p].0@, olds[jo].0@);
                }
            }
        } else if i < p && j > p {
            let jo = j - 1 + off;
            if jo == i {
                assert(false);
            } else if jo > i {
                assert(lex_lt(olds[i].0@, olds[jo].0@));
            }
        }
    }
}


/// The views of string-keyed entries.
pub open spec fn kv_view<V: View>(s: Seq<(String, V)>) -> Seq<(Seq<char>, V::V)> {
    Seq::new(s.len(), |i: int| (s[i].0@, s[i].1@))
}

/// `spec_insert_entries`, stated over views.
pub open spec fn spec_insert_kv<T>(s: Seq<(Seq<char>, T)>, k: Seq<char>, v: T) -> Seq<
    (Seq<char>, T),
>
    decreases s.len(),
{
    if s.len() == 0 {
        seq![(k, v)]
    } else if lex_lt(k, s[0].0) {
        seq![(k, v)] + s
    } else if k == s[0].0 {
        seq![(k, v)] + s.drop_first()
    } else {
        seq![s[0]] + spec_insert_kv(s.drop_first(), k, v)
    }
}

/// Inserting into the entries and then taking views is inserting into the views.
pub proof fn lemma_insert_entries_view<V: View>(s: Seq<(String, V)>, k: String, v: V)
    ensures
        kv_view(spec_insert_entries(s, k, v)) == spec_insert_kv(kv_view(s), k@, v@),
    decreases s.len(),
{
    if s.len() == 0 {
        assert(kv_view(spec_insert_entries(s, k, v)) =~= spec_insert_kv(kv_view(s), k@, v@));
    } else {
        assert(kv_view(s)[0] == (s[0].0@, s[0].1@));
        if lex_lt(k@, s[0].0@) {
            assert(kv_view(seq![(k, v)] + s) =~= seq![(k@, v@)] + kv_view(s));
        } else if k@ == s[0].0@ {
            assert(kv_view(seq![(k, v)] + s.drop_first()) =~= seq![(k@, v@)] + kv_view(
                s,
            ).drop_first()) by {
                assert(forall|i: int|
                    0 <= i < s.len() - 1 ==> (#[trigger] s.drop_first()[i]) == s[i + 1]);
            }
        } else {
            lemma_insert_entries_view(s.drop_first(), k, v);
            assert(kv_view(s.drop_first()) =~= kv_view(s).drop_first()) by {
                assert(forall|i: int|
                    0 <= i < s.len() - 1 ==> (#[trigger] s.drop_first()[i]) == s[i + 1]);
            }
            assert(kv_view(seq![s[0]] + spec_insert_entries(s.drop_first(), k, v)) =~= seq![
                (s[0].0@, s[0].1@),
            ] + kv_view(spec_insert_entries(s.drop_first(), k, v)));
            assert(spec_insert_kv(kv_view(s), k@, v@) == seq![kv_view(s)[0]] + spec_insert_kv(
                kv_view(s).drop_first(),
                k@,
                v@,
            ));
        }
    }
}

} // verus!
