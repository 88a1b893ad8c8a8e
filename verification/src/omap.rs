use vstd::prelude::*;
use crate::strutil::{
    str_lt, str_cmp, StrOrd, lemma_str_lt_irrefl, lemma_str_lt_trans, lemma_str_lt_connected,
};

verus! {

/// Entries are strictly sorted by key, so keys are also unique.
pub open spec fn entries_sorted<T>(s: Seq<(Seq<char>, T)>) -> bool {
    forall|i: int, j: int| 0 <= i < j < s.len() ==> str_lt(#[trigger] s[i].0, #[trigger] s[j].0)
}

/// The value stored under `k`, if any.
pub open spec fn entries_get<T>(s: Seq<(Seq<char>, T)>, k: Seq<char>) -> Option<T>
    decreases s.len(),
{
    if s.len() == 0 {
        None
    } else if s[0].0 == k {
        Some(s[0].1)
    } else {
        entries_get(s.skip(1), k)
    }
}

pub open spec fn entries_contains<T>(s: Seq<(Seq<char>, T)>, k: Seq<char>) -> bool {
    entries_get(s, k) is Some
}

/// Insertion into a key-sorted entry sequence, replacing an equal key.
pub open spec fn entries_insert<T>(s: Seq<(Seq<char>, T)>, k: Seq<char>, v: T) -> Seq<
    (Seq<char>, T),
>
    decreases s.len(),
{
    if s.len() == 0 {
        seq![(k, v)]
    } else if str_lt(k, s[0].0) {
        seq![(k, v)] + s
    } else if k == s[0].0 {
        seq![(k, v)] + s.skip(1)
    } else {
        seq![s[0]] + entries_insert(s.skip(1), k, v)
    }
}

pub proof fn lemma_str_lt_asym(a: Seq<char>, b: Seq<char>)
    requires
        str_lt(a, b),
    ensures
        !str_lt(b, a),
{
    if str_lt(b, a) {
        lemma_str_lt_trans(a, b, a);
        lemma_str_lt_irrefl(a);
    }
}

/// Relates the recursive insertion spec to a positional splice at `pos`,
/// the first position whose key is not below `k`.
proof fn lemma_entries_insert_at<T>(s: Seq<(Seq<char>, T)>, k: Seq<char>, v: T, pos: int)
    requires
        entries_sorted(s),
        0 <= pos <= s.len(),
        forall|i: int| 0 <= i < pos ==> str_lt(#[trigger] s[i].0, k),
        pos < s.len() ==> !str_lt(s[pos].0, k),
    ensures
        pos < s.len() && s[pos].0 == k ==> entries_insert(s, k, v) == s.subrange(0, pos) + seq![
            (k, v),
        ] + s.subrange(pos + 1, s.len() as int),
        !(pos < s.len() && s[pos].0 == k) ==> entries_insert(s, k, v) == s.subrange(0, pos) + seq![
            (k, v),
        ] + s.subrange(pos, s.len() as int),
    decreases s.len(),
{
    if s.len() == 0 {
        assert(entries_insert(s, k, v) =~= s.subrange(0, pos) + seq![(k, v)] + s.subrange(
            pos,
            s.len() as int,
        ));
    } else if pos == 0 {
        if s[0].0 == k {
            lemma_str_lt_irrefl(k);
            assert(entries_insert(s, k, v) =~= s.subrange(0, 0) + seq![(k, v)] + s.subrange(
                1,
                s.len() as int,
            ));
        } else {
            if !str_lt(k, s[0].0) {
                lemma_str_lt_connected(k, s[0].0);
                assert(false);
            }
            assert(str_lt(k, s[0].0));
            assert(entries_insert(s, k, v) =~= s.subrange(0, 0) + seq![(k, v)] + s.subrange(
                0,
                s.len() as int,
            ));
        }
    } else {
        assert(str_lt(s[0].0, k));
        lemma_str_lt_asym(s[0].0, k);
        if k == s[0].0 {
            lemma_str_lt_irrefl(k);
        }
        let tail = s.skip(1);
        assert(entries_sorted(tail)) by {
            assert(forall|i: int, j: int|
                0 <= i < j < tail.len() ==> str_lt(#[trigger] tail[i].0, #[trigger] tail[j].0))
                by {
                assert(forall|i: int, j: int| 0 <= i < j < tail.len() ==> tail[i] == s[i + 1]
                    && tail[j] == s[j + 1]);
            }
        }
        assert(forall|i: int| 0 <= i < pos - 1 ==> str_lt(#[trigger] tail[i].0, k)) by {
            assert(forall|i: int| 0 <= i < pos - 1 ==> tail[i] == s[i + 1]);
        }
        assert(pos - 1 < tail.len() ==> !str_lt(tail[pos - 1].0, k));
        lemma_entries_insert_at(tail, k, v, pos - 1);
        if pos < s.len() && s[pos].0 == k {
            assert(tail[pos - 1].0 == k);
            assert(entries_insert(s, k, v) =~= s.subrange(0, pos) + seq![(k, v)] + s.subrange(
                pos + 1,
                s.len() as int,
            )) by {
                assert(entries_insert(s, k, v) == seq![s[0]] + entries_insert(tail, k, v));
                assert(tail.subrange(0, pos - 1) =~= s.subrange(1, pos));
                assert(tail.subrange(pos, tail.len() as int) =~= s.subrange(
                    pos + 1,
                    s.len() as int,
                ));
            }
        } else {
            assert(entries_insert(s, k, v) =~= s.subrange(0, pos) + seq![(k, v)] + s.subrange(
                pos,
                s.len() as int,
            )) by {
                assert(entries_insert(s, k, v) == seq![s[0]] + entries_insert(tail, k, v));
                assert(tail.subrange(0, pos - 1) =~= s.subrange(1, pos));
                assert(tail.subrange(pos - 1, tail.len() as int) =~= s.subrange(
                    pos,
                    s.len() as int,
                ));
            }
        }
    }
}

/// Insertion keeps the entries sorted.
pub proof fn lemma_entries_insert_sorted<T>(s: Seq<(Seq<char>, T)>, k: Seq<char>, v: T)
    requires
        entries_sorted(s),
    ensures
        entries_sorted(entries_insert(s, k, v)),
    decreases s.len(),
{
    if s.len() == 0 {
    } else if str_lt(k, s[0].0) {
        let r = seq![(k, v)] + s;
        assert forall|i: int, j: int| 0 <= i < j < r.len() implies str_lt(
            #[trigger] r[i].0,
            #[trigger] r[j].0,
        ) by {
            if i == 0 {
                if j > 1 {
                    lemma_str_lt_trans(k, s[0].0, s[j - 1].0);
                }
            }
        }
    } else if k == s[0].0 {
        let r = seq![(k, v)] + s.skip(1);
        assert forall|i: int, j: int| 0 <= i < j < r.len() implies str_lt(
            #[trigger] r[i].0,
            #[trigger] r[j].0,
        ) by {
            if i == 0 {
                assert(r[j] == s[j]);
                assert(str_lt(s[0].0, s[j].0));
            } else {
                assert(r[i] == s[i] && r[j] == s[j]);
            }
        }
    } else {
        if !str_lt(s[0].0, k) {
            lemma_str_lt_connected(k, s[0].0);
            assert(false);
        }
        let tail = s.skip(1);
        assert(entries_sorted(tail)) by {
            assert(forall|i: int, j: int| 0 <= i < j < tail.len() ==> tail[i] == s[i + 1]
                && tail[j] == s[j + 1]);
        }
        lemma_entries_insert_sorted(tail, k, v);
        let rt = entries_insert(tail, k, v);
        let r = seq![s[0]] + rt;
        lemma_entries_insert_members(tail, k, v);
        assert forall|i: int, j: int| 0 <= i < j < r.len() implies str_lt(
            #[trigger] r[i].0,
            #[trigger] r[j].0,
        ) by {
            if i == 0 {
                assert(rt.contains(r[j]));
                let w = choose|w: int| 0 <= w < rt.len() && rt[w] == r[j];
                if r[j].0 == k {
                    assert(str_lt(s[0].0, k));
                } else {
                    assert(tail.contains(r[j]));
                    let t = choose|t: int| 0 <= t < tail.len() && tail[t] == r[j];
                    assert(tail[t] == s[t + 1]);
                    assert(str_lt(s[0].0, s[t + 1].0));
                }
            } else {
                assert(r[i] == rt[i - 1] && r[j] == rt[j - 1]);
            }
        }
    }
}

/// Every entry of an insertion result either carries the new key or was
/// already present.
proof fn lemma_entries_insert_members<T>(s: Seq<(Seq<char>, T)>, k: Seq<char>, v: T)
    requires
        entries_sorted(s),
    ensures
        forall|j: int|
            0 <= j < entries_insert(s, k, v).len() ==> (#[trigger] entries_insert(s, k, v)[j].0
                == k || s.contains(entries_insert(s, k, v)[j])),
    decreases s.len(),
{
    let r = entries_insert(s, k, v);
    if s.len() == 0 {
    } else if str_lt(k, s[0].0) {
        assert forall|j: int| 0 <= j < r.len() implies (#[trigger] r[j].0 == k || s.contains(
            r[j],
        )) by {
            if j > 0 {
                assert(r[j] == s[j - 1]);
            }
        }
    } else if k == s[0].0 {
        assert forall|j: int| 0 <= j < r.len() implies (#[trigger] r[j].0 == k || s.contains(
            r[j],
        )) by {
            if j > 0 {
                assert(r[j] == s[j]);
            }
        }
    } else {
        let tail = s.skip(1);
        assert(entries_sorted(tail)) by {
            assert(forall|i: int, j: int| 0 <= i < j < tail.len() ==> tail[i] == s[i + 1]
                && tail[j] == s[j + 1]);
        }
        lemma_entries_insert_members(tail, k, v);
        let rt = entries_insert(tail, k, v);
        assert forall|j: int| 0 <= j < r.len() implies (#[trigger] r[j].0 == k || s.contains(
            r[j],
        )) by {
            if j == 0 {
                assert(s.contains(s[0]));
            } else {
                assert(r[j] == rt[j - 1]);
                if rt[j - 1].0 != k {
                    assert(tail.contains(rt[j - 1]));
                    let t = choose|t: int| 0 <= t < tail.len() && tail[t] == rt[j - 1];
                    assert(s[t + 1] == tail[t]);
                    assert(s.contains(s[t + 1]));
                }
            }
        }
    }
}


/// After insertion, the new key maps to the new value and every other key is
/// unchanged.
pub proof fn lemma_insert_get<T>(s: Seq<(Seq<char>, T)>, k: Seq<char>, v: T, q: Seq<char>)
    ensures
        q == k ==> entries_get(entries_insert(s, k, v), q) == Some(v),
        q != k ==> entries_get(entries_insert(s, k, v), q) == entries_get(s, q),
    decreases s.len(),
{
    let r = entries_insert(s, k, v);
    if s.len() == 0 {
        assert(r[0] == (k, v));
        assert(r.skip(1) =~= Seq::<(Seq<char>, T)>::empty());
    } else if str_lt(k, s[0].0) {
        assert(r[0] == (k, v));
        assert(r.skip(1) =~= s);
    } else if k == s[0].0 {
        assert(r[0] == (k, v));
        assert(r.skip(1) =~= s.skip(1));
        if q != k {
            assert(entries_get(s, q) == entries_get(s.skip(1), q));
        }
    } else {
        assert(r[0] == s[0]);
        assert(r.skip(1) =~= entries_insert(s.skip(1), k, v));
        lemma_insert_get(s.skip(1), k, v, q);
        if s[0].0 == k {
            lemma_str_lt_irrefl(k);
        }
    }
}


/// Every entry of an insertion result is the inserted pair itself or an
/// entry of the original sequence.
pub proof fn lemma_entries_insert_members_exact<T>(s: Seq<(Seq<char>, T)>, k: Seq<char>, v: T)
    ensures
        forall|j: int|
            0 <= j < entries_insert(s, k, v).len() ==> (#[trigger] entries_insert(s, k, v)[j] == (
            k,
            v,
            ) || s.contains(entries_insert(s, k, v)[j])),
    decreases s.len(),
{
    let r = entries_insert(s, k, v);
    if s.len() == 0 {
    } else if str_lt(k, s[0].0) {
        assert forall|j: int| 0 <= j < r.len() implies (#[trigger] r[j] == (k, v) || s.contains(
            r[j],
        )) by {
            if j > 0 {
                assert(r[j] == s[j - 1]);
            }
        }
    } else if k == s[0].0 {
        assert forall|j: int| 0 <= j < r.len() implies (#[trigger] r[j] == (k, v) || s.contains(
            r[j],
        )) by {
            if j > 0 {
                assert(r[j] == s[j]);
            }
        }
    } else {
        let tail = s.skip(1);
        lemma_entries_insert_members_exact(tail, k, v);
        let rt = entries_insert(tail, k, v);
        assert forall|j: int| 0 <= j < r.len() implies (#[trigger] r[j] == (k, v) || s.contains(
            r[j],
        )) by {
            if j == 0 {
                assert(s.contains(s[0]));
            } else {
                assert(r[j] == rt[j - 1]);
                if !(rt[j - 1] == (k, v)) {
                    assert(tail.contains(rt[j - 1]));
                    let t = choose|t: int| 0 <= t < tail.len() && tail[t] == rt[j - 1];
                    assert(s[t + 1] == tail[t]);
                    assert(s.contains(s[t + 1]));
                }
            }
        }
    }
}

/// A map from strings to values, kept sorted by key so that iteration order
/// is deterministic: the order of the suite identifiers.
pub struct StrMap<V> {
    pub entries: Vec<(String, V)>,
}

impl<V: View> View for StrMap<V> {
    type V = Seq<(Seq<char>, V::V)>;

    open spec fn view(&self) -> Seq<(Seq<char>, V::V)> {
        Seq::new(self.entries@.len(), |i: int| (self.entries@[i].0@, self.entries@[i].1@))
    }
}

impl<V: View> StrMap<V> {
    pub open spec fn wf(&self) -> bool {
        entries_sorted(self@)
    }

    pub open spec fn spec_len(&self) -> nat {
        self@.len()
    }

    pub fn new() -> (r: Self)
        ensures
            r.wf(),
            r@ == Seq::<(Seq<char>, V::V)>::empty(),
    {
        let r = StrMap { entries: Vec::new() };
        proof {
            assert(r@ =~= Seq::<(Seq<char>, V::V)>::empty());
        }
        r
    }

    pub fn len(&self) -> (n: usize)
        ensures
            n == self@.len(),
    {
        self.entries.len()
    }

    pub fn is_empty(&self) -> (r: bool)
        ensures
            r == (self@.len() == 0),
    {
        self.entries.len() == 0
    }

    /// The key at position `i`, in sorted order.
    pub fn key_at(&self, i: usize) -> (r: &String)
        requires
            i < self@.len(),
        ensures
            r@ == self@[i as int].0,
    {
        &self.entries[i].0
    }

    /// The value at position `i`, in sorted key order.
    pub fn value_at(&self, i: usize) -> (r: &V)
        requires
            i < self@.len(),
        ensures
            r@ == self@[i as int].1,
    {
        &self.entries[i].1
    }

    /// Inserts `v` under `k`, replacing any entry with an equal key.
    pub fn insert(&mut self, k: String, v: V)
        requires
            old(self).wf(),
        ensures
            final(self).wf(),
            final(self)@ == entries_insert(old(self)@, k@, v@),
    {
        let ghost s0 = self@;
        let ghost gk = k@;
        let ghost gv = v@;
        let mut pos: usize = 0;
        while pos < self.entries.len()
            invariant
                s0 == old(self)@,
                gk == k@,
                gv == v@,
                self@ == s0,
                entries_sorted(s0),
                0 <= pos <= s0.len(),
                self.entries@.len() == s0.len(),
                forall|i: int| 0 <= i < pos ==> str_lt(#[trigger] s0[i].0, k@),
            decreases s0.len() - pos,
        {
            let c: StrOrd = str_cmp(self.entries[pos].0.as_str(), k.as_str());
            if c == StrOrd::Lt {
                assert(str_lt(s0[pos as int].0, k@));
                pos = pos + 1;
            } else if c == StrOrd::Eq {
                proof {
                    assert(s0[pos as int].0 == gk);
                    lemma_str_lt_irrefl(gk);
                    lemma_entries_insert_at(s0, gk, gv, pos as int);
                    lemma_entries_insert_sorted(s0, gk, gv);
                }
                let _old = self.entries.remove(pos);
                self.entries.insert(pos, (k, v));
                proof {
                    assert(self@ =~= s0.subrange(0, pos as int) + seq![(gk, gv)] + s0.subrange(
                        pos + 1,
                        s0.len() as int,
                    ));
                    assert(entries_insert(s0, gk, gv) == s0.subrange(0, pos as int) + seq![
                        (gk, gv),
                    ] + s0.subrange(pos + 1, s0.len() as int));
                }
                return ;
            } else {
                proof {
                    assert(str_lt(gk, s0[pos as int].0));
                    lemma_str_lt_asym(gk, s0[pos as int].0);
                    if s0[pos as int].0 == gk {
                        lemma_str_lt_irrefl(gk);
                    }
                    lemma_entries_insert_at(s0, gk, gv, pos as int);
                    lemma_entries_insert_sorted(s0, gk, gv);
                }
                self.entries.insert(pos, (k, v));
                proof {
                    assert(self@ =~= s0.subrange(0, pos as int) + seq![(gk, gv)] + s0.subrange(
                        pos as int,
                        s0.len() as int,
                    ));
                    assert(entries_insert(s0, gk, gv) == s0.subrange(0, pos as int) + seq![
                        (gk, gv),
                    ] + s0.subrange(pos as int, s0.len() as int));
                }
                return ;
            }
        }
        proof {
            lemma_entries_insert_at(s0, gk, gv, pos as int);
            lemma_entries_insert_sorted(s0, gk, gv);
        }
        self.entries.insert(pos, (k, v));
        proof {
            assert(self@ =~= s0.subrange(0, pos as int) + seq![(gk, gv)] + s0.subrange(
                pos as int,
                s0.len() as int,
            ));
            assert(entries_insert(s0, gk, gv) == s0.subrange(0, pos as int) + seq![
                (gk, gv),
            ] + s0.subrange(pos as int, s0.len() as int));
        }
    }

    /// Looks up the value stored under `k`.
    pub fn get(&self, k: &str) -> (r: Option<&V>)
        ensures
            match r {
                Some(x) => entries_get(self@, k@) == Some(x@),
                None => entries_get(self@, k@) is None,
            },
    {
        let mut i: usize = 0;
        proof {
            assert(self@.skip(0) =~= self@);
        }
        loop
            invariant
                0 <= i <= self@.len(),
                self.entries@.len() == self@.len(),
                entries_get(self@, k@) == entries_get(self@.skip(i as int), k@),
            decreases self@.len() - i,
        {
            if i == self.entries.len() {
                proof {
                    assert(self@.skip(i as int) =~= Seq::<(Seq<char>, V::V)>::empty());
                }
                return None;
            }
            let c: StrOrd = str_cmp(self.entries[i].0.as_str(), k);
            if c == StrOrd::Eq {
                proof {
                    assert(self@.skip(i as int)[0] == self@[i as int]);
                }
                return Some(&self.entries[i].1);
            }
            proof {
                assert(self@.skip(i as int)[0] == self@[i as int]);
                assert(self@[i as int].0 != k@) by {
                    if self@[i as int].0 == k@ {
                        lemma_str_lt_irrefl(k@);
                    }
                }
                assert(self@.skip(i as int).skip(1) =~= self@.skip(i + 1 as int));
            }
            i = i + 1;
        }
    }

    /// Whether an entry with key `k` is present.
    pub fn contains_key(&self, k: &str) -> (r: bool)
        ensures
            r == entries_contains(self@, k@),
    {
        match self.get(k) {
            Some(_) => true,
            None => false,
        }
    }
}


/// In a sorted entry sequence every position is found by lookup.
pub proof fn lemma_get_at_index<T>(s: Seq<(Seq<char>, T)>, j: int)
    requires
        entries_sorted(s),
        0 <= j < s.len(),
    ensures
        entries_get(s, s[j].0) == Some(s[j].1),
    decreases j,
{
    if j == 0 {
    } else {
        assert(str_lt(s[0].0, s[j].0));
        assert(s[0].0 != s[j].0) by {
            if s[0].0 == s[j].0 {
                lemma_str_lt_irrefl(s[j].0);
            }
        }
        let tail = s.skip(1);
        assert(entries_sorted(tail)) by {
            assert(forall|x: int, y: int| 0 <= x < y < tail.len() ==> tail[x] == s[x + 1]
                && tail[y] == s[y + 1]);
        }
        assert(tail[j - 1] == s[j]);
        lemma_get_at_index(tail, j - 1);
    }
}

/// A successful lookup names an entry of the sequence.
pub proof fn lemma_get_some_witness<T>(s: Seq<(Seq<char>, T)>, k: Seq<char>)
    requires
        entries_get(s, k) is Some,
    ensures
        exists|j: int| 0 <= j < s.len() && (#[trigger] s[j]) == (k, entries_get(s, k)->Some_0),
    decreases s.len(),
{
    if s.len() > 0 {
        if s[0].0 == k {
            assert(s[0] == (k, entries_get(s, k)->Some_0));
        } else {
            lemma_get_some_witness(s.skip(1), k);
            let j = choose|j: int|
                0 <= j < s.skip(1).len() && (#[trigger] s.skip(1)[j]) == (
                k,
                entries_get(s.skip(1), k)->Some_0,
                );
            assert(s[j + 1] == s.skip(1)[j]);
        }
    }
}

/// A key below every stored key is absent.
proof fn lemma_get_none_below<T>(s: Seq<(Seq<char>, T)>, k: Seq<char>)
    requires
        entries_sorted(s),
        s.len() > 0,
        str_lt(k, s[0].0),
    ensures
        entries_get(s, k) is None,
    decreases s.len(),
{
    assert(s[0].0 != k) by {
        if s[0].0 == k {
            lemma_str_lt_irrefl(k);
        }
    }
    let tail = s.skip(1);
    if tail.len() > 0 {
        assert(entries_sorted(tail)) by {
            assert(forall|x: int, y: int| 0 <= x < y < tail.len() ==> tail[x] == s[x + 1]
                && tail[y] == s[y + 1]);
        }
        assert(tail[0] == s[1]);
        lemma_str_lt_trans(k, s[0].0, s[1].0);
        lemma_get_none_below(tail, k);
    }
}

/// Two sorted entry sequences that answer every lookup alike are equal: the
/// sorted representation of a map is canonical.
pub proof fn lemma_sorted_entries_canonical<T>(a: Seq<(Seq<char>, T)>, b: Seq<(Seq<char>, T)>)
    requires
        entries_sorted(a),
        entries_sorted(b),
        forall|k: Seq<char>| #[trigger] entries_get(a, k) == entries_get(b, k),
    ensures
        a == b,
    decreases a.len(),
{
    if a.len() == 0 && b.len() == 0 {
        assert(a =~= b);
    } else if a.len() == 0 {
        lemma_get_at_index(b, 0);
        assert(entries_get(a, b[0].0) is None);
        assert(false);
    } else if b.len() == 0 {
        lemma_get_at_index(a, 0);
        assert(entries_get(b, a[0].0) is None);
        assert(false);
    } else {
        assert(a[0].0 == b[0].0) by {
            if str_lt(a[0].0, b[0].0) {
                lemma_get_at_index(a, 0);
                lemma_get_none_below(b, a[0].0);
                assert(false);
            }
            if str_lt(b[0].0, a[0].0) {
                lemma_get_at_index(b, 0);
                lemma_get_none_below(a, b[0].0);
                assert(false);
            }
            lemma_str_lt_connected(a[0].0, b[0].0);
        }
        lemma_get_at_index(a, 0);
        lemma_get_at_index(b, 0);
        assert(a[0].1 == b[0].1);
        let at = a.skip(1);
        let bt = b.skip(1);
        assert(entries_sorted(at)) by {
            assert(forall|x: int, y: int| 0 <= x < y < at.len() ==> at[x] == a[x + 1] && at[y]
                == a[y + 1]);
        }
        assert(entries_sorted(bt)) by {
            assert(forall|x: int, y: int| 0 <= x < y < bt.len() ==> bt[x] == b[x + 1] && bt[y]
                == b[y + 1]);
        }
        assert forall|k: Seq<char>| #[trigger] entries_get(at, k) == entries_get(bt, k) by {
            if k == a[0].0 {
                if at.len() > 0 {
                    assert(at[0] == a[1]);
                    assert(str_lt(a[0].0, at[0].0));
                    lemma_get_none_below(at, k);
                }
                if bt.len() > 0 {
                    assert(bt[0] == b[1]);
                    assert(str_lt(b[0].0, bt[0].0));
                    lemma_get_none_below(bt, k);
                }
            } else {
                assert(entries_get(a, k) == entries_get(at, k));
                assert(entries_get(b, k) == entries_get(bt, k));
            }
        }
        lemma_sorted_entries_canonical(at, bt);
        assert(a =~= b) by {
            assert(a[0] == b[0]);
            assert(forall|x: int| 1 <= x < a.len() ==> a[x] == at[x - 1] && b[x] == bt[x - 1]);
        }
    }
}

} // verus!
