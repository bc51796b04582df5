//! A table keyed by text: what a string-keyed map holds, in insertion order.
//!
//! A table is modelled as the sequence of its key/value pairs.
use crate::text::{same_text, text_of, views};
use vstd::prelude::*;

verus! {

/// Whether `k` is a key of the pairs.
pub open spec fn t_has<W>(s: Seq<(Seq<char>, W)>, k: Seq<char>) -> bool {
    exists|i: int| 0 <= i < s.len() && (#[trigger] s[i]).0 == k
}

/// The value under `k`.
pub open spec fn t_get<W>(s: Seq<(Seq<char>, W)>, k: Seq<char>) -> Option<W>
    decreases s.len(),
{
    if s.len() == 0 {
        None
    } else if s.last().0 == k {
        Some(s.last().1)
    } else {
        t_get(s.drop_last(), k)
    }
}

/// The pairs with `k` set to `v`: in its place where `k` is there, at the end otherwise.
pub open spec fn t_put<W>(s: Seq<(Seq<char>, W)>, k: Seq<char>, v: W) -> Seq<(Seq<char>, W)> {
    if t_has(s, k) {
        Seq::new(
            s.len(),
            |i: int|
                if s[i].0 == k {
                    (k, v)
                } else {
                    s[i]
                },
        )
    } else {
        s.push((k, v))
    }
}

/// The pairs without `k`.
pub open spec fn t_del<W>(s: Seq<(Seq<char>, W)>, k: Seq<char>) -> Seq<(Seq<char>, W)>
    decreases s.len(),
{
    if s.len() == 0 {
        s
    } else if s.last().0 == k {
        t_del(s.drop_last(), k)
    } else {
        t_del(s.drop_last(), k).push(s.last())
    }
}

/// The keys in their order.
pub open spec fn t_keys<W>(s: Seq<(Seq<char>, W)>) -> Seq<Seq<char>> {
    s.map_values(|p: (Seq<char>, W)| p.0)
}

/// No key occurs twice.
pub open spec fn t_unique<W>(s: Seq<(Seq<char>, W)>) -> bool {
    forall|i: int, j: int| 0 <= i < j < s.len() ==> (#[trigger] s[i]).0 != (#[trigger] s[j]).0
}

/// A key is found exactly when it is there.
pub proof fn t_get_has<W>(s: Seq<(Seq<char>, W)>, k: Seq<char>)
    ensures
        t_get(s, k) is Some <==> t_has(s, k),
    decreases s.len(),
{
    if s.len() > 0 {
        let r = s.drop_last();
        t_get_has(r, k);
        if t_has(r, k) {
            let i = choose|i: int| 0 <= i < r.len() && (#[trigger] r[i]).0 == k;
            assert(s[i].0 == k);
        }
        if t_has(s, k) && s.last().0 != k {
            let i = choose|i: int| 0 <= i < s.len() && (#[trigger] s[i]).0 == k;
            assert(r[i].0 == k);
        }
        if s.last().0 == k {
            assert(s[s.len() - 1].0 == k);
        }
    }
}

/// With unique keys, a pair at any place is the one found under its key.
pub proof fn t_get_at<W>(s: Seq<(Seq<char>, W)>, i: int)
    requires
        t_unique(s),
        0 <= i < s.len(),
    ensures
        t_get(s, s[i].0) == Some(s[i].1),
        t_has(s, s[i].0),
    decreases s.len(),
{
    if i < s.len() - 1 {
        let r = s.drop_last();
        assert(r[i] == s[i]);
        assert(s[s.len() - 1].0 != s[i].0);
        t_get_at(r, i);
    }
}

/// What a lookup gives after a key was set.
pub proof fn t_get_put<W>(s: Seq<(Seq<char>, W)>, k: Seq<char>, v: W, q: Seq<char>)
    requires
        t_unique(s),
    ensures
        t_unique(t_put(s, k, v)),
        t_get(t_put(s, k, v), q) == (if q == k {
            Some(v)
        } else {
            t_get(s, q)
        }),
{
    let t = t_put(s, k, v);
    if t_has(s, k) {
        assert(forall|i: int| 0 <= i < s.len() ==> (#[trigger] t[i]).0 == s[i].0);
        t_get_has(s, q);
        t_get_has(t, q);
        if t_has(s, q) {
            let i = choose|i: int| 0 <= i < s.len() && (#[trigger] s[i]).0 == q;
            assert(t[i].0 == q);
            t_get_at(s, i);
            t_get_at(t, i);
        } else if t_has(t, q) {
            let i = choose|i: int| 0 <= i < t.len() && (#[trigger] t[i]).0 == q;
            assert(s[i].0 == q);
        }
    } else {
        assert(t.drop_last() =~= s);
    }
}

/// The table as a map.
pub open spec fn t_map<W>(s: Seq<(Seq<char>, W)>) -> Map<Seq<char>, W> {
    Map::new(|k: Seq<char>| t_get(s, k) is Some, |k: Seq<char>| t_get(s, k)->0)
}

/// Setting a key in a table sets it in the map.
pub proof fn t_map_put<W>(s: Seq<(Seq<char>, W)>, k: Seq<char>, v: W)
    requires
        t_unique(s),
    ensures
        t_map(t_put(s, k, v)) == t_map(s).insert(k, v),
{
    assert forall|q: Seq<char>| t_get(t_put(s, k, v), q) == (if q == k {
        Some(v)
    } else {
        t_get(s, q)
    }) by {
        t_get_put(s, k, v, q);
    }
    assert(t_map(t_put(s, k, v)) =~= t_map(s).insert(k, v));
}

/// What a lookup gives after a key was taken out.
pub proof fn t_get_del<W>(s: Seq<(Seq<char>, W)>, k: Seq<char>, q: Seq<char>)
    ensures
        t_get(t_del(s, k), q) == (if q == k {
            None
        } else {
            t_get(s, q)
        }),
    decreases s.len(),
{
    if s.len() > 0 {
        t_get_del(s.drop_last(), k, q);
        if s.last().0 != k {
            assert(t_del(s, k).drop_last() =~= t_del(s.drop_last(), k));
        }
    }
}

/// Taking a key out leaves the other keys unique, each with its pair.
pub proof fn t_del_unique<W>(s: Seq<(Seq<char>, W)>, k: Seq<char>)
    requires
        t_unique(s),
    ensures
        t_unique(t_del(s, k)),
        forall|i: int|
            0 <= i < t_del(s, k).len() ==> (#[trigger] t_del(s, k)[i]).0 != k && s.contains(
                t_del(s, k)[i],
            ),
    decreases s.len(),
{
    if s.len() > 0 {
        let r = s.drop_last();
        assert forall|i: int, j: int| 0 <= i < j < r.len() implies (#[trigger] r[i]).0 != (
        #[trigger] r[j]).0 by {
            assert(s[i].0 != s[j].0);
        }
        t_del_unique(r, k);
        let d = t_del(r, k);
        assert forall|i: int| 0 <= i < d.len() implies s.contains(#[trigger] d[i]) && d[i].0
            != s.last().0 by {
            let j = choose|j: int| 0 <= j < r.len() && r[j] == d[i];
            assert(s[j] == d[i]);
            assert(s[j].0 != s[s.len() - 1].0);
        }
        if s.last().0 != k {
            let t = d.push(s.last());
            assert(s[s.len() - 1] == s.last());
            assert forall|i: int| 0 <= i < t.len() implies (#[trigger] t[i]).0 != k && s.contains(
                t[i],
            ) by {
                if i < d.len() {
                    assert(t[i] == d[i]);
                }
            }
            assert forall|i: int, j: int| 0 <= i < j < t.len() implies (#[trigger] t[i]).0 != (
            #[trigger] t[j]).0 by {
                assert(t[i] == d[i]);
                if j < d.len() {
                    assert(t[j] == d[j]);
                }
            }
        }
    }
}

/// A key that is not there can be taken out without effect.
pub proof fn t_del_absent<W>(s: Seq<(Seq<char>, W)>, k: Seq<char>)
    requires
        !t_has(s, k),
    ensures
        t_del(s, k) == s,
    decreases s.len(),
{
    if s.len() > 0 {
        let r = s.drop_last();
        assert(!t_has(r, k)) by {
            if t_has(r, k) {
                let i = choose|i: int| 0 <= i < r.len() && (#[trigger] r[i]).0 == k;
                assert(s[i].0 == k);
            }
        }
        t_del_absent(r, k);
        assert(s[s.len() - 1].0 != k);
        assert(r.push(s.last()) =~= s);
    }
}

proof fn lemma_del_at<W>(s: Seq<(Seq<char>, W)>, i: int)
    requires
        t_unique(s),
        0 <= i < s.len(),
    ensures
        t_del(s, s[i].0) == s.remove(i),
    decreases s.len(),
{
    let r = s.drop_last();
    assert forall|a: int, b: int| 0 <= a < b < r.len() implies (#[trigger] r[a]).0 != (
    #[trigger] r[b]).0 by {
        assert(s[a].0 != s[b].0);
    }
    if i == s.len() - 1 {
        assert(!t_has(r, s[i].0)) by {
            if t_has(r, s[i].0) {
                let j = choose|j: int| 0 <= j < r.len() && (#[trigger] r[j]).0 == s[i].0;
                assert(s[j].0 == s[i].0);
            }
        }
        t_del_absent(r, s[i].0);
        assert(s.remove(i) =~= r);
    } else {
        assert(r[i] == s[i]);
        assert(s[i].0 != s[s.len() - 1].0);
        lemma_del_at(r, i);
        assert(r.remove(i).push(s.last()) =~= s.remove(i));
    }
}

#[derive(Debug)]
pub struct Entry<V> {
    pub key: String,
    pub value: V,
}

/// A table keyed by text. A key occurs at most once; entries stay in the order in which
/// their keys came in.
#[derive(Debug)]
pub struct Table<V> {
    pub entries: Vec<Entry<V>>,
}

pub open spec fn entry_pairs<V: View>(es: Seq<Entry<V>>) -> Seq<(Seq<char>, V::V)> {
    es.map_values(|e: Entry<V>| (e.key@, e.value@))
}

impl<V: View> View for Table<V> {
    type V = Seq<(Seq<char>, V::V)>;

    open spec fn view(&self) -> Seq<(Seq<char>, V::V)> {
        entry_pairs(self.entries@)
    }
}

impl<V: View> Table<V> {
    pub open spec fn wf(self) -> bool {
        t_unique(self@)
    }

    pub fn new() -> (t: Self)
        ensures
            t.wf(),
            t@ == Seq::<(Seq<char>, V::V)>::empty(),
    {
        let t: Table<V> = Table { entries: Vec::new() };
        assert(t@ =~= Seq::<(Seq<char>, V::V)>::empty());
        t
    }

    pub fn len(&self) -> (n: usize)
        ensures
            n == self@.len(),
    {
        self.entries.len()
    }

    fn find(&self, key: &str) -> (r: Option<usize>)
        ensures
            match r {
                Some(i) => i < self.entries@.len() && self@[i as int].0 == key@,
                None => !t_has(self@, key@),
            },
    {
        let mut i: usize = 0;
        while i < self.entries.len()
            invariant
                i <= self.entries@.len(),
                forall|k: int| 0 <= k < i ==> (#[trigger] self@[k]).0 != key@,
            decreases self.entries@.len() - i,
        {
            assert(self@[i as int].0 == self.entries@[i as int].key@);
            if same_text(self.entries[i].key.as_str(), key) {
                return Some(i);
            }
            i += 1;
        }
        None
    }

    pub fn get(&self, key: &str) -> (r: Option<&V>)
        requires
            self.wf(),
        ensures
            match r {
                Some(v) => t_get(self@, key@) == Some(v@),
                None => t_get(self@, key@) is None,
            },
    {
        match self.find(key) {
            Some(i) => {
                proof {
                    t_get_at(self@, i as int);
                }
                Some(&self.entries[i].value)
            },
            None => {
                proof {
                    t_get_has(self@, key@);
                }
                None
            },
        }
    }

    pub fn contains_key(&self, key: &str) -> (b: bool)
        ensures
            b == t_has(self@, key@),
    {
        self.find(key).is_some()
    }

    /// Sets `key` to `value`. A key that is already there keeps its place.
    pub fn insert(&mut self, key: &str, value: V)
        requires
            old(self).wf(),
        ensures
            final(self).wf(),
            final(self)@ == t_put(old(self)@, key@, value@),
    {
        let ghost v = value@;
        let e: Entry<V> = Entry { key: text_of(key), value };
        proof {
            t_get_put(self@, key@, v, key@);
        }
        match self.find(key) {
            Some(i) => {
                assert(t_has(self@, key@));
                self.entries.remove(i);
                self.entries.insert(i, e);
                assert(self@ =~= t_put(old(self)@, key@, v));
            },
            None => {
                self.entries.push(e);
                assert(self@ =~= t_put(old(self)@, key@, v));
            },
        }
    }

    /// Takes `key` out; the other entries keep their order.
    pub fn remove(&mut self, key: &str) -> (r: Option<V>)
        requires
            old(self).wf(),
        ensures
            final(self).wf(),
            final(self)@ == t_del(old(self)@, key@),
            match r {
                Some(v) => t_get(old(self)@, key@) == Some(v@),
                None => t_get(old(self)@, key@) is None,
            },
    {
        proof {
            t_del_unique(self@, key@);
        }
        match self.find(key) {
            Some(i) => {
                proof {
                    lemma_del_at(self@, i as int);
                    t_get_at(self@, i as int);
                }
                let e: Entry<V> = self.entries.remove(i);
                assert(self@ =~= old(self)@.remove(i as int));
                Some(e.value)
            },
            None => {
                proof {
                    t_del_absent(self@, key@);
                    t_get_has(self@, key@);
                }
                None
            },
        }
    }

    /// The keys in their order, copied.
    pub fn key_list(&self) -> (r: Vec<String>)
        ensures
            views(r@) == t_keys(self@),
    {
        let mut r: Vec<String> = Vec::new();
        let mut i: usize = 0;
        while i < self.entries.len()
            invariant
                i <= self.entries@.len(),
                views(r@) == t_keys(self@).take(i as int),
            decreases self.entries@.len() - i,
        {
            let ghost done = views(r@);
            r.push(text_of(self.entries[i].key.as_str()));
            assert(views(r@) =~= done.push(t_keys(self@)[i as int]));
            assert(t_keys(self@).take(i + 1) =~= done.push(t_keys(self@)[i as int]));
            i += 1;
        }
        assert(t_keys(self@).take(i as int) =~= t_keys(self@));
        r
    }
}

} // verus!
