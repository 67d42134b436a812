//! A table of values under texts, each text at most once.

use vstd::prelude::*;

use crate::json::opt_view;
use crate::order::{
    by_name, in_order, law_in_order_is_sorted, law_sorted_in_order, law_sorted_items,
    law_sorted_texts_unique, sort_by_name,
};
use crate::text::{same_text, views};

verus! {

/// Values under texts. No text occurs twice.
#[derive(Debug)]
pub struct Keyed<V: View> {
    entries: Vec<(String, V)>,
}

/// Whether no key occurs twice.
pub open spec fn distinct<V>(s: Seq<(Seq<char>, V)>) -> bool {
    forall|i: int, j: int| 0 <= i < j < s.len() ==> (#[trigger] s[i]).0 != (#[trigger] s[j]).0
}

/// Whether the key stands at the place.
pub open spec fn key_at<V>(s: Seq<(Seq<char>, V)>, key: Seq<char>, i: int) -> bool {
    0 <= i < s.len() && s[i].0 == key
}

/// The table that the entries amount to.
pub open spec fn table_of<V>(s: Seq<(Seq<char>, V)>) -> Map<Seq<char>, V> {
    Map::new(
        |key: Seq<char>| exists|i: int| key_at(s, key, i),
        |key: Seq<char>| s[choose|i: int| key_at(s, key, i)].1,
    )
}

/// What stands in a table under the key.
pub open spec fn lookup<V>(m: Map<Seq<char>, V>, key: Seq<char>) -> Option<V> {
    if m.contains_key(key) {
        Some(m[key])
    } else {
        None
    }
}

/// Whether these are the keys of a table, each once and in their order.
pub open spec fn key_list<V>(m: Map<Seq<char>, V>, keys: Seq<Seq<char>>) -> bool {
    &&& forall|key: Seq<char>| #[trigger] m.contains_key(key) <==> keys.contains(key)
    &&& keys.no_duplicates()
    &&& in_order(keys, by_name::<String>())
}

/// A table has one list of keys: what is shown in its order is always shown the
/// same.
pub proof fn law_key_list_is_unique<V>(
    m: Map<Seq<char>, V>,
    a: Seq<Seq<char>>,
    b: Seq<Seq<char>>,
)
    requires
        key_list(m, a),
        key_list(m, b),
    ensures
        a == b,
{
    let key = by_name::<String>();
    a.to_multiset_ensures();
    b.to_multiset_ensures();
    a.lemma_multiset_has_no_duplicates();
    b.lemma_multiset_has_no_duplicates();
    assert forall|x: Seq<char>| #[trigger] a.to_multiset().count(x) == b.to_multiset().count(x) by {
        assert(a.contains(x) <==> a.to_multiset().count(x) > 0);
        assert(b.contains(x) <==> b.to_multiset().count(x) > 0);
        assert(m.contains_key(x) <==> a.contains(x));
        assert(m.contains_key(x) <==> b.contains(x));
    }
    assert(a.to_multiset() =~= b.to_multiset());
    law_sorted_texts_unique(a, b);
    law_in_order_is_sorted(a);
    law_in_order_is_sorted(b);
}

/// An entry is found under its key.
proof fn lemma_entry<V>(s: Seq<(Seq<char>, V)>, i: int)
    requires
        distinct(s),
        0 <= i < s.len(),
    ensures
        table_of(s).contains_key(s[i].0),
        table_of(s)[s[i].0] == s[i].1,
{
    let key = s[i].0;
    assert(key_at(s, key, i));
    let k = choose|k: int| key_at(s, key, k);
    assert(key_at(s, key, k));
    if k < i {
        assert(s[k].0 != s[i].0);
    } else if i < k {
        assert(s[i].0 != s[k].0);
    }
}

/// Two tables of the same entries, in whatever order, are one.
proof fn lemma_table<V>(s: Seq<(Seq<char>, V)>, m: Map<Seq<char>, V>)
    requires
        distinct(s),
        forall|i: int|
            0 <= i < s.len() ==> m.contains_key((#[trigger] s[i]).0) && m[s[i].0] == s[i].1,
        forall|key: Seq<char>| #[trigger]
            m.contains_key(key) ==> exists|i: int| key_at(s, key, i),
    ensures
        table_of(s) == m,
{
    let t = table_of(s);
    assert forall|key: Seq<char>| t.contains_key(key) <==> m.contains_key(key) by {
        if t.contains_key(key) {
            let i = choose|i: int| key_at(s, key, i);
            assert(m.contains_key(s[i].0));
        }
    }
    assert forall|key: Seq<char>| t.contains_key(key) implies t[key] == m[key] by {
        let i = choose|i: int| key_at(s, key, i);
        lemma_entry(s, i);
        assert(m[s[i].0] == s[i].1);
    }
    assert(t =~= m);
}

impl<V: View> View for Keyed<V> {
    type V = Map<Seq<char>, V::V>;

    closed spec fn view(&self) -> Map<Seq<char>, V::V> {
        table_of(views(self.entries@))
    }
}

impl<V: View> Keyed<V> {
    #[verifier::type_invariant]
    spec fn valid(self) -> bool {
        distinct(views(self.entries@))
    }

    /// An empty table.
    pub fn new() -> (r: Keyed<V>)
        ensures
            r@ == Map::<Seq<char>, V::V>::empty(),
    {
        let entries: Vec<(String, V)> = Vec::new();
        proof {
            lemma_table(views(entries@), Map::<Seq<char>, V::V>::empty());
        }
        Keyed { entries }
    }

    /// The place of a key.
    fn place(&self, key: &str) -> (r: Option<usize>)
        ensures
            r matches Some(i) ==> i < self.entries@.len() && key_at(
                views(self.entries@),
                key@,
                i as int,
            ),
            r is None ==> forall|i: int| !key_at(views(self.entries@), key@, i),
    {
        let ghost all = views(self.entries@);
        let mut i: usize = 0;
        while i < self.entries.len()
            invariant
                i <= self.entries@.len(),
                all == views(self.entries@),
                forall|k: int| 0 <= k < i ==> !key_at(all, key@, k),
            decreases self.entries.len() - i,
        {
            if same_text(self.entries[i].0.as_str(), key) {
                return Some(i);
            }
            i += 1;
        }
        None
    }

    /// What stands under the key.
    pub fn get(&self, key: &str) -> (r: Option<&V>)
        ensures
            opt_view(r) == lookup(self@, key@),
    {
        proof {
            use_type_invariant(&*self);
        }
        match self.place(key) {
            Some(i) => {
                proof {
                    lemma_entry(views(self.entries@), i as int);
                }
                Some(&self.entries[i].1)
            },
            None => None,
        }
    }

    /// Whether anything stands under the key.
    pub fn contains_key(&self, key: &str) -> (r: bool)
        ensures
            r == self@.contains_key(key@),
    {
        self.get(key).is_some()
    }

    /// Whether there is nothing in the table.
    pub fn is_empty(&self) -> (r: bool)
        ensures
            r <==> self@ == Map::<Seq<char>, V::V>::empty(),
    {
        proof {
            use_type_invariant(&*self);
            if self.entries@.len() == 0 {
                lemma_table(views(self.entries@), Map::<Seq<char>, V::V>::empty());
            } else {
                lemma_entry(views(self.entries@), 0);
            }
        }
        self.entries.len() == 0
    }

    /// Puts a value under the key, in place of what stood there.
    pub fn insert(&mut self, key: &str, value: V)
        ensures
            final(self)@ == old(self)@.insert(key@, value@),
    {
        proof {
            use_type_invariant(&*self);
        }
        let ghost before = views(self.entries@);
        let at = self.place(key);
        let mut entries: Vec<(String, V)> = Vec::new();
        std::mem::swap(&mut entries, &mut self.entries);
        let entry = (key.to_owned(), value);
        let ghost m = table_of(before).insert(key@, value@);
        match at {
            Some(i) => {
                entries.set(i, entry);
                proof {
                    let now = views(entries@);
                    assert(now =~= before.update(i as int, (key@, value@)));
                    assert forall|k: int, j: int| 0 <= k < j < now.len() implies (#[trigger]
                    now[k]).0 != (#[trigger] now[j]).0 by {
                        assert(now[k].0 == before[k].0);
                        assert(now[j].0 == before[j].0);
                    }
                    assert forall|k: int| 0 <= k < now.len() implies m.contains_key(
                        (#[trigger] now[k]).0,
                    ) && m[now[k].0] == now[k].1 by {
                        lemma_entry(before, k);
                        if k != i {
                            assert(before[k].0 != before[i as int].0) by {
                                if k < i {
                                    assert(before[k].0 != before[i as int].0);
                                } else {
                                    assert(before[i as int].0 != before[k].0);
                                }
                            }
                        }
                    }
                    assert forall|q: Seq<char>| #[trigger] m.contains_key(q) implies exists|k: int|
                        key_at(now, q, k) by {
                        if q == key@ {
                            assert(key_at(now, q, i as int));
                        } else {
                            let k = choose|k: int| key_at(before, q, k);
                            assert(key_at(now, q, k));
                        }
                    }
                    lemma_table(now, m);
                }
            },
            None => {
                entries.push(entry);
                proof {
                    let now = views(entries@);
                    assert(now =~= before.push((key@, value@)));
                    assert forall|k: int, j: int| 0 <= k < j < now.len() implies (#[trigger]
                    now[k]).0 != (#[trigger] now[j]).0 by {
                        assert(now[k] == before[k]);
                        assert(!key_at(before, key@, k));
                        if j < before.len() {
                            assert(now[j] == before[j]);
                        }
                    }
                    assert forall|k: int| 0 <= k < now.len() implies m.contains_key(
                        (#[trigger] now[k]).0,
                    ) && m[now[k].0] == now[k].1 by {
                        if k < before.len() {
                            lemma_entry(before, k);
                            assert(!key_at(before, key@, k));
                        }
                    }
                    assert forall|q: Seq<char>| #[trigger] m.contains_key(q) implies exists|k: int|
                        key_at(now, q, k) by {
                        if q == key@ {
                            assert(key_at(now, q, before.len() as int));
                        } else {
                            let k = choose|k: int| key_at(before, q, k);
                            assert(key_at(now, q, k));
                        }
                    }
                    lemma_table(now, m);
                }
            },
        }
        self.entries = entries;
    }

    /// Takes away what stands under the key.
    pub fn remove(&mut self, key: &str) -> (r: Option<V>)
        ensures
            final(self)@ == old(self)@.remove(key@),
            opt_view(r) == lookup(old(self)@, key@),
    {
        proof {
            use_type_invariant(&*self);
        }
        let ghost before = views(self.entries@);
        let ghost m = table_of(before).remove(key@);
        match self.place(key) {
            Some(i) => {
                let mut entries: Vec<(String, V)> = Vec::new();
                std::mem::swap(&mut entries, &mut self.entries);
                let (_, value): (String, V) = entries.remove(i);
                proof {
                    let at = i as int;
                    let now = views(entries@);
                    lemma_entry(before, at);
                    assert(now =~= before.remove(at));
                    assert forall|k: int, j: int| 0 <= k < j < now.len() implies (#[trigger]
                    now[k]).0 != (#[trigger] now[j]).0 by {
                        let a = if k < at { k } else { k + 1 };
                        let b = if j < at { j } else { j + 1 };
                        assert(now[k] == before[a]);
                        assert(now[j] == before[b]);
                    }
                    assert forall|k: int| 0 <= k < now.len() implies m.contains_key(
                        (#[trigger] now[k]).0,
                    ) && m[now[k].0] == now[k].1 by {
                        let a = if k < at { k } else { k + 1 };
                        assert(now[k] == before[a]);
                        lemma_entry(before, a);
                        if a < at {
                            assert(before[a].0 != before[at].0);
                        } else {
                            assert(before[at].0 != before[a].0);
                        }
                    }
                    assert forall|q: Seq<char>| #[trigger] m.contains_key(q) implies exists|k: int|
                        key_at(now, q, k) by {
                        let a = choose|a: int| key_at(before, q, a);
                        let k = if a < at { a } else { a - 1 };
                        assert(now[k] == before[a]);
                        assert(key_at(now, q, k));
                    }
                    lemma_table(now, m);
                }
                self.entries = entries;
                Some(value)
            },
            None => {
                proof {
                    assert(m =~= table_of(before));
                }
                None
            },
        }
    }

    /// The keys in their order.
    pub fn keys(&self) -> (r: Vec<String>)
        ensures
            key_list(self@, views(r@)),
    {
        proof {
            use_type_invariant(&*self);
        }
        let ghost all = views(self.entries@);
        let mut out: Vec<String> = Vec::new();
        let mut i: usize = 0;
        while i < self.entries.len()
            invariant
                i <= self.entries@.len(),
                all == views(self.entries@),
                out@.len() == i,
                forall|k: int| 0 <= k < i ==> (#[trigger] out@[k])@ == all[k].0,
            decreases self.entries.len() - i,
        {
            out.push(self.entries[i].0.clone());
            i += 1;
        }
        let ghost raw = views(out@);
        let r = sort_by_name(out);
        proof {
            let key = by_name::<String>();
            let s = views(r@);
            law_sorted_items(raw, key);
            law_sorted_in_order(raw, key);
            raw.to_multiset_ensures();
            s.to_multiset_ensures();
            assert(raw.no_duplicates()) by {
                assert forall|a: int, b: int|
                    0 <= a < raw.len() && 0 <= b < raw.len() && a != b implies raw[a] != raw[b] by {
                    assert(raw[a] == all[a].0);
                    assert(raw[b] == all[b].0);
                    if a < b {
                        assert(all[a].0 != all[b].0);
                    } else {
                        assert(all[b].0 != all[a].0);
                    }
                }
            }
            raw.lemma_multiset_has_no_duplicates();
            s.lemma_multiset_has_no_duplicates_conv();
            assert forall|q: Seq<char>| #[trigger] self@.contains_key(q) <==> s.contains(q) by {
                assert(s.contains(q) <==> s.to_multiset().count(q) > 0);
                assert(raw.contains(q) <==> raw.to_multiset().count(q) > 0);
                if self@.contains_key(q) {
                    let k = choose|k: int| key_at(all, q, k);
                    assert(raw[k] == q);
                }
                if raw.contains(q) {
                    let k = choose|k: int| 0 <= k < raw.len() && raw[k] == q;
                    assert(key_at(all, q, k));
                }
            }
        }
        r
    }
}

} // verus!
