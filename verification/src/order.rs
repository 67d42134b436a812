//! The order of texts, and sorting by name.

use vstd::prelude::*;
use vstd::relations::total_ordering;

use crate::text::{chars_of, views};

verus! {

/// Whether `a` comes before `b`: the first character in which they differ
/// decides, and a text comes before every longer one that begins with it.
pub open spec fn comes_before(a: Seq<char>, b: Seq<char>) -> bool
    decreases a.len(),
{
    if b.len() == 0 {
        false
    } else if a.len() == 0 {
        true
    } else if a[0] != b[0] {
        a[0] < b[0]
    } else {
        comes_before(a.skip(1), b.skip(1))
    }
}

/// Whether `a` comes before `b`.
pub fn text_before(a: &str, b: &str) -> (r: bool)
    ensures
        r == comes_before(a@, b@),
{
    let x = chars_of(a);
    let y = chars_of(b);
    let mut i: usize = 0;
    proof {
        assert(a@.skip(0) =~= a@);
        assert(b@.skip(0) =~= b@);
    }
    while i < x.len() && i < y.len() && x[i] == y[i]
        invariant
            i <= x@.len(),
            i <= y@.len(),
            x@ == a@,
            y@ == b@,
            comes_before(a@, b@) == comes_before(a@.skip(i as int), b@.skip(i as int)),
        decreases x.len() - i,
    {
        proof {
            assert(a@.skip(i as int).skip(1) =~= a@.skip(i + 1));
            assert(b@.skip(i as int).skip(1) =~= b@.skip(i + 1));
        }
        i += 1;
    }
    if i == y.len() {
        false
    } else if i == x.len() {
        true
    } else {
        x[i] < y[i]
    }
}

/// A text does not come before itself.
pub proof fn lemma_irreflexive(a: Seq<char>)
    ensures
        !comes_before(a, a),
    decreases a.len(),
{
    if a.len() > 0 {
        lemma_irreflexive(a.skip(1));
    }
}

/// The order is transitive.
pub proof fn lemma_transitive(a: Seq<char>, b: Seq<char>, c: Seq<char>)
    requires
        comes_before(a, b),
        comes_before(b, c),
    ensures
        comes_before(a, c),
    decreases a.len(),
{
    if a.len() > 0 && b.len() > 0 && c.len() > 0 && a[0] == b[0] && b[0] == c[0] {
        lemma_transitive(a.skip(1), b.skip(1), c.skip(1));
    }
}

/// Of two different texts one comes before the other.
pub proof fn lemma_total(a: Seq<char>, b: Seq<char>)
    ensures
        comes_before(a, b) || comes_before(b, a) || a == b,
    decreases a.len(),
{
    if a.len() > 0 && b.len() > 0 && a[0] == b[0] {
        lemma_total(a.skip(1), b.skip(1));
        if a.skip(1) == b.skip(1) {
            assert(a =~= seq![a[0]] + a.skip(1));
            assert(b =~= seq![b[0]] + b.skip(1));
        }
    } else if a.len() == 0 && b.len() == 0 {
        assert(a =~= b);
    }
}

/// A thing with a name to sort it by.
pub trait Named: View + Sized {
    /// The name in the thing's view.
    spec fn name_of(v: Self::V) -> Seq<char>;

    /// The name.
    fn name(&self) -> (r: &str)
        ensures
            r@ == Self::name_of(self@),
    ;
}

impl Named for String {
    open spec fn name_of(v: Seq<char>) -> Seq<char> {
        v
    }

    fn name(&self) -> (r: &str) {
        self.as_str()
    }
}

/// `x` put into the sorted `s`, behind everything that does not come after it.
pub open spec fn placed<V>(s: Seq<V>, x: V, key: spec_fn(V) -> Seq<char>) -> Seq<V>
    decreases s.len(),
{
    if s.len() > 0 && comes_before(key(x), key(s.last())) {
        placed(s.drop_last(), x, key).push(s.last())
    } else {
        s.push(x)
    }
}

/// The items of `s` in the order of their keys; items with the same key stay
/// in the order in which they stand in `s`.
pub open spec fn sorted_by<V>(s: Seq<V>, key: spec_fn(V) -> Seq<char>) -> Seq<V>
    decreases s.len(),
{
    if s.len() == 0 {
        s
    } else {
        placed(sorted_by(s.drop_last(), key), s.last(), key)
    }
}

/// The name of a view, as a key to sort by.
pub open spec fn by_name<T: Named>() -> spec_fn(T::V) -> Seq<char> {
    |v: T::V| T::name_of(v)
}

/// Sorting keeps the number of items.
pub proof fn lemma_sorted_len<V>(s: Seq<V>, key: spec_fn(V) -> Seq<char>)
    ensures
        sorted_by(s, key).len() == s.len(),
    decreases s.len(),
{
    if s.len() > 0 {
        lemma_sorted_len(s.drop_last(), key);
        lemma_placed_len(sorted_by(s.drop_last(), key), s.last(), key);
    }
}

proof fn lemma_placed_len<V>(s: Seq<V>, x: V, key: spec_fn(V) -> Seq<char>)
    ensures
        placed(s, x, key).len() == s.len() + 1,
    decreases s.len(),
{
    if s.len() > 0 && comes_before(key(x), key(s.last())) {
        lemma_placed_len(s.drop_last(), x, key);
    }
}

/// Puts `x` into the sorted `items`, behind everything that does not come
/// after it.
fn place<T: Named>(items: &mut Vec<T>, x: T)
    ensures
        views(final(items)@) == placed(views(old(items)@), x@, by_name::<T>()),
{
    let ghost before = items@;
    let ghost key = by_name::<T>();
    let mut at: usize = items.len();
    proof {
        let v = views(before);
        assert(v.take(at as int) =~= v);
        assert(placed(v, x@, key) + v.skip(at as int) =~= placed(v, x@, key));
    }
    while at > 0 && text_before(x.name(), items[at - 1].name())
        invariant
            at <= before.len(),
            items@ == before,
            key == by_name::<T>(),
            placed(views(before), x@, key) == placed(views(before).take(at as int), x@, key)
                + views(before).skip(at as int),
        decreases at,
    {
        proof {
            let v = views(before);
            assert(v.take(at as int).last() == before[at - 1]@);
            assert(v.take(at as int).drop_last() =~= v.take(at - 1));
            assert(placed(v.take(at - 1), x@, key).push(v[at - 1]) + v.skip(at as int) =~= placed(
                v.take(at - 1),
                x@,
                key,
            ) + v.skip(at - 1));
        }
        at -= 1;
    }
    proof {
        let v = views(before);
        if at > 0 {
            assert(v.take(at as int).last() == before[at - 1]@);
        }
        assert(placed(v.take(at as int), x@, key) == v.take(at as int).push(x@));
        assert(views(before.insert(at as int, x)) =~= v.take(at as int).push(x@) + v.skip(
            at as int,
        ));
    }
    items.insert(at, x);
}

/// The items in the order of their names; items with the same name stay in the
/// order in which they were.
pub fn sort_by_name<T: Named>(items: Vec<T>) -> (r: Vec<T>)
    ensures
        views(r@) == sorted_by(views(items@), by_name::<T>()),
{
    let ghost all = items@;
    let ghost key = by_name::<T>();
    let mut r: Vec<T> = Vec::new();
    proof {
        assert(views(r@) =~= sorted_by(views(all).take(0), key));
    }
    for x in it: items
        invariant
            it.seq() == all,
            key == by_name::<T>(),
            views(r@) == sorted_by(views(all).take(it.index()), key),
    {
        proof {
            assert(views(all).take(it.index() + 1).drop_last() =~= views(all).take(it.index()));
        }
        place(&mut r, x);
    }
    proof {
        assert(views(all).take(all.len() as int) =~= views(all));
    }
    r
}


// ---- laws of sorting ----

/// Whether nothing in `s` comes before what stands ahead of it.
pub open spec fn in_order<V>(s: Seq<V>, key: spec_fn(V) -> Seq<char>) -> bool {
    forall|i: int, j: int|
        0 <= i < j < s.len() ==> !comes_before(key(#[trigger] s[j]), key(#[trigger] s[i]))
}

/// The items of `s` whose key is `k`, in the order of `s`.
pub open spec fn with_key<V>(s: Seq<V>, key: spec_fn(V) -> Seq<char>, k: Seq<char>) -> Seq<V>
    decreases s.len(),
{
    if s.len() == 0 {
        s
    } else if key(s.last()) == k {
        with_key(s.drop_last(), key, k).push(s.last())
    } else {
        with_key(s.drop_last(), key, k)
    }
}

proof fn lemma_placed_in_order<V>(s: Seq<V>, x: V, key: spec_fn(V) -> Seq<char>)
    requires
        in_order(s, key),
    ensures
        in_order(placed(s, x, key), key),
        forall|i: int|
            0 <= i < placed(s, x, key).len() ==> #[trigger] placed(s, x, key)[i] == x || s.contains(
                placed(s, x, key)[i],
            ),
    decreases s.len(),
{
    if s.len() > 0 && comes_before(key(x), key(s.last())) {
        let front = s.drop_last();
        let head = placed(front, x, key);
        lemma_placed_in_order(front, x, key);
        lemma_placed_len(front, x, key);
        let whole = head.push(s.last());
        assert forall|i: int| 0 <= i < whole.len() implies #[trigger] whole[i] == x || s.contains(
            whole[i],
        ) by {
            if i < head.len() {
                assert(whole[i] == head[i]);
                if head[i] != x {
                    let k = choose|k: int| 0 <= k < front.len() && front[k] == head[i];
                    assert(s[k] == head[i]);
                }
            } else {
                assert(s[s.len() - 1] == whole[i]);
            }
        }
        assert forall|i: int, j: int| 0 <= i < j < whole.len() implies !comes_before(
            key(#[trigger] whole[j]),
            key(#[trigger] whole[i]),
        ) by {
            if j < head.len() {
                assert(whole[j] == head[j]);
                assert(whole[i] == head[i]);
            } else {
                assert(whole[i] == head[i]);
                if head[i] == x {
                    if comes_before(key(s.last()), key(x)) {
                        lemma_transitive(key(x), key(s.last()), key(x));
                        lemma_irreflexive(key(x));
                    }
                } else {
                    let k = choose|k: int| 0 <= k < front.len() && front[k] == head[i];
                    assert(s[k] == head[i]);
                    assert(!comes_before(key(s[s.len() - 1]), key(s[k])));
                }
            }
        }
    } else {
        let whole = s.push(x);
        assert forall|i: int| 0 <= i < whole.len() implies #[trigger] whole[i] == x || s.contains(
            whole[i],
        ) by {
            if i < s.len() {
                assert(s[i] == whole[i]);
            }
        }
        assert forall|i: int, j: int| 0 <= i < j < whole.len() implies !comes_before(
            key(#[trigger] whole[j]),
            key(#[trigger] whole[i]),
        ) by {
            if j == s.len() {
                if comes_before(key(x), key(s[i])) {
                    let last = s[s.len() - 1];
                    lemma_total(key(s[i]), key(last));
                    if i < s.len() - 1 {
                        assert(!comes_before(key(s[s.len() - 1]), key(s[i])));
                    }
                    if comes_before(key(s[i]), key(last)) {
                        lemma_transitive(key(x), key(s[i]), key(last));
                    }
                }
            }
        }
    }
}

/// What sorting hands back is in order.
pub proof fn law_sorted_in_order<V>(s: Seq<V>, key: spec_fn(V) -> Seq<char>)
    ensures
        in_order(sorted_by(s, key), key),
    decreases s.len(),
{
    if s.len() > 0 {
        law_sorted_in_order(s.drop_last(), key);
        lemma_placed_in_order(sorted_by(s.drop_last(), key), s.last(), key);
    }
}

proof fn lemma_placed_with_key<V>(s: Seq<V>, x: V, key: spec_fn(V) -> Seq<char>, k: Seq<char>)
    ensures
        with_key(placed(s, x, key), key, k) == with_key(s.push(x), key, k),
    decreases s.len(),
{
    reveal_with_fuel(with_key, 3);
    assert(s.push(x).drop_last() =~= s);
    if s.len() > 0 && comes_before(key(x), key(s.last())) {
        let front = s.drop_last();
        lemma_placed_with_key(front, x, key, k);
        lemma_irreflexive(key(x));
        assert(front.push(x).drop_last() =~= front);
        let head = placed(front, x, key);
        assert(head.push(s.last()).drop_last() =~= head);
    }
}

/// Sorting is stable and loses nothing: under every key it keeps the items that
/// have it, as often as they occur and in the order in which they stood.
pub proof fn law_sorted_stable<V>(s: Seq<V>, key: spec_fn(V) -> Seq<char>, k: Seq<char>)
    ensures
        with_key(sorted_by(s, key), key, k) == with_key(s, key, k),
    decreases s.len(),
{
    if s.len() > 0 {
        let front = s.drop_last();
        let head = sorted_by(front, key);
        law_sorted_stable(front, key, k);
        lemma_placed_with_key(head, s.last(), key, k);
        assert(head.push(s.last()).drop_last() =~= head);
        assert(front.push(s.last()) =~= s);
    }
}

proof fn lemma_placed_items<V>(s: Seq<V>, x: V, key: spec_fn(V) -> Seq<char>)
    ensures
        placed(s, x, key).to_multiset() == s.to_multiset().insert(x),
    decreases s.len(),
{
    broadcast use vstd::seq_lib::group_to_multiset_ensures;
    broadcast use vstd::multiset::group_multiset_axioms;

    if s.len() > 0 && comes_before(key(x), key(s.last())) {
        let front = s.drop_last();
        lemma_placed_items(front, x, key);
        assert(front.push(s.last()) =~= s);
        assert(front.to_multiset().insert(x).insert(s.last())
            =~= front.to_multiset().insert(s.last()).insert(x));
    }
}

/// Sorting adds nothing and loses nothing.
pub proof fn law_sorted_items<V>(s: Seq<V>, key: spec_fn(V) -> Seq<char>)
    ensures
        sorted_by(s, key).to_multiset() == s.to_multiset(),
    decreases s.len(),
{
    broadcast use vstd::seq_lib::group_to_multiset_ensures;

    if s.len() > 0 {
        law_sorted_items(s.drop_last(), key);
        lemma_placed_items(sorted_by(s.drop_last(), key), s.last(), key);
        assert(s.drop_last().push(s.last()) =~= s);
    }
}

/// What is in order stays as it is when it is sorted.
pub proof fn law_in_order_is_sorted(s: Seq<Seq<char>>)
    requires
        in_order(s, by_name::<String>()),
    ensures
        sorted_by(s, by_name::<String>()) == s,
    decreases s.len(),
{
    let key = by_name::<String>();
    if s.len() > 0 {
        let front = s.drop_last();
        assert(in_order(front, key)) by {
            assert forall|i: int, j: int| 0 <= i < j < front.len() implies !comes_before(
                key(#[trigger] front[j]),
                key(#[trigger] front[i]),
            ) by {
                assert(!comes_before(key(s[j]), key(s[i])));
            }
        }
        law_in_order_is_sorted(front);
        if front.len() > 0 {
            assert(!comes_before(key(s[s.len() - 1]), key(s[s.len() - 2])));
        }
        assert(front.push(s.last()) =~= s);
    }
}

/// Texts are sorted alike in whatever order they come.
pub proof fn law_sorted_texts_unique(s: Seq<Seq<char>>, t: Seq<Seq<char>>)
    requires
        s.to_multiset() == t.to_multiset(),
    ensures
        sorted_by(s, by_name::<String>()) == sorted_by(t, by_name::<String>()),
{
    let key = by_name::<String>();
    let leq = |a: Seq<char>, b: Seq<char>| !comes_before(b, a);
    let x = sorted_by(s, key);
    let y = sorted_by(t, key);
    law_sorted_items(s, key);
    law_sorted_items(t, key);
    law_sorted_in_order(s, key);
    law_sorted_in_order(t, key);
    assert forall|a: Seq<char>, b: Seq<char>|
        !comes_before(b, a) && !comes_before(a, b) implies a == b by {
        lemma_total(a, b);
    }
    assert forall|a: Seq<char>| !comes_before(a, a) by {
        lemma_irreflexive(a);
    }
    assert forall|a: Seq<char>, b: Seq<char>| !comes_before(b, a) || !comes_before(a, b) by {
        if comes_before(b, a) && comes_before(a, b) {
            lemma_transitive(a, b, a);
            lemma_irreflexive(a);
        }
    }
    assert forall|a: Seq<char>, b: Seq<char>, c: Seq<char>|
        !comes_before(b, a) && !comes_before(c, b) implies !comes_before(c, a) by {
        if comes_before(c, a) {
            lemma_total(a, b);
            lemma_total(b, c);
            if comes_before(a, b) {
                lemma_transitive(c, a, b);
            }
        }
    }
    assert(total_ordering(leq));
    assert(vstd::relations::sorted_by(x, leq)) by {
        assert forall|i: int, j: int| 0 <= i < j < x.len() implies #[trigger] leq(x[i], x[j]) by {
            assert(!comes_before(key(x[j]), key(x[i])));
        }
    }
    assert(vstd::relations::sorted_by(y, leq)) by {
        assert forall|i: int, j: int| 0 <= i < j < y.len() implies #[trigger] leq(y[i], y[j]) by {
            assert(!comes_before(key(y[j]), key(y[i])));
        }
    }
    vstd::seq_lib::lemma_sorted_unique(x, y, leq);
}

} // verus!
