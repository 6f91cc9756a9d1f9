//! A stable sort over keys that are compared lexicographically.
use vstd::prelude::*;
use crate::text::chars_of;

verus! {

/// Whether key `a` comes strictly before key `b`: at the first position where
/// they differ `a` is smaller, or `a` is a proper prefix of `b`.
pub open spec fn key_less(a: Seq<int>, b: Seq<int>) -> bool
    decreases a.len(),
{
    if b.len() == 0 {
        false
    } else if a.len() == 0 {
        true
    } else if a[0] != b[0] {
        a[0] < b[0]
    } else {
        key_less(a.drop_first(), b.drop_first())
    }
}

/// The key of a text: its code points, which order as its UTF-8 bytes do.
pub open spec fn text_key(s: Seq<char>) -> Seq<int> {
    s.map_values(|c: char| c as int)
}

/// Whether the first text comes strictly before the second.
pub open spec fn text_less(a: Seq<char>, b: Seq<char>) -> bool {
    key_less(text_key(a), text_key(b))
}

/// No key comes before itself.
pub proof fn lemma_key_irreflexive(a: Seq<int>)
    ensures
        !key_less(a, a),
    decreases a.len(),
{
    if a.len() > 0 {
        lemma_key_irreflexive(a.drop_first());
    }
}

/// Where neither key comes before the other, they are the same key.
pub proof fn lemma_key_total(a: Seq<int>, b: Seq<int>)
    ensures
        key_less(a, b) || key_less(b, a) || a == b,
    decreases a.len(),
{
    if a.len() > 0 && b.len() > 0 && a[0] == b[0] {
        lemma_key_total(a.drop_first(), b.drop_first());
        if a.drop_first() == b.drop_first() {
            assert(a =~= seq![a[0]] + a.drop_first());
            assert(b =~= seq![b[0]] + b.drop_first());
        }
    } else if a.len() == 0 && b.len() == 0 {
        assert(a =~= b);
    }
}

/// The order of keys is transitive.
pub proof fn lemma_key_transitive(a: Seq<int>, b: Seq<int>, c: Seq<int>)
    requires
        key_less(a, b),
        key_less(b, c),
    ensures
        key_less(a, c),
    decreases a.len(),
{
    if a.len() > 0 && a[0] == b[0] && b[0] == c[0] {
        lemma_key_transitive(a.drop_first(), b.drop_first(), c.drop_first());
    }
}

/// Texts with the same key are the same text.
pub proof fn lemma_text_key_injective(a: Seq<char>, b: Seq<char>)
    requires
        text_key(a) == text_key(b),
    ensures
        a == b,
{
    assert(a.len() == b.len()) by {
        assert(text_key(a).len() == a.len());
        assert(text_key(b).len() == b.len());
    }
    assert forall|i: int| 0 <= i < a.len() implies a[i] == b[i] by {
        assert(text_key(a)[i] == a[i] as int);
        assert(text_key(b)[i] == b[i] as int);
    }
    assert(a =~= b);
}

/// Tests whether one text comes strictly before another.
pub fn text_precedes(a: &str, b: &str) -> (r: bool)
    ensures
        r == text_less(a@, b@),
{
    let x = chars_of(a);
    let y = chars_of(b);
    let n: usize = x.len();
    let m: usize = y.len();
    let mut i: usize = 0;
    proof {
        assert(text_key(a@).skip(0) =~= text_key(a@));
        assert(text_key(b@).skip(0) =~= text_key(b@));
    }
    while i < n && i < m
        invariant
            i <= n == x@.len(),
            i <= m == y@.len(),
            x@ == a@,
            y@ == b@,
            text_less(a@, b@) == key_less(text_key(a@).skip(i as int), text_key(b@).skip(i as int)),
        decreases n - i,
    {
        proof {
            assert(text_key(a@).skip(i as int)[0] == a@[i as int] as int);
            assert(text_key(b@).skip(i as int)[0] == b@[i as int] as int);
            assert(text_key(a@).skip(i as int).drop_first() =~= text_key(a@).skip(i + 1));
            assert(text_key(b@).skip(i as int).drop_first() =~= text_key(b@).skip(i + 1));
        }
        if x[i] != y[i] {
            return x[i] < y[i];
        }
        i += 1;
    }
    i < m
}

/// What can be sorted: a value with a key, and a test that goes by it.
pub trait SortKey: Sized {
    /// The key by which a value is sorted.
    spec fn sort_key(&self) -> Seq<int>;

    /// Tests whether this value's key comes strictly before the other's.
    fn precedes(&self, other: &Self) -> (r: bool)
        ensures
            r == key_less(self.sort_key(), other.sort_key()),
    ;
}

/// The test whether a value's key is `k`.
pub open spec fn key_is<T: SortKey>(k: Seq<int>) -> spec_fn(T) -> bool {
    |x: T| x.sort_key() == k
}

/// The values of `s` whose key is `k`, in their order in `s`.
pub open spec fn with_key<T: SortKey>(s: Seq<T>, k: Seq<int>) -> Seq<T> {
    s.filter(key_is(k))
}

/// Whether no value stands behind one whose key comes later.
pub open spec fn is_sorted<T: SortKey>(s: Seq<T>) -> bool {
    forall|i: int, j: int|
        0 <= i < j < s.len() ==> !key_less(
            (#[trigger] s[j]).sort_key(),
            (#[trigger] s[i]).sort_key(),
        )
}

/// Whether `out` is `s` sorted stably: it is in order, and for each key it
/// holds the same values in the same order.
pub open spec fn stably_sorted<T: SortKey>(s: Seq<T>, out: Seq<T>) -> bool {
    &&& is_sorted(out)
    &&& out.len() == s.len()
    &&& forall|k: Seq<int>| #[trigger] with_key(out, k) == with_key(s, k)
}

/// Moving one value forward past values with other keys keeps, for each key,
/// the values and their order.
proof fn lemma_move_forward<T: SortKey>(s: Seq<T>, from: int, to: int, k: Seq<int>)
    requires
        0 <= to <= from < s.len(),
        forall|j: int| to <= j < from ==> (#[trigger] s[j]).sort_key() != s[from].sort_key(),
    ensures
        with_key(s.remove(from).insert(to, s[from]), k) == with_key(s, k),
{
    let p = key_is::<T>(k);
    let a = s.take(to);
    let b = s.subrange(to, from);
    let x = seq![s[from]];
    let c = s.skip(from + 1);
    let moved = s.remove(from).insert(to, s[from]);
    assert(s =~= a + b + x + c);
    assert(moved =~= a + x + b + c);
    Seq::filter_distributes_over_add(a + b + x, c, p);
    Seq::filter_distributes_over_add(a + b, x, p);
    Seq::filter_distributes_over_add(a, b, p);
    Seq::filter_distributes_over_add(a + x + b, c, p);
    Seq::filter_distributes_over_add(a + x, b, p);
    Seq::filter_distributes_over_add(a, x, p);
    if s[from].sort_key() == k {
        assert forall|i: int| 0 <= i < b.len() implies !p(#[trigger] b[i]) by {
            assert(b[i] == s[to + i]);
        }
        b.lemma_all_neg_filter_empty(p);
        assert(b.filter(p) =~= Seq::empty());
        assert(a.filter(p) + b.filter(p) + x.filter(p) =~= a.filter(p) + x.filter(p) + b.filter(p));
    } else {
        assert forall|i: int| 0 <= i < x.len() implies !p(#[trigger] x[i]) by {}
        x.lemma_all_neg_filter_empty(p);
        assert(x.filter(p) =~= Seq::empty());
        assert(a.filter(p) + b.filter(p) + x.filter(p) =~= a.filter(p) + x.filter(p) + b.filter(p));
    }
}

/// Sorts a list stably by its values' keys.
pub fn stable_sort<T: SortKey>(v: &mut Vec<T>)
    ensures
        stably_sorted(old(v)@, final(v)@),
        final(v)@.to_multiset() == old(v)@.to_multiset(),
{
    broadcast use vstd::multiset::group_multiset_axioms;

    let n: usize = v.len();
    let mut i: usize = 0;
    while i < n
        invariant
            i <= n == v@.len(),
            v@.len() == old(v)@.len(),
            is_sorted(v@.take(i as int)),
            v@.to_multiset() == old(v)@.to_multiset(),
            forall|k: Seq<int>| #[trigger] with_key(v@, k) == with_key(old(v)@, k),
        decreases n - i,
    {
        let mut to: usize = i;
        while to > 0 && v[i].precedes(&v[to - 1])
            invariant
                to <= i < n == v@.len(),
                forall|j: int|
                    to <= j < i ==> key_less(v@[i as int].sort_key(), (#[trigger] v@[j]).sort_key()),
            decreases to,
        {
            to -= 1;
        }
        let ghost s = v@;
        proof {
            assert forall|j: int| to <= j < i implies (#[trigger] s[j]).sort_key()
                != s[i as int].sort_key() by {
                lemma_key_irreflexive(s[j].sort_key());
            }
        }
        let x = v.remove(i);
        proof {
            vstd::seq_lib::to_multiset_remove(s, i as int);
            vstd::seq_lib::to_multiset_insert(s.remove(i as int), to as int, s[i as int]);
        }
        v.insert(to, x);
        proof {
            s.to_multiset_ensures();
            assert(s.contains(s[i as int]));
            assert(s.to_multiset().count(s[i as int]) > 0);
            assert(v@.to_multiset() =~= s.to_multiset());
            assert forall|k: Seq<int>| #[trigger] with_key(v@, k) == with_key(old(v)@, k) by {
                lemma_move_forward(s, i as int, to as int, k);
                assert(with_key(s, k) == with_key(old(v)@, k));
            }
            let t = v@.take(i + 1);
            let u = s.take(i as int);
            let xk = s[i as int].sort_key();
            assert forall|p: int, q: int| 0 <= p < q < t.len() implies !key_less(
                (#[trigger] t[q]).sort_key(),
                (#[trigger] t[p]).sort_key(),
            ) by {
                if q < to {
                    assert(t[p] == u[p] && t[q] == u[q]);
                } else if q == to {
                    assert(t[p] == u[p]);
                    if key_less(xk, u[p].sort_key()) {
                        // the value before the insertion point does not come after it
                        assert(to > 0 && !key_less(xk, s[to - 1].sort_key()));
                        assert(u[to - 1] == s[to - 1]);
                        if p < to - 1 {
                            assert(!key_less(u[to - 1].sort_key(), u[p].sort_key()));
                            lemma_key_total(u[to - 1].sort_key(), u[p].sort_key());
                            if u[to - 1].sort_key() != u[p].sort_key() {
                                lemma_key_transitive(
                                    xk,
                                    u[p].sort_key(),
                                    u[to - 1].sort_key(),
                                );
                            }
                        }
                    }
                } else {
                    assert(t[q] == u[q - 1]);
                    if p < to {
                        assert(t[p] == u[p]);
                    } else if p == to {
                        assert(key_less(xk, s[q - 1].sort_key()));
                        if key_less(t[q].sort_key(), xk) {
                            lemma_key_transitive(xk, s[q - 1].sort_key(), xk);
                            lemma_key_irreflexive(xk);
                        }
                    } else {
                        assert(t[p] == u[p - 1]);
                    }
                }
            }
        }
        i += 1;
    }
    proof {
        assert(v@.take(n as int) =~= v@);
    }
}

/// A stable sort is determined by its input: two stably sorted forms of one
/// list are the same list.
pub proof fn law_stable_sort_unique<T: SortKey>(s: Seq<T>, a: Seq<T>, b: Seq<T>)
    requires
        stably_sorted(s, a),
        stably_sorted(s, b),
    ensures
        a == b,
    decreases s.len(),
{
    lemma_same_groups(a, b);
}

/// Two ordered lists with the same values, in the same order, for each key are
/// the same list.
proof fn lemma_same_groups<T: SortKey>(a: Seq<T>, b: Seq<T>)
    requires
        is_sorted(a),
        is_sorted(b),
        a.len() == b.len(),
        forall|k: Seq<int>| #[trigger] with_key(a, k) == with_key(b, k),
    ensures
        a == b,
    decreases a.len(),
{
    reveal(Seq::filter);
    if a.len() > 0 {
        let ka = a.last().sort_key();
        let kb = b.last().sort_key();
        assert(with_key(a, ka).last() == a.last() && with_key(a, ka).len() > 0);
        assert(with_key(b, kb).last() == b.last() && with_key(b, kb).len() > 0);
        assert(with_key(b, ka) == with_key(a, ka));
        assert(with_key(a, kb) == with_key(b, kb));
        let pa = key_is::<T>(ka);
        let pb = key_is::<T>(kb);
        // some value of b has key ka, and it stands no later than b's last
        assert(b.filter(pa).contains(a.last())) by {
            assert(with_key(b, ka)[with_key(b, ka).len() - 1] == a.last());
        }
        b.lemma_filter_contains_rev(pa, a.last());
        let j = choose|j: int| 0 <= j < b.len() && b[j] == a.last();
        assert(a.filter(pb).contains(b.last())) by {
            assert(with_key(a, kb)[with_key(a, kb).len() - 1] == b.last());
        }
        a.lemma_filter_contains_rev(pb, b.last());
        let i = choose|i: int| 0 <= i < a.len() && a[i] == b.last();
        if j < b.len() - 1 {
            assert(!key_less(b[b.len() - 1].sort_key(), b[j].sort_key()));
        } else {
            lemma_key_irreflexive(ka);
        }
        if i < a.len() - 1 {
            assert(!key_less(a[a.len() - 1].sort_key(), a[i].sort_key()));
        } else {
            lemma_key_irreflexive(ka);
        }
        lemma_key_total(ka, kb);
        assert(ka == kb);
        assert(a.last() == b.last());
        let x = a.drop_last();
        let y = b.drop_last();
        assert forall|k: Seq<int>| #[trigger] with_key(x, k) == with_key(y, k) by {
            let p = key_is::<T>(k);
            assert(with_key(a, k) == with_key(b, k));
            if k == ka {
                assert(a.filter(p) == x.filter(p).push(a.last()));
                assert(b.filter(p) == y.filter(p).push(b.last()));
                assert(x.filter(p) =~= a.filter(p).drop_last());
                assert(y.filter(p) =~= b.filter(p).drop_last());
            } else {
                assert(a.filter(p) == x.filter(p));
                assert(b.filter(p) == y.filter(p));
            }
        }
        lemma_same_groups(x, y);
        assert(a =~= x.push(a.last()));
        assert(b =~= y.push(b.last()));
    }
}

/// A stable sort holds the same values.
pub proof fn lemma_sorted_contains<T: SortKey>(s: Seq<T>, out: Seq<T>, x: T)
    requires
        stably_sorted(s, out),
    ensures
        out.contains(x) <==> s.contains(x),
{
    let k = x.sort_key();
    assert(with_key(out, k) == with_key(s, k));
    lemma_with_key_contains(s, k, x);
    lemma_with_key_contains(out, k, x);
}

/// A value is among those with its key exactly if it is there.
proof fn lemma_with_key_contains<T: SortKey>(s: Seq<T>, k: Seq<int>, x: T)
    requires
        x.sort_key() == k,
    ensures
        with_key(s, k).contains(x) <==> s.contains(x),
    decreases s.len(),
{
    reveal(Seq::filter);
    let p = key_is::<T>(k);
    let all = s.filter(p);
    if s.len() > 0 {
        let rest = s.drop_last();
        let before = rest.filter(p);
        lemma_with_key_contains(rest, k, x);
        if s.contains(x) {
            let i = choose|i: int| 0 <= i < s.len() && s[i] == x;
            if i < rest.len() {
                assert(rest[i] == x);
                let j = choose|j: int| 0 <= j < before.len() && before[j] == x;
                assert(all[j] == x);
            } else {
                assert(all.last() == x);
                assert(all[all.len() - 1] == x);
            }
        }
        if all.contains(x) {
            let j = choose|j: int| 0 <= j < all.len() && all[j] == x;
            if j < before.len() {
                assert(before[j] == x);
                let i = choose|i: int| 0 <= i < rest.len() && rest[i] == x;
                assert(s[i] == x);
            } else {
                assert(s[s.len() - 1] == x);
            }
        }
    }
}

/// Values whose keys are one number each are sorted by these numbers.
pub proof fn lemma_one_number_keys(a: Seq<int>, b: Seq<int>)
    requires
        a.len() == 1,
        b.len() == 1,
    ensures
        key_less(a, b) <==> a[0] < b[0],
{
    reveal_with_fuel(key_less, 3);
    assert(a.drop_first() =~= Seq::<int>::empty());
    assert(b.drop_first() =~= Seq::<int>::empty());
}

} // verus!
