//! Counting and collecting over lists.
use vstd::prelude::*;

verus! {

/// How many values of a list satisfy a test.
pub open spec fn count<T>(s: Seq<T>, keep: spec_fn(T) -> bool) -> nat
    decreases s.len(),
{
    if s.len() == 0 {
        0
    } else {
        count(s.drop_last(), keep) + if keep(s.last()) {
            1nat
        } else {
            0nat
        }
    }
}

/// What a function makes of the values that satisfy a test, in their order.
pub open spec fn collect<T, U>(s: Seq<T>, keep: spec_fn(T) -> bool, show: spec_fn(T) -> U) -> Seq<U>
    decreases s.len(),
{
    if s.len() == 0 {
        Seq::empty()
    } else if keep(s.last()) {
        collect(s.drop_last(), keep, show).push(show(s.last()))
    } else {
        collect(s.drop_last(), keep, show)
    }
}

/// Counting one value more.
pub proof fn lemma_count_step<T>(s: Seq<T>, i: int, keep: spec_fn(T) -> bool)
    requires
        0 <= i < s.len(),
    ensures
        count(s.take(i + 1), keep) == count(s.take(i), keep) + if keep(s[i]) {
            1nat
        } else {
            0nat
        },
{
    assert(s.take(i + 1).drop_last() =~= s.take(i));
}

/// Collecting one value more.
pub proof fn lemma_collect_step<T, U>(
    s: Seq<T>,
    i: int,
    keep: spec_fn(T) -> bool,
    show: spec_fn(T) -> U,
)
    requires
        0 <= i < s.len(),
    ensures
        collect(s.take(i + 1), keep, show) == if keep(s[i]) {
            collect(s.take(i), keep, show).push(show(s[i]))
        } else {
            collect(s.take(i), keep, show)
        },
{
    assert(s.take(i + 1).drop_last() =~= s.take(i));
}

/// A list's first part that is the whole list.
pub broadcast proof fn lemma_take_all<T>(s: Seq<T>)
    ensures
        #[trigger] s.take(s.len() as int) == s,
{
    assert(s.take(s.len() as int) =~= s);
}

/// No more values satisfy a test than there are.
pub proof fn lemma_count_bound<T>(s: Seq<T>, keep: spec_fn(T) -> bool)
    ensures
        count(s, keep) <= s.len(),
    decreases s.len(),
{
    if s.len() > 0 {
        lemma_count_bound(s.drop_last(), keep);
    }
}

/// A count is positive exactly when some value satisfies the test.
pub proof fn lemma_count_positive<T>(s: Seq<T>, keep: spec_fn(T) -> bool)
    ensures
        count(s, keep) > 0 <==> exists|i: int| 0 <= i < s.len() && keep(#[trigger] s[i]),
    decreases s.len(),
{
    if s.len() > 0 {
        let rest = s.drop_last();
        lemma_count_positive(rest, keep);
        if exists|i: int| 0 <= i < s.len() && keep(#[trigger] s[i]) {
            let i = choose|i: int| 0 <= i < s.len() && keep(#[trigger] s[i]);
            if i < s.len() - 1 {
                assert(rest[i] == s[i]);
            }
        }
        if exists|i: int| 0 <= i < rest.len() && keep(#[trigger] rest[i]) {
            let i = choose|i: int| 0 <= i < rest.len() && keep(#[trigger] rest[i]);
            assert(s[i] == rest[i]);
        }
        if keep(s.last()) {
            assert(keep(s[s.len() - 1]));
        }
    }
}

/// As many values are collected as are counted.
pub proof fn lemma_collect_len<T, U>(s: Seq<T>, keep: spec_fn(T) -> bool, show: spec_fn(T) -> U)
    ensures
        collect(s, keep, show).len() == count(s, keep),
    decreases s.len(),
{
    if s.len() > 0 {
        lemma_collect_len(s.drop_last(), keep, show);
    }
}

/// The first position whose value satisfies a test, or the list's length.
pub open spec fn first_index<T>(s: Seq<T>, wanted: spec_fn(T) -> bool) -> int
    decreases s.len(),
{
    if s.len() == 0 || wanted(s[0]) {
        0
    } else {
        1 + first_index(s.drop_first(), wanted)
    }
}

/// The first value that satisfies a test.
pub open spec fn first_where<T>(s: Seq<T>, wanted: spec_fn(T) -> bool) -> Option<T> {
    let i = first_index(s, wanted);
    if i < s.len() {
        Some(s[i])
    } else {
        None
    }
}

/// The first position is the one before which no value satisfies the test.
pub proof fn lemma_first_index<T>(s: Seq<T>, i: int, wanted: spec_fn(T) -> bool)
    requires
        0 <= i <= s.len(),
        forall|j: int| 0 <= j < i ==> !wanted(#[trigger] s[j]),
        i < s.len() ==> wanted(s[i]),
    ensures
        first_index(s, wanted) == i,
    decreases s.len(),
{
    if s.len() > 0 && i > 0 {
        let rest = s.drop_first();
        assert forall|j: int| 0 <= j < i - 1 implies !wanted(#[trigger] rest[j]) by {
            assert(rest[j] == s[j + 1]);
        }
        if i < s.len() {
            assert(rest[i - 1] == s[i]);
        }
        assert(!wanted(s[0]));
        lemma_first_index(rest, i - 1, wanted);
    }
}

/// Before the first position no value satisfies the test; at it one does.
pub proof fn lemma_first_index_props<T>(s: Seq<T>, wanted: spec_fn(T) -> bool)
    ensures
        0 <= first_index(s, wanted) <= s.len(),
        forall|j: int| 0 <= j < first_index(s, wanted) ==> !wanted(#[trigger] s[j]),
        first_index(s, wanted) < s.len() ==> wanted(s[first_index(s, wanted)]),
    decreases s.len(),
{
    if s.len() > 0 && !wanted(s[0]) {
        let rest = s.drop_first();
        lemma_first_index_props(rest, wanted);
        assert forall|j: int| 0 <= j < first_index(s, wanted) implies !wanted(#[trigger] s[j]) by {
            if j > 0 {
                assert(s[j] == rest[j - 1]);
            }
        }
        if first_index(s, wanted) < s.len() {
            assert(rest[first_index(rest, wanted)] == s[first_index(s, wanted)]);
        }
    }
}

/// The positions of the values that satisfy a test, in ascending order.
pub open spec fn positions<T>(s: Seq<T>, keep: spec_fn(T) -> bool) -> Seq<int>
    decreases s.len(),
{
    if s.len() == 0 {
        Seq::empty()
    } else if keep(s.last()) {
        positions(s.drop_last(), keep).push(s.len() - 1)
    } else {
        positions(s.drop_last(), keep)
    }
}

/// Looking at one value more.
pub proof fn lemma_positions_step<T>(s: Seq<T>, i: int, keep: spec_fn(T) -> bool)
    requires
        0 <= i < s.len(),
    ensures
        positions(s.take(i + 1), keep) == if keep(s[i]) {
            positions(s.take(i), keep).push(i)
        } else {
            positions(s.take(i), keep)
        },
{
    assert(s.take(i + 1).drop_last() =~= s.take(i));
}

/// There are as many positions as values that satisfy the test; they ascend,
/// and each holds such a value.
pub proof fn lemma_positions<T>(s: Seq<T>, keep: spec_fn(T) -> bool)
    ensures
        positions(s, keep).len() == count(s, keep),
        forall|k: int|
            0 <= k < positions(s, keep).len() ==> 0 <= #[trigger] positions(s, keep)[k] < s.len()
                && keep(s[positions(s, keep)[k]]),
        forall|k: int, l: int|
            0 <= k < l < positions(s, keep).len() ==> #[trigger] positions(s, keep)[k]
                < #[trigger] positions(s, keep)[l],
    decreases s.len(),
{
    if s.len() > 0 {
        let rest = s.drop_last();
        lemma_positions(rest, keep);
        let ps = positions(s, keep);
        assert forall|k: int| 0 <= k < ps.len() implies 0 <= #[trigger] ps[k] < s.len() && keep(
            s[ps[k]],
        ) by {
            if k < positions(rest, keep).len() {
                assert(ps[k] == positions(rest, keep)[k]);
                assert(rest[ps[k]] == s[ps[k]]);
            }
        }
        assert forall|k: int, l: int| 0 <= k < l < ps.len() implies #[trigger] ps[k]
            < #[trigger] ps[l] by {
            assert(ps[k] == positions(rest, keep)[k]);
            if l < positions(rest, keep).len() {
                assert(ps[l] == positions(rest, keep)[l]);
            }
        }
    }
}

/// None are counted exactly if none passes the test, and all exactly if all pass.
pub proof fn lemma_count_extremes<T>(s: Seq<T>, keep: spec_fn(T) -> bool)
    ensures
        count(s, keep) <= s.len(),
        count(s, keep) == 0 <==> forall|i: int| 0 <= i < s.len() ==> !keep(#[trigger] s[i]),
        count(s, keep) == s.len() <==> forall|i: int| 0 <= i < s.len() ==> keep(#[trigger] s[i]),
    decreases s.len(),
{
    if s.len() > 0 {
        let rest = s.drop_last();
        lemma_count_extremes(rest, keep);
        assert forall|i: int| 0 <= i < rest.len() implies rest[i] == #[trigger] s[i] by {}
        if forall|i: int| 0 <= i < rest.len() ==> !keep(#[trigger] rest[i]) {
            assert forall|i: int| 0 <= i < s.len() - 1 implies !keep(#[trigger] s[i]) by {
                assert(!keep(rest[i]));
            }
        }
        if forall|i: int| 0 <= i < rest.len() ==> keep(#[trigger] rest[i]) {
            assert forall|i: int| 0 <= i < s.len() - 1 implies keep(#[trigger] s[i]) by {
                assert(keep(rest[i]));
            }
        }
        if forall|i: int| 0 <= i < s.len() ==> !keep(#[trigger] s[i]) {
            assert forall|i: int| 0 <= i < rest.len() implies !keep(#[trigger] rest[i]) by {
                assert(!keep(s[i]));
            }
        }
        if forall|i: int| 0 <= i < s.len() ==> keep(#[trigger] s[i]) {
            assert forall|i: int| 0 <= i < rest.len() implies keep(#[trigger] rest[i]) by {
                assert(keep(s[i]));
            }
        }
        assert(s.last() == s[s.len() - 1]);
    }
}

/// Tests that agree on all values count the same.
pub proof fn lemma_count_same<T>(s: Seq<T>, a: spec_fn(T) -> bool, b: spec_fn(T) -> bool)
    requires
        forall|i: int| 0 <= i < s.len() ==> a(#[trigger] s[i]) == b(s[i]),
    ensures
        count(s, a) == count(s, b),
    decreases s.len(),
{
    if s.len() > 0 {
        let rest = s.drop_last();
        assert forall|i: int| 0 <= i < rest.len() implies a(#[trigger] rest[i]) == b(rest[i]) by {
            assert(a(s[i]) == b(s[i]));
        }
        lemma_count_same(rest, a, b);
        assert(a(s[s.len() - 1]) == b(s[s.len() - 1]));
    }
}

/// The first value that passes a test is one, and none before it is; there is none
/// exactly if no value passes.
pub proof fn lemma_first_where<T>(s: Seq<T>, wanted: spec_fn(T) -> bool)
    ensures
        match first_where(s, wanted) {
            Some(x) => exists|i: int|
                0 <= i < s.len() && #[trigger] s[i] == x && wanted(x) && forall|j: int|
                    0 <= j < i ==> !wanted(#[trigger] s[j]),
            None => forall|j: int| 0 <= j < s.len() ==> !wanted(#[trigger] s[j]),
        },
{
    lemma_first_index_props(s, wanted);
    let i = first_index(s, wanted);
    if i < s.len() {
        assert(s[i] == first_where(s, wanted)->0);
    }
}

/// The positions of what passes a test are those where it does.
pub proof fn lemma_positions_contains<T>(s: Seq<T>, keep: spec_fn(T) -> bool, i: int)
    requires
        0 <= i,
    ensures
        positions(s, keep).contains(i) <==> i < s.len() && keep(s[i]),
    decreases s.len(),
{
    if s.len() > 0 {
        let rest = s.drop_last();
        let before = positions(rest, keep);
        let all = positions(s, keep);
        lemma_positions_contains(rest, keep, i);
        if keep(s.last()) {
            assert(all[before.len() as int] == s.len() - 1);
            if before.contains(i) {
                let k = choose|k: int| 0 <= k < before.len() && before[k] == i;
                assert(all[k] == i);
            }
            if all.contains(i) && i != s.len() - 1 {
                let k = choose|k: int| 0 <= k < all.len() && all[k] == i;
                assert(before[k] == i);
            }
        }
    }
}

/// The first value that passes a test, by its position.
pub proof fn lemma_first_where_at<T>(s: Seq<T>, i: int, wanted: spec_fn(T) -> bool)
    requires
        0 <= i < s.len(),
        wanted(s[i]),
        forall|j: int| 0 <= j < i ==> !wanted(#[trigger] s[j]),
    ensures
        first_where(s, wanted) == Some(s[i]),
{
    lemma_first_index(s, i, wanted);
}

/// What is collected are the values that pass the test, as they are shown.
pub proof fn lemma_collect_contains<T, U>(
    s: Seq<T>,
    keep: spec_fn(T) -> bool,
    show: spec_fn(T) -> U,
    y: U,
)
    ensures
        collect(s, keep, show).contains(y) <==> exists|i: int|
            0 <= i < s.len() && keep(#[trigger] s[i]) && show(s[i]) == y,
    decreases s.len(),
{
    let all = collect(s, keep, show);
    if s.len() > 0 {
        let rest = s.drop_last();
        let before = collect(rest, keep, show);
        lemma_collect_contains(rest, keep, show, y);
        assert(s.last() == s[s.len() - 1]);
        if before.contains(y) {
            let i = choose|i: int|
                0 <= i < rest.len() && keep(#[trigger] rest[i]) && show(rest[i]) == y;
            assert(keep(s[i]) && show(s[i]) == y);
            let k = choose|k: int| 0 <= k < before.len() && before[k] == y;
            assert(all[k] == y);
        }
        if keep(s.last()) && show(s.last()) == y {
            assert(all[before.len() as int] == y);
        }
        if exists|i: int| 0 <= i < s.len() && keep(#[trigger] s[i]) && show(s[i]) == y {
            let i = choose|i: int|
                0 <= i < s.len() && keep(#[trigger] s[i]) && show(s[i]) == y;
            if i < rest.len() {
                assert(keep(rest[i]) && show(rest[i]) == y);
            }
        }
        if all.contains(y) && !before.contains(y) {
            let k = choose|k: int| 0 <= k < all.len() && all[k] == y;
            if k < before.len() {
                assert(before[k] == y);
            }
        }
    }
}

} // verus!
