//! What a sort that keeps the order of equal things gives.
use vstd::prelude::*;

verus! {

/// The things stand in the order of their keys.
pub open spec fn ascending<T>(s: Seq<T>, key: spec_fn(T) -> int) -> bool {
    forall|i: int, j: int| 0 <= i < j < s.len() ==> key(#[trigger] s[i]) <= key(#[trigger] s[j])
}

/// Any thing with a key.
pub open spec fn has_key<T>(key: spec_fn(T) -> int, k: int) -> spec_fn(T) -> bool {
    |x: T| key(x) == k
}

/// The things with one key, in the order in which they stand.
pub open spec fn with_key<T>(s: Seq<T>, key: spec_fn(T) -> int, k: int) -> Seq<T> {
    s.filter(has_key(key, k))
}

/// `after` is `before` put in the order of keys; things with the same key keep
/// their order.
pub open spec fn stably_sorted<T>(before: Seq<T>, after: Seq<T>, key: spec_fn(T) -> int) -> bool {
    ascending(after, key) && forall|k: int| #[trigger] with_key(after, key, k) == with_key(before, key, k)
}

/// Nothing is sorted to nothing.
pub proof fn lemma_sorted_empty<T>(key: spec_fn(T) -> int)
    ensures
        stably_sorted(Seq::<T>::empty(), Seq::<T>::empty(), key),
{
}

/// A thing put in behind those whose keys are not above its own keeps the order.
pub proof fn lemma_insert_sorted<T>(before: Seq<T>, after: Seq<T>, pos: int, x: T, key: spec_fn(T) -> int)
    requires
        stably_sorted(before, after, key),
        0 <= pos <= after.len(),
        pos > 0 ==> key(after[pos - 1]) <= key(x),
        forall|i: int| pos <= i < after.len() ==> key(#[trigger] after[i]) > key(x),
    ensures
        stably_sorted(before.push(x), after.insert(pos, x), key),
{
    let next = after.insert(pos, x);
    assert forall|i: int, j: int| 0 <= i < j < next.len() implies key(#[trigger] next[i]) <= key(
        #[trigger] next[j],
    ) by {
        let a = if i < pos {
            i
        } else {
            i - 1
        };
        let b = if j < pos {
            j
        } else {
            j - 1
        };
        if i != pos && j != pos {
            assert(key(after[a]) <= key(after[b]));
        } else if j == pos {
            if i < pos - 1 {
                assert(key(after[i]) <= key(after[pos - 1]));
            }
        }
    }
    assert forall|k: int| #[trigger] with_key(next, key, k) == with_key(before.push(x), key, k) by {
        let at = has_key(key, k);
        let front = after.take(pos);
        let back = after.skip(pos);
        assert(after =~= front + back);
        assert(next =~= (front + seq![x]) + back);
        Seq::filter_distributes_over_add(front, back, at);
        Seq::filter_distributes_over_add(front + seq![x], back, at);
        assert(front + seq![x] =~= front.push(x));
        front.lemma_filter_push(x, at);
        before.lemma_filter_push(x, at);
        assert(with_key(after, key, k) == with_key(before, key, k));
        if key(x) == k {
            assert forall|i: int| 0 <= i < back.len() implies !at(#[trigger] back[i]) by {
                assert(back[i] == after[pos + i]);
            }
            back.lemma_all_neg_filter_empty(at);
            assert(front.filter(at).push(x) + back.filter(at) =~= (front.filter(at) + back.filter(
                at,
            )).push(x));
        }
    }
}

/// The count of a thing among all is its count among those with its key.
proof fn lemma_count_with_key<T>(s: Seq<T>, key: spec_fn(T) -> int, x: T)
    ensures
        s.to_multiset().count(x) == with_key(s, key, key(x)).to_multiset().count(x),
    decreases s.len(),
{
    broadcast use vstd::seq_lib::group_to_multiset_ensures;

    let at = has_key(key, key(x));
    if s.len() == 0 {
        assert(s.filter(at) =~= s) by {
            reveal(Seq::filter);
        }
    } else {
        let front = s.drop_last();
        let w = s.last();
        lemma_count_with_key(front, key, x);
        assert(s =~= front.push(w));
        front.lemma_filter_push(w, at);
    }
}

/// Sorting loses nothing and adds nothing.
pub proof fn law_sort_keeps_all<T>(before: Seq<T>, after: Seq<T>, key: spec_fn(T) -> int)
    requires
        stably_sorted(before, after, key),
    ensures
        after.to_multiset() == before.to_multiset(),
{
    assert forall|x: T| after.to_multiset().count(x) == before.to_multiset().count(x) by {
        lemma_count_with_key(after, key, x);
        lemma_count_with_key(before, key, x);
        assert(with_key(after, key, key(x)) == with_key(before, key, key(x)));
    }
    assert(after.to_multiset() =~= before.to_multiset());
}

/// The things with a key, after one more was put behind all.
proof fn lemma_key_push<T>(s: Seq<T>, key: spec_fn(T) -> int, k: int)
    requires
        s.len() > 0,
    ensures
        with_key(s, key, k) == (if key(s.last()) == k {
            with_key(s.drop_last(), key, k).push(s.last())
        } else {
            with_key(s.drop_last(), key, k)
        }),
{
    let at = has_key(key, k);
    assert(s =~= s.drop_last().push(s.last()));
    s.drop_last().lemma_filter_push(s.last(), at);
}

/// A thing with a key stands among the things.
proof fn lemma_key_member<T>(s: Seq<T>, key: spec_fn(T) -> int, k: int)
    ensures
        with_key(s, key, k).len() > 0 ==> exists|i: int| 0 <= i < s.len() && key(#[trigger] s[i]) == k,
    decreases s.len(),
{
    if s.len() == 0 {
        reveal(Seq::filter);
        assert(with_key(s, key, k) =~= s);
    } else {
        lemma_key_push(s, key, k);
        lemma_key_member(s.drop_last(), key, k);
        if key(s.last()) == k {
            assert(key(s[s.len() - 1]) == k);
        } else if with_key(s, key, k).len() > 0 {
            let i = choose|i: int| 0 <= i < s.drop_last().len() && key(#[trigger] s.drop_last()[i]) == k;
            assert(key(s[i]) == k);
        }
    }
}

/// The last thing in one order has no larger key than the last in another.
proof fn lemma_last_key<T>(a: Seq<T>, b: Seq<T>, key: spec_fn(T) -> int)
    requires
        ascending(b, key),
        a.len() > 0,
        forall|k: int| #[trigger] with_key(a, key, k) == with_key(b, key, k),
    ensures
        b.len() > 0,
        key(a.last()) <= key(b.last()),
{
    let k = key(a.last());
    lemma_key_push(a, key, k);
    assert(with_key(a, key, k) == with_key(b, key, k));
    lemma_key_member(b, key, k);
    let i = choose|i: int| 0 <= i < b.len() && key(#[trigger] b[i]) == k;
    if i < b.len() - 1 {
        assert(key(b[i]) <= key(b[b.len() - 1]));
    }
}

proof fn lemma_same_order<T>(a: Seq<T>, b: Seq<T>, key: spec_fn(T) -> int)
    requires
        ascending(a, key),
        ascending(b, key),
        forall|k: int| #[trigger] with_key(a, key, k) == with_key(b, key, k),
    ensures
        a == b,
    decreases a.len(),
{
    if a.len() == 0 {
        if b.len() > 0 {
            lemma_last_key(b, a, key);
        }
        assert(a =~= b);
    } else {
        lemma_last_key(a, b, key);
        lemma_last_key(b, a, key);
        let k = key(a.last());
        lemma_key_push(a, key, k);
        lemma_key_push(b, key, k);
        assert(with_key(a, key, k).last() == a.last());
        assert(with_key(b, key, k).last() == b.last());
        let c = a.drop_last();
        let d = b.drop_last();
        assert forall|q: int| #[trigger] with_key(c, key, q) == with_key(d, key, q) by {
            lemma_key_push(a, key, q);
            lemma_key_push(b, key, q);
            assert(with_key(a, key, q) == with_key(b, key, q));
            if q == k {
                assert(with_key(c, key, q) =~= with_key(a, key, q).drop_last());
                assert(with_key(d, key, q) =~= with_key(b, key, q).drop_last());
            }
        }
        lemma_same_order(c, d, key);
        assert(a =~= c.push(a.last()));
        assert(b =~= d.push(b.last()));
    }
}

/// Things have one order: however they are sorted, the result is the same.
pub proof fn law_sort_is_unique<T>(before: Seq<T>, a: Seq<T>, b: Seq<T>, key: spec_fn(T) -> int)
    requires
        stably_sorted(before, a, key),
        stably_sorted(before, b, key),
    ensures
        a == b,
{
    assert forall|k: int| #[trigger] with_key(a, key, k) == with_key(b, key, k) by {
        assert(with_key(a, key, k) == with_key(before, key, k));
        assert(with_key(b, key, k) == with_key(before, key, k));
    }
    lemma_same_order(a, b, key);
}

} // verus!
