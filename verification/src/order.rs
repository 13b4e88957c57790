//! Stable ordering of a sequence by a key, largest key first.

use vstd::prelude::*;

verus! {

/// `x` put into `sorted` behind every leading element whose key is not
/// smaller than that of `x`.
pub open spec fn insert_desc<T>(sorted: Seq<T>, x: T, key: spec_fn(T) -> int) -> Seq<T>
    decreases sorted.len(),
{
    if sorted.len() > 0 && key(sorted.first()) >= key(x) {
        seq![sorted.first()] + insert_desc(sorted.drop_first(), x, key)
    } else {
        seq![x] + sorted
    }
}

/// `s` ordered by key, largest first; elements of equal key keep the order
/// that they have in `s`.
pub open spec fn sort_desc<T>(s: Seq<T>, key: spec_fn(T) -> int) -> Seq<T>
    decreases s.len(),
{
    if s.len() == 0 {
        s
    } else {
        insert_desc(sort_desc(s.drop_last(), key), s.last(), key)
    }
}

/// The two sequences merged by key, largest first; of two elements of equal
/// key the one of `a` comes first.
pub open spec fn merge_desc<T>(a: Seq<T>, b: Seq<T>, key: spec_fn(T) -> int) -> Seq<T>
    decreases a.len() + b.len(),
{
    if a.len() == 0 {
        b
    } else if b.len() == 0 {
        a
    } else if key(a.first()) >= key(b.first()) {
        seq![a.first()] + merge_desc(a.drop_first(), b, key)
    } else {
        seq![b.first()] + merge_desc(a, b.drop_first(), key)
    }
}

/// Whether no element of `s` has a smaller key than one behind it.
pub open spec fn is_sorted_desc<T>(s: Seq<T>, key: spec_fn(T) -> int) -> bool {
    forall|i: int, j: int| #![trigger s[i], s[j]] 0 <= i <= j < s.len() ==> key(s[i]) >= key(s[j])
}

/// The number of leading elements of `s` whose key is not smaller than `k`.
pub open spec fn leading_not_below<T>(s: Seq<T>, k: int, key: spec_fn(T) -> int) -> int
    decreases s.len(),
{
    if s.len() > 0 && key(s.first()) >= k {
        1 + leading_not_below(s.drop_first(), k, key)
    } else {
        0
    }
}

/// Where an insertion happens: behind the leading elements that are not
/// smaller, and before the first smaller one.
pub proof fn lemma_insert_position<T>(s: Seq<T>, x: T, key: spec_fn(T) -> int)
    ensures
        ({
            let p = leading_not_below(s, key(x), key);
            &&& 0 <= p <= s.len()
            &&& insert_desc(s, x, key) == s.take(p).push(x) + s.skip(p)
            &&& forall|i: int| 0 <= i < p ==> key(#[trigger] s[i]) >= key(x)
            &&& p < s.len() ==> key(s[p]) < key(x)
        }),
    decreases s.len(),
{
    let p = leading_not_below(s, key(x), key);
    if s.len() > 0 && key(s.first()) >= key(x) {
        let rest = s.drop_first();
        lemma_insert_position(rest, x, key);
        let q = leading_not_below(rest, key(x), key);
        assert(p == q + 1);
        assert(seq![s.first()] + (rest.take(q).push(x) + rest.skip(q)) =~= s.take(p).push(x)
            + s.skip(p));
        assert forall|i: int| 0 <= i < p implies key(#[trigger] s[i]) >= key(x) by {
            if i > 0 {
                assert(s[i] == rest[i - 1]);
            }
        }
        if p < s.len() {
            assert(s[p] == rest[q]);
        }
    } else {
        assert(seq![x] + s =~= s.take(0).push(x) + s.skip(0));
    }
}

/// An insertion adds one element.
pub proof fn lemma_insert_len<T>(s: Seq<T>, x: T, key: spec_fn(T) -> int)
    ensures
        insert_desc(s, x, key).len() == s.len() + 1,
{
    lemma_insert_position(s, x, key);
}

/// Ordering keeps the number of elements.
pub proof fn lemma_sort_len<T>(s: Seq<T>, key: spec_fn(T) -> int)
    ensures
        sort_desc(s, key).len() == s.len(),
    decreases s.len(),
{
    if s.len() > 0 {
        lemma_sort_len(s.drop_last(), key);
        lemma_insert_len(sort_desc(s.drop_last(), key), s.last(), key);
    }
}

/// An insertion into a sorted sequence gives a sorted sequence.
pub proof fn lemma_insert_sorted<T>(s: Seq<T>, x: T, key: spec_fn(T) -> int)
    requires
        is_sorted_desc(s, key),
    ensures
        is_sorted_desc(insert_desc(s, x, key), key),
{
    lemma_insert_position(s, x, key);
    let p = leading_not_below(s, key(x), key);
    let r = insert_desc(s, x, key);
    assert forall|i: int, j: int| #![trigger r[i], r[j]] 0 <= i <= j < r.len() implies key(r[i])
        >= key(r[j]) by {
        if i < p && j < p {
            assert(key(s[i]) >= key(s[j]));
        } else if i < p && j == p {
            assert(key(s[i]) >= key(x));
        } else if i < p {
            assert(key(s[i]) >= key(s[j - 1]));
        } else if i == p && j > p {
            assert(key(s[p]) >= key(s[j - 1]));
        } else if i > p {
            assert(key(s[i - 1]) >= key(s[j - 1]));
        }
    }
}

/// What `sort_desc` gives is sorted.
pub proof fn lemma_sort_sorted<T>(s: Seq<T>, key: spec_fn(T) -> int)
    ensures
        is_sorted_desc(sort_desc(s, key), key),
    decreases s.len(),
{
    if s.len() > 0 {
        lemma_sort_sorted(s.drop_last(), key);
        lemma_insert_sorted(sort_desc(s.drop_last(), key), s.last(), key);
    }
}

/// Ordering a sorted sequence changes nothing.
pub proof fn lemma_sort_of_sorted<T>(s: Seq<T>, key: spec_fn(T) -> int)
    requires
        is_sorted_desc(s, key),
    ensures
        sort_desc(s, key) == s,
    decreases s.len(),
{
    if s.len() > 0 {
        let front = s.drop_last();
        assert(is_sorted_desc(front, key)) by {
            assert forall|i: int, j: int| #![trigger front[i], front[j]] 0 <= i <= j
                < front.len() implies key(front[i]) >= key(front[j]) by {
                assert(key(s[i]) >= key(s[j]));
            }
        }
        lemma_sort_of_sorted(front, key);
        lemma_insert_position(front, s.last(), key);
        let p = leading_not_below(front, key(s.last()), key);
        if p < front.len() {
            assert(key(s[p]) >= key(s[s.len() - 1]));
        }
        assert(front.take(p).push(s.last()) + front.skip(p) =~= s);
    }
}

/// An insertion adds its element and keeps the others.
pub proof fn lemma_insert_multiset<T>(s: Seq<T>, x: T, key: spec_fn(T) -> int)
    ensures
        insert_desc(s, x, key).to_multiset() == s.to_multiset().insert(x),
    decreases s.len(),
{
    broadcast use vstd::seq_lib::group_to_multiset_ensures;

    if s.len() > 0 && key(s.first()) >= key(x) {
        let rest = s.drop_first();
        lemma_insert_multiset(rest, x, key);
        vstd::seq_lib::lemma_multiset_commutative(seq![s.first()], insert_desc(rest, x, key));
        vstd::seq_lib::lemma_multiset_commutative(seq![s.first()], rest);
        assert(seq![s.first()] + rest =~= s);
        assert(insert_desc(s, x, key).to_multiset() =~= s.to_multiset().insert(x));
    } else {
        vstd::seq_lib::lemma_multiset_commutative(seq![x], s);
        assert(seq![x].to_multiset() =~= vstd::multiset::Multiset::empty().insert(x)) by {
            assert(seq![x] =~= Seq::<T>::empty().push(x));
        }
        assert(insert_desc(s, x, key).to_multiset() =~= s.to_multiset().insert(x));
    }
}

/// Ordering neither adds nor drops an element.
pub proof fn lemma_sort_permutes<T>(s: Seq<T>, key: spec_fn(T) -> int)
    ensures
        sort_desc(s, key).to_multiset() == s.to_multiset(),
    decreases s.len(),
{
    broadcast use vstd::seq_lib::group_to_multiset_ensures;

    if s.len() > 0 {
        lemma_sort_permutes(s.drop_last(), key);
        lemma_insert_multiset(sort_desc(s.drop_last(), key), s.last(), key);
        assert(s.drop_last().push(s.last()) =~= s);
    }
}

/// Inserting into a merge is merging with the insertion into the second
/// sequence.
pub proof fn lemma_insert_merge<T>(a: Seq<T>, b: Seq<T>, x: T, key: spec_fn(T) -> int)
    ensures
        insert_desc(merge_desc(a, b, key), x, key) == merge_desc(a, insert_desc(b, x, key), key),
    decreases a.len() + b.len(),
{
    let bx = insert_desc(b, x, key);
    if a.len() == 0 {
    } else if b.len() == 0 {
        assert(bx =~= seq![x]);
        if key(a.first()) >= key(x) {
            lemma_insert_merge(a.drop_first(), b, x, key);
            assert(bx.drop_first() =~= Seq::<T>::empty());
            assert(merge_desc(a.drop_first(), b, key) == a.drop_first());
        } else {
            assert(bx.drop_first() =~= b);
        }
    } else if key(a.first()) >= key(b.first()) {
        let m = merge_desc(a.drop_first(), b, key);
        assert((seq![a.first()] + m).drop_first() =~= m);
        if key(a.first()) >= key(x) {
            lemma_insert_merge(a.drop_first(), b, x, key);
        } else {
            assert(bx.drop_first() =~= b);
        }
    } else {
        let m = merge_desc(a, b.drop_first(), key);
        assert((seq![b.first()] + m).drop_first() =~= m);
        if key(b.first()) >= key(x) {
            lemma_insert_merge(a, b.drop_first(), x, key);
            let rest = insert_desc(b.drop_first(), x, key);
            assert((seq![b.first()] + rest).drop_first() =~= rest);
        } else {
            assert(bx.drop_first() =~= b);
        }
    }
}

/// Ordering a concatenation is merging the two ordered parts.
pub proof fn lemma_sort_concat<T>(a: Seq<T>, b: Seq<T>, key: spec_fn(T) -> int)
    ensures
        sort_desc(a + b, key) == merge_desc(sort_desc(a, key), sort_desc(b, key), key),
    decreases b.len(),
{
    if b.len() == 0 {
        assert(a + b =~= a);
    } else {
        assert((a + b).drop_last() =~= a + b.drop_last());
        lemma_sort_concat(a, b.drop_last(), key);
        lemma_insert_merge(sort_desc(a, key), sort_desc(b.drop_last(), key), b.last(), key);
    }
}

/// Ordering commutes with a mapping that respects the keys.
pub proof fn lemma_sort_map<T, U>(
    s: Seq<T>,
    f: spec_fn(T) -> U,
    key_t: spec_fn(T) -> int,
    key_u: spec_fn(U) -> int,
)
    requires
        forall|t: T| #[trigger] key_t(t) == key_u(f(t)),
    ensures
        sort_desc(s.map_values(f), key_u) == sort_desc(s, key_t).map_values(f),
    decreases s.len(),
{
    if s.len() == 0 {
        assert(s.map_values(f) =~= sort_desc(s, key_t).map_values(f));
    } else {
        assert(s.map_values(f).drop_last() =~= s.drop_last().map_values(f));
        lemma_sort_map(s.drop_last(), f, key_t, key_u);
        lemma_insert_map(sort_desc(s.drop_last(), key_t), s.last(), f, key_t, key_u);
    }
}

/// Insertion commutes with a mapping that respects the keys.
pub proof fn lemma_insert_map<T, U>(
    s: Seq<T>,
    x: T,
    f: spec_fn(T) -> U,
    key_t: spec_fn(T) -> int,
    key_u: spec_fn(U) -> int,
)
    requires
        forall|t: T| #[trigger] key_t(t) == key_u(f(t)),
    ensures
        insert_desc(s.map_values(f), f(x), key_u) == insert_desc(s, x, key_t).map_values(f),
    decreases s.len(),
{
    if s.len() > 0 && key_t(s.first()) >= key_t(x) {
        lemma_insert_map(s.drop_first(), x, f, key_t, key_u);
        assert(s.map_values(f).drop_first() =~= s.drop_first().map_values(f));
        assert(insert_desc(s.map_values(f), f(x), key_u) =~= insert_desc(s, x, key_t).map_values(
            f,
        ));
    } else {
        assert(insert_desc(s.map_values(f), f(x), key_u) =~= insert_desc(s, x, key_t).map_values(
            f,
        ));
    }
}

/// The elements of `s` whose key is `k`, in the order of `s`.
pub open spec fn with_key<T>(s: Seq<T>, k: int, key: spec_fn(T) -> int) -> Seq<T> {
    s.filter(|x: T| key(x) == k)
}

/// A sequence without an element of key `k` has none to select.
pub proof fn lemma_with_key_absent<T>(s: Seq<T>, k: int, key: spec_fn(T) -> int)
    requires
        forall|i: int| 0 <= i < s.len() ==> key(#[trigger] s[i]) != k,
    ensures
        with_key(s, k, key) == Seq::<T>::empty(),
    decreases s.len(),
{
    reveal(Seq::filter);
    if s.len() > 0 {
        let front = s.drop_last();
        assert forall|i: int| 0 <= i < front.len() implies key(#[trigger] front[i]) != k by {
            assert(front[i] == s[i]);
        }
        lemma_with_key_absent(front, k, key);
        assert(key(s[s.len() - 1]) != k);
    }
}

/// An insertion into a sorted sequence puts its element behind those of the
/// same key and leaves the order of the others as it is.
pub proof fn lemma_insert_with_key<T>(s: Seq<T>, x: T, k: int, key: spec_fn(T) -> int)
    requires
        is_sorted_desc(s, key),
    ensures
        with_key(insert_desc(s, x, key), k, key) == if key(x) == k {
            with_key(s, k, key).push(x)
        } else {
            with_key(s, k, key)
        },
{
    reveal(Seq::filter);
    lemma_insert_position(s, x, key);
    let p = leading_not_below(s, key(x), key);
    let pred = |y: T| key(y) == k;
    let head = s.take(p);
    let tail = s.skip(p);
    assert(head + tail =~= s);
    Seq::filter_distributes_over_add(head, tail, pred);
    Seq::filter_distributes_over_add(head.push(x), tail, pred);
    assert(head.push(x).drop_last() =~= head);
    if key(x) == k {
        assert forall|i: int| 0 <= i < tail.len() implies key(#[trigger] tail[i]) != k by {
            assert(key(s[p]) >= key(s[p + i]));
        }
        lemma_with_key_absent(tail, k, key);
        assert(head.filter(pred).push(x) + Seq::<T>::empty() =~= (head.filter(pred) + Seq::<
            T,
        >::empty()).push(x));
    }
}

/// Ordering is stable: the elements of one key come out in the order in
/// which they went in.
pub proof fn lemma_sort_stable<T>(s: Seq<T>, k: int, key: spec_fn(T) -> int)
    ensures
        with_key(sort_desc(s, key), k, key) == with_key(s, k, key),
    decreases s.len(),
{
    reveal(Seq::filter);
    if s.len() > 0 {
        let front = s.drop_last();
        lemma_sort_stable(front, k, key);
        lemma_sort_sorted(front, key);
        lemma_insert_with_key(sort_desc(front, key), s.last(), k, key);
    }
}

} // verus!
