//! First-match search and sorting by an integer key, as specification
//! functions with the lemmas the stores need.

use vstd::prelude::*;

verus! {

/// The index of the first element satisfying `p`, or `-1` if there is none.
pub open spec fn first_match<A>(s: Seq<A>, p: spec_fn(A) -> bool) -> int
    decreases s.len(),
{
    if s.len() == 0 {
        -1
    } else if p(s[0]) {
        0
    } else {
        let r = first_match(s.drop_first(), p);
        if r < 0 {
            -1
        } else {
            r + 1
        }
    }
}

/// `first_match` finds the first matching index, and finds one exactly when
/// one exists.
pub proof fn lemma_first_match<A>(s: Seq<A>, p: spec_fn(A) -> bool)
    ensures
        first_match(s, p) < 0 ==> forall|i: int| 0 <= i < s.len() ==> !p(#[trigger] s[i]),
        first_match(s, p) >= 0 ==> {
            &&& 0 <= first_match(s, p) < s.len()
            &&& p(s[first_match(s, p)])
            &&& forall|j: int| 0 <= j < first_match(s, p) ==> !p(#[trigger] s[j])
        },
    decreases s.len(),
{
    if s.len() == 0 {
    } else if p(s[0]) {
    } else {
        lemma_first_match(s.drop_first(), p);
        let r = first_match(s.drop_first(), p);
        if r < 0 {
            assert forall|i: int| 0 <= i < s.len() implies !p(#[trigger] s[i]) by {
                if i > 0 {
                    assert(!p(s.drop_first()[i - 1]));
                }
            }
        } else {
            assert(p(s.drop_first()[r]));
            assert forall|j: int| 0 <= j < r + 1 implies !p(#[trigger] s[j]) by {
                if j > 0 {
                    assert(!p(s.drop_first()[j - 1]));
                }
            }
        }
    }
}

/// Two sequences whose elements answer the predicates alike have the same
/// first match.
pub proof fn lemma_first_match_pointwise<A, B>(
    s: Seq<A>,
    t: Seq<B>,
    p: spec_fn(A) -> bool,
    q: spec_fn(B) -> bool,
)
    requires
        s.len() == t.len(),
        forall|i: int| 0 <= i < s.len() ==> p(#[trigger] s[i]) == q(#[trigger] t[i]),
    ensures
        first_match(s, p) == first_match(t, q),
    decreases s.len(),
{
    if s.len() == 0 {
    } else {
        assert(p(s[0]) == q(t[0]));
        assert forall|i: int|
            0 <= i < s.drop_first().len() implies p(#[trigger] s.drop_first()[i]) == q(
            #[trigger] t.drop_first()[i],
        ) by {
            assert(s.drop_first()[i] == s[i + 1]);
            assert(t.drop_first()[i] == t[i + 1]);
            assert(p(s[i + 1]) == q(t[i + 1]));
        }
        lemma_first_match_pointwise(s.drop_first(), t.drop_first(), p, q);
    }
}

/// Appending an element extends a filtered sequence by that element exactly
/// when it satisfies the predicate.
pub proof fn lemma_filter_push<A>(s: Seq<A>, p: spec_fn(A) -> bool, x: A)
    ensures
        s.push(x).filter(p) == (if p(x) {
            s.filter(p).push(x)
        } else {
            s.filter(p)
        }),
{
    reveal(Seq::filter);
    assert(s.push(x).drop_last() =~= s);
    assert(s.push(x).last() == x);
    assert(s.push(x).len() == s.len() + 1);
}

/// Inserts `x` into `s` after every element whose key is at most `key(x)`.
pub open spec fn insert_by_key<A>(key: spec_fn(A) -> int, x: A, s: Seq<A>) -> Seq<A>
    decreases s.len(),
{
    if s.len() == 0 {
        seq![x]
    } else if key(s[0]) <= key(x) {
        seq![s[0]] + insert_by_key(key, x, s.drop_first())
    } else {
        seq![x] + s
    }
}

/// Sorts `s` by ascending key; elements with equal keys keep their relative
/// order.
pub open spec fn sort_by_key<A>(key: spec_fn(A) -> int, s: Seq<A>) -> Seq<A>
    decreases s.len(),
{
    if s.len() == 0 {
        Seq::empty()
    } else {
        insert_by_key(key, s.last(), sort_by_key(key, s.drop_last()))
    }
}

/// Whether `s` is sorted by ascending key.
pub open spec fn sorted_by_key<A>(key: spec_fn(A) -> int, s: Seq<A>) -> bool {
    forall|i: int, j: int| 0 <= i < j < s.len() ==> key(#[trigger] s[i]) <= key(#[trigger] s[j])
}

proof fn lemma_singleton_multiset<A>(x: A)
    ensures
        seq![x].to_multiset() == vstd::multiset::Multiset::empty().insert(x),
{
    broadcast use vstd::seq_lib::group_to_multiset_ensures;

    assert(seq![x] =~= Seq::<A>::empty().push(x));
    let e = Seq::<A>::empty().to_multiset();
    assert(e.len() == 0);
    assert forall|a: A| e.count(a) == vstd::multiset::Multiset::<A>::empty().count(a) by {
        assert(e.count(a) <= e.len());
    }
    assert(e =~= vstd::multiset::Multiset::empty());
}

/// Inserting preserves sortedness, adds one element, and keeps the multiset
/// of elements.
pub proof fn lemma_insert_by_key<A>(key: spec_fn(A) -> int, x: A, s: Seq<A>)
    requires
        sorted_by_key(key, s),
    ensures
        sorted_by_key(key, insert_by_key(key, x, s)),
        insert_by_key(key, x, s).len() == s.len() + 1,
        insert_by_key(key, x, s).to_multiset() == s.to_multiset().insert(x),
    decreases s.len(),
{
    broadcast use vstd::seq_lib::group_to_multiset_ensures;
    broadcast use vstd::seq_lib::lemma_multiset_commutative;

    if s.len() == 0 {
        lemma_singleton_multiset(x);
        assert(insert_by_key(key, x, s) =~= seq![x]);
        assert(s.to_multiset().insert(x) =~= vstd::multiset::Multiset::empty().insert(x)) by {
            assert(s.to_multiset().len() == 0);
            assert forall|a: A| s.to_multiset().count(a) == 0 by {
                assert(s.to_multiset().count(a) <= s.to_multiset().len());
            }
        }
    } else if key(s[0]) <= key(x) {
        assert(sorted_by_key(key, s.drop_first()));
        lemma_insert_by_key(key, x, s.drop_first());
        let t = insert_by_key(key, x, s.drop_first());
        let r = seq![s[0]] + t;
        assert(s =~= seq![s[0]] + s.drop_first());
        // (seq![s[0]] + t).to_multiset() == seq![s[0]].to_multiset().add(t.to_multiset())
        lemma_singleton_multiset(s[0]);
        assert(r.to_multiset() =~= s.to_multiset().insert(x));
        assert forall|i: int, j: int| 0 <= i < j < r.len() implies key(#[trigger] r[i]) <= key(
            #[trigger] r[j],
        ) by {
            if i == 0 {
                assert(r[j] == t[j - 1]);
                assert(t.to_multiset().count(t[j - 1]) > 0);
                if t[j - 1] != x {
                    assert(s.drop_first().to_multiset().count(t[j - 1]) > 0);
                    let k = choose|k: int|
                        0 <= k < s.drop_first().len() && s.drop_first()[k] == t[j - 1];
                    assert(key(s[0]) <= key(s[k + 1]));
                } else {
                    assert(key(s[0]) <= key(x));
                }
            } else {
                assert(r[i] == t[i - 1] && r[j] == t[j - 1]);
            }
        }
    } else {
        let r = seq![x] + s;
        lemma_singleton_multiset(x);
        assert(r.to_multiset() =~= s.to_multiset().insert(x));
        assert forall|i: int, j: int| 0 <= i < j < r.len() implies key(#[trigger] r[i]) <= key(
            #[trigger] r[j],
        ) by {
            if i == 0 {
                assert(r[j] == s[j - 1]);
                if j >= 2 {
                    assert(key(s[0]) <= key(s[j - 1]));
                }
            } else {
                assert(r[i] == s[i - 1] && r[j] == s[j - 1]);
            }
        }
    }
}

/// Sorting yields a sorted sequence with the same elements.
pub proof fn lemma_sort_by_key<A>(key: spec_fn(A) -> int, s: Seq<A>)
    ensures
        sorted_by_key(key, sort_by_key(key, s)),
        sort_by_key(key, s).len() == s.len(),
        sort_by_key(key, s).to_multiset() == s.to_multiset(),
    decreases s.len(),
{
    broadcast use vstd::seq_lib::group_to_multiset_ensures;

    if s.len() == 0 {
    } else {
        lemma_sort_by_key(key, s.drop_last());
        lemma_insert_by_key(key, s.last(), sort_by_key(key, s.drop_last()));
        assert(s.drop_last().push(s.last()) =~= s);
        assert(s.drop_last().to_multiset().insert(s.last()) == s.to_multiset());
    }
}

/// Inserting an element whose key is at least every key in `s` appends it.
pub proof fn lemma_insert_by_key_at_end<A>(key: spec_fn(A) -> int, x: A, s: Seq<A>)
    requires
        forall|i: int| 0 <= i < s.len() ==> key(#[trigger] s[i]) <= key(x),
    ensures
        insert_by_key(key, x, s) == s.push(x),
    decreases s.len(),
{
    if s.len() == 0 {
        assert(insert_by_key(key, x, s) =~= s.push(x));
    } else {
        assert(forall|i: int|
            0 <= i < s.drop_first().len() ==> key(#[trigger] s.drop_first()[i]) <= key(x));
        lemma_insert_by_key_at_end(key, x, s.drop_first());
        assert(insert_by_key(key, x, s) =~= s.push(x));
    }
}

/// Sorting a sequence that is already sorted returns it unchanged.
pub proof fn lemma_sort_of_sorted<A>(key: spec_fn(A) -> int, s: Seq<A>)
    requires
        sorted_by_key(key, s),
    ensures
        sort_by_key(key, s) == s,
    decreases s.len(),
{
    if s.len() == 0 {
        assert(sort_by_key(key, s) =~= s);
    } else {
        assert(sorted_by_key(key, s.drop_last()));
        lemma_sort_of_sorted(key, s.drop_last());
        lemma_insert_by_key_at_end(key, s.last(), s.drop_last());
        assert(s.drop_last().push(s.last()) =~= s);
    }
}

/// Inserting at the first position whose key exceeds `key(x)` realizes
/// `insert_by_key` as a splice.
pub proof fn lemma_insert_by_key_splice<A>(key: spec_fn(A) -> int, x: A, s: Seq<A>, j: int)
    requires
        0 <= j <= s.len(),
        forall|i: int| 0 <= i < j ==> key(#[trigger] s[i]) <= key(x),
        j < s.len() ==> key(s[j]) > key(x),
    ensures
        insert_by_key(key, x, s) == s.take(j) + seq![x] + s.skip(j),
    decreases s.len(),
{
    if s.len() == 0 {
        assert(insert_by_key(key, x, s) =~= s.take(j) + seq![x] + s.skip(j));
    } else if j == 0 {
        assert(insert_by_key(key, x, s) =~= s.take(0) + seq![x] + s.skip(0));
    } else {
        assert(forall|i: int|
            0 <= i < j - 1 ==> key(#[trigger] s.drop_first()[i]) <= key(x));
        lemma_insert_by_key_splice(key, x, s.drop_first(), j - 1);
        assert(insert_by_key(key, x, s) =~= s.take(j) + seq![x] + s.skip(j));
    }
}

} // verus!
