//! Facts about sequences used by the loops of the library.
use vstd::prelude::*;

verus! {

/// One more element of a prefix extends the filtered prefix by that element, if it passes.
pub proof fn lemma_filter_step<A>(s: Seq<A>, i: int, pred: spec_fn(A) -> bool)
    requires
        0 <= i < s.len(),
    ensures
        s.take(i + 1).filter(pred) == (if pred(s[i]) {
            s.take(i).filter(pred).push(s[i])
        } else {
            s.take(i).filter(pred)
        }),
{
    reveal_with_fuel(Seq::filter, 1);
    assert(s.take(i + 1).drop_last() =~= s.take(i));
    assert(s.take(i + 1).last() == s[i]);
}

/// One more element of a prefix extends the filter-mapped prefix by its image, if any.
pub proof fn lemma_filter_map_step<A, B>(s: Seq<A>, i: int, f: spec_fn(A) -> Option<B>)
    requires
        0 <= i < s.len(),
    ensures
        s.take(i + 1).filter_map(f) == (match f(s[i]) {
            Some(x) => s.take(i).filter_map(f).push(x),
            None => s.take(i).filter_map(f),
        }),
{
    reveal_with_fuel(Seq::filter_map, 1);
    assert(s.take(i + 1).drop_last() =~= s.take(i));
    assert(s.take(i + 1).last() == s[i]);
    match f(s[i]) {
        Some(x) => {
            assert(s.take(i).filter_map(f) + seq![x] =~= s.take(i).filter_map(f).push(x));
        },
        None => {},
    }
}

/// Mapping after a push is pushing the image.
pub proof fn lemma_map_push<A, B>(s: Seq<A>, a: A, f: spec_fn(A) -> B)
    ensures
        s.push(a).map_values(f) == s.map_values(f).push(f(a)),
{
    assert(s.push(a).map_values(f) =~= s.map_values(f).push(f(a)));
}

} // verus!

verus! {

/// Index of the first element of `s` that satisfies `pred`, if any.
pub open spec fn first_index<A>(s: Seq<A>, pred: spec_fn(A) -> bool) -> Option<int> {
    if exists|i: int| 0 <= i < s.len() && pred(s[i]) {
        Some(
            choose|i: int|
                0 <= i < s.len() && pred(s[i]) && forall|j: int| 0 <= j < i ==> !pred(s[j]),
        )
    } else {
        None
    }
}

/// An element that satisfies `pred`, with none before it that does, is the first such.
pub proof fn lemma_first_index<A>(s: Seq<A>, pred: spec_fn(A) -> bool, i: int)
    requires
        0 <= i < s.len(),
        pred(s[i]),
        forall|j: int| 0 <= j < i ==> !pred(s[j]),
    ensures
        first_index(s, pred) == Some(i),
{
    let k = choose|k: int| 0 <= k < s.len() && pred(s[k]) && forall|j: int| 0 <= j < k ==> !pred(s[j]);
    assert(0 <= k < s.len() && pred(s[k]) && forall|j: int| 0 <= j < k ==> !pred(s[j]));
    if k < i {
        assert(!pred(s[k]));
    }
    if i < k {
        assert(!pred(s[i]));
    }
}

/// The first index, when there is one, satisfies the predicate and none before it does.
pub proof fn lemma_first_index_props<A>(s: Seq<A>, pred: spec_fn(A) -> bool)
    ensures
        match first_index(s, pred) {
            Some(i) => 0 <= i < s.len() && pred(s[i]) && forall|j: int| 0 <= j < i ==> !pred(s[j]),
            None => forall|j: int| 0 <= j < s.len() ==> !pred(s[j]),
        },
{
    if exists|i: int| 0 <= i < s.len() && pred(s[i]) {
        let w = choose|i: int| 0 <= i < s.len() && pred(s[i]);
        lemma_least_witness(s, pred, w);
    }
}

proof fn lemma_least_witness<A>(s: Seq<A>, pred: spec_fn(A) -> bool, w: int)
    requires
        0 <= w < s.len(),
        pred(s[w]),
    ensures
        exists|k: int| 0 <= k < s.len() && pred(s[k]) && forall|j: int| 0 <= j < k ==> !pred(s[j]),
    decreases w,
{
    if exists|j: int| 0 <= j < w && pred(s[j]) {
        let j = choose|j: int| 0 <= j < w && pred(s[j]);
        lemma_least_witness(s, pred, j);
    } else {
        assert(forall|j: int| 0 <= j < w ==> !pred(s[j]));
    }
}

} // verus!

verus! {

/// A sequence of distinct indices below `n` has at most `n` elements.
pub proof fn lemma_distinct_bounded(s: Seq<usize>, n: nat)
    requires
        s.no_duplicates(),
        forall|k: int| 0 <= k < s.len() ==> s[k] < n,
    ensures
        s.len() <= n,
{
    let t = s.map_values(|x: usize| x as int);
    assert(t.no_duplicates()) by {
        assert forall|i: int, j: int| 0 <= i < t.len() && 0 <= j < t.len() && i != j implies t[i]
            != t[j] by {
            assert(s[i] != s[j]);
        }
    }
    t.unique_seq_to_set();
    vstd::set_lib::lemma_int_range(0, n as int);
    assert(t.to_set().subset_of(vstd::set_lib::set_int_range(0, n as int))) by {
        assert forall|x: int| t.to_set().contains(x) implies vstd::set_lib::set_int_range(
            0,
            n as int,
        ).contains(x) by {
            assert(t.contains(x));
            let k = choose|k: int| 0 <= k < t.len() && t[k] == x;
            assert(s[k] < n);
        }
    }
    vstd::set_lib::lemma_len_subset(t.to_set(), vstd::set_lib::set_int_range(0, n as int));
}

/// Every element of a filtered sequence is an element of the sequence.
pub proof fn lemma_filter_subset<A>(s: Seq<A>, pred: spec_fn(A) -> bool, x: A)
    requires
        s.filter(pred).contains(x),
    ensures
        s.contains(x),
    decreases s.len(),
{
    reveal(Seq::filter);
    if s.len() > 0 {
        let f = s.drop_last().filter(pred);
        if f.contains(x) {
            lemma_filter_subset(s.drop_last(), pred, x);
            let k = choose|k: int| 0 <= k < s.drop_last().len() && s.drop_last()[k] == x;
            assert(s[k] == x);
        } else {
            assert(x == s.last());
            assert(s[s.len() - 1] == x);
        }
    }
}

/// Filtering a sequence without repeats leaves none.
pub proof fn lemma_filter_distinct<A>(s: Seq<A>, pred: spec_fn(A) -> bool)
    requires
        s.no_duplicates(),
    ensures
        s.filter(pred).no_duplicates(),
    decreases s.len(),
{
    reveal(Seq::filter);
    if s.len() > 0 {
        let d = s.drop_last();
        assert(d.no_duplicates()) by {
            assert forall|i: int, j: int| 0 <= i < d.len() && 0 <= j < d.len() && i != j implies d[i] != d[j] by {
                assert(d[i] == s[i] && d[j] == s[j]);
            }
        }
        lemma_filter_distinct(d, pred);
        let f = d.filter(pred);
        if pred(s.last()) {
            if f.contains(s.last()) {
                lemma_filter_subset(d, pred, s.last());
                let k = choose|k: int| 0 <= k < d.len() && d[k] == s.last();
                assert(s[k] == s[s.len() - 1]);
            }
            let g = f.push(s.last());
            assert forall|i: int, j: int| 0 <= i < g.len() && 0 <= j < g.len() && i != j implies g[i] != g[j] by {
                if i < f.len() && j < f.len() {
                    assert(g[i] == f[i] && g[j] == f[j]);
                } else if i < f.len() {
                    assert(g[i] == f[i]);
                    assert(f.contains(f[i]));
                } else if j < f.len() {
                    assert(g[j] == f[j]);
                    assert(f.contains(f[j]));
                }
            }
        }
    }
}

} // verus!
