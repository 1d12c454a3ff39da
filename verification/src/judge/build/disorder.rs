//! Civil disorder: the units a nation that owes disbands but ordered too few loses.
use super::graph::{graph_edges, graph_node_count, region_distance, walk_within, RegionGraph};
use crate::geo::region::{lemma_region_lt_order, region_lt};
use crate::geo::{RegionKey, RegionName};
use crate::unit::UnitType;
use vstd::prelude::*;

verus! {

/// The rank of a unit for disbanding: its distance from the nearest owned supply center, its
/// type, and its region.
pub type Rank = (usize, UnitType, RegionName);

/// Whether a unit is disbanded before another: it is farther from an owned supply center; or
/// as far, and a fleet where the other is an army; or as far and of the same type, and its
/// region comes first.
pub open spec fn outranks(a: Rank, b: Rank) -> bool {
    ||| a.0 > b.0
    ||| a.0 == b.0 && a.1 == UnitType::Fleet && b.1 == UnitType::Army
    ||| a.0 == b.0 && a.1 == b.1 && region_lt(a.2, b.2)
}

/// No unit outranks itself, and outranking is transitive.
pub proof fn lemma_outranks_order(a: Rank, b: Rank, c: Rank)
    ensures
        !outranks(a, a),
        outranks(a, b) && outranks(b, c) ==> outranks(a, c),
{
    lemma_region_lt_order(a.2, b.2, c.2);
}

fn outranks_exec(a: &(usize, UnitType, RegionKey), b: &(usize, UnitType, RegionKey)) -> (r: bool)
    ensures
        r == outranks((a.0, a.1, a.2@), (b.0, b.1, b.2@)),
{
    if a.0 != b.0 {
        a.0 > b.0
    } else if a.1 != b.1 {
        a.1 == UnitType::Fleet
    } else {
        a.2.precedes(&b.2)
    }
}

/// The ranks, with regions by name.
pub open spec fn rank_views(ranks: Seq<(usize, UnitType, RegionKey)>) -> Seq<Rank> {
    ranks.map_values(|r: (usize, UnitType, RegionKey)| (r.0, r.1, r.2@))
}

/// Choose `count` units to disband, or all of them if there are fewer: no unit kept
/// outranks a unit disbanded. Returns the positions of the chosen units.
pub fn select_disbands(ranks: &Vec<(usize, UnitType, RegionKey)>, count: usize) -> (r: Vec<usize>)
    ensures
        r@.len() == if count < ranks@.len() {
            count as int
        } else {
            ranks@.len() as int
        },
        forall|k: int| 0 <= k < r@.len() ==> #[trigger] r@[k] < ranks@.len(),
        forall|a: int, b: int| 0 <= a < b < r@.len() ==> r@[a] != r@[b],
        forall|c: int, k: int|
            0 <= c < r@.len() && 0 <= k < ranks@.len() && !r@.contains(k as usize) ==> !outranks(
                #[trigger] rank_views(ranks@)[k],
                #[trigger] rank_views(ranks@)[r@[c] as int],
            ),
{
    let ghost rv = rank_views(ranks@);
    let n = ranks.len();
    let target = if count < n {
        count
    } else {
        n
    };
    let mut chosen: Vec<bool> = Vec::new();
    let mut i: usize = 0;
    while i < n
        invariant
            i <= n,
            chosen@.len() == i,
            forall|k: int| 0 <= k < i ==> !chosen@[k],
        decreases n - i,
    {
        chosen.push(false);
        i = i + 1;
    }
    let mut out: Vec<usize> = Vec::new();
    while out.len() < target
        invariant
            n == ranks@.len(),
            rv == rank_views(ranks@),
            target <= n,
            chosen@.len() == n,
            out@.len() <= target,
            forall|k: int| 0 <= k < out@.len() ==> #[trigger] out@[k] < n,
            forall|a: int, b: int| 0 <= a < b < out@.len() ==> out@[a] != out@[b],
            forall|k: int| 0 <= k < n ==> (chosen@[k] <==> out@.contains(k as usize)),
            forall|c: int, k: int|
                0 <= c < out@.len() && 0 <= k < n && !chosen@[k] ==> !outranks(
                    #[trigger] rv[k],
                    #[trigger] rv[out@[c] as int],
                ),
        decreases target - out@.len(),
    {
        // Count the units not chosen yet, to know one remains.
        proof {
            lemma_unchosen_exists(chosen@, out@, n as int);
        }
        let mut best: usize = n;
        let mut j: usize = 0;
        while j < n
            invariant
                j <= n,
                n == ranks@.len(),
                rv == rank_views(ranks@),
                chosen@.len() == n,
                best == n || (best < j && !chosen@[best as int]),
                best == n ==> forall|k: int| 0 <= k < j ==> #[trigger] chosen@[k],
                forall|k: int| 0 <= k < j && !chosen@[k] ==> !outranks(#[trigger] rv[k], rv[best as int]),
                (exists|k: int| 0 <= k < n && !chosen@[k]) ==> (exists|k: int| j <= k < n && !chosen@[k]) || best < n,
            decreases n - j,
        {
            if !chosen[j] {
                proof {
                    assert(rv[j as int] == (ranks@[j as int].0, ranks@[j as int].1, ranks@[j as int].2@));
                }
                if best == n {
                    proof {
                        assert forall|k: int| 0 <= k < j + 1 && !chosen@[k] implies !outranks(
                            #[trigger] rv[k],
                            rv[j as int],
                        ) by {
                            lemma_outranks_order(rv[k], rv[k], rv[k]);
                        }
                    }
                    best = j;
                } else {
                    proof {
                        assert(rv[best as int] == (ranks@[best as int].0, ranks@[best as int].1, ranks@[best as int].2@));
                    }
                    if outranks_exec(&ranks[j], &ranks[best]) {
                        proof {
                            assert forall|k: int| 0 <= k < j + 1 && !chosen@[k] implies !outranks(
                                #[trigger] rv[k],
                                rv[j as int],
                            ) by {
                                lemma_outranks_order(rv[k], rv[j as int], rv[best as int]);
                            }
                        }
                        best = j;
                    } else {
                        proof {
                            assert forall|k: int| 0 <= k < j + 1 && !chosen@[k] implies !outranks(
                                #[trigger] rv[k],
                                rv[best as int],
                            ) by {
                                if k < j {
                                } else {
                                    assert(k == j);
                                }
                            }
                        }
                    }
                }
            } else {
                proof {
                    assert forall|k: int| 0 <= k < j + 1 && !chosen@[k] implies !outranks(
                        #[trigger] rv[k],
                        rv[best as int],
                    ) by {
                        assert(k != j);
                    }
                }
            }
            j = j + 1;
        }
        let ghost prev = out@;
        chosen.set(best, true);
        out.push(best);
        proof {
            assert forall|k: int| 0 <= k < n implies (chosen@[k] <==> out@.contains(k as usize)) by {
                if out@.contains(k as usize) {
                    let c = choose|c: int| 0 <= c < out@.len() && out@[c] == k as usize;
                    if c < prev.len() {
                        assert(prev[c] == k as usize);
                        assert(prev.contains(k as usize));
                    }
                }
                if chosen@[k] && k != best {
                    assert(prev.contains(k as usize));
                    let c = choose|c: int| 0 <= c < prev.len() && prev[c] == k as usize;
                    assert(out@[c] == k as usize);
                }
                if k == best {
                    assert(out@[prev.len() as int] == best);
                }
            }
            assert forall|a: int, b: int| 0 <= a < b < out@.len() implies out@[a] != out@[b] by {
                if b == prev.len() {
                    assert(out@[a] == prev[a]);
                    assert(prev.contains(prev[a]));
                } else {
                    assert(out@[a] == prev[a] && out@[b] == prev[b]);
                }
            }
            assert forall|c: int, k: int|
                0 <= c < out@.len() && 0 <= k < n && !chosen@[k] implies !outranks(
                #[trigger] rv[k],
                #[trigger] rv[out@[c] as int],
            ) by {
                if c < prev.len() {
                    assert(out@[c] == prev[c]);
                }
            }
        }
    }
    proof {
        assert forall|c: int, k: int|
            0 <= c < out@.len() && 0 <= k < ranks@.len() && !out@.contains(k as usize) implies !outranks(
            #[trigger] rank_views(ranks@)[k],
            #[trigger] rank_views(ranks@)[out@[c] as int],
        ) by {
            assert(!chosen@[k]);
        }
    }
    out
}

proof fn lemma_unchosen_exists(chosen: Seq<bool>, out: Seq<usize>, n: int)
    requires
        n <= usize::MAX,
        chosen.len() == n,
        out.len() < n,
        forall|k: int| 0 <= k < out.len() ==> #[trigger] out[k] < n,
        forall|a: int, b: int| 0 <= a < b < out.len() ==> out[a] != out[b],
        forall|k: int| 0 <= k < n ==> (chosen[k] <==> out.contains(k as usize)),
    ensures
        exists|k: int| 0 <= k < n && !chosen[k],
{
    if forall|k: int| 0 <= k < n ==> chosen[k] {
        // Every position below n is in `out`, so `out` has at least n distinct elements.
        let s = Seq::new(n as nat, |k: int| k as usize);
        assert forall|k: int| 0 <= k < n implies out.contains(#[trigger] s[k]) by {
            assert(chosen[k]);
        }
        assert(s.no_duplicates()) by {
            assert forall|a: int, b: int| 0 <= a < s.len() && 0 <= b < s.len() && a != b implies s[a] != s[b] by {
                assert(s[a] == a as usize && s[b] == b as usize);
            }
        }
        assert(out.no_duplicates()) by {
            assert forall|a: int, b: int| 0 <= a < out.len() && 0 <= b < out.len() && a != b implies out[a] != out[b] by {
                if a < b {
                } else {
                }
            }
        }
        lemma_cover(s, out);
        assert(false);
    }
}

/// A sequence with no repeats that holds every element of another sequence with no repeats is
/// at least as long.
proof fn lemma_cover(s: Seq<usize>, out: Seq<usize>)
    requires
        s.no_duplicates(),
        out.no_duplicates(),
        forall|k: int| 0 <= k < s.len() ==> out.contains(#[trigger] s[k]),
    ensures
        s.len() <= out.len(),
{
    s.unique_seq_to_set();
    out.unique_seq_to_set();
    assert(s.to_set().subset_of(out.to_set()));
    vstd::set_lib::lemma_len_subset(s.to_set(), out.to_set());
}

/// Whether `r` is the length of a shortest walk from node `from` to one of the nodes
/// `targets`, or `usize::MAX` when none can be reached.
pub open spec fn nearest_distance(edges: Seq<(usize, usize)>, from: int, targets: Seq<usize>, r: usize) -> bool {
    ||| (exists|t: int| 0 <= t < targets.len() && #[trigger] walk_within(edges, from, targets[t] as int, r as nat))
        && (forall|t: int, k: nat|
        0 <= t < targets.len() && k < r ==> !#[trigger] walk_within(edges, from, targets[t] as int, k))
    ||| r == usize::MAX && forall|t: int, k: nat|
        0 <= t < targets.len() ==> !#[trigger] walk_within(edges, from, targets[t] as int, k)
}

/// The distance from node `from` to the nearest of the nodes `targets`.
pub fn distance_to_nearest(g: &RegionGraph, from: usize, targets: &Vec<usize>) -> (r: usize)
    requires
        from < graph_node_count(*g),
        forall|t: int| 0 <= t < targets@.len() ==> #[trigger] targets@[t] < graph_node_count(*g),
    ensures
        nearest_distance(graph_edges(*g), from as int, targets@, r),
{
    let ghost edges = graph_edges(*g);
    let mut best: Option<usize> = None;
    let mut i: usize = 0;
    while i < targets.len()
        invariant
            i <= targets@.len(),
            edges == graph_edges(*g),
            from < graph_node_count(*g),
            forall|t: int| 0 <= t < targets@.len() ==> #[trigger] targets@[t] < graph_node_count(*g),
            match best {
                Some(d) => (exists|t: int| 0 <= t < i && #[trigger] walk_within(edges, from as int, targets@[t] as int, d as nat))
                    && forall|t: int, k: nat|
                    0 <= t < i && k < d ==> !#[trigger] walk_within(edges, from as int, targets@[t] as int, k),
                None => forall|t: int, k: nat|
                    0 <= t < i ==> !#[trigger] walk_within(edges, from as int, targets@[t] as int, k),
            },
        decreases targets@.len() - i,
    {
        let t = targets[i];
        match region_distance(g, from, t) {
            Some(d) => {
                match best {
                    Some(b) => {
                        if d < b {
                            best = Some(d);
                        }
                    },
                    None => {
                        best = Some(d);
                    },
                }
            },
            None => {},
        }
        i = i + 1;
    }
    match best {
        Some(d) => d,
        None => usize::MAX,
    }
}

} // verus!
