//! Build-phase resolution: the outcome of each order, in turn.
use super::rules::{adjudicate, count_owned, spec_delta, spec_has_home, spec_validity, BuildOrderView, OrderOutcome, owned_count};
use super::world::{Ownerships, WorldState};
use crate::geo::WorldMap;
use crate::judge::MappedBuildOrder;
use crate::lemmas::{first_index, lemma_first_index, lemma_first_index_props};
use crate::nation::Nation;
use crate::order::{BuildCommand, Model};
use vstd::prelude::*;

verus! {

/// Whether an order equals `o`.
pub open spec fn equal_to(o: BuildOrderView) -> spec_fn(BuildOrderView) -> bool {
    |x: BuildOrderView| x == o
}

/// The position of the first order before `i` equal to the order at `i`, if any.
pub open spec fn first_equal(orders: Seq<BuildOrderView>, i: int) -> Option<int> {
    first_index(orders.take(i), equal_to(orders[i]))
}

/// How many of the first `i` orders of `nation` succeeded, counting each order once.
pub open spec fn succeeded_count(
    orders: Seq<BuildOrderView>,
    outs: Seq<OrderOutcome>,
    nation: Seq<char>,
    i: nat,
) -> nat
    decreases i,
{
    if i == 0 {
        0
    } else {
        let j = i - 1;
        succeeded_count(orders, outs, nation, j as nat) + if outs[j] == OrderOutcome::Succeeds
            && orders[j].nation == nation && first_equal(orders, j) is None {
            1nat
        } else {
            0nat
        }
    }
}

/// The outcome of the order at `i`, given the outcomes of the orders before it:
/// - an order equal to an earlier one has that order's outcome;
/// - a nation that is owed no build or disband, or is owed the other kind, may not redeploy;
/// - an order that may not stand on its own fails for that reason;
/// - an order beyond the number the nation is owed fails as having used them all;
/// - any other order succeeds.
#[verifier::opaque]
pub open spec fn step_outcome<W: WorldState>(
    m: crate::geo::MapView,
    w: &W,
    last: &Ownerships,
    orders: Seq<BuildOrderView>,
    outs: Seq<OrderOutcome>,
    i: int,
) -> OrderOutcome {
    let o = orders[i];
    match first_equal(orders, i) {
        Some(j) => outs[j],
        None => match spec_delta(m, w, last, o.nation) {
            None => OrderOutcome::RedeploymentProhibited,
            Some((cmd, x)) => if cmd != o.command {
                OrderOutcome::RedeploymentProhibited
            } else if spec_validity(m, w, last, o) != OrderOutcome::Succeeds {
                spec_validity(m, w, last, o)
            } else if succeeded_count(orders, outs, o.nation, i as nat) >= x {
                if cmd == BuildCommand::Build {
                    OrderOutcome::AllBuildsUsed
                } else {
                    OrderOutcome::AllDisbandsUsed
                }
            } else {
                OrderOutcome::Succeeds
            },
        },
    }
}

/// Whether every nation that is owed builds and orders one has a home supply center to
/// build in.
#[verifier::opaque]
pub open spec fn builders_have_homes<W: WorldState>(
    m: crate::geo::MapView,
    w: &W,
    last: &Ownerships,
    orders: Seq<BuildOrderView>,
) -> bool {
    forall|k: int|
        0 <= k < orders.len() && orders[k].command == BuildCommand::Build && (spec_delta(
            m,
            w,
            last,
            #[trigger] orders[k].nation,
        ) matches Some((BuildCommand::Build, _))) ==> spec_has_home(m, orders[k].nation)
}

/// The outcomes of the first `n` orders.
pub open spec fn spec_run<W: WorldState>(
    m: crate::geo::MapView,
    w: &W,
    last: &Ownerships,
    orders: Seq<BuildOrderView>,
    n: nat,
) -> Seq<OrderOutcome>
    decreases n,
{
    if n == 0 {
        Seq::empty()
    } else {
        let prev = spec_run(m, w, last, orders, (n - 1) as nat);
        prev.push(step_outcome(m, w, last, orders, prev, n - 1))
    }
}

/// The outcomes of the first `n` orders are `n` outcomes.
pub proof fn lemma_run_len<W: WorldState>(
    m: crate::geo::MapView,
    w: &W,
    last: &Ownerships,
    orders: Seq<BuildOrderView>,
    n: nat,
)
    ensures
        spec_run(m, w, last, orders, n).len() == n,
    decreases n,
{
    if n > 0 {
        lemma_run_len(m, w, last, orders, (n - 1) as nat);
    }
}

/// The position of the first order before `i` equal to the order at `i`, if any.
pub(crate) fn find_equal_before(orders: &Vec<MappedBuildOrder>, i: usize) -> (r: Option<usize>)
    requires
        i < orders@.len(),
    ensures
        match r {
            Some(j) => first_equal(orders@.map_values(|o: MappedBuildOrder| o@), i as int) == Some(j as int),
            None => first_equal(orders@.map_values(|o: MappedBuildOrder| o@), i as int) is None,
        },
{
    let ghost os = orders@.map_values(|o: MappedBuildOrder| o@);
    let ghost t = os.take(i as int);
    let ghost f = equal_to(os[i as int]);
    let mut j: usize = 0;
    while j < i
        invariant
            j <= i,
            i < orders@.len(),
            os == orders@.map_values(|o: MappedBuildOrder| o@),
            t == os.take(i as int),
            forall|x: BuildOrderView| #[trigger] f(x) == (x == os[i as int]),
            forall|k: int| 0 <= k < j ==> !f(#[trigger] t[k]),
        decreases i - j,
    {
        assert(t[j as int] == orders@[j as int]@);
        assert(os[i as int] == orders@[i as int]@);
        if orders[j].same(&orders[i]) {
            proof {
                lemma_first_index(t, f, j as int);
            }
            return Some(j);
        }
        j = j + 1;
    }
    proof {
        lemma_first_index_props(t, f);
    }
    None
}

/// The number of builds (or disbands) a nation is owed, if any.
pub fn delta_for<W: WorldState>(map: &WorldMap, w: &W, last: &Ownerships, nation: &Nation) -> (r: Option<(BuildCommand, usize)>)
    ensures
        match r {
            Some((cmd, x)) => spec_delta(map@, w, last, nation@) == Some((cmd, x as nat)),
            None => spec_delta(map@, w, last, nation@) is None,
        },
{
    let owned = count_owned(map, w, last, nation);
    let units = w.unit_count(nation);
    if owned > units {
        Some((BuildCommand::Build, owned - units))
    } else if owned < units {
        Some((BuildCommand::Disband, units - owned))
    } else {
        None
    }
}

/// How many of the first `i` orders of `nation` succeeded, counting each order once.
pub(crate) fn count_succeeded(orders: &Vec<MappedBuildOrder>, outs: &Vec<OrderOutcome>, nation: &Nation, i: usize) -> (r: usize)
    requires
        i <= outs@.len(),
        i <= orders@.len(),
    ensures
        r == succeeded_count(orders@.map_values(|o: MappedBuildOrder| o@), outs@, nation@, i as nat),
        r <= i,
{
    let ghost os = orders@.map_values(|o: MappedBuildOrder| o@);
    let mut count: usize = 0;
    let mut j: usize = 0;
    while j < i
        invariant
            j <= i,
            i <= outs@.len(),
            i <= orders@.len(),
            os == orders@.map_values(|o: MappedBuildOrder| o@),
            count == succeeded_count(os, outs@, nation@, j as nat),
            count <= j,
        decreases i - j,
    {
        assert(os[j as int] == orders@[j as int]@);
        if outs[j] == OrderOutcome::Succeeds && orders[j].nation.same(nation) && find_equal_before(
            orders,
            j,
        ).is_none() {
            count = count + 1;
        }
        j = j + 1;
    }
    count
}

/// The outcome of each order, in turn.
pub fn run_orders<W: WorldState>(map: &WorldMap, w: &W, last: &Ownerships, orders: &Vec<MappedBuildOrder>) -> (r: Vec<OrderOutcome>)
    requires
        builders_have_homes(map@, w, last, orders@.map_values(|o: MappedBuildOrder| o@)),
    ensures
        r@ == spec_run(map@, w, last, orders@.map_values(|o: MappedBuildOrder| o@), orders@.len() as nat),
{
    let ghost os = orders@.map_values(|o: MappedBuildOrder| o@);
    let mut outs: Vec<OrderOutcome> = Vec::new();
    let mut i: usize = 0;
    while i < orders.len()
        invariant
            i <= orders@.len(),
            os == orders@.map_values(|o: MappedBuildOrder| o@),
            outs@ == spec_run(map@, w, last, os, i as nat),
            outs@.len() == i,
        decreases orders@.len() - i,
    {
        let o = &orders[i];
        assert(os[i as int] == o@);
        let outcome = match find_equal_before(orders, i) {
            Some(j) => {
                proof {
                    lemma_first_index_props(os.take(i as int), equal_to(os[i as int]));
                }
                outs[j]
            },
            None => match delta_for(map, w, last, &o.nation) {
                None => OrderOutcome::RedeploymentProhibited,
                Some((cmd, x)) => {
                    if cmd != o.command {
                        OrderOutcome::RedeploymentProhibited
                    } else {
                        let v = adjudicate(map, w, last, o);
                        if v != OrderOutcome::Succeeds {
                            v
                        } else if count_succeeded(orders, &outs, &o.nation, i) >= x {
                            if cmd == BuildCommand::Build {
                                OrderOutcome::AllBuildsUsed
                            } else {
                                OrderOutcome::AllDisbandsUsed
                            }
                        } else {
                            OrderOutcome::Succeeds
                        }
                    }
                },
            },
        };
        proof {
            reveal(step_outcome);
            assert(outcome == step_outcome(map@, w, last, os, outs@, i as int));
        }
        outs.push(outcome);
        i = i + 1;
    }
    outs
}

/// What the outcome of one order says: a repeated order has the outcome of its first copy,
/// and an order that succeeds is of the kind its nation is owed, with fewer earlier successes
/// than it is owed.
pub proof fn lemma_step_facts<W: WorldState>(
    m: crate::geo::MapView,
    w: &W,
    last: &Ownerships,
    orders: Seq<BuildOrderView>,
    outs: Seq<OrderOutcome>,
    i: int,
)
    ensures
        first_equal(orders, i) matches Some(j) ==> step_outcome(m, w, last, orders, outs, i) == outs[j],
        first_equal(orders, i) is None && step_outcome(m, w, last, orders, outs, i) == OrderOutcome::Succeeds
            ==> (spec_delta(m, w, last, orders[i].nation) matches Some((c, x)) && c == orders[i].command
            && succeeded_count(orders, outs, orders[i].nation, i as nat) < x
            && spec_validity(m, w, last, orders[i]) == OrderOutcome::Succeeds),
{
    reveal(step_outcome);
}

/// Each outcome is decided once: adjudicating more orders leaves the earlier outcomes as they
/// were.
pub proof fn lemma_run_prefix<W: WorldState>(
    m: crate::geo::MapView,
    w: &W,
    last: &Ownerships,
    orders: Seq<BuildOrderView>,
    n: nat,
    k: int,
)
    requires
        0 <= k < n,
    ensures
        spec_run(m, w, last, orders, n)[k] == step_outcome(m, w, last, orders, spec_run(m, w, last, orders, k as nat), k),
        spec_run(m, w, last, orders, n).take(k) == spec_run(m, w, last, orders, k as nat),
    decreases n,
{
    lemma_run_len(m, w, last, orders, n);
    lemma_run_len(m, w, last, orders, (n - 1) as nat);
    if k < n - 1 {
        lemma_run_prefix(m, w, last, orders, (n - 1) as nat, k);
        assert(spec_run(m, w, last, orders, n).take(k) =~= spec_run(m, w, last, orders, (n - 1) as nat).take(k));
    } else {
        assert(spec_run(m, w, last, orders, n).take(k) =~= spec_run(m, w, last, orders, (n - 1) as nat));
    }
}

/// How many orders of a nation succeeded among the first `i` depends on the first `i`
/// outcomes only.
proof fn lemma_succeeded_count_prefix(
    orders: Seq<BuildOrderView>,
    a: Seq<OrderOutcome>,
    b: Seq<OrderOutcome>,
    nation: Seq<char>,
    i: nat,
)
    requires
        i <= a.len(),
        i <= b.len(),
        a.take(i as int) == b.take(i as int),
    ensures
        succeeded_count(orders, a, nation, i) == succeeded_count(orders, b, nation, i),
    decreases i,
{
    if i > 0 {
        assert(a.take(i - 1) =~= a.take(i as int).take(i - 1));
        assert(b.take(i - 1) =~= b.take(i as int).take(i - 1));
        assert(a[i - 1] == a.take(i as int)[i - 1]);
        assert(b[i - 1] == b.take(i as int)[i - 1]);
        lemma_succeeded_count_prefix(orders, a, b, nation, (i - 1) as nat);
    }
}

/// An order given twice has one outcome: each copy has the outcome of the first.
pub proof fn lemma_repeated_order<W: WorldState>(
    m: crate::geo::MapView,
    w: &W,
    last: &Ownerships,
    orders: Seq<BuildOrderView>,
    i: int,
    j: int,
)
    requires
        0 <= i < j < orders.len(),
        orders[i] == orders[j],
    ensures
        spec_run(m, w, last, orders, orders.len())[i] == spec_run(m, w, last, orders, orders.len())[j],
{
    let outs = spec_run(m, w, last, orders, orders.len());
    lemma_run_len(m, w, last, orders, orders.len());
    let fj = equal_to(orders[j]);
    let fi = equal_to(orders[i]);
    lemma_first_index_props(orders.take(j), fj);
    assert(orders.take(j)[i] == orders[i]);
    let f = first_equal(orders, j)->0;
    assert(first_equal(orders, j) is Some);
    lemma_run_prefix(m, w, last, orders, orders.len(), j);
    lemma_run_prefix(m, w, last, orders, orders.len(), i);
    lemma_run_len(m, w, last, orders, j as nat);
    lemma_step_facts(m, w, last, orders, spec_run(m, w, last, orders, j as nat), j);
    lemma_step_facts(m, w, last, orders, spec_run(m, w, last, orders, i as nat), i);
    assert(0 <= f < j);
    assert(outs.take(j) == spec_run(m, w, last, orders, j as nat));
    assert(outs[j] == step_outcome(m, w, last, orders, spec_run(m, w, last, orders, j as nat), j));
    assert(step_outcome(m, w, last, orders, spec_run(m, w, last, orders, j as nat), j) == spec_run(m, w, last, orders, j as nat)[f]);
    assert(spec_run(m, w, last, orders, j as nat)[f] == outs.take(j)[f]);
    assert(outs.take(j)[f] == outs[f]);
    assert(outs[j] == outs[f]);
    lemma_first_index_props(orders.take(i), fi);
    assert(orders.take(j)[f] == orders[f]);
    match first_equal(orders, i) {
        Some(g) => {
            assert(orders.take(i)[g] == orders[g]);
            assert(fi == fj);
            if g < f {
                assert(orders.take(j)[g] == orders[g]);
            }
            if f < g {
                assert(orders.take(i)[f] == orders[f]);
            }
            assert(g == f);
            lemma_run_len(m, w, last, orders, i as nat);
            assert(spec_run(m, w, last, orders, i as nat)[g] == outs.take(i)[g]);
        },
        None => {
            if f < i {
                assert(orders.take(i)[f] == orders[f]);
            }
            if i < f {
                assert(orders.take(j)[i] == orders[i]);
            }
            assert(f == i);
        },
    }
}

/// A nation never has more successful orders than the builds or disbands it is owed, and
/// every success is of the kind it is owed; a nation owed nothing has no success.
pub proof fn lemma_successes_bounded<W: WorldState>(
    m: crate::geo::MapView,
    w: &W,
    last: &Ownerships,
    orders: Seq<BuildOrderView>,
    nation: Seq<char>,
    i: nat,
)
    requires
        i <= orders.len(),
    ensures
        match spec_delta(m, w, last, nation) {
            Some((_, x)) => succeeded_count(orders, spec_run(m, w, last, orders, orders.len()), nation, i) <= x,
            None => succeeded_count(orders, spec_run(m, w, last, orders, orders.len()), nation, i) == 0,
        },
        forall|k: int|
            0 <= k < i && orders[k].nation == nation && #[trigger] spec_run(m, w, last, orders, orders.len())[k]
                == OrderOutcome::Succeeds ==> (spec_delta(m, w, last, nation) matches Some((c, _)) && c
                == orders[k].command),
    decreases i,
{
    let outs = spec_run(m, w, last, orders, orders.len());
    if i > 0 {
        let k = i - 1;
        lemma_successes_bounded(m, w, last, orders, nation, (i - 1) as nat);
        lemma_run_prefix(m, w, last, orders, orders.len(), k);
        let prev = spec_run(m, w, last, orders, k as nat);
        lemma_run_len(m, w, last, orders, k as nat);
        lemma_run_len(m, w, last, orders, orders.len());
        assert(outs.take(k) == prev);
        assert(prev.take(k) =~= prev);
        lemma_succeeded_count_prefix(orders, outs, prev, nation, k as nat);
        lemma_step_facts(m, w, last, orders, prev, k);
        if orders[k].nation == nation && outs[k] == OrderOutcome::Succeeds {
            match first_equal(orders, k) {
                Some(f) => {
                    lemma_first_index_props(orders.take(k), equal_to(orders[k]));
                    assert(orders.take(k)[f] == orders[f]);
                    assert(prev[f] == outs[f]);
                },
                None => {},
            }
        }
    }
}

/// An order succeeds only if it may stand on its own and is of the kind its nation is owed: a
/// build only in a home supply center that the nation controls, with no unit in it, on terrain
/// the unit can occupy; a disband only of a unit of the nation's own.
pub proof fn lemma_success_is_valid<W: WorldState>(
    m: crate::geo::MapView,
    w: &W,
    last: &Ownerships,
    orders: Seq<BuildOrderView>,
    k: int,
)
    requires
        0 <= k < orders.len(),
        spec_run(m, w, last, orders, orders.len())[k] == OrderOutcome::Succeeds,
    ensures
        spec_validity(m, w, last, orders[k]) == OrderOutcome::Succeeds,
        spec_delta(m, w, last, orders[k].nation) matches Some((c, _)) && c == orders[k].command,
{
    let outs = spec_run(m, w, last, orders, orders.len());
    lemma_run_len(m, w, last, orders, orders.len());
    lemma_first_index_props(orders.take(k), equal_to(orders[k]));
    let f = match first_equal(orders, k) {
        Some(f) => f,
        None => k,
    };
    assert(orders[f] == orders[k]) by {
        if f < k {
            assert(orders.take(k)[f] == orders[f]);
        }
    }
    if f < k {
        lemma_repeated_order(m, w, last, orders, f, k);
    }
    lemma_first_index_props(orders.take(f), equal_to(orders[f]));
    if let Some(g) = first_equal(orders, f) {
        assert(orders.take(f)[g] == orders[g]);
        assert(orders.take(k)[g] == orders[g]);
        assert(false);
    }
    lemma_run_prefix(m, w, last, orders, orders.len(), f);
    lemma_step_facts(m, w, last, orders, spec_run(m, w, last, orders, f as nat), f);
}

} // verus!
