//! A build phase to adjudicate, and what it came to: the outcome of each order, the units
//! each nation keeps, and the units lost to civil disorder.
use super::adjudication::{
    apply_orders, base_units, civil_disorder_of, counts, is_disorder_choice, lemma_units_after_distinct,
    slots, units_after, UnitSlot,
};
use super::graph::{graph_edges, graph_node_count, map_edges, map_graph, RegionGraph};
use super::resolve::{builders_have_homes, count_succeeded, delta_for, find_equal_before, first_equal, run_orders, spec_run, succeeded_count};
use super::rules::{spec_delta, BuildOrderView, OrderOutcome};
use super::world::{Ownerships, WorldState};
use crate::geo::map::first_region_with_key;
use crate::geo::{MapView, RegionKey, WorldMap};
use crate::judge::MappedBuildOrder;
use crate::nation::Nation;
use crate::order::{BuildCommand, Model};
use crate::unit::{Unit, UnitPosition, UnitPositionView, UnitType};
use vstd::prelude::*;

verus! {

/// The outcomes of all the orders of a build phase.
pub open spec fn build_outcomes<W: WorldState>(m: MapView, w: &W, last: &Ownerships, os: Seq<BuildOrderView>) -> Seq<OrderOutcome> {
    spec_run(m, w, last, os, os.len())
}

/// The disbands that nation `n` owes and did not order (or that did not succeed).
pub open spec fn disorder_owed<W: WorldState>(m: MapView, w: &W, last: &Ownerships, os: Seq<BuildOrderView>, n: Seq<char>) -> nat {
    match spec_delta(m, w, last, n) {
        Some((BuildCommand::Disband, x)) => {
            let done = succeeded_count(os, build_outcomes(m, w, last, os), n, os.len());
            if done < x {
                (x - done) as nat
            } else {
                0
            }
        },
        _ => 0,
    }
}

/// The units of nation `n` after its orders, before civil disorder.
pub open spec fn ordered_units<W: WorldState>(m: MapView, w: &W, last: &Ownerships, os: Seq<BuildOrderView>, n: Seq<char>) -> Seq<UnitSlot> {
    units_after(base_units(w, n), os, build_outcomes(m, w, last, os), n, os.len())
}

/// Whether the outcome lists units for nation `n`: a nation of the world, or one with an order
/// that changed the board.
pub open spec fn has_entry<W: WorldState>(m: MapView, w: &W, last: &Ownerships, os: Seq<BuildOrderView>, n: Seq<char>) -> bool {
    ||| w.spec_nations().contains(n)
    ||| exists|j: int| 0 <= j < os.len() && #[trigger] counts(os, build_outcomes(m, w, last, os), j) && os[j].nation == n
}

/// Whether a unit position is of nation `n`.
pub open spec fn of_nation(n: Seq<char>) -> spec_fn(UnitPositionView) -> bool {
    |p: UnitPositionView| p.0.0 == n
}

/// The unit at a position, by type and region.
pub open spec fn slot_at() -> spec_fn(UnitPositionView) -> UnitSlot {
    |p: UnitPositionView| (p.0.1, p.1)
}

/// The units of nation `n` among units lost to civil disorder.
pub open spec fn disorder_of(civil: Seq<UnitPositionView>, n: Seq<char>) -> Seq<UnitSlot> {
    civil.filter(of_nation(n)).map_values(slot_at())
}

/// Whether the world's nations and each nation's units are sets: none listed twice.
pub open spec fn world_is_sets<W: WorldState>(w: &W) -> bool {
    &&& w.spec_nations().no_duplicates()
    &&& forall|n: Seq<char>| #[trigger] w.spec_units(n).no_duplicates()
}

/// Whether each nation in civil disorder is a nation of the world and has its units on the
/// map, so that their distances can be measured.
pub open spec fn disorder_is_placed<W: WorldState>(m: MapView, w: &W, last: &Ownerships, os: Seq<BuildOrderView>) -> bool {
    forall|n: Seq<char>|
        #[trigger] disorder_owed(m, w, last, os, n) > 0 ==> w.spec_nations().contains(n) && forall|k: int|
            0 <= k < ordered_units(m, w, last, os, n).len() ==> first_region_with_key(
                m,
                #[trigger] ordered_units(m, w, last, os, n)[k].1,
            ) is Some
}

/// Whether a nation's entry in the outcome is right: the units it keeps are its units after
/// its orders less the units civil disorder took, chosen as the rules say.
pub open spec fn entry_is_right<W: WorldState>(
    m: MapView,
    w: &W,
    last: &Ownerships,
    os: Seq<BuildOrderView>,
    civil: Seq<UnitPositionView>,
    e: (Seq<char>, Seq<UnitSlot>),
) -> bool {
    let units = ordered_units(m, w, last, os, e.0);
    let gone = disorder_of(civil, e.0);
    &&& is_disorder_choice(m, w, last, e.0, units, disorder_owed(m, w, last, os, e.0), gone)
    &&& e.1 == units.filter(|u: UnitSlot| !gone.contains(u))
}

/// Whether the final units and civil disorder are those of the build phase.
pub open spec fn units_are_right<W: WorldState>(
    m: MapView,
    w: &W,
    last: &Ownerships,
    os: Seq<BuildOrderView>,
    finals: Seq<(Seq<char>, Seq<UnitSlot>)>,
    civil: Seq<UnitPositionView>,
) -> bool {
    &&& forall|i: int, j: int| 0 <= i < finals.len() && 0 <= j < finals.len() && i != j ==> #[trigger] finals[i].0 != #[trigger] finals[j].0
    &&& forall|n: Seq<char>| #[trigger] has_entry(m, w, last, os, n) <==> exists|i: int| 0 <= i < finals.len() && finals[i].0 == n
    &&& forall|i: int| 0 <= i < finals.len() ==> entry_is_right(m, w, last, os, civil, #[trigger] finals[i])
    &&& forall|k: int| 0 <= k < civil.len() ==> has_entry(m, w, last, os, (#[trigger] civil[k]).0.0)
}

/// One more unit lost to civil disorder adds to its own nation's losses only.
proof fn lemma_disorder_of_push(civil: Seq<UnitPositionView>, p: UnitPositionView, n: Seq<char>)
    ensures
        disorder_of(civil.push(p), n) == if p.0.0 == n {
            disorder_of(civil, n).push((p.0.1, p.1))
        } else {
            disorder_of(civil, n)
        },
{
    let pred = of_nation(n);
    let f = slot_at();
    crate::lemmas::lemma_filter_step(civil.push(p), civil.len() as int, pred);
    assert(civil.push(p).take(civil.len() as int) =~= civil);
    assert(civil.push(p).take(civil.len() as int + 1) =~= civil.push(p));
    if p.0.0 == n {
        crate::lemmas::lemma_map_push(civil.filter(pred), p, f);
    }
}

/// A nation with no unit among the losses lost none.
proof fn lemma_disorder_of_none(civil: Seq<UnitPositionView>, n: Seq<char>)
    requires
        forall|k: int| 0 <= k < civil.len() ==> (#[trigger] civil[k]).0.0 != n,
    ensures
        disorder_of(civil, n) == Seq::<UnitSlot>::empty(),
    decreases civil.len(),
{
    if civil.len() > 0 {
        let d = civil.drop_last();
        assert forall|k: int| 0 <= k < d.len() implies (#[trigger] d[k]).0.0 != n by {
            assert(d[k] == civil[k]);
        }
        lemma_disorder_of_none(d, n);
        assert(d.push(civil.last()) =~= civil);
        lemma_disorder_of_push(d, civil.last(), n);
    }
}

/// Filtering by a test that every element passes changes nothing.
proof fn lemma_filter_keeps_all<A>(s: Seq<A>, pred: spec_fn(A) -> bool)
    requires
        forall|k: int| 0 <= k < s.len() ==> pred(#[trigger] s[k]),
    ensures
        s.filter(pred) == s,
    decreases s.len(),
{
    reveal(Seq::filter);
    if s.len() > 0 {
        let d = s.drop_last();
        assert forall|k: int| 0 <= k < d.len() implies pred(#[trigger] d[k]) by {
            assert(d[k] == s[k]);
        }
        lemma_filter_keeps_all(d, pred);
        assert(pred(s[s.len() - 1]));
        assert(d.push(s.last()) =~= s);
    }
}

/// Whether each order repeats no earlier order, for each order.
fn first_flags(orders: &Vec<MappedBuildOrder>) -> (r: Vec<bool>)
    ensures
        r@.len() == orders@.len(),
        forall|j: int|
            0 <= j < orders@.len() ==> #[trigger] r@[j] == (first_equal(
                orders@.map_values(|o: MappedBuildOrder| o@),
                j,
            ) is None),
{
    let mut r: Vec<bool> = Vec::new();
    let mut i: usize = 0;
    while i < orders.len()
        invariant
            i <= orders@.len(),
            r@.len() == i,
            forall|j: int|
                0 <= j < i ==> #[trigger] r@[j] == (first_equal(
                    orders@.map_values(|o: MappedBuildOrder| o@),
                    j,
                ) is None),
        decreases orders@.len() - i,
    {
        let f = find_equal_before(orders, i).is_none();
        r.push(f);
        i = i + 1;
    }
    r
}

/// The disbands that nation `n` owes and did not have.
fn owed_disbands<W: WorldState>(
    map: &WorldMap,
    w: &W,
    last: &Ownerships,
    orders: &Vec<MappedBuildOrder>,
    outs: &Vec<OrderOutcome>,
    n: &Nation,
) -> (r: usize)
    requires
        outs@ == build_outcomes(map@, w, last, orders@.map_values(|o: MappedBuildOrder| o@)),
    ensures
        r == disorder_owed(map@, w, last, orders@.map_values(|o: MappedBuildOrder| o@), n@),
{
    let ghost os = orders@.map_values(|o: MappedBuildOrder| o@);
    assert(outs@.len() == orders@.len()) by {
        crate::judge::build::resolve::lemma_run_len(map@, w, last, os, os.len());
    }
    match delta_for(map, w, last, n) {
        Some((BuildCommand::Disband, x)) => {
            let done = count_succeeded(orders, outs, n, orders.len());
            if done < x {
                x - done
            } else {
                0
            }
        },
        _ => 0,
    }
}

/// Whether a nation is in a list of nations.
fn listed(list: &Vec<&Nation>, n: &Nation) -> (r: bool)
    ensures
        r == list@.map_values(|x: &Nation| x@).contains(n@),
{
    let ghost v = list@.map_values(|x: &Nation| x@);
    let mut i: usize = 0;
    while i < list.len()
        invariant
            i <= list@.len(),
            v == list@.map_values(|x: &Nation| x@),
            forall|j: int| 0 <= j < i ==> #[trigger] v[j] != n@,
        decreases list@.len() - i,
    {
        assert(v[i as int] == list@[i as int]@);
        if list[i].same(n) {
            assert(v.contains(n@));
            return true;
        }
        i = i + 1;
    }
    false
}

/// Whether a nation has an entry among the final units.
fn has_units_entry(finals: &Vec<(Nation, Vec<(UnitType, RegionKey)>)>, n: &Nation) -> (r: bool)
    ensures
        r == exists|i: int| 0 <= i < finals@.len() && (#[trigger] finals@[i]).0@ == n@,
{
    let mut i: usize = 0;
    while i < finals.len()
        invariant
            i <= finals@.len(),
            forall|j: int| 0 <= j < i ==> (#[trigger] finals@[j]).0@ != n@,
        decreases finals@.len() - i,
    {
        if finals[i].0.same(n) {
            return true;
        }
        i = i + 1;
    }
    false
}

/// The final units, nation by nation, by name.
pub open spec fn finals_view(finals: Seq<(Nation, Vec<(UnitType, RegionKey)>)>) -> Seq<(Seq<char>, Seq<UnitSlot>)> {
    finals.map_values(|e: (Nation, Vec<(UnitType, RegionKey)>)| (e.0@, slots(e.1@)))
}

/// The units lost to civil disorder, by name.
pub open spec fn positions_view(civil: Seq<UnitPosition>) -> Seq<UnitPositionView> {
    civil.map_values(|p: UnitPosition| p@)
}

/// The units of one nation of the world after its orders and civil disorder; the units lost
/// are pushed onto `civil`.
#[verifier::rlimit(30)]
fn settle_nation<W: WorldState>(
    map: &WorldMap,
    g: &RegionGraph,
    w: &W,
    last: &Ownerships,
    orders: &Vec<MappedBuildOrder>,
    outs: &Vec<OrderOutcome>,
    firsts: &Vec<bool>,
    n: &Nation,
    civil: &mut Vec<UnitPosition>,
) -> (kept: Vec<(UnitType, RegionKey)>)
    requires
        graph_edges(*g) == map_edges(map@),
        graph_node_count(*g) == map@.regions.len(),
        outs@ == build_outcomes(map@, w, last, orders@.map_values(|o: MappedBuildOrder| o@)),
        firsts@.len() == orders@.len(),
        forall|j: int|
            0 <= j < orders@.len() ==> #[trigger] firsts@[j] == (first_equal(
                orders@.map_values(|o: MappedBuildOrder| o@),
                j,
            ) is None),
        world_is_sets(w),
        disorder_is_placed(map@, w, last, orders@.map_values(|o: MappedBuildOrder| o@)),
        w.spec_nations().contains(n@),
        forall|k: int| 0 <= k < old(civil)@.len() ==> (#[trigger] old(civil)@[k]).unit@.0 != n@,
    ensures
        entry_is_right(
            map@,
            w,
            last,
            orders@.map_values(|o: MappedBuildOrder| o@),
            positions_view(final(civil)@),
            (n@, slots(kept@)),
        ),
        forall|m: Seq<char>| m != n@ ==> disorder_of(positions_view(final(civil)@), m) == disorder_of(positions_view(old(civil)@), m),
        forall|k: int|
            0 <= k < final(civil)@.len() ==> (#[trigger] final(civil)@[k]).unit@.0 == n@ || exists|j: int|
                0 <= j < old(civil)@.len() && final(civil)@[k] == old(civil)@[j],
{
    let ghost os = orders@.map_values(|o: MappedBuildOrder| o@);
    proof {
        crate::judge::build::resolve::lemma_run_len(map@, w, last, os, os.len());
    }
    let base = w.units(n);
    assert(slots(base@) == base_units(w, n@)) by {
        assert(slots(base@) =~= w.spec_units(n@));
    }
    let units = apply_orders(base, orders, outs, firsts, n);
    let owed = owed_disbands(map, w, last, orders, outs, n);
    let ghost us = ordered_units(map@, w, last, os, n@);
    assert(slots(units@) == us);
    proof {
        assert(base_units(w, n@).no_duplicates());
        lemma_units_after_distinct(base_units(w, n@), os, outs@, n@, os.len());
    }
    let ghost start = positions_view(civil@);
    proof {
        assert forall|k: int| 0 <= k < start.len() implies (#[trigger] start[k]).0.0 != n@ by {
            assert(start[k] == civil@[k]@);
        }
        lemma_disorder_of_none(start, n@);
    }
    let (kept, gone) = if owed > 0 {
        assert(disorder_owed(map@, w, last, os, n@) > 0);
        assert forall|k: int| 0 <= k < units@.len() implies first_region_with_key(map@, #[trigger] units@[k].1@) is Some by {
            assert(us[k] == (units@[k].0, units@[k].1@));
            assert(ordered_units(map@, w, last, os, n@)[k].1 == units@[k].1@);
            assert(first_region_with_key(map@, ordered_units(map@, w, last, os, n@)[k].1) is Some);
        }
        civil_disorder_of(map, g, w, last, n, &units, owed)
    } else {
        let gone: Vec<(UnitType, RegionKey)> = Vec::new();
        proof {
            assert(slots(gone@) =~= Seq::<UnitSlot>::empty());
            lemma_filter_keeps_all(us, |u: UnitSlot| !slots(gone@).contains(u));
        }
        (units, gone)
    };
    let ghost gs = slots(gone@);
    let mut c: usize = 0;
    while c < gone.len()
        invariant
            c <= gone@.len(),
            gs == slots(gone@),
            start.len() <= civil@.len(),
            disorder_of(positions_view(civil@), n@) == gs.take(c as int),
            forall|m: Seq<char>| m != n@ ==> disorder_of(positions_view(civil@), m) == disorder_of(start, m),
            forall|k: int|
                0 <= k < civil@.len() ==> (#[trigger] civil@[k]).unit@.0 == n@ || exists|j: int|
                    0 <= j < old(civil)@.len() && civil@[k] == old(civil)@[j],
            start == positions_view(old(civil)@),
        decreases gone@.len() - c,
    {
        let ghost before = civil@;
        let p = UnitPosition::new(Unit::new(n.copy(), gone[c].0), gone[c].1.copy());
        civil.push(p);
        proof {
            assert(positions_view(civil@) =~= positions_view(before).push(p@));
            assert(p@.0.0 == n@);
            assert forall|m: Seq<char>| #![trigger disorder_of(positions_view(civil@), m)]
                true implies disorder_of(positions_view(civil@), m) == if m == n@ {
                disorder_of(positions_view(before), m).push((p@.0.1, p@.1))
            } else {
                disorder_of(positions_view(before), m)
            } by {
                lemma_disorder_of_push(positions_view(before), p@, m);
            }
            assert(gs[c as int] == (gone@[c as int].0, gone@[c as int].1@));
            assert(gs.take(c as int).push(gs[c as int]) =~= gs.take(c as int + 1));
            assert forall|k: int|
                0 <= k < civil@.len() implies (#[trigger] civil@[k]).unit@.0 == n@ || exists|j: int|
                    0 <= j < old(civil)@.len() && civil@[k] == old(civil)@[j] by {
                if k < before.len() {
                    assert(civil@[k] == before[k]);
                }
            }
        }
        c = c + 1;
    }
    proof {
        assert(gs.take(gs.len() as int) =~= gs);
    }
    kept
}

/// The table of final units after the orders before `j` are looked at: its nations distinct,
/// each entry right, every nation of the world in it, and every nation of a counted order
/// before `j` in it.
#[verifier::opaque]
spec fn table_ok<W: WorldState>(
    m: MapView,
    w: &W,
    last: &Ownerships,
    os: Seq<BuildOrderView>,
    cv: Seq<UnitPositionView>,
    fv: Seq<(Seq<char>, Seq<UnitSlot>)>,
    j: int,
) -> bool {
    &&& forall|a: int, b: int| 0 <= a < fv.len() && 0 <= b < fv.len() && a != b ==> #[trigger] fv[a].0 != #[trigger] fv[b].0
    &&& forall|x: int| 0 <= x < fv.len() ==> entry_is_right(m, w, last, os, cv, #[trigger] fv[x])
    &&& forall|x: int| 0 <= x < fv.len() ==> has_entry(m, w, last, os, (#[trigger] fv[x]).0)
    &&& forall|n: Seq<char>| #[trigger] w.spec_nations().contains(n) ==> exists|x: int| 0 <= x < fv.len() && fv[x].0 == n
    &&& forall|t: int|
        0 <= t < j && #[trigger] counts(os, build_outcomes(m, w, last, os), t) ==> exists|x: int|
            0 <= x < fv.len() && fv[x].0 == os[t].nation
    &&& forall|k: int| 0 <= k < cv.len() ==> w.spec_nations().contains((#[trigger] cv[k]).0.0)
}

/// Adding an entry for the nation of a counted order that had none keeps the table right.
proof fn lemma_table_push<W: WorldState>(
    m: MapView,
    w: &W,
    last: &Ownerships,
    os: Seq<BuildOrderView>,
    cv: Seq<UnitPositionView>,
    fv: Seq<(Seq<char>, Seq<UnitSlot>)>,
    e: (Seq<char>, Seq<UnitSlot>),
    j: int,
)
    requires
        0 <= j < os.len(),
        table_ok(m, w, last, os, cv, fv, j),
        forall|x: int| 0 <= x < fv.len() ==> #[trigger] fv[x].0 != e.0,
        entry_is_right(m, w, last, os, cv, e),
        has_entry(m, w, last, os, e.0),
        e.0 == os[j].nation,
    ensures
        table_ok(m, w, last, os, cv, fv.push(e), j + 1),
{
    reveal(table_ok);
    let g = fv.push(e);
    assert forall|x: int| 0 <= x < fv.len() implies g[x] == fv[x] by {}
    assert(g[fv.len() as int] == e);
    assert forall|a: int, b: int| 0 <= a < g.len() && 0 <= b < g.len() && a != b implies #[trigger] g[a].0 != #[trigger] g[b].0 by {
        if a < fv.len() && b < fv.len() {
            assert(g[a] == fv[a] && g[b] == fv[b]);
        } else if a < fv.len() {
            assert(g[a] == fv[a]);
        } else if b < fv.len() {
            assert(g[b] == fv[b]);
        }
    }
    assert forall|x: int| 0 <= x < g.len() implies entry_is_right(m, w, last, os, cv, #[trigger] g[x]) by {
        if x < fv.len() {
            assert(g[x] == fv[x]);
        }
    }
    assert forall|x: int| 0 <= x < g.len() implies has_entry(m, w, last, os, (#[trigger] g[x]).0) by {
        if x < fv.len() {
            assert(g[x] == fv[x]);
        }
    }
    assert forall|n: Seq<char>| #[trigger] w.spec_nations().contains(n) implies exists|x: int| 0 <= x < g.len() && g[x].0 == n by {
        let x = choose|x: int| 0 <= x < fv.len() && fv[x].0 == n;
        assert(g[x] == fv[x]);
    }
    assert forall|t: int|
        0 <= t < j + 1 && #[trigger] counts(os, build_outcomes(m, w, last, os), t) implies exists|x: int|
        0 <= x < g.len() && g[x].0 == os[t].nation by {
        if t < j {
            let x = choose|x: int| 0 <= x < fv.len() && fv[x].0 == os[t].nation;
            assert(g[x] == fv[x]);
        } else {
            assert(g[fv.len() as int].0 == os[t].nation);
        }
    }
}

/// Passing an order whose nation already has an entry, or that is not counted, keeps the
/// table right.
proof fn lemma_table_skip<W: WorldState>(
    m: MapView,
    w: &W,
    last: &Ownerships,
    os: Seq<BuildOrderView>,
    cv: Seq<UnitPositionView>,
    fv: Seq<(Seq<char>, Seq<UnitSlot>)>,
    j: int,
)
    requires
        0 <= j < os.len(),
        table_ok(m, w, last, os, cv, fv, j),
        counts(os, build_outcomes(m, w, last, os), j) ==> exists|x: int| 0 <= x < fv.len() && fv[x].0 == os[j].nation,
    ensures
        table_ok(m, w, last, os, cv, fv, j + 1),
{
    reveal(table_ok);
}

/// A table right after all orders is the final units.
proof fn lemma_table_done<W: WorldState>(
    m: MapView,
    w: &W,
    last: &Ownerships,
    os: Seq<BuildOrderView>,
    cv: Seq<UnitPositionView>,
    fv: Seq<(Seq<char>, Seq<UnitSlot>)>,
)
    requires
        table_ok(m, w, last, os, cv, fv, os.len() as int),
    ensures
        units_are_right(m, w, last, os, fv, cv),
        forall|k: int| 0 <= k < cv.len() ==> w.spec_nations().contains((#[trigger] cv[k]).0.0),
{
    reveal(table_ok);
    assert forall|n: Seq<char>| #[trigger] has_entry(m, w, last, os, n) implies exists|x: int|
        0 <= x < fv.len() && fv[x].0 == n by {
        if !w.spec_nations().contains(n) {
            let t = choose|t: int| 0 <= t < os.len() && #[trigger] counts(os, build_outcomes(m, w, last, os), t) && os[t].nation == n;
        }
    }
    assert forall|k: int| 0 <= k < cv.len() implies has_entry(m, w, last, os, (#[trigger] cv[k]).0.0) by {
        assert(w.spec_nations().contains(cv[k].0.0));
    }
}

/// Adds an entry for each nation outside the world with an order that changed the board.
fn add_outside_nations<W: WorldState>(
    map: &WorldMap,
    w: &W,
    last: &Ownerships,
    orders: &Vec<MappedBuildOrder>,
    outs: &Vec<OrderOutcome>,
    firsts: &Vec<bool>,
    finals: &mut Vec<(Nation, Vec<(UnitType, RegionKey)>)>,
    civil: &Vec<UnitPosition>,
)
    requires
        outs@ == build_outcomes(map@, w, last, orders@.map_values(|o: MappedBuildOrder| o@)),
        outs@.len() == orders@.len(),
        firsts@.len() == orders@.len(),
        forall|j: int|
            0 <= j < orders@.len() ==> #[trigger] firsts@[j] == (first_equal(
                orders@.map_values(|o: MappedBuildOrder| o@),
                j,
            ) is None),
        disorder_is_placed(map@, w, last, orders@.map_values(|o: MappedBuildOrder| o@)),
        table_ok(
            map@,
            w,
            last,
            orders@.map_values(|o: MappedBuildOrder| o@),
            positions_view(civil@),
            finals_view(old(finals)@),
            0,
        ),
    ensures
        units_are_right(
            map@,
            w,
            last,
            orders@.map_values(|o: MappedBuildOrder| o@),
            finals_view(final(finals)@),
            positions_view(civil@),
        ),
{
    let ghost os = orders@.map_values(|o: MappedBuildOrder| o@);
    let ghost nv = w.spec_nations();
    let ghost cv = positions_view(civil@);
    let mut j: usize = 0;
    while j < orders.len()
        invariant
            j <= orders@.len(),
            nv == w.spec_nations(),
            os == orders@.map_values(|o: MappedBuildOrder| o@),
            cv == positions_view(civil@),
            outs@ == build_outcomes(map@, w, last, os),
            outs@.len() == orders@.len(),
            firsts@.len() == orders@.len(),
            forall|j: int| 0 <= j < orders@.len() ==> #[trigger] firsts@[j] == (first_equal(os, j) is None),
            disorder_is_placed(map@, w, last, os),
            table_ok(map@, w, last, os, cv, finals_view(finals@), j as int),
        decreases orders@.len() - j,
    {
        let o = &orders[j];
        assert(os[j as int] == o@);
        let ghost fbefore = finals_view(finals@);
        let present = has_units_entry(finals, &o.nation);
        proof {
            assert(present == exists|x: int| 0 <= x < fbefore.len() && fbefore[x].0 == o.nation@) by {
                if present {
                    let x = choose|x: int| 0 <= x < finals@.len() && (#[trigger] finals@[x]).0@ == o.nation@;
                    assert(fbefore[x].0 == finals@[x].0@);
                }
                if exists|x: int| 0 <= x < fbefore.len() && fbefore[x].0 == o.nation@ {
                    let x = choose|x: int| 0 <= x < fbefore.len() && fbefore[x].0 == o.nation@;
                    assert(fbefore[x].0 == finals@[x].0@);
                }
            }
        }
        if outs[j] == OrderOutcome::Succeeds && firsts[j] && !present {
            assert(counts(os, outs@, j as int));
            let ghost n = o.nation@;
            assert(!nv.contains(n)) by {
                reveal(table_ok);
            }
            let units = apply_orders(Vec::new(), orders, outs, firsts, &o.nation);
            proof {
                reveal(table_ok);
                assert(slots(Seq::<(UnitType, RegionKey)>::empty()) =~= base_units(w, n));
                assert(disorder_owed(map@, w, last, os, n) == 0);
                assert forall|k: int| 0 <= k < cv.len() implies (#[trigger] cv[k]).0.0 != n by {
                    assert(nv.contains(cv[k].0.0));
                }
                lemma_disorder_of_none(cv, n);
                lemma_filter_keeps_all(slots(units@), |u: UnitSlot| !disorder_of(cv, n).contains(u));
                assert(os[j as int].nation == n);
                assert(counts(os, build_outcomes(map@, w, last, os), j as int));
                assert(has_entry(map@, w, last, os, n));
                assert forall|x: int| 0 <= x < fbefore.len() implies #[trigger] fbefore[x].0 != n by {}
                lemma_table_push(map@, w, last, os, cv, fbefore, (n, slots(units@)), j as int);
            }
            finals.push((o.nation.copy(), units));
            proof {
                assert(finals_view(finals@) =~= fbefore.push((n, slots(units@))));
            }
        } else {
            proof {
                if counts(os, build_outcomes(map@, w, last, os), j as int) {
                    assert(outs@[j as int] == OrderOutcome::Succeeds);
                    assert(firsts@[j as int]);
                }
                lemma_table_skip(map@, w, last, os, cv, fbefore, j as int);
            }
        }
        j = j + 1;
    }
    proof {
        lemma_table_done(map@, w, last, os, cv, finals_view(finals@));
    }
}

/// The units each nation keeps, and the units lost to civil disorder.
#[verifier::rlimit(40)]
fn settle_units<W: WorldState>(
    map: &WorldMap,
    w: &W,
    last: &Ownerships,
    orders: &Vec<MappedBuildOrder>,
    outs: &Vec<OrderOutcome>,
) -> (r: (Vec<(Nation, Vec<(UnitType, RegionKey)>)>, Vec<UnitPosition>))
    requires
        map@.regions.len() < usize::MAX,
        map@.borders.len() < usize::MAX,
        outs@ == build_outcomes(map@, w, last, orders@.map_values(|o: MappedBuildOrder| o@)),
        world_is_sets(w),
        disorder_is_placed(map@, w, last, orders@.map_values(|o: MappedBuildOrder| o@)),
    ensures
        units_are_right(
            map@,
            w,
            last,
            orders@.map_values(|o: MappedBuildOrder| o@),
            finals_view(r.0@),
            positions_view(r.1@),
        ),
{
    let ghost os = orders@.map_values(|o: MappedBuildOrder| o@);
    proof {
        crate::judge::build::resolve::lemma_run_len(map@, w, last, os, os.len());
    }
    let firsts = first_flags(orders);
    let g = map_graph(map);
    let nations = w.nations();
    let ghost nv = w.spec_nations();
    assert(nations@.map_values(|x: &Nation| x@) == nv);
    let mut finals: Vec<(Nation, Vec<(UnitType, RegionKey)>)> = Vec::new();
    let mut civil: Vec<UnitPosition> = Vec::new();
    let mut i: usize = 0;
    while i < nations.len()
        invariant
            i <= nations@.len(),
            nations@.map_values(|x: &Nation| x@) == nv,
            nv == w.spec_nations(),
            graph_edges(g) == map_edges(map@),
            graph_node_count(g) == map@.regions.len(),
            os == orders@.map_values(|o: MappedBuildOrder| o@),
            outs@ == build_outcomes(map@, w, last, os),
            firsts@.len() == orders@.len(),
            forall|j: int| 0 <= j < orders@.len() ==> #[trigger] firsts@[j] == (first_equal(os, j) is None),
            world_is_sets(w),
            disorder_is_placed(map@, w, last, os),
            finals@.len() == i,
            forall|j: int| 0 <= j < i ==> (#[trigger] finals_view(finals@)[j]).0 == nv[j],
            forall|j: int|
                0 <= j < i ==> entry_is_right(map@, w, last, os, positions_view(civil@), #[trigger] finals_view(finals@)[j]),
            forall|k: int| 0 <= k < civil@.len() ==> nv.take(i as int).contains((#[trigger] civil@[k]).unit@.0),
        decreases nations@.len() - i,
    {
        let n = nations[i];
        assert(nv[i as int] == n@);
        assert(nv.contains(n@));
        let ghost before = civil@;
        let ghost fbefore = finals_view(finals@);
        proof {
            assert forall|k: int| 0 <= k < before.len() implies (#[trigger] before[k]).unit@.0 != n@ by {
                if before[k].unit@.0 == n@ {
                    assert(nv.take(i as int).contains(before[k].unit@.0));
                    let j = choose|j: int| 0 <= j < i && nv.take(i as int)[j] == before[k].unit@.0;
                    assert(nv.take(i as int)[j] == nv[j]);
                    assert(nv[j] == nv[i as int]);
                }
            }
        }
        let kept = settle_nation(map, &g, w, last, orders, outs, &firsts, n, &mut civil);
        finals.push((n.copy(), kept));
        proof {
            let fv = finals_view(finals@);
            assert(fv =~= fbefore.push((n@, slots(kept@))));
            assert forall|j: int| 0 <= j < i + 1 implies (#[trigger] finals_view(finals@)[j]).0 == nv[j] by {
                if j < i {
                    assert(fv[j] == fbefore[j]);
                }
            }
            assert forall|j: int| 0 <= j < i + 1 implies entry_is_right(
                map@,
                w,
                last,
                os,
                positions_view(civil@),
                #[trigger] finals_view(finals@)[j],
            ) by {
                if j < i {
                    assert(fv[j] == fbefore[j]);
                    assert(fbefore[j].0 == nv[j]);
                    assert(nv[j] != n@);
                    assert(disorder_of(positions_view(civil@), fv[j].0) == disorder_of(positions_view(before), fv[j].0));
                }
            }
            assert forall|k: int| 0 <= k < civil@.len() implies nv.take(i as int + 1).contains((#[trigger] civil@[k]).unit@.0) by {
                if civil@[k].unit@.0 == n@ {
                    assert(nv.take(i as int + 1)[i as int] == n@);
                } else {
                    let j = choose|j: int| 0 <= j < before.len() && civil@[k] == before[j];
                    assert(nv.take(i as int).contains(before[j].unit@.0));
                    let t = choose|t: int| 0 <= t < i && nv.take(i as int)[t] == before[j].unit@.0;
                    assert(nv.take(i as int + 1)[t] == before[j].unit@.0);
                }
            }
        }
        i = i + 1;
    }
    proof {
        assert(nv.take(nv.len() as int) =~= nv);
        assert forall|a: int, b: int|
            0 <= a < finals@.len() && 0 <= b < finals@.len() && a != b implies #[trigger] finals_view(finals@)[a].0
            != #[trigger] finals_view(finals@)[b].0 by {
            assert(finals_view(finals@)[a].0 == nv[a]);
            assert(finals_view(finals@)[b].0 == nv[b]);
        }
        assert forall|n: Seq<char>| #[trigger] nv.contains(n) implies exists|x: int|
            0 <= x < finals@.len() && finals_view(finals@)[x].0 == n by {
            let x = choose|x: int| 0 <= x < nv.len() && nv[x] == n;
            assert(finals_view(finals@)[x].0 == nv[x]);
        }
        assert forall|k: int| 0 <= k < civil@.len() implies nv.contains((#[trigger] civil@[k]).unit@.0) by {
            assert(nv.take(nv.len() as int).contains(civil@[k].unit@.0));
        }
        assert forall|x: int| 0 <= x < finals@.len() implies has_entry(map@, w, last, os, (#[trigger] finals_view(finals@)[x]).0) by {
            assert(finals_view(finals@)[x].0 == nv[x]);
            assert(nv.contains(nv[x]));
        }
        let cv = positions_view(civil@);
        assert forall|k: int| 0 <= k < cv.len() implies nv.contains((#[trigger] cv[k]).0.0) by {
            assert(cv[k] == civil@[k]@);
        }
        reveal(table_ok);
        assert(table_ok(map@, w, last, os, cv, finals_view(finals@), 0));
    }
    add_outside_nations(map, w, last, orders, outs, &firsts, &mut finals, &civil);
    (finals, civil)
}

/// The positions of the orders that repeat no earlier order.
pub open spec fn distinct_positions(os: Seq<BuildOrderView>) -> Seq<int> {
    Seq::new(os.len(), |i: int| i).filter(|i: int| first_equal(os, i) is None)
}

/// The unit positions of a table of final units, nation by nation.
pub open spec fn unit_positions_of(finals: Seq<(Seq<char>, Seq<UnitSlot>)>) -> Seq<UnitPositionView>
    decreases finals.len(),
{
    if finals.len() == 0 {
        Seq::empty()
    } else {
        let e = finals.last();
        unit_positions_of(finals.drop_last()) + e.1.map_values(|u: UnitSlot| ((e.0, u.0), u.1))
    }
}

/// The outcome of a build-phase adjudication.
pub struct Outcome {
    orders: Vec<MappedBuildOrder>,
    outcomes: Vec<OrderOutcome>,
    final_units: Vec<(Nation, Vec<(UnitType, RegionKey)>)>,
    civil_disorder: Vec<UnitPosition>,
}

impl Outcome {
    /// The orders adjudicated.
    pub closed spec fn spec_orders(&self) -> Seq<BuildOrderView> {
        self.orders@.map_values(|o: MappedBuildOrder| o@)
    }

    /// The outcome of each order, in order.
    pub closed spec fn spec_outcomes(&self) -> Seq<OrderOutcome> {
        self.outcomes@
    }

    /// The units each nation keeps, nation by nation.
    pub closed spec fn spec_final_units(&self) -> Seq<(Seq<char>, Seq<UnitSlot>)> {
        finals_view(self.final_units@)
    }

    /// The units lost to civil disorder.
    pub closed spec fn spec_civil_disorder(&self) -> Seq<UnitPositionView> {
        positions_view(self.civil_disorder@)
    }

    /// Whether there is one outcome per order.
    pub closed spec fn wf(&self) -> bool {
        self.outcomes@.len() == self.orders@.len()
    }

    /// Returns the outcome of an order, if it was adjudicated.
    pub fn get(&self, order: &MappedBuildOrder) -> (r: Option<OrderOutcome>)
        requires
            self.wf(),
        ensures
            match r {
                Some(x) => exists|j: int|
                    0 <= j < self.spec_orders().len() && self.spec_orders()[j] == order@ && #[trigger] self.spec_outcomes()[j] == x,
                None => forall|j: int| 0 <= j < self.spec_orders().len() ==> #[trigger] self.spec_orders()[j] != order@,
            },
    {
        let mut i: usize = 0;
        while i < self.orders.len()
            invariant
                i <= self.orders@.len(),
                self.wf(),
                forall|j: int| 0 <= j < i ==> #[trigger] self.spec_orders()[j] != order@,
            decreases self.orders@.len() - i,
        {
            assert(self.spec_orders()[i as int] == self.orders@[i as int]@);
            if self.orders[i].same(order) {
                assert(self.spec_outcomes()[i as int] == self.outcomes@[i as int]);
                return Some(self.outcomes[i]);
            }
            i = i + 1;
        }
        None
    }

    /// The outcome of each distinct order, in the order first given.
    pub fn order_outcomes(&self) -> (r: Vec<(&MappedBuildOrder, OrderOutcome)>)
        requires
            self.wf(),
        ensures
            r@.map_values(|p: (&MappedBuildOrder, OrderOutcome)| (p.0@, p.1)) == distinct_positions(
                self.spec_orders(),
            ).map_values(|i: int| (self.spec_orders()[i], self.spec_outcomes()[i])),
    {
        let ghost os = self.spec_orders();
        let ghost all = Seq::new(os.len(), |i: int| i);
        let ghost pred = |i: int| first_equal(os, i) is None;
        let ghost f = |i: int| (os[i], self.spec_outcomes()[i]);
        let mut r: Vec<(&MappedBuildOrder, OrderOutcome)> = Vec::new();
        let mut i: usize = 0;
        while i < self.orders.len()
            invariant
                i <= self.orders@.len(),
                self.wf(),
                os == self.spec_orders(),
                os == self.orders@.map_values(|o: MappedBuildOrder| o@),
                all == Seq::new(os.len(), |i: int| i),
                forall|x: int| #[trigger] pred(x) == (first_equal(os, x) is None),
                forall|x: int| #[trigger] f(x) == (os[x], self.spec_outcomes()[x]),
                r@.map_values(|p: (&MappedBuildOrder, OrderOutcome)| (p.0@, p.1)) == all.take(i as int).filter(pred).map_values(f),
            decreases self.orders@.len() - i,
        {
            proof {
                crate::lemmas::lemma_filter_step(all, i as int, pred);
            }
            assert(all[i as int] == i as int);
            assert(os[i as int] == self.orders@[i as int]@);
            let first = find_equal_before(&self.orders, i).is_none();
            if first {
                let ghost prev = r@;
                r.push((&self.orders[i], self.outcomes[i]));
                proof {
                    crate::lemmas::lemma_map_push(all.take(i as int).filter(pred), i as int, f);
                    crate::lemmas::lemma_map_push(prev, (&self.orders[i as int], self.outcomes@[i as int]), |p: (&MappedBuildOrder, OrderOutcome)| (p.0@, p.1));
                    assert(f(i as int) == (os[i as int], self.spec_outcomes()[i as int]));
                }
            }
            i = i + 1;
        }
        proof {
            assert(all.take(all.len() as int) =~= all);
            assert(pred =~= (|i: int| first_equal(os, i) is None));
            assert(f =~= (|i: int| (os[i], self.spec_outcomes()[i])));
        }
        r
    }

    /// The units each nation keeps, nation by nation.
    pub fn final_units_by_nation(&self) -> (r: &Vec<(Nation, Vec<(UnitType, RegionKey)>)>)
        ensures
            finals_view(r@) == self.spec_final_units(),
    {
        &self.final_units
    }

    /// The units that exist after resolution.
    pub fn to_final_unit_positions(&self) -> (r: Vec<UnitPosition>)
        ensures
            positions_view(r@) == unit_positions_of(self.spec_final_units()),
    {
        let ghost fv = self.spec_final_units();
        let mut r: Vec<UnitPosition> = Vec::new();
        let mut i: usize = 0;
        while i < self.final_units.len()
            invariant
                i <= self.final_units@.len(),
                fv == finals_view(self.final_units@),
                positions_view(r@) == unit_positions_of(fv.take(i as int)),
            decreases self.final_units@.len() - i,
        {
            let entry = &self.final_units[i];
            let ghost e = fv[i as int];
            assert(e == (entry.0@, slots(entry.1@)));
            let ghost g = |u: UnitSlot| ((e.0, u.0), u.1);
            let ghost start = positions_view(r@);
            let mut k: usize = 0;
            while k < entry.1.len()
                invariant
                    k <= entry.1@.len(),
                    e == (entry.0@, slots(entry.1@)),
                    forall|u: UnitSlot| #[trigger] g(u) == ((e.0, u.0), u.1),
                    positions_view(r@) == start + slots(entry.1@).take(k as int).map_values(g),
                decreases entry.1@.len() - k,
            {
                let u = &entry.1[k];
                let ghost prev = positions_view(r@);
                r.push(UnitPosition::new(Unit::new(entry.0.copy(), u.0), u.1.copy()));
                proof {
                    assert(slots(entry.1@)[k as int] == (u.0, u.1@));
                    assert(slots(entry.1@).take(k as int + 1) =~= slots(entry.1@).take(k as int).push((u.0, u.1@)));
                    crate::lemmas::lemma_map_push(slots(entry.1@).take(k as int), (u.0, u.1@), g);
                    assert(positions_view(r@) =~= prev.push(g((u.0, u.1@))));
                }
                k = k + 1;
            }
            proof {
                assert(slots(entry.1@).take(entry.1@.len() as int) =~= slots(entry.1@));
                assert(fv.take(i as int + 1).drop_last() =~= fv.take(i as int));
                assert(fv.take(i as int + 1).last() == e);
                assert(g =~= (|u: UnitSlot| ((e.0, u.0), u.1)));
            }
            i = i + 1;
        }
        proof {
            assert(fv.take(fv.len() as int) =~= fv);
        }
        r
    }

    /// Returns the units that were disbanded due to civil disorder.
    pub fn to_civil_disorder(&self) -> (r: Vec<UnitPosition>)
        ensures
            positions_view(r@) == self.spec_civil_disorder(),
    {
        let mut r: Vec<UnitPosition> = Vec::new();
        let mut i: usize = 0;
        while i < self.civil_disorder.len()
            invariant
                i <= self.civil_disorder@.len(),
                positions_view(r@) == positions_view(self.civil_disorder@).take(i as int),
            decreases self.civil_disorder@.len() - i,
        {
            let ghost prev = positions_view(r@);
            r.push(self.civil_disorder[i].copy());
            proof {
                assert(positions_view(r@) =~= prev.push(self.civil_disorder@[i as int]@));
                assert(positions_view(r@) =~= positions_view(self.civil_disorder@).take(i as int + 1));
            }
            i = i + 1;
        }
        proof {
            assert(positions_view(self.civil_disorder@).take(i as int) =~= positions_view(self.civil_disorder@));
        }
        r
    }
}

/// A build phase to adjudicate: the map, who controlled each supply center at the end of the
/// last build phase, the world as it stands, and the orders.
pub struct Submission<'a, W: WorldState> {
    world_map: &'a WorldMap,
    last_time: &'a Ownerships,
    this_time: &'a W,
    orders: Vec<MappedBuildOrder>,
}

impl<'a, W: WorldState> Submission<'a, W> {
    /// The map.
    pub closed spec fn spec_map(&self) -> MapView {
        self.world_map@
    }

    /// The controllers at the end of the last build phase.
    pub closed spec fn spec_last(&self) -> &'a Ownerships {
        self.last_time
    }

    /// The world as it stands.
    pub closed spec fn spec_world(&self) -> &'a W {
        self.this_time
    }

    /// The orders.
    pub closed spec fn spec_orders(&self) -> Seq<BuildOrderView> {
        self.orders@.map_values(|o: MappedBuildOrder| o@)
    }

    /// Returns a new submission for build-phase resolution.
    ///
    /// # First Winter
    /// The first build phase of the game should pass the initial supply center ownerships to
    /// `last_time` to ensure the resolver knows never-since-occupied home SCs belong to their
    /// home power. At least one supply center must have been owned by at least one nation.
    pub fn new(
        world: &'a WorldMap,
        last_time: &'a Ownerships,
        this_time: &'a W,
        orders: Vec<MappedBuildOrder>,
    ) -> (r: Self)
        requires
            last_time.spec_entries().len() > 0,
        ensures
            r.spec_map() == world@,
            r.spec_last() == last_time,
            r.spec_world() == this_time,
            r.spec_orders() == orders@.map_values(|o: MappedBuildOrder| o@),
    {
        Submission { world_map: world, last_time, this_time, orders }
    }

    /// The orders submitted.
    pub fn orders(&self) -> (r: &Vec<MappedBuildOrder>)
        ensures
            r@.map_values(|o: MappedBuildOrder| o@) == self.spec_orders(),
    {
        &self.orders
    }

    /// Adjudicates the build phase: the outcome of each order, in turn, and then the units
    /// each nation keeps, less those civil disorder takes from a nation that disbanded fewer
    /// units than it owed. Every edition of the rules adjudicates builds alike, so none is
    /// asked for.
    pub fn adjudicate(&self) -> (r: Outcome)
        requires
            self.spec_map().regions.len() < usize::MAX,
            self.spec_map().borders.len() < usize::MAX,
            builders_have_homes(self.spec_map(), self.spec_world(), self.spec_last(), self.spec_orders()),
            world_is_sets(self.spec_world()),
            disorder_is_placed(self.spec_map(), self.spec_world(), self.spec_last(), self.spec_orders()),
        ensures
            r.wf(),
            r.spec_orders() == self.spec_orders(),
            r.spec_outcomes() == build_outcomes(self.spec_map(), self.spec_world(), self.spec_last(), self.spec_orders()),
            units_are_right(
                self.spec_map(),
                self.spec_world(),
                self.spec_last(),
                self.spec_orders(),
                r.spec_final_units(),
                r.spec_civil_disorder(),
            ),
    {
        let outs = run_orders(self.world_map, self.this_time, self.last_time, &self.orders);
        let (final_units, civil_disorder) = settle_units(self.world_map, self.this_time, self.last_time, &self.orders, &outs);
        let mut orders: Vec<MappedBuildOrder> = Vec::new();
        let mut i: usize = 0;
        while i < self.orders.len()
            invariant
                i <= self.orders@.len(),
                orders@.map_values(|o: MappedBuildOrder| o@) == self.orders@.map_values(|o: MappedBuildOrder| o@).take(i as int),
            decreases self.orders@.len() - i,
        {
            let ghost prev = orders@.map_values(|o: MappedBuildOrder| o@);
            orders.push(self.orders[i].copy());
            proof {
                assert(orders@.map_values(|o: MappedBuildOrder| o@) =~= prev.push(self.orders@[i as int]@));
                assert(self.orders@.map_values(|o: MappedBuildOrder| o@).take(i as int + 1) =~= self.orders@.map_values(|o: MappedBuildOrder| o@).take(i as int).push(self.orders@[i as int]@));
            }
            i = i + 1;
        }
        proof {
            assert(self.orders@.map_values(|o: MappedBuildOrder| o@).take(i as int) =~= self.orders@.map_values(|o: MappedBuildOrder| o@));
            crate::judge::build::resolve::lemma_run_len(self.spec_map(), self.spec_world(), self.spec_last(), self.spec_orders(), self.spec_orders().len());
        }
        Outcome { orders, outcomes: outs, final_units, civil_disorder }
    }
}

} // verus!
