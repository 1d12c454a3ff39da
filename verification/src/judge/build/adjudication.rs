//! The units each nation keeps after a build phase: what its orders built and disbanded, and
//! what civil disorder took from a nation that disbanded too few.
use super::disorder::{distance_to_nearest, nearest_distance, outranks, rank_views, select_disbands, Rank};
use super::graph::{graph_edges, graph_node_count, map_edges, region_index, walk_within, RegionGraph};
use super::resolve::{first_equal, succeeded_count};
use super::rules::{current_owner, spec_current_owner, spec_delta, BuildOrderView, OrderOutcome};
use super::world::{Ownerships, WorldState};
use crate::geo::map::first_region_with_key;
use crate::geo::{MapView, ProvinceKey, RegionKey, RegionName, WorldMap};
use crate::judge::MappedBuildOrder;
use crate::nation::Nation;
use crate::order::{BuildCommand, Model};
use crate::unit::UnitType;
use vstd::prelude::*;

verus! {

/// A unit of a nation, by type and region.
pub type UnitSlot = (UnitType, RegionName);

/// Whether the order at `j` changes the board: it succeeded and repeats no earlier order.
pub open spec fn counts(os: Seq<BuildOrderView>, outs: Seq<OrderOutcome>, j: int) -> bool {
    outs[j] == OrderOutcome::Succeeds && first_equal(os, j) is None
}

/// The units after one successful order: a build adds its unit, a disband removes it.
pub open spec fn apply_order(units: Seq<UnitSlot>, o: BuildOrderView) -> Seq<UnitSlot> {
    let u = (o.unit_type, o.region);
    match o.command {
        BuildCommand::Build => if units.contains(u) {
            units
        } else {
            units.push(u)
        },
        BuildCommand::Disband => units.filter(|x: UnitSlot| x != u),
    }
}

/// The units of nation `n` after the first `i` orders, starting from `base`.
pub open spec fn units_after(
    base: Seq<UnitSlot>,
    os: Seq<BuildOrderView>,
    outs: Seq<OrderOutcome>,
    n: Seq<char>,
    i: nat,
) -> Seq<UnitSlot>
    decreases i,
{
    if i == 0 {
        base
    } else {
        let prev = units_after(base, os, outs, n, (i - 1) as nat);
        if counts(os, outs, i - 1) && os[i - 1].nation == n {
            apply_order(prev, os[i - 1])
        } else {
            prev
        }
    }
}

/// The units a nation starts the phase with: those of the world, for a nation of the world.
pub open spec fn base_units<W: WorldState>(w: &W, n: Seq<char>) -> Seq<UnitSlot> {
    if w.spec_nations().contains(n) {
        w.spec_units(n)
    } else {
        Seq::empty()
    }
}

/// Whether a unit is the same as a slot.
fn same_slot(a: &(UnitType, RegionKey), t: UnitType, r: &RegionKey) -> (b: bool)
    ensures
        b == ((a.0, a.1@) == (t, r@)),
{
    a.0 == t && a.1.same(r)
}

/// The units after one successful order.
fn apply_one(units: Vec<(UnitType, RegionKey)>, o: &MappedBuildOrder) -> (r: Vec<(UnitType, RegionKey)>)
    ensures
        slots(r@) == apply_order(slots(units@), o@),
{
    let ghost before = slots(units@);
    let ghost u = (o.unit_type, o.region@);
    match o.command {
        BuildCommand::Build => {
            let mut k: usize = 0;
            while k < units.len()
                invariant
                    k <= units@.len(),
                    before == slots(units@),
                    u == (o.unit_type, o.region@),
                    o.command == BuildCommand::Build,
                    forall|j: int| 0 <= j < k ==> #[trigger] before[j] != u,
                decreases units@.len() - k,
            {
                assert(before[k as int] == (units@[k as int].0, units@[k as int].1@));
                if same_slot(&units[k], o.unit_type, &o.region) {
                    assert(before.contains(u));
                    return units;
                }
                k = k + 1;
            }
            assert(!before.contains(u));
            let mut out = units;
            out.push((o.unit_type, o.region.copy()));
            proof {
                assert(slots(out@) =~= before.push(u));
            }
            out
        },
        BuildCommand::Disband => {
            let ghost pred = |x: UnitSlot| x != u;
            let mut out: Vec<(UnitType, RegionKey)> = Vec::new();
            let mut k: usize = 0;
            while k < units.len()
                invariant
                    k <= units@.len(),
                    before == slots(units@),
                    u == (o.unit_type, o.region@),
                    forall|x: UnitSlot| #[trigger] pred(x) == (x != u),
                    slots(out@) == before.take(k as int).filter(pred),
                decreases units@.len() - k,
            {
                proof {
                    crate::lemmas::lemma_filter_step(before, k as int, pred);
                }
                assert(before[k as int] == (units@[k as int].0, units@[k as int].1@));
                if !same_slot(&units[k], o.unit_type, &o.region) {
                    let ghost prev = out@;
                    out.push((units[k].0, units[k].1.copy()));
                    proof {
                        assert(slots(out@) =~= slots(prev).push(before[k as int]));
                    }
                }
                k = k + 1;
            }
            proof {
                assert(before.take(before.len() as int) =~= before);
                assert(pred =~= (|x: UnitSlot| x != u));
            }
            out
        },
    }
}

/// The units by type and region name.
pub open spec fn slots(units: Seq<(UnitType, RegionKey)>) -> Seq<UnitSlot> {
    units.map_values(|u: (UnitType, RegionKey)| (u.0, u.1@))
}

/// The units of nation `n` after all its successful orders, starting from `base`.
pub(crate) fn apply_orders(
    base: Vec<(UnitType, RegionKey)>,
    orders: &Vec<MappedBuildOrder>,
    outs: &Vec<OrderOutcome>,
    firsts: &Vec<bool>,
    n: &Nation,
) -> (r: Vec<(UnitType, RegionKey)>)
    requires
        outs@.len() == orders@.len(),
        firsts@.len() == orders@.len(),
        forall|j: int|
            0 <= j < orders@.len() ==> #[trigger] firsts@[j] == (first_equal(
                orders@.map_values(|o: MappedBuildOrder| o@),
                j,
            ) is None),
    ensures
        slots(r@) == units_after(
            slots(base@),
            orders@.map_values(|o: MappedBuildOrder| o@),
            outs@,
            n@,
            orders@.len() as nat,
        ),
{
    let ghost os = orders@.map_values(|o: MappedBuildOrder| o@);
    let mut units = base;
    let mut i: usize = 0;
    while i < orders.len()
        invariant
            i <= orders@.len(),
            outs@.len() == orders@.len(),
            firsts@.len() == orders@.len(),
            os == orders@.map_values(|o: MappedBuildOrder| o@),
            forall|j: int| 0 <= j < orders@.len() ==> #[trigger] firsts@[j] == (first_equal(os, j) is None),
            slots(units@) == units_after(slots(base@), os, outs@, n@, i as nat),
        decreases orders@.len() - i,
    {
        let o = &orders[i];
        assert(os[i as int] == o@);
        assert(firsts@[i as int] == (first_equal(os, i as int) is None));
        if outs[i] == OrderOutcome::Succeeds && firsts[i] && o.nation.same(n) {
            units = apply_one(units, o);
        }
        i = i + 1;
    }
    units
}

/// Whether province `p` is a supply center that nation `n` controls at the end of the phase.
pub open spec fn owns_sc<W: WorldState>(m: MapView, w: &W, last: &Ownerships, n: Seq<char>, p: Seq<char>) -> bool {
    &&& exists|k: int| 0 <= k < m.provinces.len() && #[trigger] m.provinces[k].0 == p && !(m.provinces[k].1 is Absent)
    &&& spec_current_owner(w, last, p) == Some(n)
}

/// Whether the region at position `i` lies in a supply center that `n` controls.
pub open spec fn owned_region<W: WorldState>(m: MapView, w: &W, last: &Ownerships, n: Seq<char>, i: usize) -> bool {
    owns_sc(m, w, last, n, m.regions[i as int].0)
}

/// The positions of the regions of supply centers that `n` controls, in map order; the
/// distance of civil disorder is counted to these, every coast included.
pub open spec fn owned_sc_regions<W: WorldState>(m: MapView, w: &W, last: &Ownerships, n: Seq<char>) -> Seq<usize> {
    Seq::new(m.regions.len(), |i: int| i as usize).filter(|i: usize| owned_region(m, w, last, n, i))
}

/// Whether province `p` is a supply center that nation `n` controls.
fn owns_sc_exec<W: WorldState>(map: &WorldMap, w: &W, last: &Ownerships, n: &Nation, p: &ProvinceKey) -> (r: bool)
    ensures
        r == owns_sc(map@, w, last, n@, p@),
{
    let provinces = map.provinces();
    let ghost ps = map@.provinces;
    let mut k: usize = 0;
    let mut sc = false;
    while k < provinces.len()
        invariant
            k <= provinces@.len(),
            provinces@.map_values(|q: crate::geo::Province| q@) == ps,
            ps == map@.provinces,
            sc == exists|j: int| 0 <= j < k && #[trigger] ps[j].0 == p@ && !(ps[j].1 is Absent),
        decreases provinces@.len() - k,
    {
        let prov = &provinces[k];
        assert(ps[k as int] == prov@);
        if prov.is_supply_center() && prov.key().same(p) {
            sc = true;
        }
        k = k + 1;
    }
    if !sc {
        return false;
    }
    match current_owner(w, last, p) {
        Some(o) => o.same(n),
        None => false,
    }
}

/// The positions of the regions of supply centers that `n` controls, in map order.
fn owned_sc_regions_exec<W: WorldState>(map: &WorldMap, w: &W, last: &Ownerships, n: &Nation) -> (r: Vec<usize>)
    ensures
        r@ == owned_sc_regions(map@, w, last, n@),
        forall|k: int| 0 <= k < r@.len() ==> #[trigger] r@[k] < map@.regions.len(),
{
    let regions = map.regions();
    let ghost all = Seq::new(map@.regions.len(), |i: int| i as usize);
    let ghost pred = |i: usize| owned_region(map@, w, last, n@, i);
    let mut out: Vec<usize> = Vec::new();
    let mut i: usize = 0;
    while i < regions.len()
        invariant
            i <= regions@.len(),
            regions@.map_values(|r: crate::geo::Region| r@) == map@.regions,
            all == Seq::new(map@.regions.len(), |i: int| i as usize),
            forall|x: usize| #[trigger] pred(x) == owned_region(map@, w, last, n@, x),
            out@ == all.take(i as int).filter(pred),
            forall|k: int| 0 <= k < out@.len() ==> #[trigger] out@[k] < i,
        decreases regions@.len() - i,
    {
        proof {
            crate::lemmas::lemma_filter_step(all, i as int, pred);
        }
        assert(all[i as int] == i);
        assert(map@.regions[i as int] == regions@[i as int]@);
        if owns_sc_exec(map, w, last, n, regions[i].province()) {
            out.push(i);
        }
        i = i + 1;
    }
    proof {
        assert(all.take(all.len() as int) =~= all);
        assert(pred =~= (|i: usize| owned_region(map@, w, last, n@, i)));
    }
    out
}

/// The distance, in borders crossed, from region `r` to the nearest region of a supply center
/// that `n` controls; `usize::MAX` when none can be reached.
pub open spec fn unit_distance<W: WorldState>(m: MapView, w: &W, last: &Ownerships, n: Seq<char>, r: RegionName) -> usize {
    choose|d: usize|
        nearest_distance(map_edges(m), first_region_with_key(m, r)->0, owned_sc_regions(m, w, last, n), d)
}

/// The rank of a unit of `n` for civil disorder.
pub open spec fn unit_rank<W: WorldState>(m: MapView, w: &W, last: &Ownerships, n: Seq<char>, u: UnitSlot) -> Rank {
    (unit_distance(m, w, last, n, u.1), u.0, u.1)
}

/// A nearest distance is unique.
proof fn lemma_nearest_unique(edges: Seq<(usize, usize)>, from: int, targets: Seq<usize>, d1: usize, d2: usize)
    requires
        nearest_distance(edges, from, targets, d1),
        nearest_distance(edges, from, targets, d2),
    ensures
        d1 == d2,
{
    if exists|t: int| 0 <= t < targets.len() && #[trigger] walk_within(edges, from, targets[t] as int, d1 as nat) {
        let t1 = choose|t: int| 0 <= t < targets.len() && #[trigger] walk_within(edges, from, targets[t] as int, d1 as nat);
        if exists|t: int| 0 <= t < targets.len() && #[trigger] walk_within(edges, from, targets[t] as int, d2 as nat) {
            let t2 = choose|t: int| 0 <= t < targets.len() && #[trigger] walk_within(edges, from, targets[t] as int, d2 as nat);
            if d1 < d2 {
                assert(!walk_within(edges, from, targets[t1] as int, d1 as nat));
            } else if d2 < d1 {
                assert(!walk_within(edges, from, targets[t2] as int, d2 as nat));
            }
        } else {
            assert(!walk_within(edges, from, targets[t1] as int, d1 as nat));
        }
    } else {
        if exists|t: int| 0 <= t < targets.len() && #[trigger] walk_within(edges, from, targets[t] as int, d2 as nat) {
            let t2 = choose|t: int| 0 <= t < targets.len() && #[trigger] walk_within(edges, from, targets[t] as int, d2 as nat);
            assert(!walk_within(edges, from, targets[t2] as int, d2 as nat));
        }
    }
}

/// The units of a nation never repeat, whatever its orders.
pub(crate) proof fn lemma_units_after_distinct(
    base: Seq<UnitSlot>,
    os: Seq<BuildOrderView>,
    outs: Seq<OrderOutcome>,
    n: Seq<char>,
    i: nat,
)
    requires
        base.no_duplicates(),
    ensures
        units_after(base, os, outs, n, i).no_duplicates(),
    decreases i,
{
    if i > 0 {
        lemma_units_after_distinct(base, os, outs, n, (i - 1) as nat);
        let prev = units_after(base, os, outs, n, (i - 1) as nat);
        let o = os[i - 1];
        let u = (o.unit_type, o.region);
        if counts(os, outs, i - 1) && o.nation == n {
            match o.command {
                BuildCommand::Build => {
                    if !prev.contains(u) {
                        let g = prev.push(u);
                        assert forall|a: int, b: int| 0 <= a < g.len() && 0 <= b < g.len() && a != b implies g[a] != g[b] by {
                            if a < prev.len() && b < prev.len() {
                                assert(g[a] == prev[a] && g[b] == prev[b]);
                            } else if a < prev.len() {
                                assert(g[a] == prev[a]);
                            } else if b < prev.len() {
                                assert(g[b] == prev[b]);
                            }
                        }
                    }
                },
                BuildCommand::Disband => {
                    crate::lemmas::lemma_filter_distinct(prev, |x: UnitSlot| x != u);
                },
            }
        }
    }
}

/// Whether `gone` is what civil disorder takes from the units `units` of `n`, when `owed`
/// disbands were not ordered: as many units as are owed, or all of them if there are fewer,
/// such that no unit kept outranks a unit taken.
pub open spec fn is_disorder_choice<W: WorldState>(
    m: MapView,
    w: &W,
    last: &Ownerships,
    n: Seq<char>,
    units: Seq<UnitSlot>,
    owed: nat,
    gone: Seq<UnitSlot>,
) -> bool {
    &&& gone.len() == if owed < units.len() {
        owed
    } else {
        units.len()
    }
    &&& gone.no_duplicates()
    &&& forall|k: int| 0 <= k < gone.len() ==> units.contains(#[trigger] gone[k])
    &&& forall|a: UnitSlot, b: UnitSlot|
        units.contains(a) && !gone.contains(a) && gone.contains(b) ==> !outranks(
            #[trigger] unit_rank(m, w, last, n, a),
            #[trigger] unit_rank(m, w, last, n, b),
        )
}

/// The units that civil disorder takes from the units `units` of nation `n`, which owes
/// `owed` more disbands, and the units it keeps.
pub(crate) fn civil_disorder_of<W: WorldState>(
    map: &WorldMap,
    g: &RegionGraph,
    w: &W,
    last: &Ownerships,
    n: &Nation,
    units: &Vec<(UnitType, RegionKey)>,
    owed: usize,
) -> (r: (Vec<(UnitType, RegionKey)>, Vec<(UnitType, RegionKey)>))
    requires
        graph_edges(*g) == map_edges(map@),
        graph_node_count(*g) == map@.regions.len(),
        slots(units@).no_duplicates(),
        forall|k: int| 0 <= k < units@.len() ==> first_region_with_key(map@, #[trigger] units@[k].1@) is Some,
    ensures
        is_disorder_choice(map@, w, last, n@, slots(units@), owed as nat, slots(r.1@)),
        slots(r.0@) == slots(units@).filter(|u: UnitSlot| !slots(r.1@).contains(u)),
{
    let targets = owned_sc_regions_exec(map, w, last, n);
    let ghost us = slots(units@);
    let ghost ts = owned_sc_regions(map@, w, last, n@);
    let mut ranks: Vec<(usize, UnitType, RegionKey)> = Vec::new();
    let mut k: usize = 0;
    while k < units.len()
        invariant
            k <= units@.len(),
            us == slots(units@),
            ts == owned_sc_regions(map@, w, last, n@),
            targets@ == ts,
            forall|j: int| 0 <= j < targets@.len() ==> #[trigger] targets@[j] < map@.regions.len(),
            graph_edges(*g) == map_edges(map@),
            graph_node_count(*g) == map@.regions.len(),
            forall|j: int| 0 <= j < units@.len() ==> first_region_with_key(map@, #[trigger] units@[j].1@) is Some,
            ranks@.len() == k,
            forall|j: int| 0 <= j < k ==> #[trigger] rank_views(ranks@)[j] == unit_rank(map@, w, last, n@, us[j]),
        decreases units@.len() - k,
    {
        let u = &units[k];
        assert(us[k as int] == (u.0, u.1@));
        assert(first_region_with_key(map@, units@[k as int].1@) is Some);
        proof {
            crate::geo::map::lemma_first_region_bound(map@, u.1@);
        }
        let idx = match region_index(map, &u.1) {
            Some(i) => i,
            None => 0,
        };
        let d = distance_to_nearest(g, idx, &targets);
        proof {
            let from = first_region_with_key(map@, u.1@)->0;
            assert(from == idx as int);
            assert(nearest_distance(map_edges(map@), from, ts, d));
            let c = unit_distance(map@, w, last, n@, u.1@);
            assert(nearest_distance(map_edges(map@), from, ts, c));
            lemma_nearest_unique(map_edges(map@), from, ts, d, c);
        }
        let ghost prev = ranks@;
        ranks.push((d, u.0, u.1.copy()));
        proof {
            assert forall|j: int| 0 <= j < k + 1 implies #[trigger] rank_views(ranks@)[j] == unit_rank(
                map@,
                w,
                last,
                n@,
                us[j],
            ) by {
                if j < k {
                    assert(rank_views(ranks@)[j] == rank_views(prev)[j]);
                }
            }
        }
        k = k + 1;
    }
    let chosen = select_disbands(&ranks, owed);
    let ghost rv = rank_views(ranks@);
    let mut gone: Vec<(UnitType, RegionKey)> = Vec::new();
    let mut c: usize = 0;
    while c < chosen.len()
        invariant
            c <= chosen@.len(),
            us == slots(units@),
            ranks@.len() == units@.len(),
            forall|j: int| 0 <= j < chosen@.len() ==> #[trigger] chosen@[j] < ranks@.len(),
            gone@.len() == c,
            forall|j: int| 0 <= j < c ==> #[trigger] slots(gone@)[j] == us[chosen@[j] as int],
        decreases chosen@.len() - c,
    {
        let p = chosen[c];
        let ghost prev = gone@;
        gone.push((units[p].0, units[p].1.copy()));
        proof {
            assert forall|j: int| 0 <= j < c + 1 implies #[trigger] slots(gone@)[j] == us[chosen@[j] as int] by {
                if j < c {
                    assert(slots(gone@)[j] == slots(prev)[j]);
                }
            }
        }
        c = c + 1;
    }
    let ghost gs = slots(gone@);
    // Which positions civil disorder takes.
    let mut taken: Vec<bool> = Vec::new();
    let mut k: usize = 0;
    while k < units.len()
        invariant
            k <= units@.len(),
            taken@.len() == k,
            forall|j: int| 0 <= j < k ==> !#[trigger] taken@[j],
        decreases units@.len() - k,
    {
        taken.push(false);
        k = k + 1;
    }
    let mut c: usize = 0;
    while c < chosen.len()
        invariant
            c <= chosen@.len(),
            taken@.len() == units@.len(),
            ranks@.len() == units@.len(),
            forall|j: int| 0 <= j < chosen@.len() ==> #[trigger] chosen@[j] < ranks@.len(),
            forall|j: int| 0 <= j < units@.len() ==> (#[trigger] taken@[j] <==> exists|i: int| 0 <= i < c && chosen@[i] == j),
        decreases chosen@.len() - c,
    {
        let p = chosen[c];
        taken.set(p, true);
        proof {
            assert forall|j: int| 0 <= j < units@.len() implies (#[trigger] taken@[j] <==> exists|i: int| 0 <= i < c + 1 && chosen@[i] == j) by {
                if j == p {
                    assert(chosen@[c as int] == j);
                } else if exists|i: int| 0 <= i < c + 1 && chosen@[i] == j {
                    let i = choose|i: int| 0 <= i < c + 1 && chosen@[i] == j;
                    assert(i != c);
                }
            }
        }
        c = c + 1;
    }
    // A position is taken exactly when its unit is gone.
    proof {
        assert forall|j: int| 0 <= j < units@.len() implies (taken@[j] <==> #[trigger] gs.contains(us[j])) by {
            if taken@[j] {
                let i = choose|i: int| 0 <= i < chosen@.len() && chosen@[i] == j;
                assert(gs[i] == us[j]);
            }
            if gs.contains(us[j]) {
                let i = choose|i: int| 0 <= i < gs.len() && gs[i] == us[j];
                assert(us[chosen@[i] as int] == us[j]);
                assert(chosen@[i] == j);
            }
        }
    }
    let ghost pred = |x: UnitSlot| !gs.contains(x);
    let mut kept: Vec<(UnitType, RegionKey)> = Vec::new();
    let mut k: usize = 0;
    while k < units.len()
        invariant
            k <= units@.len(),
            us == slots(units@),
            taken@.len() == units@.len(),
            forall|j: int| 0 <= j < units@.len() ==> (taken@[j] <==> #[trigger] gs.contains(us[j])),
            forall|x: UnitSlot| #[trigger] pred(x) == !gs.contains(x),
            slots(kept@) == us.take(k as int).filter(pred),
        decreases units@.len() - k,
    {
        proof {
            crate::lemmas::lemma_filter_step(us, k as int, pred);
        }
        assert(us[k as int] == (units@[k as int].0, units@[k as int].1@));
        assert(taken@[k as int] <==> gs.contains(us[k as int]));
        if !taken[k] {
            let ghost prev = kept@;
            kept.push((units[k].0, units[k].1.copy()));
            proof {
                assert(slots(kept@) =~= slots(prev).push(us[k as int]));
            }
        }
        k = k + 1;
    }
    proof {
        assert(us.take(us.len() as int) =~= us);
        assert(pred =~= (|u: UnitSlot| !gs.contains(u)));
        assert forall|a: int, b: int| 0 <= a < gs.len() && 0 <= b < gs.len() && a != b implies gs[a] != gs[b] by {
            assert(chosen@[a] != chosen@[b]);
            assert(us[chosen@[a] as int] != us[chosen@[b] as int]);
        }
        assert forall|j: int| 0 <= j < gs.len() implies us.contains(#[trigger] gs[j]) by {
            assert(us[chosen@[j] as int] == gs[j]);
        }
        assert forall|a: UnitSlot, b: UnitSlot|
            us.contains(a) && !gs.contains(a) && gs.contains(b) implies !outranks(
            #[trigger] unit_rank(map@, w, last, n@, a),
            #[trigger] unit_rank(map@, w, last, n@, b),
        ) by {
            let ka = choose|i: int| 0 <= i < us.len() && us[i] == a;
            let cb = choose|i: int| 0 <= i < gs.len() && gs[i] == b;
            assert(!taken@[ka]);
            if chosen@.contains(ka as usize) {
                let i = choose|i: int| 0 <= i < chosen@.len() && chosen@[i] == ka as usize;
                assert(taken@[ka]);
            }
            assert(!outranks(rv[ka], rv[chosen@[cb] as int]));
            assert(rv[ka] == unit_rank(map@, w, last, n@, us[ka]));
            assert(rv[chosen@[cb] as int] == unit_rank(map@, w, last, n@, us[chosen@[cb] as int]));
        }
    }
    (kept, gone)
}

} // verus!
