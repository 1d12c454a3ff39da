//! The start of a retreat phase: the dislodged units and where each may go.
use crate::judge::calc::{
    dislodger_of, lemma_movers_into, lemma_settled_dislodger_same, movers_into, moves_into, prevent_results,
    spec_lost_h2h, spec_path, spec_prevent_fits, spec_settled_dislodger,
};
use crate::judge::convoy::spec_successful_route_exists;
use crate::geo::MapView;
use crate::judge::convoy::uses_convoy;
use crate::judge::outcome::Outcome;
use crate::judge::outcome_types::{IllegalOrder, OrderOutcome};
use crate::judge::resolver::{knows_all, kept, ready, same_knowledge, settled, Context, ResolverState};
use crate::judge::state_type::OrderState;
use crate::judge::strength::Prevent;
use crate::judge::{MappedMainOrder, MappedRetreatOrder};
use crate::geo::border::border_dest_from;
use crate::geo::{Border, ProvinceKey, RegionKey, RegionName};
use crate::order::{Command, MainCommand, MainOrderView, Model, RetreatCommand, RetreatOrderView};
use crate::unit::{spec_can_occupy, Unit, UnitPosition, UnitPositionView};

use crate::lemmas::{first_index, lemma_first_index, lemma_first_index_props};
use vstd::prelude::*;

verus! {

/// Whether a retreat destination may be used, and if not, why.
#[derive(Debug, Clone, Copy, PartialEq, Eq, Structural)]
pub enum DestStatus {
    /// The region is a viable retreat destination.
    Available,
    /// The retreating unit cannot reach the destination, due to the lack of a passable border.
    ///
    /// This status covers three cases:
    ///
    /// 1. There is a border, but the unit cannot cross it due to terrain incompatibility.
    /// 2. There is no border with the specified destination; it is not adjacent to the retreating unit.
    /// 3. The specified destination does not exist on the map.
    Unreachable,
    /// The unit that dislodged the retreating unit launched a direct assault from this region's
    /// parent province.
    BlockedByDislodger,
    /// There is a unit in the destination province.
    Occupied,
    /// The region is vacant, but during the main phase the province was the site of a stalemate.
    /// Units cannot retreat into stalemate territory.
    Contested,
}

/// The status listed for a region, or unreachable when it is not listed.
pub open spec fn lookup_status(list: Seq<(RegionName, DestStatus)>, region: RegionName) -> DestStatus {
    if exists|k: int| 0 <= k < list.len() && #[trigger] list[k].0 == region {
        list[choose|k: int| 0 <= k < list.len() && #[trigger] list[k].0 == region].1
    } else {
        DestStatus::Unreachable
    }
}

/// Whether some listed region is available.
pub open spec fn has_available(s: Seq<(RegionName, DestStatus)>) -> bool {
    exists|j: int| 0 <= j < s.len() && #[trigger] s[j].1 == DestStatus::Available
}

/// Where a unit stands once the main phase is over: a successful move's unit at its
/// destination, any other at its region.
pub open spec fn end_position(o: MainOrderView, state: OrderState) -> UnitPositionView {
    match o.command {
        MainCommand::Move(m) => if state == OrderState::Succeeds {
            ((o.nation, o.unit_type), m.dest)
        } else {
            ((o.nation, o.unit_type), o.region)
        },
        _ => ((o.nation, o.unit_type), o.region),
    }
}

/// The regions listed in `regs` with status available, in order.
pub open spec fn available_regions(regs: Seq<(RegionName, DestStatus)>) -> Seq<RegionName> {
    regs.filter(|e: (RegionName, DestStatus)| e.1 == DestStatus::Available).map_values(
        |e: (RegionName, DestStatus)| e.0,
    )
}

proof fn lemma_available_distinct(regs: Seq<(RegionName, DestStatus)>)
    requires
        forall|a: int, b: int| 0 <= a < b < regs.len() ==> regs[a].0 != regs[b].0,
    ensures
        forall|a: int, b: int|
            0 <= a < b < available_regions(regs).len() ==> available_regions(regs)[a] != available_regions(regs)[b],
    decreases regs.len(),
{
    let pred = |e: (RegionName, DestStatus)| e.1 == DestStatus::Available;
    let f = |e: (RegionName, DestStatus)| e.0;
    assert(available_regions(regs) =~= regs.filter(pred).map_values(f));
    if regs.len() > 0 {
        let init = regs.drop_last();
        lemma_available_distinct(init);
        assert(available_regions(init) =~= init.filter(pred).map_values(f));
        crate::lemmas::lemma_filter_step(regs, regs.len() - 1, pred);
        assert(regs.take(regs.len() - 1) =~= init);
        assert(regs.take(regs.len() as int) =~= regs);
        let fi = init.filter(pred);
        fi.filter_lemma(pred);
        if pred(regs.last()) {
            assert(regs.filter(pred) == fi.push(regs.last()));
            crate::lemmas::lemma_map_push(fi, regs.last(), f);
            let av = available_regions(regs);
            assert forall|a: int, b: int| 0 <= a < b < av.len() implies av[a] != av[b] by {
                if b == av.len() - 1 {
                    assert(fi.contains(fi[a]));
                    init.lemma_filter_contains_rev(pred, fi[a]);
                    let j = choose|j: int| 0 <= j < init.len() && init[j] == fi[a];
                    assert(regs[j] == init[j]);
                    assert(av[a] == fi[a].0);
                } else {
                    assert(av[a] == available_regions(init)[a]);
                    assert(av[b] == available_regions(init)[b]);
                }
            }
        } else {
            assert(regs.filter(pred) == fi);
        }
    }
}

/// Possible destinations a unit could move to during the retreat phase, along with the
/// status of each destination.
pub struct Destinations {
    regions: Vec<(RegionKey, DestStatus)>,
}

impl Destinations {
    /// The regions listed, each once, with their status.
    pub closed spec fn spec_regions(&self) -> Seq<(RegionName, DestStatus)> {
        self.regions@.map_values(|e: (RegionKey, DestStatus)| (e.0@, e.1))
    }

    /// The status of a region: its listed status, or unreachable when it is not listed.
    pub open spec fn spec_get(&self, region: RegionName) -> DestStatus {
        lookup_status(self.spec_regions(), region)
    }

    /// Each region is listed once.
    pub open spec fn wf(&self) -> bool {
        forall|a: int, b: int|
            0 <= a < b < self.spec_regions().len() ==> self.spec_regions()[a].0 != self.spec_regions()[b].0
    }

    fn new() -> (r: Destinations)
        ensures
            r.spec_regions().len() == 0,
            r.wf(),
    {
        Destinations { regions: Vec::new() }
    }

    /// Whether the region is listed.
    fn lists(&self, region: &RegionKey) -> (r: bool)
        ensures
            r == exists|k: int| 0 <= k < self.spec_regions().len() && #[trigger] self.spec_regions()[k].0 == region@,
    {
        let ghost rs = self.spec_regions();
        let mut i: usize = 0;
        while i < self.regions.len()
            invariant
                i <= self.regions@.len(),
                rs == self.spec_regions(),
                forall|k: int| 0 <= k < i ==> #[trigger] rs[k].0 != region@,
            decreases self.regions@.len() - i,
        {
            if self.regions[i].0.same(region) {
                assert(rs[i as int].0 == region@);
                return true;
            }
            assert(rs[i as int].0 != region@);
            i = i + 1;
        }
        false
    }

    /// List a region that is not listed yet.
    fn push_new(&mut self, region: RegionKey, status: DestStatus)
        requires
            old(self).wf(),
            forall|k: int| 0 <= k < old(self).spec_regions().len() ==> #[trigger] old(self).spec_regions()[k].0 != region@,
        ensures
            final(self).wf(),
            final(self).spec_regions() == old(self).spec_regions().push((region@, status)),
    {
        let ghost before = self.spec_regions();
        let ghost rv = region@;
        self.regions.push((region, status));
        proof {
            assert(self.spec_regions() =~= before.push((rv, status)));
        }
    }

    /// The listed status of a listed region is its status.
    pub proof fn lemma_get(&self, k: int)
        requires
            self.wf(),
            0 <= k < self.spec_regions().len(),
        ensures
            self.spec_get(self.spec_regions()[k].0) == self.spec_regions()[k].1,
    {
        let rs = self.spec_regions();
        let r = rs[k].0;
        let j = choose|j: int| 0 <= j < rs.len() && #[trigger] rs[j].0 == r;
        if j < k {
            assert(rs[j].0 != rs[k].0);
        } else if j > k {
            assert(rs[k].0 != rs[j].0);
        }
    }

    /// Get the destination status of a particular region.
    pub fn get(&self, region: &RegionKey) -> (r: DestStatus)
        requires
            self.wf(),
        ensures
            r == self.spec_get(region@),
    {
        let ghost rs = self.spec_regions();
        let mut i: usize = 0;
        while i < self.regions.len()
            invariant
                i <= self.regions@.len(),
                rs == self.spec_regions(),
                self.wf(),
                forall|k: int| 0 <= k < i ==> #[trigger] rs[k].0 != region@,
            decreases self.regions@.len() - i,
        {
            if self.regions[i].0.same(region) {
                proof {
                    assert(rs[i as int].0 == region@);
                    self.lemma_get(i as int);
                }
                return self.regions[i].1;
            }
            assert(rs[i as int].0 != region@);
            i = i + 1;
        }
        DestStatus::Unreachable
    }

    /// Check if any region is available to the unit as a move destination. If not, the unit
    /// will have no choice but to disband.
    pub fn is_any_available(&self) -> (r: bool)
        ensures
            r == has_available(self.spec_regions()),
    {
        let ghost rs = self.spec_regions();
        let mut i: usize = 0;
        while i < self.regions.len()
            invariant
                i <= self.regions@.len(),
                rs == self.spec_regions(),
                forall|k: int| 0 <= k < i ==> #[trigger] rs[k].1 != DestStatus::Available,
            decreases self.regions@.len() - i,
        {
            if self.regions[i].1 == DestStatus::Available {
                assert(rs[i as int].1 == DestStatus::Available);
                return true;
            }
            assert(rs[i as int].1 != DestStatus::Available);
            i = i + 1;
        }
        false
    }

    /// Get the regions that are viable retreat destinations, in the order they were listed.
    pub fn available(&self) -> (r: Vec<&RegionKey>)
        requires
            self.wf(),
        ensures
            r@.map_values(|k: &RegionKey| k@) == available_regions(self.spec_regions()),
            forall|a: int, b: int| 0 <= a < b < r@.len() ==> r@[a]@ != r@[b]@,
            forall|k: int| 0 <= k < r@.len() ==> self.spec_get(#[trigger] r@[k]@) == DestStatus::Available,
            forall|j: int|
                0 <= j < self.spec_regions().len() && #[trigger] self.spec_regions()[j].1
                    == DestStatus::Available ==> exists|k: int| 0 <= k < r@.len() && r@[k]@ == self.spec_regions()[j].0,
    {
        let ghost rs = self.spec_regions();
        let mut out: Vec<&RegionKey> = Vec::new();
        let mut i: usize = 0;
        while i < self.regions.len()
            invariant
                i <= self.regions@.len(),
                rs == self.spec_regions(),
                self.wf(),
                forall|k: int| 0 <= k < out@.len() ==> self.spec_get(#[trigger] out@[k]@) == DestStatus::Available,
                forall|j: int|
                    0 <= j < i && #[trigger] rs[j].1 == DestStatus::Available ==> exists|k: int|
                        0 <= k < out@.len() && out@[k]@ == rs[j].0,
                out@.map_values(|k: &RegionKey| k@) == available_regions(rs.take(i as int)),
            decreases self.regions@.len() - i,
        {
            proof {
                crate::lemmas::lemma_filter_step(rs, i as int, |e: (RegionName, DestStatus)| e.1 == DestStatus::Available);
            }
            proof {
                assert(rs[i as int] == (self.regions@[i as int].0@, self.regions@[i as int].1));
                self.lemma_get(i as int);
            }
            if self.regions[i].1 == DestStatus::Available {
                let ghost prev = out@;
                out.push(&self.regions[i].0);
                proof {
                    crate::lemmas::lemma_map_push(prev, &self.regions@[i as int].0, |k: &RegionKey| k@);
                    assert(out@[prev.len() as int]@ == rs[i as int].0);
                    assert forall|k: int| 0 <= k < out@.len() implies self.spec_get(#[trigger] out@[k]@)
                        == DestStatus::Available by {
                        if k < prev.len() {
                            assert(out@[k] == prev[k]);
                        }
                    }
                    assert forall|j: int|
                        0 <= j < i + 1 && #[trigger] rs[j].1 == DestStatus::Available implies exists|k: int|
                        0 <= k < out@.len() && out@[k]@ == rs[j].0 by {
                        if j < i {
                            let k = choose|k: int| 0 <= k < prev.len() && prev[k]@ == rs[j].0;
                            assert(out@[k] == prev[k]);
                        } else {
                            assert(out@[prev.len() as int]@ == rs[j].0);
                        }
                    }
                }
            }
            i = i + 1;
        }
        proof {
            assert(rs.take(rs.len() as int) =~= rs);
            lemma_available_distinct(rs);
            assert forall|a: int, b: int| 0 <= a < b < out@.len() implies out@[a]@ != out@[b]@ by {
                assert(out@.map_values(|k: &RegionKey| k@)[a] == out@[a]@);
                assert(out@.map_values(|k: &RegionKey| k@)[b] == out@[b]@);
            }
        }
        out
    }
}

/// What a destination status says of a retreat across border `b` by the unit of the order at
/// `retreater`, dislodged by the order at `dislodger`, given the positions of the units left
/// standing.
pub open spec fn status_fits(
    orders: Seq<MainOrderView>,
    positions: Seq<UnitPositionView>,
    retreater: int,
    dislodger: int,
    b: (RegionName, RegionName, crate::geo::Terrain),
    status: DestStatus,
) -> bool {
    let o = orders[retreater];
    let reachable = spec_can_occupy(o.unit_type, b.2) && border_dest_from(b, o.region) is Some;
    let dest = border_dest_from(b, o.region)->0;
    let occupied = exists|k: int| 0 <= k < positions.len() && #[trigger] positions[k].1.0 == dest.0;
    &&& (status == DestStatus::Unreachable) == !reachable
    &&& status == DestStatus::BlockedByDislodger ==> dest.0 == orders[dislodger].region.0
    &&& status == DestStatus::Occupied ==> occupied
    &&& (status == DestStatus::Contested || status == DestStatus::Available) ==> !occupied
}

/// Whether the province `p` was contested in the main phase, by a resolver state `rs` that
/// knows every order: some unit that was not dislodged moved into it with a path and did not
/// lose a head-to-head battle.
pub open spec fn spec_contested(
    m: MapView,
    orders: Seq<MainOrderView>,
    rs: ResolverState,
    dislodged: Seq<(usize, usize)>,
    p: Seq<char>,
) -> bool {
    exists|j: int|
        0 <= j < orders.len() && #[trigger] moves_into(orders[j], p) && spec_path(m, orders, rs, j)
            && !spec_lost_h2h(m, orders, rs, j) && !(exists|k: int|
            0 <= k < dislodged.len() && orders[(#[trigger] dislodged[k]).0 as int] == orders[j])
}

/// Whether a prevent entry comes from a unit that was not dislodged.
pub open spec fn entry_contests(orders: Seq<MainOrderView>, dislodged: Seq<(usize, usize)>, e: Prevent<usize>) -> bool {
    e matches Prevent::Prevents(p, _) && !(exists|k: int|
        0 <= k < dislodged.len() && orders[(#[trigger] dislodged[k]).0 as int] == orders[p as int])
}

/// What a destination status says, by a resolver state `rs` that knows every order, of a
/// reachable retreat across border `b` by the unit of the order at `retreater`, dislodged by
/// the order at `dislodger`: the dislodger's province is blocked when the dislodger had no
/// successful convoy route; otherwise an occupied province is occupied, a contested one is
/// contested, and any other is available.
pub open spec fn status_settled(
    m: MapView,
    orders: Seq<MainOrderView>,
    rs: ResolverState,
    positions: Seq<UnitPositionView>,
    dislodged: Seq<(usize, usize)>,
    retreater: int,
    dislodger: int,
    b: (RegionName, RegionName, crate::geo::Terrain),
    status: DestStatus,
) -> bool {
    let o = orders[retreater];
    let reachable = spec_can_occupy(o.unit_type, b.2) && border_dest_from(b, o.region) is Some;
    let dest = border_dest_from(b, o.region)->0;
    let occupied = exists|k: int| 0 <= k < positions.len() && #[trigger] positions[k].1.0 == dest.0;
    knows_all(rs, orders.len() as int) && reachable ==> {
        &&& dest.0 == orders[dislodger].region.0 && !spec_successful_route_exists(m, orders, rs, dislodger)
            ==> status == DestStatus::BlockedByDislodger
        &&& status != DestStatus::BlockedByDislodger ==> ((status == DestStatus::Occupied) == occupied)
        &&& status != DestStatus::BlockedByDislodger && !occupied ==> ((status == DestStatus::Contested)
            == spec_contested(m, orders, rs, dislodged, dest.0))
    }
}

/// Data needed to adjudicate the retreat phase and to present players with useful UI for
/// submitting retreat orders.
///
/// Orders of the main phase are referred to by their position in the outcome's orders.
pub struct Start<'a> {
    outcome: &'a Outcome<'a>,
    dislodged: Vec<(usize, usize)>,
    retreat_destinations: Vec<(UnitPosition, Destinations)>,
    unit_positions: Vec<UnitPosition>,
    state: Ghost<ResolverState>,
}

impl<'a> Start<'a> {
    /// The outcome of the main phase.
    pub closed spec fn spec_outcome(&self) -> &'a Outcome<'a> {
        self.outcome
    }

    /// The resolver state the retreat phase was set up with: a copy of the main phase's.
    pub closed spec fn spec_state(&self) -> ResolverState {
        self.state@
    }

    /// The dislodged orders, each with the order that dislodged it.
    pub closed spec fn spec_dislodged(&self) -> Seq<(usize, usize)> {
        self.dislodged@
    }

    /// For each dislodged unit, its position and the statuses of its destinations.
    pub closed spec fn spec_destinations(&self) -> Seq<(UnitPositionView, Seq<(RegionName, DestStatus)>)> {
        self.retreat_destinations@.map_values(|e: (UnitPosition, Destinations)| (e.0@, e.1.spec_regions()))
    }

    /// The positions of the units that were not dislodged, at the end of the main phase.
    pub closed spec fn spec_positions(&self) -> Seq<UnitPositionView> {
        self.unit_positions@.map_values(|p: UnitPosition| p@)
    }

    /// The start agrees with its main phase: each dislodged order was dislodged by a move into
    /// its province, no order is listed twice, each dislodged unit has its destinations, and the
    /// destinations' statuses say what holds of their borders.
    pub closed spec fn wf(&self) -> bool {
        let orders = self.outcome.spec_orders();
        let d = self.dislodged@;
        &&& d.len() == self.retreat_destinations@.len()
        &&& forall|k: int|
            0 <= k < d.len() ==> (#[trigger] d[k]).0 < orders.len() && d[k].1 < orders.len() && moves_into(
                orders[d[k].1 as int],
                orders[d[k].0 as int].region.0,
            )
        &&& forall|a: int, b: int| 0 <= a < b < d.len() ==> d[a].0 != d[b].0
        &&& forall|k: int|
            0 <= k < d.len() ==> (#[trigger] self.retreat_destinations@[k]).0@ == crate::judge::submission::order_position(
                orders[d[k].0 as int],
            ) && self.retreat_destinations@[k].1.wf()
    }

    /// Initialize a retreat phase, determining which units are dislodged and where they are
    /// able to go based on the outcome of a main phase adjudication.
    pub fn new(outcome: &'a Outcome<'a>) -> (r: Start<'a>)
        ensures
            r.spec_outcome() == outcome,
            r.wf(),
            r.spec_positions() == remaining_positions(
                outcome.spec_orders(),
                outcome.spec_outcomes(),
                outcome.spec_illegal(),
                r.spec_dislodged(),
            ),
            knows_all(outcome.spec_judged(), outcome.spec_orders().len() as int) ==> (forall|k: int|
                0 <= k < r.spec_dislodged().len() ==> spec_settled_dislodger(
                    outcome.spec_orders(),
                    outcome.spec_judged(),
                    (#[trigger] r.spec_dislodged()[k]).0 as int,
                    Some(r.spec_dislodged()[k].1),
                )) && forall|i: int|
                0 <= i < outcome.spec_orders().len() && (forall|k: int|
                    0 <= k < r.spec_dislodged().len() ==> (#[trigger] r.spec_dislodged()[k]).0 != i)
                    ==> spec_settled_dislodger(outcome.spec_orders(), outcome.spec_judged(), i, None),
            same_knowledge(r.spec_state(), outcome.spec_judged()),
            knows_all(outcome.spec_judged(), outcome.spec_orders().len() as int) ==> forall|k: int|
                0 <= k < r.spec_destinations().len() ==> dests_exact(
                    outcome.spec_map()@,
                    outcome.spec_orders(),
                    r.spec_state(),
                    r.spec_positions(),
                    r.spec_dislodged(),
                    r.spec_dislodged()[k].0 as int,
                    r.spec_dislodged()[k].1 as int,
                    (#[trigger] r.spec_destinations()[k]).1,
                ),
    {
        let ctx = outcome.context();
        let mut state = outcome.resolver_copy();
        let ghost state0 = state;
        let ghost judged = outcome.spec_judged();
        let n = ctx.len();
        let ghost orders = ctx.spec_orders();
        let mut dislodged: Vec<(usize, usize)> = Vec::new();
        let mut i: usize = 0;
        while i < n
            invariant
                i <= n,
                n == ctx.spec_orders().len(),
                orders == ctx.spec_orders(),
                ready(ctx, &state),
                forall|k: int|
                    0 <= k < dislodged@.len() ==> (#[trigger] dislodged@[k]).0 < i && dislodged@[k].1 < n
                        && moves_into(orders[dislodged@[k].1 as int], orders[dislodged@[k].0 as int].region.0),
                forall|a: int, b: int| 0 <= a < b < dislodged@.len() ==> dislodged@[a].0 < dislodged@[b].0,
                judged == outcome.spec_judged(),
                same_knowledge(state0, judged),
                knows_all(judged, n as int) ==> state == state0,
                knows_all(judged, n as int) ==> forall|j: int| #[trigger] state.entry(j) == judged.entry(j),
                knows_all(judged, n as int) ==> (forall|k: int|
                    0 <= k < dislodged@.len() ==> spec_settled_dislodger(
                        orders,
                        judged,
                        (#[trigger] dislodged@[k]).0 as int,
                        Some(dislodged@[k].1),
                    )) && forall|j: int|
                    0 <= j < i && (forall|k: int| 0 <= k < dislodged@.len() ==> (#[trigger] dislodged@[k]).0 != j)
                        ==> spec_settled_dislodger(orders, judged, j, None),
            decreases n - i,
        {
            proof {
                if knows_all(judged, n as int) {
                    assert forall|j: int| 0 <= j < n implies (#[trigger] state.entry(j) matches Some(s) && s.is_certain) by {
                        assert(state.entry(j) == judged.entry(j));
                    }
                    assert(settled(ctx, &state));
                }
            }
            let ghost st0 = state;
            let ghost prev0 = dislodged@;
            let found = dislodger_of(ctx, &mut state, i);
            proof {
                if knows_all(judged, n as int) {
                    lemma_settled_dislodger_same(orders, st0, judged, i as int, found);
                }
            }
            match found {
                Some(d) => {
                    let ghost prev = dislodged@;
                    dislodged.push((i, d));
                    proof {
                        assert forall|a: int, b: int| 0 <= a < b < dislodged@.len() implies dislodged@[a].0
                            < dislodged@[b].0 by {
                            if b < prev.len() {
                                assert(dislodged@[a] == prev[a] && dislodged@[b] == prev[b]);
                            } else {
                                assert(dislodged@[a] == prev[a]);
                            }
                        }
                        assert forall|k: int| 0 <= k < dislodged@.len() implies (#[trigger] dislodged@[k]).0
                            < i + 1 && dislodged@[k].1 < n && moves_into(
                            orders[dislodged@[k].1 as int],
                            orders[dislodged@[k].0 as int].region.0,
                        ) by {
                            if k < prev.len() {
                                assert(dislodged@[k] == prev[k]);
                            }
                        }
                    }
                },
                None => {},
            }
            proof {
                if knows_all(judged, n as int) {
                    assert forall|k: int| 0 <= k < dislodged@.len() implies spec_settled_dislodger(
                        orders,
                        judged,
                        (#[trigger] dislodged@[k]).0 as int,
                        Some(dislodged@[k].1),
                    ) by {
                        if k < prev0.len() {
                            assert(dislodged@[k] == prev0[k]);
                        }
                    }
                    assert forall|j: int|
                        0 <= j < i + 1 && (forall|k: int| 0 <= k < dislodged@.len() ==> (#[trigger] dislodged@[k]).0 != j)
                            implies spec_settled_dislodger(orders, judged, j, None) by {
                        if j < i {
                            assert forall|k: int| 0 <= k < prev0.len() implies (#[trigger] prev0[k]).0 != j by {
                                assert(dislodged@[k] == prev0[k]);
                            }
                        } else {
                            if found is Some {
                                assert(dislodged@[prev0.len() as int].0 == i);
                            }
                        }
                    }
                }
            }
            i = i + 1;
        }
        let positions = non_dislodged_positions(outcome, &dislodged);
        let mut destinations: Vec<(UnitPosition, Destinations)> = Vec::new();
        let mut k: usize = 0;
        while k < dislodged.len()
            invariant
                k <= dislodged@.len(),
                orders == ctx.spec_orders(),
                n == orders.len(),
                ready(ctx, &state),
                forall|j: int|
                    0 <= j < dislodged@.len() ==> (#[trigger] dislodged@[j]).0 < n && dislodged@[j].1 < n,
                destinations@.len() == k,
                judged == outcome.spec_judged(),
                same_knowledge(state0, judged),
                knows_all(judged, n as int) ==> state == state0,
                ctx.world_map == outcome.spec_map(),
                knows_all(judged, n as int) ==> forall|j: int|
                    0 <= j < k ==> dests_exact(
                        ctx.world_map@,
                        orders,
                        state0,
                        position_views(positions@),
                        dislodged@,
                        dislodged@[j].0 as int,
                        dislodged@[j].1 as int,
                        (#[trigger] destinations@[j]).1.spec_regions(),
                    ),
                knows_all(judged, n as int) ==> (forall|k: int|
                    0 <= k < dislodged@.len() ==> spec_settled_dislodger(
                        orders,
                        judged,
                        (#[trigger] dislodged@[k]).0 as int,
                        Some(dislodged@[k].1),
                    )) && forall|j: int|
                    0 <= j < n && (forall|k: int| 0 <= k < dislodged@.len() ==> (#[trigger] dislodged@[k]).0 != j)
                        ==> spec_settled_dislodger(orders, judged, j, None),
                forall|j: int|
                    0 <= j < k ==> (#[trigger] destinations@[j]).0@ == crate::judge::submission::order_position(
                        orders[dislodged@[j].0 as int],
                    ) && destinations@[j].1.wf(),
            decreases dislodged@.len() - k,
        {
            let (o, d) = dislodged[k];
            proof {
                if knows_all(judged, n as int) {
                    assert forall|j: int| 0 <= j < n implies (#[trigger] state.entry(j) matches Some(s) && s.is_certain) by {
                        assert(state.entry(j) == judged.entry(j));
                    }
                    assert(knows_all(state, ctx.spec_orders().len() as int));
                }
            }
            let dests = destinations_for(ctx, &mut state, &positions, &dislodged, o, d);
            let ghost prev = destinations@;
            destinations.push((ctx.order(o).unit_position(), dests));
            proof {
                if knows_all(judged, n as int) {
                    assert forall|j: int|
                        0 <= j < k + 1 implies dests_exact(
                            ctx.world_map@,
                            orders,
                            state0,
                            position_views(positions@),
                            dislodged@,
                            dislodged@[j].0 as int,
                            dislodged@[j].1 as int,
                            (#[trigger] destinations@[j]).1.spec_regions(),
                        ) by {
                        if j < k {
                            assert(destinations@[j] == prev[j]);
                        }
                    }
                }
            }
            k = k + 1;
        }
        let st = Start {
            outcome,
            dislodged,
            retreat_destinations: destinations,
            unit_positions: positions,
            state: Ghost(state0),
        };
        proof {
            if knows_all(judged, n as int) {
                assert(st.spec_dislodged() == st.dislodged@);
                assert forall|j: int|
                    0 <= j < outcome.spec_orders().len() && (forall|k: int|
                        0 <= k < st.spec_dislodged().len() ==> (#[trigger] st.spec_dislodged()[k]).0 != j)
                        implies spec_settled_dislodger(outcome.spec_orders(), judged, j, None) by {
                    assert forall|k: int| 0 <= k < st.dislodged@.len() implies (#[trigger] st.dislodged@[k]).0 != j by {
                        assert(st.spec_dislodged()[k] == st.dislodged@[k]);
                    }
                }
            }
        }
        st
    }

    /// The dislodged orders, each with the order that dislodged it.
    pub fn dislodged(&self) -> (r: Vec<(&MappedMainOrder, &MappedMainOrder)>)
        requires
            self.wf(),
        ensures
            r@.len() == self.spec_dislodged().len(),
            forall|k: int|
                0 <= k < r@.len() ==> (#[trigger] r@[k]).0@ == self.spec_outcome().spec_orders()[self.spec_dislodged()[k].0 as int]
                    && r@[k].1@ == self.spec_outcome().spec_orders()[self.spec_dislodged()[k].1 as int],
    {
        let orders = self.outcome.orders();
        let mut out: Vec<(&MappedMainOrder, &MappedMainOrder)> = Vec::new();
        let mut k: usize = 0;
        while k < self.dislodged.len()
            invariant
                k <= self.dislodged@.len(),
                self.wf(),
                orders@.map_values(|o: MappedMainOrder| o@) == self.spec_outcome().spec_orders(),
                out@.len() == k,
                forall|j: int|
                    0 <= j < k ==> (#[trigger] out@[j]).0@ == self.spec_outcome().spec_orders()[self.spec_dislodged()[j].0 as int]
                        && out@[j].1@ == self.spec_outcome().spec_orders()[self.spec_dislodged()[j].1 as int],
            decreases self.dislodged@.len() - k,
        {
            let (o, d) = self.dislodged[k];
            assert(self.dislodged@[k as int] == self.spec_dislodged()[k as int]);
            out.push((&orders[o], &orders[d]));
            k = k + 1;
        }
        out
    }

    /// For each dislodged unit, its position and the statuses of its possible destinations.
    pub fn retreat_destinations(&self) -> (r: &Vec<(UnitPosition, Destinations)>)
        ensures
            r@.map_values(|e: (UnitPosition, Destinations)| (e.0@, e.1.spec_regions())) == self.spec_destinations(),
    {
        &self.retreat_destinations
    }

    /// The positions of the units that were not dislodged, at the end of the main phase.
    pub fn unit_positions(&self) -> (r: &Vec<UnitPosition>)
        ensures
            r@.map_values(|p: UnitPosition| p@) == self.spec_positions(),
    {
        &self.unit_positions
    }

    /// The position in [`Start::retreat_destinations`] of the dislodged unit an order is
    /// addressed to, if any.
    pub fn find_recipient(&self, unit_type: crate::unit::UnitType, nation: &crate::nation::Nation, region: &RegionKey) -> (r: Option<usize>)
        ensures
            match r {
                Some(j) => first_index(
                    self.spec_destinations(),
                    |e: (UnitPositionView, Seq<(RegionName, DestStatus)>)| e.0 == ((nation@, unit_type), region@),
                ) == Some(j as int),
                None => first_index(
                    self.spec_destinations(),
                    |e: (UnitPositionView, Seq<(RegionName, DestStatus)>)| e.0 == ((nation@, unit_type), region@),
                ) is None,
            },
    {
        let ghost ds = self.spec_destinations();
        let ghost pred = |e: (UnitPositionView, Seq<(RegionName, DestStatus)>)| e.0 == ((nation@, unit_type), region@);
        let mut k: usize = 0;
        while k < self.retreat_destinations.len()
            invariant
                k <= self.retreat_destinations@.len(),
                ds == self.spec_destinations(),
                forall|e: (UnitPositionView, Seq<(RegionName, DestStatus)>)| pred(e) == (e.0 == ((nation@, unit_type), region@)),
                forall|j: int| 0 <= j < k ==> !pred(#[trigger] ds[j]),
            decreases self.retreat_destinations@.len() - k,
        {
            let p = &self.retreat_destinations[k].0;
            assert(ds[k as int].0 == p@);
            if p.unit.unit_type() == unit_type && p.unit.nation().same(nation) && p.region.same(region) {
                proof {
                    lemma_first_index(ds, pred, k as int);
                }
                return Some(k);
            }
            k = k + 1;
        }
        proof {
            lemma_first_index_props(ds, pred);
            if first_index(ds, pred) is Some {
                let j = first_index(ds, pred)->0;
                assert(pred(ds[j]));
            }
        }
        None
    }

    /// The status of region `dst` for the dislodged unit at position `j` of
    /// [`Start::retreat_destinations`].
    pub fn status_of(&self, j: usize, dst: &RegionKey) -> (r: DestStatus)
        requires
            self.wf(),
            j < self.spec_destinations().len(),
        ensures
            r == lookup_status(self.spec_destinations()[j as int].1, dst@),
    {
        assert(self.retreat_destinations@[j as int].1.wf());
        self.retreat_destinations[j].1.get(dst)
    }

    /// Checks if there are any dislodged units and if any of those units have valid retreat
    /// destinations.
    pub fn needs_player_input(&self) -> (r: bool)
        ensures
            r == exists|k: int|
                0 <= k < self.spec_destinations().len() && has_available(
                    #[trigger] self.spec_destinations()[k].1,
                ),
    {
        let ghost ds = self.spec_destinations();
        let mut k: usize = 0;
        while k < self.retreat_destinations.len()
            invariant
                k <= self.retreat_destinations@.len(),
                ds == self.spec_destinations(),
                forall|i: int| 0 <= i < k ==> !has_available(#[trigger] ds[i].1),
            decreases self.retreat_destinations@.len() - k,
        {
            assert(ds[k as int].1 == self.retreat_destinations@[k as int].1.spec_regions());
            if self.retreat_destinations[k].1.is_any_available() {
                return true;
            }
            k = k + 1;
        }
        false
    }
}

impl<'a> Outcome<'a> {
    /// Calculate retreat phase starting data based on this main-phase outcome.
    pub fn to_retreat_start(&'a self) -> (r: Start<'a>)
        ensures
            r.spec_outcome() == self,
            r.wf(),
    {
        Start::new(self)
    }
}

/// Whether an order equal to `o` was dislodged.
fn is_dislodged(ctx: &Context, dislodged: &Vec<(usize, usize)>, o: &MappedMainOrder) -> (r: bool)
    requires
        forall|k: int| 0 <= k < dislodged@.len() ==> (#[trigger] dislodged@[k]).0 < ctx.spec_orders().len(),
    ensures
        r == exists|k: int|
            0 <= k < dislodged@.len() && ctx.spec_orders()[(#[trigger] dislodged@[k]).0 as int] == o@,
{
    let mut k: usize = 0;
    while k < dislodged.len()
        invariant
            k <= dislodged@.len(),
            forall|j: int| 0 <= j < dislodged@.len() ==> (#[trigger] dislodged@[j]).0 < ctx.spec_orders().len(),
            forall|j: int| 0 <= j < k ==> ctx.spec_orders()[(#[trigger] dislodged@[j]).0 as int] != o@,
        decreases dislodged@.len() - k,
    {
        if ctx.order(dislodged[k].0).same(o) {
            return true;
        }
        k = k + 1;
    }
    false
}

/// The state of the world between the main phase and retreat phases of a season, ignoring
/// dislodged units: each other unit at the end of its order, illegal orders included.
///
/// Whether an order equal to `o` was dislodged.
pub open spec fn was_dislodged(orders: Seq<MainOrderView>, d: Seq<(usize, usize)>, o: MainOrderView) -> bool {
    exists|k: int| 0 <= k < d.len() && orders[(#[trigger] d[k]).0 as int] == o
}

/// Where the units of the first `i` adjudicated orders stand at the end of the main phase,
/// leaving out dislodged units.
pub open spec fn positions_upto(
    orders: Seq<MainOrderView>,
    outcomes: Seq<OrderOutcome<usize>>,
    d: Seq<(usize, usize)>,
    i: nat,
) -> Seq<UnitPositionView>
    decreases i,
{
    if i == 0 {
        Seq::empty()
    } else {
        let prev = positions_upto(orders, outcomes, d, (i - 1) as nat);
        let o = orders[i - 1];
        if was_dislodged(orders, d, o) {
            prev
        } else {
            prev.push(end_position(o, outcomes[i - 1].spec_state()))
        }
    }
}

/// Where the units of the first `j` illegal orders stand, leaving out dislodged units.
pub open spec fn illegal_positions_upto(
    orders: Seq<MainOrderView>,
    illegal: Seq<(MainOrderView, IllegalOrder)>,
    d: Seq<(usize, usize)>,
    j: nat,
) -> Seq<UnitPositionView>
    decreases j,
{
    if j == 0 {
        Seq::empty()
    } else {
        let prev = illegal_positions_upto(orders, illegal, d, (j - 1) as nat);
        let o = illegal[j - 1].0;
        if was_dislodged(orders, d, o) {
            prev
        } else {
            prev.push(((o.nation, o.unit_type), o.region))
        }
    }
}

/// Where the units that were not dislodged stand at the end of the main phase: those of the
/// adjudicated orders, then those of the illegal orders.
pub open spec fn remaining_positions(
    orders: Seq<MainOrderView>,
    outcomes: Seq<OrderOutcome<usize>>,
    illegal: Seq<(MainOrderView, IllegalOrder)>,
    d: Seq<(usize, usize)>,
) -> Seq<UnitPositionView> {
    positions_upto(orders, outcomes, d, orders.len()) + illegal_positions_upto(orders, illegal, d, illegal.len())
}

/// Dislodged units haven't retreated yet, so logically they are in their old positions;
/// reporting them there would mean multiple units are concurrently in the same province, so
/// they are left out.
fn non_dislodged_positions(outcome: &Outcome, dislodged: &Vec<(usize, usize)>) -> (r: Vec<UnitPosition>)
    requires
        forall|k: int| 0 <= k < dislodged@.len() ==> (#[trigger] dislodged@[k]).0 < outcome.spec_orders().len(),
    ensures
        r@.map_values(|p: UnitPosition| p@) == remaining_positions(
            outcome.spec_orders(),
            outcome.spec_outcomes(),
            outcome.spec_illegal(),
            dislodged@,
        ),
{
    let ctx = outcome.context();
    let mut positions: Vec<UnitPosition> = Vec::new();
    let n = ctx.len();
    let mut i: usize = 0;
    while i < n
        invariant
            i <= n,
            n == ctx.spec_orders().len(),
            n == outcome.spec_orders().len(),
            n == outcome.spec_outcomes().len(),
            ctx.spec_orders() == outcome.spec_orders(),
            forall|k: int| 0 <= k < dislodged@.len() ==> (#[trigger] dislodged@[k]).0 < n,
            positions@.map_values(|p: UnitPosition| p@) == positions_upto(
                outcome.spec_orders(),
                outcome.spec_outcomes(),
                dislodged@,
                i as nat,
            ),
        decreases n - i,
    {
        let o = ctx.order(i);
        let ghost prev = positions@;
        if !is_dislodged(ctx, dislodged, o) {
            let state = outcome.outcome_at(i).state();
            let pos = match &o.command {
                MainCommand::Move(m) => if state == OrderState::Succeeds {
                    UnitPosition::new(o.unit(), m.dest.copy())
                } else {
                    o.unit_position()
                },
                _ => o.unit_position(),
            };
            assert(pos@ == end_position(o@, state));
            positions.push(pos);
            proof {
                assert(positions@.map_values(|p: UnitPosition| p@) =~= prev.map_values(|p: UnitPosition| p@).push(pos@));
            }
        }
        i = i + 1;
    }
    let ghost first = positions@.map_values(|p: UnitPosition| p@);
    let illegal = outcome.illegal_orders();
    let mut j: usize = 0;
    while j < illegal.len()
        invariant
            j <= illegal@.len(),
            ctx.spec_orders() == outcome.spec_orders(),
            forall|k: int| 0 <= k < dislodged@.len() ==> (#[trigger] dislodged@[k]).0 < ctx.spec_orders().len(),
            illegal@.map_values(|e: (MappedMainOrder, IllegalOrder)| (e.0@, e.1)) == outcome.spec_illegal(),
            positions@.map_values(|p: UnitPosition| p@) == first + illegal_positions_upto(
                outcome.spec_orders(),
                outcome.spec_illegal(),
                dislodged@,
                j as nat,
            ),
        decreases illegal@.len() - j,
    {
        let ghost prev = positions@;
        assert(outcome.spec_illegal()[j as int].0 == illegal@[j as int].0@);
        if !is_dislodged(ctx, dislodged, &illegal[j].0) {
            let pos = illegal[j].0.unit_position();
            positions.push(pos);
            proof {
                assert(positions@.map_values(|p: UnitPosition| p@) =~= prev.map_values(|p: UnitPosition| p@).push(pos@));
            }
        }
        j = j + 1;
    }
    positions
}

/// Whether some position lies in province `p`.
fn occupied(positions: &Vec<UnitPosition>, p: &ProvinceKey) -> (r: bool)
    ensures
        r == exists|k: int| 0 <= k < positions@.len() && (#[trigger] positions@[k])@.1.0 == p@,
{
    let mut k: usize = 0;
    while k < positions.len()
        invariant
            k <= positions@.len(),
            forall|j: int| 0 <= j < k ==> (#[trigger] positions@[j])@.1.0 != p@,
        decreases positions@.len() - k,
    {
        if positions[k].region.in_province(p) {
            return true;
        }
        k = k + 1;
    }
    false
}

/// The status of a retreat across border `border` by the unit of the order at `retreater`,
/// dislodged by the order at `dislodger`.
fn is_valid_retreat_route(
    ctx: &Context,
    state: &mut ResolverState,
    positions: &Vec<UnitPosition>,
    dislodged: &Vec<(usize, usize)>,
    retreater: usize,
    dislodger: usize,
    border: &Border,
) -> (r: DestStatus)
    requires
        ready(ctx, old(state)),
        retreater < ctx.spec_orders().len(),
        dislodger < ctx.spec_orders().len(),
        forall|k: int| 0 <= k < dislodged@.len() ==> (#[trigger] dislodged@[k]).0 < ctx.spec_orders().len(),
    ensures
        kept(ctx, old(state), final(state)),
        status_fits(
            ctx.spec_orders(),
            positions@.map_values(|p: UnitPosition| p@),
            retreater as int,
            dislodger as int,
            border@,
            r,
        ),
        status_settled(
            ctx.world_map@,
            ctx.spec_orders(),
            *old(state),
            positions@.map_values(|p: UnitPosition| p@),
            dislodged@,
            retreater as int,
            dislodger as int,
            border@,
            r,
        ),
        settled(ctx, old(state)) ==> *final(state) == *old(state),
{
    let ghost pv = positions@.map_values(|p: UnitPosition| p@);
    let o = ctx.order(retreater);
    if !border.is_passable_by(o.unit_type) {
        return DestStatus::Unreachable;
    }
    let dest = match border.dest_from(&o.region) {
        Some(d) => d,
        None => {
            return DestStatus::Unreachable;
        },
    };
    // A unit cannot retreat to its dislodger's point of origin unless the dislodger was
    // convoyed to the destination.
    if dest.same_province(&ctx.order(dislodger).region) && !uses_convoy(ctx, state, dislodger) {
        return DestStatus::BlockedByDislodger;
    }
    // A unit cannot retreat to a position that is occupied at the end of the main phase
    if occupied(positions, dest.province()) {
        proof {
            let k = choose|k: int| 0 <= k < positions@.len() && (#[trigger] positions@[k])@.1.0 == dest@.0;
            assert(pv[k] == positions@[k]@);
        }
        return DestStatus::Occupied;
    }
    proof {
        assert forall|k: int| 0 <= k < pv.len() implies (#[trigger] pv[k]).1.0 != dest@.0 by {
            assert(pv[k] == positions@[k]@);
        }
    }
    // Dislodged units do not contest areas during the retreat phase
    proof {
        if knows_all(*old(state), ctx.spec_orders().len() as int) {
            assert(settled(ctx, state));
        }
    }
    let ghost st = *state;
    let prevents = prevent_results(ctx, state, dest.province());
    let mut contested = false;
    let mut k: usize = 0;
    while k < prevents.len()
        invariant
            k <= prevents@.len(),
            contested == exists|j: int| 0 <= j < k && entry_contests(ctx.spec_orders(), dislodged@, #[trigger] prevents@[j]),
            forall|j: int| 0 <= j < dislodged@.len() ==> (#[trigger] dislodged@[j]).0 < ctx.spec_orders().len(),
            forall|j: int|
                0 <= j < prevents@.len() ==> crate::judge::calc::prevent_in_range(
                    #[trigger] prevents@[j],
                    ctx.spec_orders().len(),
                ),
        decreases prevents@.len() - k,
    {
        assert(crate::judge::calc::prevent_in_range(prevents@[k as int], ctx.spec_orders().len()));
        match &prevents[k] {
            Prevent::Prevents(p, _) => {
                if !is_dislodged(ctx, dislodged, ctx.order(*p)) {
                    contested = true;
                }
            },
            _ => {},
        }
        k = k + 1;
    }
    proof {
        if knows_all(*old(state), ctx.spec_orders().len() as int) {
            let orders = ctx.spec_orders();
            let mv = movers_into(orders, dest@.0);
            lemma_movers_into(orders, dest@.0);
            assert(st == *old(state));
            if contested {
                let j = choose|j: int| 0 <= j < prevents@.len() && entry_contests(orders, dislodged@, #[trigger] prevents@[j]);
                assert(spec_prevent_fits(ctx.world_map@, orders, st, mv[j], Some(prevents@[j])));
                assert(moves_into(orders[mv[j]], dest@.0));
                assert(spec_contested(ctx.world_map@, orders, st, dislodged@, dest@.0));
            } else {
                if spec_contested(ctx.world_map@, orders, st, dislodged@, dest@.0) {
                    let j = choose|j: int|
                        0 <= j < orders.len() && #[trigger] moves_into(orders[j], dest@.0) && spec_path(ctx.world_map@, orders, st, j)
                            && !spec_lost_h2h(ctx.world_map@, orders, st, j) && !(exists|k: int|
                            0 <= k < dislodged@.len() && orders[(#[trigger] dislodged@[k]).0 as int] == orders[j]);
                    let kk = choose|kk: int| 0 <= kk < mv.len() && mv[kk] == j;
                    assert(spec_prevent_fits(ctx.world_map@, orders, st, mv[kk], Some(prevents@[kk])));
                    assert(entry_contests(orders, dislodged@, prevents@[kk]));
                    assert(false);
                }
            }
        }
    }
    // A unit cannot retreat to a position that was contested in the main phase, even
    // if the province is vacant due to a stalemate
    if contested {
        DestStatus::Contested
    } else {
        DestStatus::Available
    }
}

/// The views of the unit positions in `ps`, in order.
pub open spec fn position_views(ps: Seq<UnitPosition>) -> Seq<UnitPositionView> {
    ps.map_values(|p: UnitPosition| p@)
}

/// Whether region `x` is listed among `regs`.
pub open spec fn lists_region(regs: Seq<(RegionName, DestStatus)>, x: RegionName) -> bool {
    exists|m: int| 0 <= m < regs.len() && #[trigger] regs[m].0 == x
}

/// Whether some border of `bt` at a position from `lo` on leads from `region` to `x`.
pub open spec fn some_border_leads(
    bt: Seq<(RegionName, RegionName, crate::geo::Terrain)>,
    region: RegionName,
    lo: int,
    x: RegionName,
) -> bool {
    exists|i: int| lo <= i < bt.len() && #[trigger] leads_to(bt, region, i, x)
}

/// Whether the border at `i` of `bt` leads from `region` to `x`.
pub open spec fn leads_to(bt: Seq<(RegionName, RegionName, crate::geo::Terrain)>, region: RegionName, i: int, x: RegionName) -> bool {
    border_dest_from(bt[i], region) == Some(x)
}

/// Whether `entry` names a region that a border of `bt` at a position from `lo` on leads to from
/// `region`, with the status of the last such border.
pub open spec fn from_last_border(
    m: MapView,
    orders: Seq<MainOrderView>,
    rs: ResolverState,
    positions: Seq<UnitPositionView>,
    dislodged: Seq<(usize, usize)>,
    o: int,
    d: int,
    bt: Seq<(RegionName, RegionName, crate::geo::Terrain)>,
    region: RegionName,
    lo: int,
    entry: (RegionName, DestStatus),
) -> bool {
    exists|i: int|
        #![trigger bt[i]]
        lo <= i < bt.len() && leads_to(bt, region, i, entry.0) && status_fits(orders, positions, o, d, bt[i], entry.1)
            && status_settled(m, orders, rs, positions, dislodged, o, d, bt[i], entry.1)
            && forall|i2: int| i < i2 < bt.len() ==> !leads_to(bt, region, i2, entry.0)
}

/// The destinations `regs` of the unit of the order at `o`, dislodged by the order at `d`, are
/// exactly the regions across a border from it, each with the status of the last such border.
pub open spec fn dests_exact(
    m: MapView,
    orders: Seq<MainOrderView>,
    rs: ResolverState,
    positions: Seq<UnitPositionView>,
    dislodged: Seq<(usize, usize)>,
    o: int,
    d: int,
    regs: Seq<(RegionName, DestStatus)>,
) -> bool {
    let bt = crate::geo::map::borders_touching(m, orders[o].region);
    &&& forall|x: RegionName| #[trigger] lists_region(regs, x) <==> some_border_leads(bt, orders[o].region, 0, x)
    &&& forall|k: int|
        0 <= k < regs.len() ==> from_last_border(
            m,
            orders,
            rs,
            positions,
            dislodged,
            o,
            d,
            bt,
            orders[o].region,
            0,
            #[trigger] regs[k],
        )
}

/// The statuses of the destinations of the unit of the order at `o`, dislodged by the order at
/// `d`: each region across a border from it, once, with the status of the last such border.
fn destinations_for(
    ctx: &Context,
    state: &mut ResolverState,
    positions: &Vec<UnitPosition>,
    dislodged: &Vec<(usize, usize)>,
    o: usize,
    d: usize,
) -> (r: Destinations)
    requires
        ready(ctx, old(state)),
        o < ctx.spec_orders().len(),
        d < ctx.spec_orders().len(),
        forall|k: int| 0 <= k < dislodged@.len() ==> (#[trigger] dislodged@[k]).0 < ctx.spec_orders().len(),
    ensures
        kept(ctx, old(state), final(state)),
        knows_all(*old(state), ctx.spec_orders().len() as int) ==> *final(state) == *old(state),
        r.wf(),
        forall|x: RegionName|
            #[trigger] lists_region(r.spec_regions(), x) <==> some_border_leads(
                crate::geo::map::borders_touching(ctx.world_map@, ctx.spec_orders()[o as int].region),
                ctx.spec_orders()[o as int].region,
                0,
                x,
            ),
        forall|m: int|
            #![trigger r.spec_regions()[m]]
            0 <= m < r.spec_regions().len() ==> from_last_border( ctx.world_map@, ctx.spec_orders(), *old(state), position_views(positions@), dislodged@,
                o as int,
                d as int,
                crate::geo::map::borders_touching(ctx.world_map@, ctx.spec_orders()[o as int].region),
                ctx.spec_orders()[o as int].region,
                0,
                r.spec_regions()[m],
            ),
{
    let region = &ctx.order(o).region;
    let borders = ctx.world_map.borders_containing(region);
    let ghost bt = crate::geo::map::borders_touching(ctx.world_map@, region@);
    let ghost rv = region@;
    let ghost pv = positions@.map_values(|p: UnitPosition| p@);
    let n = borders.len();
    let mut dests = Destinations::new();
    let mut k: usize = n;
    while k > 0
        invariant
            k <= n,
            n == borders@.len(),
            borders@.map_values(|b: &Border| b@) == bt,
            rv == region@,
            rv == ctx.spec_orders()[o as int].region,
            pv == positions@.map_values(|p: UnitPosition| p@),
            ready(ctx, state),
            state.budget() == old(state).budget(),
            knows_all(*old(state), ctx.spec_orders().len() as int) ==> *state == *old(state),
            o < ctx.spec_orders().len(),
            d < ctx.spec_orders().len(),
            forall|j: int| 0 <= j < dislodged@.len() ==> (#[trigger] dislodged@[j]).0 < ctx.spec_orders().len(),
            dests.wf(),
            bt.len() == n,
            forall|x: RegionName|
                #[trigger] lists_region(dests.spec_regions(), x) <==> some_border_leads(bt, rv, k as int, x),
            forall|m: int|
                #![trigger dests.spec_regions()[m]]
                0 <= m < dests.spec_regions().len() ==> from_last_border( ctx.world_map@, ctx.spec_orders(), *old(state), pv, dislodged@,
                    o as int,
                    d as int,
                    bt,
                    rv,
                    k as int,
                    dests.spec_regions()[m],
                ),
        decreases k,
    {
        k = k - 1;
        let b = borders[k];
        assert(bt[k as int] == b@);
        let ghost before = dests.spec_regions();
        match b.dest_from(region) {
            Some(dest) => {
                assert(leads_to(bt, rv, k as int, dest@));
                if !dests.lists(dest) {
                    let status = is_valid_retreat_route(ctx, state, positions, dislodged, o, d, b);
                    dests.push_new(dest.copy(), status);
                    proof {
                        let after = dests.spec_regions();
                        assert(after == before.push((dest@, status)));
                        assert forall|x: RegionName|
                            #[trigger] lists_region(after, x) <==> some_border_leads(bt, rv, k as int, x) by {
                            assert(lists_region(before, x) <==> some_border_leads(bt, rv, k + 1, x));
                            if exists|m: int| 0 <= m < after.len() && #[trigger] after[m].0 == x {
                                let m = choose|m: int| 0 <= m < after.len() && #[trigger] after[m].0 == x;
                                if m < before.len() {
                                    assert(before[m].0 == x);
                                } else {
                                    assert(leads_to(bt, rv, k as int, x));
                                }
                            }
                            if exists|i: int| k <= i < n && #[trigger] leads_to(bt, rv, i, x) {
                                let i = choose|i: int| k <= i < n && #[trigger] leads_to(bt, rv, i, x);
                                if i == k {
                                    assert(after[before.len() as int].0 == x);
                                } else {
                                    let m = choose|m: int| 0 <= m < before.len() && #[trigger] before[m].0 == x;
                                    assert(after[m].0 == x);
                                }
                            }
                        }
                        assert forall|m: int| #![trigger after[m]] 0 <= m < after.len() implies from_last_border( ctx.world_map@, ctx.spec_orders(), *old(state), pv, dislodged@,
                            o as int,
                            d as int,
                            bt,
                            rv,
                            k as int,
                            after[m],
                        ) by {
                            if m < before.len() {
                                assert(after[m] == before[m]);
                                assert(from_last_border( ctx.world_map@, ctx.spec_orders(), *old(state), pv, dislodged@, o as int, d as int, bt, rv, k + 1, before[m]));
                                let i = choose|i: int|
                                    #![trigger bt[i]]
                                    k + 1 <= i < bt.len() && leads_to(bt, rv, i, before[m].0) && status_fits(
                                        ctx.spec_orders(),
                                        pv,
                                        o as int,
                                        d as int,
                                        bt[i],
                                        before[m].1,
                                    ) && status_settled(
                                        ctx.world_map@,
                                        ctx.spec_orders(),
                                        *old(state),
                                        pv,
                                        dislodged@,
                                        o as int,
                                        d as int,
                                        bt[i],
                                        before[m].1,
                                    ) && forall|i2: int| i < i2 < bt.len() ==> !leads_to(bt, rv, i2, before[m].0);
                                assert(bt[i] == bt[i]);
                            } else {
                                assert(after[m] == (dest@, status));
                                assert(bt[k as int] == bt[k as int]);
                                assert(!lists_region(before, dest@));
                                assert(lists_region(before, dest@) <==> some_border_leads(bt, rv, k + 1, dest@));
                                assert forall|i2: int| k < i2 < n implies !leads_to(bt, rv, i2, dest@) by {
                                    if leads_to(bt, rv, i2, dest@) {
                                        assert(some_border_leads(bt, rv, k + 1, dest@));
                                    }
                                }
                            }
                        }
                    }
                } else {
                    proof {
                        assert(lists_region(before, dest@));
                        let m0 = choose|m: int| 0 <= m < before.len() && #[trigger] before[m].0 == dest@;
                        assert forall|x: RegionName|
                            #[trigger] lists_region(before, x) <==> some_border_leads(bt, rv, k as int, x) by {
                            assert(lists_region(before, x) <==> some_border_leads(bt, rv, k + 1, x));
                            if exists|i: int| k <= i < n && #[trigger] leads_to(bt, rv, i, x) {
                                let i = choose|i: int| k <= i < n && #[trigger] leads_to(bt, rv, i, x);
                                if i == k {
                                    assert(before[m0].0 == x);
                                }
                            }
                        }
                    }
                }
            },
            None => {
                proof {
                    assert forall|x: RegionName|
                        #[trigger] lists_region(before, x) <==> some_border_leads(bt, rv, k as int, x) by {
                        assert(lists_region(before, x) <==> some_border_leads(bt, rv, k + 1, x));
                        assert(!leads_to(bt, rv, k as int, x));
                    }
                }
            },
        }
    }
    proof {
        assert(crate::geo::map::borders_touching(ctx.world_map@, ctx.spec_orders()[o as int].region) == bt);
        assert(position_views(positions@) =~= pv);
    }
    dests
}

} // verus!
