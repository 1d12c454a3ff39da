//! Orders submitted for a main phase: the filtering of illegal orders and the hold orders
//! issued to units without a valid order.
use super::calc::move_dest_of;
use super::convoy::{order_views, route_may_exist, spec_route_may_exist};
use super::outcome::Outcome;
use super::outcome_types::IllegalOrder;
use super::resolver::Context;
use super::rulebook::{spec_outcome_fits, spec_settled_outcome, Rulebook};
use super::resolver::knows_all;
use super::MappedMainOrder;
use crate::geo::map::first_border_between;
use crate::geo::{MapView, WorldMap};
use crate::order::{MainCommand, MainOrderView, Model, Order};
use crate::unit::{spec_can_occupy, UnitPosition, UnitPositionView, UnitPositions};
use vstd::prelude::*;

verus! {

/// The models of the given positions.
pub open spec fn position_views(v: Seq<UnitPosition>) -> Seq<UnitPositionView> {
    v.map_values(|q: UnitPosition| q@)
}

/// The position of the unit an order is addressed to.
pub open spec fn order_position(o: MainOrderView) -> UnitPositionView {
    ((o.nation, o.unit_type), o.region)
}

/// The hold order for the unit at position `p`.
pub open spec fn hold_for(p: UnitPositionView) -> MainOrderView {
    MainOrderView { nation: p.0.0, unit_type: p.0.1, region: p.1, command: MainCommand::Hold }
}

/// Whether a move's unit can cross the first border between its region and its destination.
pub open spec fn spec_border_passable(m: MapView, o: MainOrderView) -> bool {
    match move_dest_of(o) {
        Some(d) => first_border_between(m, o.region, d) matches Some(k) && spec_can_occupy(
            o.unit_type,
            m.borders[k].2,
        ),
        None => false,
    }
}

/// Whether an order passes the checks that do not depend on other orders: its unit stands
/// where it says, and a move can cross a border directly or be convoyed if every fleet at sea
/// convoyed it.
pub open spec fn spec_possible(m: MapView, positions: Seq<UnitPositionView>, o: MainOrderView) -> bool {
    &&& positions.contains(order_position(o))
    &&& !(o.command is Move && !(spec_border_passable(m, o) || spec_route_may_exist(m, positions, o)))
}

/// Why the order at `i` of `orders` is illegal, given the units at `positions`, if it is:
/// - no unit of that nation and type stands in its region: the region holds another unit
///   ([`IllegalOrder::ForeignUnit`]) or none ([`IllegalOrder::NoUnit`]);
/// - it is a move that can neither cross a border directly nor be convoyed even if every fleet
///   at sea convoyed it ([`IllegalOrder::UnreachableDestination`]);
/// - an earlier possible order was given to the same unit, so this one is discarded
///   ([`IllegalOrder::MultipleToSameUnit`]).
pub open spec fn spec_illegal_reason(
    m: MapView,
    positions: Seq<UnitPositionView>,
    orders: Seq<MainOrderView>,
    i: int,
) -> Option<IllegalOrder> {
    let o = orders[i];
    if !positions.contains(order_position(o)) {
        if exists|k: int| 0 <= k < positions.len() && #[trigger] positions[k].1 == o.region {
            Some(IllegalOrder::ForeignUnit)
        } else {
            Some(IllegalOrder::NoUnit)
        }
    } else if o.command is Move && !(spec_border_passable(m, o) || spec_route_may_exist(
        m,
        positions,
        o,
    )) {
        Some(IllegalOrder::UnreachableDestination)
    } else if exists|j: int|
        0 <= j < i && order_position(#[trigger] orders[j]) == order_position(o) && spec_possible(
            m,
            positions,
            orders[j],
        ) {
        Some(IllegalOrder::MultipleToSameUnit)
    } else {
        None
    }
}

/// Whether the submitted order at `i` is kept for adjudication: it is legal.
pub open spec fn spec_kept(orders: Seq<MainOrderView>, reasons: Seq<Option<IllegalOrder>>, i: int) -> bool {
    reasons[i] is None
}

/// The kept orders among the first `n` submitted orders, in order.
pub open spec fn kept_prefix(orders: Seq<MainOrderView>, reasons: Seq<Option<IllegalOrder>>, n: nat) -> Seq<
    MainOrderView,
>
    decreases n,
{
    if n == 0 {
        Seq::empty()
    } else {
        let p = kept_prefix(orders, reasons, (n - 1) as nat);
        if spec_kept(orders, reasons, n - 1) {
            p.push(orders[n - 1])
        } else {
            p
        }
    }
}

/// The illegal orders among the first `n` submitted orders, in order, each with its reason.
pub open spec fn illegal_prefix(orders: Seq<MainOrderView>, reasons: Seq<Option<IllegalOrder>>, n: nat) -> Seq<
    (MainOrderView, IllegalOrder),
>
    decreases n,
{
    if n == 0 {
        Seq::empty()
    } else {
        let p = illegal_prefix(orders, reasons, (n - 1) as nat);
        match reasons[n - 1] {
            Some(reason) => p.push((orders[n - 1], reason)),
            None => p,
        }
    }
}

/// Whether some kept order is addressed to the unit at position `p`.
#[verifier::opaque]
pub open spec fn spec_covered(orders: Seq<MainOrderView>, reasons: Seq<Option<IllegalOrder>>, p: UnitPositionView) -> bool {
    exists|i: int| 0 <= i < orders.len() && spec_kept(orders, reasons, i) && #[trigger] order_position(orders[i]) == p
}

/// A list of orders submitted for adjudication against a given world map.
///
/// The submission identifies and removes illegal orders prior to adjudication, and
/// generates hold orders for units without orders, whether that's due to civil disorder
/// or receiving illegal orders.
pub struct Submission<'a> {
    world_map: &'a WorldMap,
    start: Ghost<Seq<UnitPositionView>>,
    submitted_orders: Vec<MappedMainOrder>,
    reasons: Vec<Option<IllegalOrder>>,
    civil_disorder_orders: Vec<MappedMainOrder>,
}

impl<'a> Submission<'a> {
    /// The map the orders were issued against.
    pub closed spec fn spec_map(&self) -> &'a WorldMap {
        self.world_map
    }

    /// The unit positions at the start of the turn.
    pub closed spec fn spec_start(&self) -> Seq<UnitPositionView> {
        self.start@
    }

    /// The orders as submitted.
    pub closed spec fn spec_submitted(&self) -> Seq<MainOrderView> {
        order_views(self.submitted_orders@)
    }

    /// Why each submitted order is illegal, if it is.
    pub closed spec fn spec_reasons(&self) -> Seq<Option<IllegalOrder>> {
        self.reasons@
    }

    /// The hold orders generated for units without a kept order.
    pub closed spec fn spec_generated(&self) -> Seq<MainOrderView> {
        order_views(self.civil_disorder_orders@)
    }

    /// The orders used for the remainder of adjudication.
    pub open spec fn spec_adjudicated(&self) -> Seq<MainOrderView> {
        kept_prefix(self.spec_submitted(), self.spec_reasons(), self.spec_submitted().len())
            + self.spec_generated()
    }

    /// The submission classified its orders and generated its holds as the rules say.
    pub open spec fn wf(&self) -> bool {
        let subs = self.spec_submitted();
        let reasons = self.spec_reasons();
        let start = self.spec_start();
        let gen = self.spec_generated();
        &&& reasons.len() == subs.len()
        &&& forall|i: int|
            0 <= i < subs.len() ==> #[trigger] reasons[i] == spec_illegal_reason(
                self.spec_map()@,
                start,
                subs,
                i,
            )
        &&& forall|g: int|
            0 <= g < gen.len() ==> exists|k: int|
                0 <= k < start.len() && #[trigger] gen[g] == hold_for(start[k]) && !spec_covered(
                    subs,
                    reasons,
                    start[k],
                )
        &&& forall|k: int|
            0 <= k < start.len() && !spec_covered(subs, reasons, #[trigger] start[k]) ==> exists|g: int|
                0 <= g < gen.len() && gen[g] == hold_for(start[k])
        &&& forall|a: int, b: int| 0 <= a < b < gen.len() ==> gen[a] != gen[b]
    }

    /// Start a new adjudication by submitting orders against a given starting
    /// state. This will identify and resolve illegal orders, and generate hold orders
    /// for any units that lack valid orders.
    pub fn new<P: UnitPositions>(world_map: &'a WorldMap, starting_state: &P, orders: Vec<MappedMainOrder>) -> (r: Submission<'a>)
        ensures
            r.wf(),
            r.spec_map() == world_map,
            r.spec_start() == starting_state.spec_positions(),
            r.spec_submitted() == order_views(orders@),
    {
        let positions = starting_state.unit_positions();
        Submission::from_positions(world_map, positions, orders)
    }

    /// Start a new adjudication by submitting orders and inferring the state of the world
    /// from those orders. All ordered units are presumed to exist at the location of their
    /// order, and no other units are presumed to exist.
    pub fn with_inferred_state(world_map: &'a WorldMap, orders: Vec<MappedMainOrder>) -> (r: Submission<'a>)
        ensures
            r.wf(),
            r.spec_map() == world_map,
            r.spec_start() == orders@.map_values(|o: MappedMainOrder| order_position(o@)),
            r.spec_submitted() == order_views(orders@),
    {
        let mut positions: Vec<UnitPosition> = Vec::new();
        let mut i: usize = 0;
        while i < orders.len()
            invariant
                i <= orders@.len(),
                positions@.len() == i,
                forall|k: int| 0 <= k < i ==> positions@[k]@ == order_position(orders@[k]@),
            decreases orders@.len() - i,
        {
            positions.push(orders[i].unit_position());
            i = i + 1;
        }
        proof {
            assert(positions@.map_values(|p: UnitPosition| p@) =~= orders@.map_values(
                |o: MappedMainOrder| order_position(o@),
            ));
        }
        Submission::from_positions(world_map, positions, orders)
    }

    fn from_positions(world_map: &'a WorldMap, positions: Vec<UnitPosition>, orders: Vec<MappedMainOrder>) -> (r: Submission<'a>)
        ensures
            r.wf(),
            r.spec_map() == world_map,
            r.spec_start() == positions@.map_values(|p: UnitPosition| p@),
            r.spec_submitted() == order_views(orders@),
    {
        let ghost start = positions@.map_values(|p: UnitPosition| p@);
        let ghost subs = order_views(orders@);
        let reasons = classify(world_map, &positions, &orders);
        let kept = kept_flags(&orders, &reasons);
        let generated = holds_for_uncovered(&positions, &orders, &reasons, &kept);
        Submission {
            world_map,
            start: Ghost(start),
            submitted_orders: orders,
            reasons,
            civil_disorder_orders: generated,
        }
    }

    /// The exact orders that were provided at submission time, including illegal orders and
    /// excluding orders generated due to civil disorder.
    pub fn submitted_orders(&self) -> (r: &Vec<MappedMainOrder>)
        ensures
            order_views(r@) == self.spec_submitted(),
    {
        &self.submitted_orders
    }

    /// Orders that were not submitted but were adjudicated to ensure every unit has an order.
    pub fn generated_orders(&self) -> (r: &Vec<MappedMainOrder>)
        ensures
            order_views(r@) == self.spec_generated(),
    {
        &self.civil_disorder_orders
    }

    /// Why the submitted order at position `i` is illegal, if it is.
    pub fn illegal_reason(&self, i: usize) -> (r: Option<IllegalOrder>)
        requires
            self.wf(),
            i < self.spec_submitted().len(),
        ensures
            r == self.spec_reasons()[i as int],
    {
        self.reasons[i]
    }

    /// The orders that are used for the remainder of adjudication: the kept submitted orders,
    /// then the generated holds.
    pub fn adjudicated_orders(&self) -> (r: Vec<MappedMainOrder>)
        requires
            self.wf(),
        ensures
            order_views(r@) == self.spec_adjudicated(),
    {
        let kept = kept_flags(&self.submitted_orders, &self.reasons);
        let mut out: Vec<MappedMainOrder> = Vec::new();
        let ghost subs = self.spec_submitted();
        let ghost reasons = self.spec_reasons();
        let mut i: usize = 0;
        while i < self.submitted_orders.len()
            invariant
                i <= subs.len(),
                subs == self.spec_submitted(),
                reasons == self.spec_reasons(),
                subs.len() == self.submitted_orders@.len(),
                kept@.len() == subs.len(),
                forall|k: int| 0 <= k < subs.len() ==> kept@[k] == spec_kept(subs, reasons, k),
                order_views(out@) == kept_prefix(subs, reasons, i as nat),
            decreases subs.len() - i,
        {
            if kept[i] {
                let ghost prev = out@;
                let o = self.submitted_orders[i].copy();
                out.push(o);
                proof {
                    crate::lemmas::lemma_map_push(prev, o, |o: MappedMainOrder| o@);
                }
            }
            i = i + 1;
        }
        let mut j: usize = 0;
        let ghost base = order_views(out@);
        while j < self.civil_disorder_orders.len()
            invariant
                j <= self.civil_disorder_orders@.len(),
                base == kept_prefix(subs, reasons, subs.len()),
                subs == self.spec_submitted(),
                reasons == self.spec_reasons(),
                order_views(out@) == base + self.spec_generated().take(j as int),
            decreases self.civil_disorder_orders@.len() - j,
        {
            let ghost prev = out@;
            let o = self.civil_disorder_orders[j].copy();
            out.push(o);
            proof {
                crate::lemmas::lemma_map_push(prev, o, |o: MappedMainOrder| o@);
                assert(self.spec_generated().take(j + 1) =~= self.spec_generated().take(j as int).push(
                    o@,
                ));
                assert(base + self.spec_generated().take(j + 1) =~= (base + self.spec_generated().take(
                    j as int,
                )).push(o@));
            }
            j = j + 1;
        }
        proof {
            assert(self.spec_generated().take(self.spec_generated().len() as int) =~= self.spec_generated());
        }
        out
    }

    /// Adjudicate the submission using the provided rules.
    ///
    /// The outcome lists each illegal order with the reason it was discarded.
    pub fn adjudicate(&self, rules: Rulebook) -> (r: Outcome<'a>)
        requires
            self.wf(),
            self.spec_adjudicated().len() < usize::MAX,
        ensures
            r.spec_orders() == self.spec_adjudicated(),
            r.spec_map() == self.spec_map(),
            r.spec_outcomes().len() == self.spec_adjudicated().len(),
            forall|i: int|
                0 <= i < self.spec_adjudicated().len() ==> spec_outcome_fits(
                    self.spec_map()@,
                    self.spec_adjudicated(),
                    i,
                    #[trigger] r.spec_outcomes()[i],
                ),
            r.spec_illegal() == illegal_prefix(
                self.spec_submitted(),
                self.spec_reasons(),
                self.spec_submitted().len(),
            ),
            knows_all(r.spec_judged(), self.spec_adjudicated().len() as int) ==> forall|i: int|
                0 <= i < self.spec_adjudicated().len() ==> spec_settled_outcome(
                    self.spec_map()@,
                    self.spec_adjudicated(),
                    r.spec_judged(),
                    i,
                    #[trigger] r.spec_outcomes()[i],
                ),
    {
        let orders = self.adjudicated_orders();
        let mut illegal: Vec<(MappedMainOrder, IllegalOrder)> = Vec::new();
        let ghost subs = self.spec_submitted();
        let ghost reasons = self.spec_reasons();
        let mut i: usize = 0;
        while i < self.submitted_orders.len()
            invariant
                i <= self.submitted_orders@.len(),
                subs == self.spec_submitted(),
                reasons == self.spec_reasons(),
                reasons.len() == self.submitted_orders@.len(),
                illegal@.map_values(|e: (MappedMainOrder, IllegalOrder)| (e.0@, e.1)) == illegal_prefix(
                    subs,
                    reasons,
                    i as nat,
                ),
            decreases self.submitted_orders@.len() - i,
        {
            match self.reasons[i] {
                Some(reason) => {
                    let ghost prev = illegal@;
                    let e = (self.submitted_orders[i].copy(), reason);
                    illegal.push(e);
                    proof {
                        crate::lemmas::lemma_map_push(
                            prev,
                            e,
                            |e: (MappedMainOrder, IllegalOrder)| (e.0@, e.1),
                        );
                        assert(subs[i as int] == self.submitted_orders@[i as int]@);
                    }
                },
                None => {},
            }
            i = i + 1;
        }
        let context = Context::from_orders(self.world_map, rules, orders);
        context.resolve_with(illegal)
    }
}

/// Whether `x` is one of the first `n` submitted orders and is kept.
#[verifier::opaque]
pub open spec fn kept_among(orders: Seq<MainOrderView>, reasons: Seq<Option<IllegalOrder>>, n: nat, x: MainOrderView) -> bool {
    exists|i: int| 0 <= i < n && reasons[i] is None && x == orders[i]
}

proof fn lemma_kept_prefix(
    m: MapView,
    start: Seq<UnitPositionView>,
    orders: Seq<MainOrderView>,
    reasons: Seq<Option<IllegalOrder>>,
    n: nat,
)
    requires
        reasons.len() == orders.len(),
        n <= orders.len(),
        forall|i: int| 0 <= i < orders.len() ==> #[trigger] reasons[i] == spec_illegal_reason(m, start, orders, i),
    ensures
        forall|a: int|
            0 <= a < kept_prefix(orders, reasons, n).len() ==> kept_among(
                orders,
                reasons,
                n,
                #[trigger] kept_prefix(orders, reasons, n)[a],
            ),
        forall|a: int, b: int|
            0 <= a < b < kept_prefix(orders, reasons, n).len() ==> order_position(
                #[trigger] kept_prefix(orders, reasons, n)[a],
            ) != order_position(#[trigger] kept_prefix(orders, reasons, n)[b]),
        forall|i: int|
            0 <= i < n && #[trigger] reasons[i] is None ==> exists|a: int|
                0 <= a < kept_prefix(orders, reasons, n).len() && kept_prefix(orders, reasons, n)[a] == orders[i],
    decreases n,
{
    if n > 0 {
        let n1 = (n - 1) as nat;
        lemma_kept_prefix(m, start, orders, reasons, n1);
        let p = kept_prefix(orders, reasons, n1);
        let kp = kept_prefix(orders, reasons, n);
        let c = n - 1;
        if reasons[c] is None {
            assert(kp == p.push(orders[c]));
            assert forall|a: int| 0 <= a < p.len() implies order_position(p[a]) != order_position(orders[c]) by {
                reveal(kept_among);
                assert(kept_among(orders, reasons, n1, p[a]));
                let i = choose|i: int| 0 <= i < n1 && reasons[i] is None && p[a] == orders[i];
                assert(reasons[i] == spec_illegal_reason(m, start, orders, i));
                assert(spec_possible(m, start, orders[i]));
                assert(reasons[c] == spec_illegal_reason(m, start, orders, c));
                if order_position(p[a]) == order_position(orders[c]) {
                    assert(order_position(orders[i]) == order_position(orders[c]));
                    assert(0 <= i < c && order_position(orders[i]) == order_position(orders[c]) && spec_possible(
                        m,
                        start,
                        orders[i],
                    ));
                }
            }
            assert forall|a: int| 0 <= a < kp.len() implies kept_among(orders, reasons, n, #[trigger] kp[a]) by {
                reveal(kept_among);
                if a < p.len() {
                    assert(kp[a] == p[a]);
                    assert(kept_among(orders, reasons, n1, p[a]));
                    let i = choose|i: int| 0 <= i < n1 && reasons[i] is None && p[a] == orders[i];
                    assert(0 <= i < n && reasons[i] is None && kp[a] == orders[i]);
                } else {
                    assert(kp[a] == orders[c]);
                    assert(0 <= c < n && reasons[c] is None && kp[a] == orders[c]);
                }
            }
            assert forall|a: int, b: int| 0 <= a < b < kp.len() implies order_position(#[trigger] kp[a])
                != order_position(#[trigger] kp[b]) by {
                if b < p.len() {
                    assert(kp[a] == p[a] && kp[b] == p[b]);
                } else {
                    assert(kp[a] == p[a]);
                }
            }
            assert forall|i: int| 0 <= i < n && #[trigger] reasons[i] is None implies exists|a: int|
                0 <= a < kp.len() && kp[a] == orders[i] by {
                if i < c {
                    let a = choose|a: int| 0 <= a < p.len() && p[a] == orders[i];
                    assert(kp[a] == p[a]);
                } else {
                    assert(kp[p.len() as int] == orders[c]);
                }
            }
        } else {
            assert(kp == p);
            assert forall|a: int| 0 <= a < kp.len() implies kept_among(orders, reasons, n, #[trigger] kp[a]) by {
                reveal(kept_among);
                assert(kp[a] == p[a]);
                assert(kept_among(orders, reasons, n1, p[a]));
                let i = choose|i: int| 0 <= i < n1 && reasons[i] is None && p[a] == orders[i];
                assert(0 <= i < n && reasons[i] is None && kp[a] == orders[i]);
            }
            assert forall|i: int| 0 <= i < n && #[trigger] reasons[i] is None implies exists|a: int|
                0 <= a < kp.len() && kp[a] == orders[i] by {
                assert(i < c);
            }
        }
    }
}

/// The adjudicated orders hold exactly one order for each unit of the start: every order is
/// addressed to a unit that stands there, no two are addressed to the same unit, and each unit
/// has one.
#[verifier::spinoff_prover]
#[verifier::rlimit(80)]
pub proof fn lemma_one_order_per_unit(s: Submission)
    requires
        s.wf(),
    ensures
        forall|a: int|
            0 <= a < s.spec_adjudicated().len() ==> s.spec_start().contains(
                order_position(#[trigger] s.spec_adjudicated()[a]),
            ),
        forall|a: int, b: int|
            0 <= a < b < s.spec_adjudicated().len() ==> order_position(#[trigger] s.spec_adjudicated()[a])
                != order_position(#[trigger] s.spec_adjudicated()[b]),
        forall|k: int|
            0 <= k < s.spec_start().len() ==> exists|a: int|
                0 <= a < s.spec_adjudicated().len() && order_position(s.spec_adjudicated()[a])
                    == #[trigger] s.spec_start()[k],
{
    let m = s.spec_map()@;
    let start = s.spec_start();
    let subs = s.spec_submitted();
    let reasons = s.spec_reasons();
    let gen = s.spec_generated();
    let n = subs.len();
    lemma_kept_prefix(m, start, subs, reasons, n);
    let kp = kept_prefix(subs, reasons, n);
    let adj = s.spec_adjudicated();
    assert(adj == kp + gen);
    reveal(spec_covered);
    assert forall|g: int| 0 <= g < gen.len() implies start.contains(order_position(#[trigger] gen[g]))
        && forall|a: int| 0 <= a < kp.len() ==> order_position(kp[a]) != order_position(gen[g]) by {
        let k = choose|k: int| 0 <= k < start.len() && #[trigger] gen[g] == hold_for(start[k]) && !spec_covered(
            subs,
            reasons,
            start[k],
        );
        assert(order_position(gen[g]) == start[k]);
        assert forall|a: int| 0 <= a < kp.len() implies order_position(kp[a]) != order_position(gen[g]) by {
            reveal(kept_among);
            assert(kept_among(subs, reasons, n, kp[a]));
            let i = choose|i: int| 0 <= i < n && reasons[i] is None && kp[a] == subs[i];
            assert(spec_kept(subs, reasons, i));
        }
    }
    assert forall|a: int| 0 <= a < adj.len() implies start.contains(order_position(#[trigger] adj[a])) by {
        if a < kp.len() {
            assert(adj[a] == kp[a]);
            reveal(kept_among);
            assert(kept_among(subs, reasons, n, kp[a]));
            let i = choose|i: int| 0 <= i < n && reasons[i] is None && kp[a] == subs[i];
            assert(reasons[i] == spec_illegal_reason(m, start, subs, i));
        } else {
            assert(adj[a] == gen[a - kp.len()]);
        }
    }
    assert forall|a: int, b: int| 0 <= a < b < adj.len() implies order_position(#[trigger] adj[a])
        != order_position(#[trigger] adj[b]) by {
        if b < kp.len() {
            assert(adj[a] == kp[a] && adj[b] == kp[b]);
        } else if a < kp.len() {
            assert(adj[a] == kp[a] && adj[b] == gen[b - kp.len()]);
        } else {
            assert(adj[a] == gen[a - kp.len()] && adj[b] == gen[b - kp.len()]);
            let g1 = a - kp.len();
            let g2 = b - kp.len();
            let k1 = choose|k: int| 0 <= k < start.len() && #[trigger] gen[g1] == hold_for(start[k]) && !spec_covered(
                subs,
                reasons,
                start[k],
            );
            let k2 = choose|k: int| 0 <= k < start.len() && #[trigger] gen[g2] == hold_for(start[k]) && !spec_covered(
                subs,
                reasons,
                start[k],
            );
            if order_position(gen[g1]) == order_position(gen[g2]) {
                assert(start[k1] == start[k2]);
                assert(gen[g1] == gen[g2]);
            }
        }
    }
    assert forall|k: int| 0 <= k < start.len() implies exists|a: int|
        0 <= a < adj.len() && order_position(adj[a]) == #[trigger] start[k] by {
        if spec_covered(subs, reasons, start[k]) {
            let i = choose|i: int| 0 <= i < subs.len() && spec_kept(subs, reasons, i) && #[trigger] order_position(subs[i]) == start[k];
            let a = choose|a: int| 0 <= a < kp.len() && kp[a] == subs[i];
            assert(adj[a] == kp[a]);
        } else {
            let g = choose|g: int| 0 <= g < gen.len() && gen[g] == hold_for(start[k]);
            assert(adj[kp.len() + g] == gen[g]);
            assert(order_position(hold_for(start[k])) == start[k]);
        }
    }
}

fn contains_position(positions: &Vec<UnitPosition>, p: &UnitPosition) -> (r: bool)
    ensures
        r == position_views(positions@).contains(p@),
{
    let ghost ps = position_views(positions@);
    let mut i: usize = 0;
    while i < positions.len()
        invariant
            i <= positions@.len(),
            ps == position_views(positions@),
            forall|k: int| 0 <= k < i ==> ps[k] != p@,
        decreases positions@.len() - i,
    {
        if positions[i].same(p) {
            assert(ps[i as int] == p@);
            return true;
        }
        i = i + 1;
    }
    false
}

fn region_occupied(positions: &Vec<UnitPosition>, r: &crate::geo::RegionKey) -> (res: bool)
    ensures
        res == exists|k: int|
            0 <= k < positions@.len() && #[trigger] position_views(positions@)[k].1
                == r@,
{
    let ghost ps = position_views(positions@);
    let mut i: usize = 0;
    while i < positions.len()
        invariant
            i <= positions@.len(),
            ps == position_views(positions@),
            forall|k: int| 0 <= k < i ==> (#[trigger] ps[k]).1 != r@,
        decreases positions@.len() - i,
    {
        if positions[i].region.same(r) {
            assert(ps[i as int].1 == r@);
            return true;
        }
        assert(ps[i as int].1 != r@);
        i = i + 1;
    }
    false
}

fn border_passable(world_map: &WorldMap, o: &MappedMainOrder) -> (r: bool)
    ensures
        r == spec_border_passable(world_map@, o@),
{
    match &o.command {
        MainCommand::Move(cmd) => match world_map.find_border_between(&o.region, &cmd.dest) {
            Some(b) => b.is_passable_by(o.unit_type),
            None => false,
        },
        _ => false,
    }
}

/// Why each order is illegal, if it is.
fn classify(world_map: &WorldMap, positions: &Vec<UnitPosition>, orders: &Vec<MappedMainOrder>) -> (r: Vec<
    Option<IllegalOrder>,
>)
    ensures
        r@.len() == orders@.len(),
        forall|i: int|
            0 <= i < orders@.len() ==> #[trigger] r@[i] == spec_illegal_reason(
                world_map@,
                position_views(positions@),
                order_views(orders@),
                i,
            ),
{
    let ghost ps = position_views(positions@);
    let ghost os = order_views(orders@);
    let mut reasons: Vec<Option<IllegalOrder>> = Vec::new();
    let mut possible: Vec<bool> = Vec::new();
    let mut i: usize = 0;
    while i < orders.len()
        invariant
            i <= orders@.len(),
            ps == position_views(positions@),
            os == order_views(orders@),
            reasons@.len() == i,
            possible@.len() == i,
            forall|k: int| 0 <= k < i ==> #[trigger] reasons@[k] == spec_illegal_reason(world_map@, ps, os, k),
            forall|k: int| 0 <= k < i ==> #[trigger] possible@[k] == spec_possible(world_map@, ps, os[k]),
        decreases orders@.len() - i,
    {
        let order = &orders[i];
        proof {
            assert(os[i as int] == order@);
        }
        let here = order.unit_position();
        let present = contains_position(positions, &here);
        let reachable = !order.is_move() || border_passable(world_map, order) || route_may_exist(
            world_map,
            positions,
            order,
        );
        let reason = if !present {
            if region_occupied(positions, &order.region) {
                Some(IllegalOrder::ForeignUnit)
            } else {
                Some(IllegalOrder::NoUnit)
            }
        } else if !reachable {
            // A legal order is an order that, not knowing any other orders yet, is possible.
            // Illegal orders are completely ignored and do not have any influence.
            Some(IllegalOrder::UnreachableDestination)
        } else if possible_before(orders, &possible, i, &here) {
            Some(IllegalOrder::MultipleToSameUnit)
        } else {
            None
        };
        proof {
            assert(reason == spec_illegal_reason(world_map@, ps, os, i as int));
        }
        reasons.push(reason);
        possible.push(present && reachable);
        i = i + 1;
    }
    reasons
}

/// Whether some order before `i` that is flagged in `possible` is addressed to the unit at `p`.
fn possible_before(orders: &Vec<MappedMainOrder>, possible: &Vec<bool>, i: usize, p: &UnitPosition) -> (r: bool)
    requires
        i < orders@.len(),
        possible@.len() == i,
    ensures
        r == exists|j: int|
            0 <= j < i && order_position(#[trigger] order_views(orders@)[j]) == p@ && possible@[j],
{
    let ghost os = order_views(orders@);
    let mut j: usize = 0;
    while j < i
        invariant
            j <= i,
            i < orders@.len(),
            possible@.len() == i,
            os == order_views(orders@),
            forall|k: int| 0 <= k < j ==> !(order_position(#[trigger] os[k]) == p@ && possible@[k]),
        decreases i - j,
    {
        assert(os[j as int] == orders@[j as int]@);
        if possible[j] && orders[j].unit_position().same(p) {
            return true;
        }
        j = j + 1;
    }
    false
}

/// Whether each order is kept for adjudication.
fn kept_flags(orders: &Vec<MappedMainOrder>, reasons: &Vec<Option<IllegalOrder>>) -> (r: Vec<bool>)
    requires
        reasons@.len() == orders@.len(),
    ensures
        r@.len() == orders@.len(),
        forall|i: int|
            0 <= i < orders@.len() ==> #[trigger] r@[i] == spec_kept(
                order_views(orders@),
                reasons@,
                i,
            ),
{
    let mut flags: Vec<bool> = Vec::new();
    let n = orders.len();
    let mut i: usize = 0;
    while i < n
        invariant
            i <= n,
            n == orders@.len(),
            reasons@.len() == n,
            flags@.len() == i,
            forall|k: int| 0 <= k < i ==> #[trigger] flags@[k] == spec_kept(order_views(orders@), reasons@, k),
        decreases n - i,
    {
        flags.push(reasons[i].is_none());
        i = i + 1;
    }
    flags
}

/// Whether some kept order is addressed to the unit at `p`.
fn covered(orders: &Vec<MappedMainOrder>, reasons: &Vec<Option<IllegalOrder>>, kept: &Vec<bool>, p: &UnitPosition) -> (r: bool)
    requires
        reasons@.len() == orders@.len(),
        kept@.len() == orders@.len(),
        forall|i: int|
            0 <= i < orders@.len() ==> #[trigger] kept@[i] == spec_kept(
                order_views(orders@),
                reasons@,
                i,
            ),
    ensures
        r == spec_covered(order_views(orders@), reasons@, p@),
{
    let ghost os = order_views(orders@);
    proof {
        reveal(spec_covered);
    }
    let mut i: usize = 0;
    while i < orders.len()
        invariant
            i <= orders@.len(),
            reasons@.len() == orders@.len(),
            kept@.len() == orders@.len(),
            os == order_views(orders@),
            !spec_covered(os, reasons@, p@) ==> forall|k: int|
                0 <= k < orders@.len() ==> !(spec_kept(os, reasons@, k) && #[trigger] order_position(os[k]) == p@),
            spec_covered(os, reasons@, p@) ==> exists|k: int|
                0 <= k < orders@.len() && spec_kept(os, reasons@, k) && #[trigger] order_position(os[k]) == p@,
            forall|k: int| 0 <= k < orders@.len() ==> #[trigger] kept@[k] == spec_kept(os, reasons@, k),
            forall|k: int|
                0 <= k < i ==> !(spec_kept(os, reasons@, k) && #[trigger] order_position(os[k]) == p@),
        decreases orders@.len() - i,
    {
        assert(os[i as int] == orders@[i as int]@);
        if kept[i] && orders[i].unit_position().same(p) {
            assert(order_position(os[i as int]) == p@);
            return true;
        }
        i = i + 1;
    }
    false
}

/// Hold orders for the units at `positions` that no kept order is addressed to, each unit once.
fn holds_for_uncovered(
    positions: &Vec<UnitPosition>,
    orders: &Vec<MappedMainOrder>,
    reasons: &Vec<Option<IllegalOrder>>,
    kept: &Vec<bool>,
) -> (r: Vec<MappedMainOrder>)
    requires
        reasons@.len() == orders@.len(),
        kept@.len() == orders@.len(),
        forall|i: int|
            0 <= i < orders@.len() ==> #[trigger] kept@[i] == spec_kept(order_views(orders@), reasons@, i),
    ensures
        ({
            let gen = order_views(r@);
            let start = position_views(positions@);
            let subs = order_views(orders@);
            &&& forall|g: int|
                0 <= g < gen.len() ==> exists|k: int|
                    0 <= k < start.len() && #[trigger] gen[g] == hold_for(start[k]) && !spec_covered(
                        subs,
                        reasons@,
                        start[k],
                    )
            &&& forall|k: int|
                0 <= k < start.len() && !spec_covered(subs, reasons@, #[trigger] start[k]) ==> exists|g: int|
                    0 <= g < gen.len() && gen[g] == hold_for(start[k])
            &&& forall|a: int, b: int| 0 <= a < b < gen.len() ==> gen[a] != gen[b]
        }),
{
    let ghost start = position_views(positions@);
    let ghost subs = order_views(orders@);
    let mut gen: Vec<MappedMainOrder> = Vec::new();
    // For each generated hold, the position it was made for; for each position seen, the
    // hold made for it, if it needs one.
    let ghost mut src: Seq<int> = Seq::empty();
    let ghost mut wit: Seq<int> = Seq::empty();
    let mut k: usize = 0;
    while k < positions.len()
        invariant
            k <= positions@.len(),
            start == position_views(positions@),
            subs == order_views(orders@),
            reasons@.len() == orders@.len(),
            kept@.len() == orders@.len(),
            forall|i: int| 0 <= i < orders@.len() ==> #[trigger] kept@[i] == spec_kept(subs, reasons@, i),
            src.len() == gen@.len(),
            wit.len() == k,
            forall|g: int|
                0 <= g < gen@.len() ==> 0 <= #[trigger] src[g] < k && gen@[g]@ == hold_for(start[src[g]])
                    && !spec_covered(subs, reasons@, start[src[g]]),
            forall|j: int|
                0 <= j < k && !spec_covered(subs, reasons@, start[j]) ==> 0 <= #[trigger] wit[j] < gen@.len()
                    && gen@[wit[j]]@ == hold_for(start[j]),
            forall|a: int, b: int| 0 <= a < b < gen@.len() ==> gen@[a]@ != gen@[b]@,
        decreases positions@.len() - k,
    {
        let p = &positions[k];
        assert(start[k as int] == p@);
        let ghost mut w: int = -1int;
        if !covered(orders, reasons, kept, p) {
            let hold = Order::new_from_position(p.copy(), MainCommand::Hold);
            assert(hold@ == hold_for(p@));
            match find_order(&gen, &hold) {
                Some(g) => {
                    proof {
                        w = g as int;
                    }
                },
                None => {
                    let ghost prev = gen@;
                    gen.push(hold);
                    proof {
                        w = prev.len() as int;
                        src = src.push(k as int);
                        assert forall|a: int, b: int| 0 <= a < b < gen@.len() implies gen@[a]@ != gen@[b]@ by {
                            if b < prev.len() {
                                assert(gen@[a] == prev[a] && gen@[b] == prev[b]);
                            } else {
                                assert(gen@[a] == prev[a]);
                            }
                        }
                        assert forall|g: int| 0 <= g < gen@.len() implies 0 <= #[trigger] src[g] < k + 1
                            && gen@[g]@ == hold_for(start[src[g]]) && !spec_covered(
                            subs,
                            reasons@,
                            start[src[g]],
                        ) by {
                            if g < prev.len() {
                                assert(gen@[g] == prev[g]);
                            }
                        }
                    }
                },
            }
        }
        proof {
            let ghost old_wit = wit;
            wit = wit.push(w);
            assert forall|j: int|
                0 <= j < k + 1 && !spec_covered(subs, reasons@, start[j]) implies 0 <= #[trigger] wit[j]
                < gen@.len() && gen@[wit[j]]@ == hold_for(start[j]) by {
                if j < k {
                    assert(wit[j] == old_wit[j]);
                }
            }
        }
        k = k + 1;
    }
    proof {
        let genv = order_views(gen@);
        assert forall|g: int| 0 <= g < genv.len() implies exists|j: int|
            0 <= j < start.len() && #[trigger] genv[g] == hold_for(start[j]) && !spec_covered(
                subs,
                reasons@,
                start[j],
            ) by {
            assert(genv[g] == gen@[g]@);
            assert(genv[g] == hold_for(start[src[g]]));
        }
        assert forall|j: int|
            0 <= j < start.len() && !spec_covered(subs, reasons@, #[trigger] start[j]) implies exists|g: int|
            0 <= g < genv.len() && genv[g] == hold_for(start[j]) by {
            assert(genv[wit[j]] == gen@[wit[j]]@);
        }
        assert forall|a: int, b: int| 0 <= a < b < genv.len() implies genv[a] != genv[b] by {
            assert(genv[a] == gen@[a]@ && genv[b] == gen@[b]@);
        }
    }
    gen
}

/// The position of the first of `orders` equal to `o`, if any.
fn find_order(orders: &Vec<MappedMainOrder>, o: &MappedMainOrder) -> (r: Option<usize>)
    ensures
        match r {
            Some(g) => g < orders@.len() && orders@[g as int]@ == o@,
            None => forall|g: int| 0 <= g < orders@.len() ==> #[trigger] orders@[g]@ != o@,
        },
{
    let mut i: usize = 0;
    while i < orders.len()
        invariant
            i <= orders@.len(),
            forall|g: int| 0 <= g < i ==> #[trigger] orders@[g]@ != o@,
        decreases orders@.len() - i,
    {
        if orders[i].same(o) {
            return Some(i);
        }
        i = i + 1;
    }
    None
}

} // verus!
