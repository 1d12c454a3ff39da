use super::convoy::{is_convoy_route, route_exists, spec_successful_route_exists};
use crate::unit::UnitType;
use super::resolver::{kept, ready, settled, Context, ResolverState};
use super::state_type::OrderState;
use super::strength::{Prevent, Strength};
use super::support;
use super::support::{spec_support_applies, spec_supporters};
use crate::geo::map::{first_border_between, first_region_with_key};
use crate::geo::{MapView, ProvinceKey, RegionName};
use crate::order::{Command, MainCommand, MainOrderView, Model};
use crate::unit::spec_can_occupy;
use vstd::prelude::*;

verus! {

/// The destination of a main-phase order, for moves.
pub open spec fn move_dest_of(o: MainOrderView) -> Option<RegionName> {
    match o.command {
        MainCommand::Move(m) => Some(m.dest),
        _ => None,
    }
}

/// The province a move goes to.
pub open spec fn dest_province(o: MainOrderView) -> Seq<char> {
    match move_dest_of(o) {
        Some(d) => d.0,
        None => Seq::empty(),
    }
}

/// Whether a main-phase order is a move into province `p`.
pub open spec fn moves_into(o: MainOrderView, p: Seq<char>) -> bool {
    match move_dest_of(o) {
        Some(d) => d.0 == p,
        None => false,
    }
}

/// Whether the destination of a move exists on the map and the unit can stand there.
pub open spec fn spec_dest_occupiable(m: MapView, o: MainOrderView) -> bool {
    match o.command {
        MainCommand::Move(cmd) => match first_region_with_key(m, cmd.dest) {
            Some(i) => spec_can_occupy(o.unit_type, m.regions[i].2),
            None => false,
        },
        _ => false,
    }
}

/// Whether a move may travel directly: it does not demand a convoy, and the first border
/// between its region and its destination is one the unit can cross.
pub open spec fn spec_direct_route(m: MapView, o: MainOrderView) -> bool {
    match o.command {
        MainCommand::Move(cmd) => cmd.use_convoy != Some(true) && match first_border_between(
            m,
            o.region,
            cmd.dest,
        ) {
            Some(i) => spec_can_occupy(o.unit_type, m.borders[i].2),
            None => false,
        },
        _ => false,
    }
}

/// Whether some convoy route of convoy orders for the move at `mv` exists in the context.
pub open spec fn spec_convoy_route_exists(m: MapView, orders: Seq<MainOrderView>, mv: int) -> bool {
    exists|q: Seq<usize>| is_convoy_route(m, orders, mv, q)
}

/// Two moves are mirrored when each goes to the other's province and the first does not stay
/// in its own region.
pub open spec fn spec_mirrored(o1: MainOrderView, o2: MainOrderView) -> bool {
    &&& move_dest_of(o1) != Some(o1.region)
    &&& moves_into(o1, o2.region.0)
    &&& moves_into(o2, o1.region.0)
}

/// Every order a prevent refers to lies in a context of `n` orders, and its supporters are
/// fewer than `n`.
pub open spec fn prevent_in_range(p: Prevent<usize>, n: nat) -> bool {
    match p {
        Prevent::Prevents(o, sups) => o < n && sups@.len() <= n && forall|k: int|
            0 <= k < sups@.len() ==> sups@[k] < n,
        _ => true,
    }
}

/// Whether a resolver state `rs` that knows every order finds a convoy route for the move at
/// `i`: its unit is an army, and some convoy route is made of convoys `rs` holds successful.
pub open spec fn spec_route_ok(m: MapView, orders: Seq<MainOrderView>, rs: ResolverState, i: int) -> bool {
    orders[i].unit_type == UnitType::Army && spec_successful_route_exists(m, orders, rs, i)
}

/// Whether the move at `i` has a path, by a resolver state `rs` that knows every order: its
/// destination can hold the unit, and it may travel directly or by a convoy route.
pub open spec fn spec_path(m: MapView, orders: Seq<MainOrderView>, rs: ResolverState, i: int) -> bool {
    spec_dest_occupiable(m, orders[i]) && (spec_direct_route(m, orders[i]) || spec_route_ok(m, orders, rs, i))
}

/// Whether the moves at `a` and `b` meet head to head, by a resolver state `rs` that knows
/// every order: they are mirrored and neither has a convoy route.
pub open spec fn spec_head_to_head(m: MapView, orders: Seq<MainOrderView>, rs: ResolverState, a: int, b: int) -> bool {
    spec_mirrored(orders[a], orders[b]) && !spec_route_ok(m, orders, rs, a) && !spec_route_ok(m, orders, rs, b)
}

/// Returns true if `order` is a move AND between the source and dest, either:
///
/// 1. A border exists and the order permits direct travel OR
/// 1. A non-disrupted convoy route exists.
pub fn path_exists(context: &Context, resolver: &mut ResolverState, order: usize) -> (r: bool)
    requires
        ready(context, old(resolver)),
        order < context.spec_orders().len(),
    ensures
        kept(context, old(resolver), final(resolver)),
        r ==> spec_dest_occupiable(context.world_map@, context.spec_orders()[order as int]) && (
        spec_direct_route(context.world_map@, context.spec_orders()[order as int])
            || spec_convoy_route_exists(
            context.world_map@,
            context.spec_orders(),
            order as int,
        )),
        spec_dest_occupiable(context.world_map@, context.spec_orders()[order as int])
            && spec_direct_route(context.world_map@, context.spec_orders()[order as int]) ==> r,
        settled(context, old(resolver)) ==> *final(resolver) == *old(resolver) && r == spec_path(
            context.world_map@,
            context.spec_orders(),
            *old(resolver),
            order as int,
        ),
    decreases old(resolver).budget(), 4int,
{
    let ord = context.order(order);
    if let MainCommand::Move(cmd) = &ord.command {
        let dst = &cmd.dest;
        if let Some(reg) = context.world_map.find_region_key(dst) {
            if ord.unit_type.can_occupy(reg.terrain()) {
                // If the move order allows direct travel, look for a border that would support
                // direct movement.
                let can_travel_directly = !cmd.mandates_convoy() && match context.world_map.find_border_between(
                    &ord.region,
                    dst,
                ) {
                    Some(b) => b.is_passable_by(ord.unit_type),
                    None => false,
                };
                // This short-circuits convoy assessment when there is an acceptable direct
                // route, as that affects how resolution works.
                return can_travel_directly || route_exists(context, resolver, order);
            }
        }
    }
    false
}

/// Two orders form a head-to-head battle when they are mirrored moves and no convoy exists to
/// ferry one of the armies around the other one.
pub fn is_head_to_head(context: &Context, resolver: &mut ResolverState, order1: usize, order2: usize) -> (r: bool)
    requires
        ready(context, old(resolver)),
        order1 < context.spec_orders().len(),
        order2 < context.spec_orders().len(),
    ensures
        kept(context, old(resolver), final(resolver)),
        r ==> spec_mirrored(context.spec_orders()[order1 as int], context.spec_orders()[order2 as int]),
        spec_mirrored(context.spec_orders()[order1 as int], context.spec_orders()[order2 as int])
            && !r ==> spec_convoy_route_exists(context.world_map@, context.spec_orders(), order1 as int)
            || spec_convoy_route_exists(context.world_map@, context.spec_orders(), order2 as int),
        settled(context, old(resolver)) ==> *final(resolver) == *old(resolver) && r == spec_head_to_head(
            context.world_map@,
            context.spec_orders(),
            *old(resolver),
            order1 as int,
            order2 as int,
        ),
    decreases old(resolver).budget(), 4int,
{
    let o1 = context.order(order1);
    let o2 = context.order(order2);
    let mirrored = match (o1.command.move_dest(), o2.command.move_dest()) {
        (Some(d1), Some(d2)) => !d1.same(&o1.region) && d1.same_province(&o2.region)
            && d2.same_province(&o1.region),
        _ => false,
    };
    // Then check to see if a convoy route enables the two to avoid head-to-head battle
    mirrored && !route_exists(context, resolver, order1) && !route_exists(context, resolver, order2)
}

/// The first order in a head-to-head battle with the move at `k`, by a resolver state `rs`
/// that knows every order.
pub open spec fn spec_first_h2h(m: MapView, orders: Seq<MainOrderView>, rs: ResolverState, k: int) -> Option<int> {
    if exists|i: int| 0 <= i < orders.len() && #[trigger] spec_head_to_head(m, orders, rs, i, k) {
        Some(
            choose|i: int|
                0 <= i < orders.len() && spec_head_to_head(m, orders, rs, i, k) && forall|j: int|
                    0 <= j < i ==> !#[trigger] spec_head_to_head(m, orders, rs, j, k),
        )
    } else {
        None
    }
}

/// Whether the move at `k` lost a head-to-head battle, by a resolver state `rs` that knows
/// every order: its first head-to-head opponent succeeds.
pub open spec fn spec_lost_h2h(m: MapView, orders: Seq<MainOrderView>, rs: ResolverState, k: int) -> bool {
    spec_first_h2h(m, orders, rs, k) matches Some(h) && rs.holds_success(h)
}

/// What the move at `k` does to keep other units out of its destination, by a resolver state
/// `rs` that knows every order: nothing if it is no move; no path; a lost head-to-head; or a
/// prevent with the orders that successfully support it.
pub open spec fn spec_prevent_fits(
    m: MapView,
    orders: Seq<MainOrderView>,
    rs: ResolverState,
    k: int,
    p: Option<Prevent<usize>>,
) -> bool {
    if move_dest_of(orders[k]) is None {
        p is None
    } else if !spec_path(m, orders, rs, k) {
        p == Some(Prevent::<usize>::NoPath)
    } else if spec_lost_h2h(m, orders, rs, k) {
        p == Some(Prevent::<usize>::LostHeadToHead)
    } else {
        p matches Some(Prevent::Prevents(o, sups)) && o == k && sups@ == spec_supporters(m, orders, rs, k)
    }
}

/// The prevent strength of the move at `k`, by a resolver state `rs` that knows every order:
/// one plus its successful supports, or nothing if it has no path or lost a head-to-head.
pub open spec fn spec_prevent_strength(m: MapView, orders: Seq<MainOrderView>, rs: ResolverState, k: int) -> nat {
    if move_dest_of(orders[k]) is None || !spec_path(m, orders, rs, k) || spec_lost_h2h(m, orders, rs, k) {
        0
    } else {
        1 + spec_supporters(m, orders, rs, k).len()
    }
}

proof fn lemma_first_h2h(m: MapView, orders: Seq<MainOrderView>, rs: ResolverState, k: int, i: int)
    requires
        0 <= i < orders.len(),
        spec_head_to_head(m, orders, rs, i, k),
        forall|j: int| 0 <= j < i ==> !#[trigger] spec_head_to_head(m, orders, rs, j, k),
    ensures
        spec_first_h2h(m, orders, rs, k) == Some(i),
{
    let c = choose|c: int|
        0 <= c < orders.len() && spec_head_to_head(m, orders, rs, c, k) && forall|j: int|
            0 <= j < c ==> !#[trigger] spec_head_to_head(m, orders, rs, j, k);
    if c < i {
        assert(!spec_head_to_head(m, orders, rs, c, k));
    } else if c > i {
        assert(!spec_head_to_head(m, orders, rs, i, k));
    }
}

fn prevent_result(context: &Context, resolver: &mut ResolverState, order: usize) -> (r: Option<Prevent<usize>>)
    requires
        ready(context, old(resolver)),
        order < context.spec_orders().len(),
    ensures
        kept(context, old(resolver), final(resolver)),
        (r is None) == (move_dest_of(context.spec_orders()[order as int]) is None),
        r matches Some(p) ==> prevent_in_range(p, context.spec_orders().len()),
        r matches Some(Prevent::Prevents(o, _)) ==> o == order,
        r matches Some(Prevent::NoPath) ==> !(spec_dest_occupiable(context.world_map@, context.spec_orders()[order as int])
            && spec_direct_route(context.world_map@, context.spec_orders()[order as int])),
        r matches Some(Prevent::Prevents(_, sups)) ==> forall|k: int|
            0 <= k < sups@.len() ==> spec_support_applies(
                context.world_map@,
                #[trigger] context.spec_orders()[sups@[k] as int],
                context.spec_orders()[order as int],
            ),
        settled(context, old(resolver)) ==> *final(resolver) == *old(resolver) && spec_prevent_fits(
            context.world_map@,
            context.spec_orders(),
            *old(resolver),
            order as int,
            r,
        ),
    decreases old(resolver).budget(), 5int,
{
    if context.order(order).is_move() {
        if !path_exists(context, resolver, order) {
            Some(Prevent::NoPath)
        } else {
            // A unit that lost a head-to-head cannot prevent.
            let n = context.len();
            let mut h2h: Option<usize> = None;
            let mut i: usize = 0;
            while i < n
                invariant_except_break
                    h2h is None,
                invariant
                    i <= n,
                    n == context.spec_orders().len(),
                    ready(context, resolver),
                    resolver.budget() == old(resolver).budget(),
                    order < n,
                    settled(context, old(resolver)) ==> *resolver == *old(resolver) && forall|j: int|
                        0 <= j < i ==> !#[trigger] spec_head_to_head(
                            context.world_map@,
                            context.spec_orders(),
                            *old(resolver),
                            j,
                            order as int,
                        ),
                ensures
                    h2h matches Some(k) ==> k < n,
                    ready(context, resolver),
                    resolver.budget() == old(resolver).budget(),
                    settled(context, old(resolver)) ==> *resolver == *old(resolver) && match h2h {
                        Some(k) => spec_first_h2h(context.world_map@, context.spec_orders(), *old(resolver), order as int) == Some(k as int),
                        None => spec_first_h2h(context.world_map@, context.spec_orders(), *old(resolver), order as int) is None,
                    },
                decreases n - i,
            {
                if is_head_to_head(context, resolver, i, order) {
                    h2h = Some(i);
                    proof {
                        if settled(context, old(resolver)) {
                            lemma_first_h2h(context.world_map@, context.spec_orders(), *old(resolver), order as int, i as int);
                        }
                    }
                    break;
                }
                i = i + 1;
            }
            if let Some(k) = h2h {
                if resolver.resolve(context, k).is_success() {
                    return Some(Prevent::LostHeadToHead);
                }
            }
            let sups = support::find_for(context, resolver, order);
            Some(Prevent::Prevents(order, sups))
        }
    } else {
        None
    }
}

/// The positions of the orders that move into province `p`, in order.
pub open spec fn movers_into(orders: Seq<MainOrderView>, p: Seq<char>) -> Seq<int> {
    Seq::new(orders.len(), |i: int| i).filter(|i: int| moves_into(orders[i], p))
}

/// The movers into a province are exactly the orders that move into it.
pub proof fn lemma_movers_into(orders: Seq<MainOrderView>, p: Seq<char>)
    ensures
        forall|k: int|
            0 <= k < movers_into(orders, p).len() ==> 0 <= #[trigger] movers_into(orders, p)[k] < orders.len()
                && moves_into(orders[movers_into(orders, p)[k]], p),
        forall|j: int|
            0 <= j < orders.len() && #[trigger] moves_into(orders[j], p) ==> exists|k: int|
                0 <= k < movers_into(orders, p).len() && movers_into(orders, p)[k] == j,
{
    let all = Seq::new(orders.len(), |i: int| i);
    let pred = |i: int| moves_into(orders[i], p);
    all.filter_lemma(pred);
    assert(movers_into(orders, p) == all.filter(pred));
    assert forall|k: int| 0 <= k < movers_into(orders, p).len() implies 0 <= #[trigger] movers_into(orders, p)[k]
        < orders.len() && moves_into(orders[movers_into(orders, p)[k]], p) by {
        let x = all.filter(pred)[k];
        assert(all.filter(pred).contains(x));
        all.lemma_filter_contains_rev(pred, x);
        assert(pred(x));
    }
    assert forall|j: int| 0 <= j < orders.len() && #[trigger] moves_into(orders[j], p) implies exists|k: int|
        0 <= k < movers_into(orders, p).len() && movers_into(orders, p)[k] == j by {
        assert(all[j] == j);
        assert(all.filter(pred).contains(all[j]));
    }
}

/// Get all prevents for a province, with their supporters.
pub fn prevent_results(context: &Context, resolver: &mut ResolverState, province: &ProvinceKey) -> (r: Vec<Prevent<usize>>)
    requires
        ready(context, old(resolver)),
    ensures
        kept(context, old(resolver), final(resolver)),
        r@.len() == movers_into(context.spec_orders(), province@).len(),
        forall|k: int|
            0 <= k < r@.len() ==> (#[trigger] r@[k] matches Prevent::Prevents(o, _) ==> o
                == movers_into(context.spec_orders(), province@)[k]),
        forall|k: int|
            0 <= k < r@.len() ==> (#[trigger] r@[k] matches Prevent::NoPath ==> !(spec_dest_occupiable(
                context.world_map@,
                context.spec_orders()[movers_into(context.spec_orders(), province@)[k]],
            ) && spec_direct_route(
                context.world_map@,
                context.spec_orders()[movers_into(context.spec_orders(), province@)[k]],
            ))),
        forall|k: int| 0 <= k < r@.len() ==> prevent_in_range(r@[k], context.spec_orders().len()),
        forall|k: int|
            0 <= k < r@.len() ==> (#[trigger] r@[k] matches Prevent::Prevents(o, _) ==> moves_into(
                context.spec_orders()[o as int],
                province@,
            )),
        settled(context, old(resolver)) ==> *final(resolver) == *old(resolver) && forall|k: int|
            0 <= k < r@.len() ==> spec_prevent_fits(
                context.world_map@,
                context.spec_orders(),
                *old(resolver),
                movers_into(context.spec_orders(), province@)[k],
                Some(#[trigger] r@[k]),
            ),
{
    let mut res: Vec<Prevent<usize>> = Vec::new();
    let n = context.len();
    let ghost orders = context.spec_orders();
    let ghost all = Seq::new(orders.len(), |i: int| i);
    let ghost pred = |i: int| moves_into(orders[i], province@);
    let mut i: usize = 0;
    while i < n
        invariant
            i <= n,
            n == context.spec_orders().len(),
            orders == context.spec_orders(),
            all == Seq::new(orders.len(), |i: int| i),
            forall|x: int| #[trigger] pred(x) == moves_into(orders[x], province@),
            res@.len() == all.take(i as int).filter(pred).len(),
            forall|k: int| 0 <= k < res@.len() ==> 0 <= #[trigger] all.take(i as int).filter(pred)[k] < i,
            forall|k: int|
                0 <= k < res@.len() ==> (#[trigger] res@[k] matches Prevent::Prevents(o, _) ==> o
                    == all.take(i as int).filter(pred)[k]),
            forall|k: int|
                0 <= k < res@.len() ==> (#[trigger] res@[k] matches Prevent::NoPath ==> !(spec_dest_occupiable(
                    context.world_map@,
                    orders[all.take(i as int).filter(pred)[k]],
                ) && spec_direct_route(context.world_map@, orders[all.take(i as int).filter(pred)[k]]))),
            ready(context, resolver),
            resolver.budget() == old(resolver).budget(),
            forall|k: int| 0 <= k < res@.len() ==> prevent_in_range(res@[k], n as nat),
            forall|k: int|
                0 <= k < res@.len() ==> (#[trigger] res@[k] matches Prevent::Prevents(o, _) ==> moves_into(
                    context.spec_orders()[o as int],
                    province@,
                )),
            settled(context, old(resolver)) ==> *resolver == *old(resolver) && forall|k: int|
                0 <= k < res@.len() ==> spec_prevent_fits(
                    context.world_map@,
                    orders,
                    *old(resolver),
                    all.take(i as int).filter(pred)[k],
                    Some(#[trigger] res@[k]),
                ),
        decreases n - i,
    {
        proof {
            crate::lemmas::lemma_filter_step(all, i as int, pred);
        }
        assert(all[i as int] == i as int);
        let ghost before = all.take(i as int).filter(pred);
        let ghost prev = res@;
        if context.order(i).is_move_to_province(province) {
            assert(pred(i as int));
            if let Some(p) = prevent_result(context, resolver, i) {
                res.push(p);
                proof {
                    let after = all.take(i as int + 1).filter(pred);
                    assert(after == before.push(i as int));
                    if settled(context, old(resolver)) {
                        assert forall|k: int| 0 <= k < res@.len() implies spec_prevent_fits(
                            context.world_map@,
                            orders,
                            *old(resolver),
                            after[k],
                            Some(#[trigger] res@[k]),
                        ) by {
                            if k < prev.len() {
                                assert(res@[k] == prev[k]);
                                assert(after[k] == before[k]);
                            }
                        }
                    }
                    assert forall|k: int| 0 <= k < res@.len() implies 0 <= #[trigger] after[k] < i + 1 by {
                        if k < prev.len() {
                            assert(after[k] == before[k]);
                        }
                    }
                    assert forall|k: int|
                        0 <= k < res@.len() implies (#[trigger] res@[k] matches Prevent::Prevents(o, _) ==> o
                            == after[k]) by {
                        if k < prev.len() {
                            assert(res@[k] == prev[k]);
                            assert(after[k] == before[k]);
                        }
                    }
                    assert forall|k: int|
                        0 <= k < res@.len() implies (#[trigger] res@[k] matches Prevent::NoPath ==> !(
                        spec_dest_occupiable(context.world_map@, orders[after[k]]) && spec_direct_route(
                            context.world_map@,
                            orders[after[k]],
                        ))) by {
                        if k < prev.len() {
                            assert(res@[k] == prev[k]);
                            assert(after[k] == before[k]);
                        }
                    }
                }
            }
        } else {
            assert(!pred(i as int));
        }
        i = i + 1;
    }
    proof {
        assert(all.take(n as int) =~= all);
        assert(pred =~= (|i: int| moves_into(orders[i], province@)));
    }
    res
}

/// The strongest prevent against the move at `pv` among the first `i` orders, by a resolver
/// state `rs` that knows every order, as the position of the preventing move; `-1` stands for
/// a head-to-head opponent that won its battle and so prevents nothing.
pub open spec fn spec_best_prevent(m: MapView, orders: Seq<MainOrderView>, rs: ResolverState, pv: int, i: nat) -> Option<int>
    decreases i,
{
    if i == 0 {
        None
    } else {
        let b = spec_best_prevent(m, orders, rs, pv, (i - 1) as nat);
        let c = i - 1;
        if orders[c] != orders[pv] && moves_into(orders[c], dest_province(orders[pv])) {
            if spec_head_to_head(m, orders, rs, c, pv) && rs.holds_success(c) {
                if b is None {
                    Some(-1)
                } else {
                    b
                }
            } else if spec_prevent_strength(m, orders, rs, c) >= spec_best_strength(m, orders, rs, b) {
                Some(c)
            } else {
                b
            }
        } else {
            b
        }
    }
}

/// The strength of the prevent that `spec_best_prevent` picks.
pub open spec fn spec_best_strength(m: MapView, orders: Seq<MainOrderView>, rs: ResolverState, b: Option<int>) -> nat {
    match b {
        Some(k) => if k >= 0 {
            spec_prevent_strength(m, orders, rs, k)
        } else {
            0
        },
        None => 0,
    }
}

/// Whether `r` is the prevent that `spec_best_prevent` picks.
pub open spec fn spec_best_fits(
    m: MapView,
    orders: Seq<MainOrderView>,
    rs: ResolverState,
    b: Option<int>,
    r: Option<Prevent<usize>>,
) -> bool {
    match b {
        Some(k) => if k >= 0 {
            spec_prevent_fits(m, orders, rs, k, r)
        } else {
            r == Some(Prevent::<usize>::LostHeadToHead)
        },
        None => r is None,
    }
}

/// The strongest prevent against the move at `pv`, by a resolver state `rs` that knows every
/// order.
pub open spec fn spec_max_prevent(m: MapView, orders: Seq<MainOrderView>, rs: ResolverState, pv: int) -> Option<int> {
    if move_dest_of(orders[pv]) is None {
        None
    } else {
        spec_best_prevent(m, orders, rs, pv, orders.len())
    }
}

proof fn lemma_best_step(m: MapView, orders: Seq<MainOrderView>, rs: ResolverState, pv: int, i: nat)
    ensures
        spec_best_prevent(m, orders, rs, pv, i + 1) == {
            let b = spec_best_prevent(m, orders, rs, pv, i);
            if orders[i as int] != orders[pv] && moves_into(orders[i as int], dest_province(orders[pv])) {
                if spec_head_to_head(m, orders, rs, i as int, pv) && rs.holds_success(i as int) {
                    if b is None {
                        Some(-1)
                    } else {
                        b
                    }
                } else if spec_prevent_strength(m, orders, rs, i as int) >= spec_best_strength(m, orders, rs, b) {
                    Some(i as int)
                } else {
                    b
                }
            } else {
                b
            }
        },
{
}

/// The prevent that `spec_best_prevent` picks has the strength it names.
pub proof fn lemma_best_strength(
    m: MapView,
    orders: Seq<MainOrderView>,
    rs: ResolverState,
    b: Option<int>,
    r: Option<Prevent<usize>>,
)
    requires
        spec_best_fits(m, orders, rs, b, r),
    ensures
        r.spec_strength() == spec_best_strength(m, orders, rs, b),
        r matches Some(Prevent::Prevents(o, _)) ==> b == Some(o as int),
{
}

proof fn lemma_prevent_strength(m: MapView, orders: Seq<MainOrderView>, rs: ResolverState, k: int, p: Option<Prevent<usize>>)
    requires
        spec_prevent_fits(m, orders, rs, k, p),
    ensures
        p.spec_strength() == spec_prevent_strength(m, orders, rs, k),
{
}

/// The strongest prevent against the move at `preventing`: among the other moves into its
/// destination province, a head-to-head opponent that wins counts as having lost the battle,
/// and otherwise the last of the strongest prevents is taken.
pub fn max_prevent_result(context: &Context, resolver: &mut ResolverState, preventing: usize) -> (r: Option<Prevent<usize>>)
    requires
        ready(context, old(resolver)),
        preventing < context.spec_orders().len(),
    ensures
        kept(context, old(resolver), final(resolver)),
        move_dest_of(context.spec_orders()[preventing as int]) is None ==> r is None,
        r matches Some(p) ==> prevent_in_range(p, context.spec_orders().len()),
        r matches Some(Prevent::Prevents(o, _)) ==> context.spec_orders()[o as int]
            != context.spec_orders()[preventing as int] && moves_into(
            context.spec_orders()[o as int],
            dest_province(context.spec_orders()[preventing as int]),
        ),
        move_dest_of(context.spec_orders()[preventing as int]) is Some ==> ((r is None) <==> forall|i: int|
            0 <= i < context.spec_orders().len() && #[trigger] context.spec_orders()[i]
                != context.spec_orders()[preventing as int] ==> !moves_into(
                context.spec_orders()[i],
                dest_province(context.spec_orders()[preventing as int]),
            )),
        settled(context, old(resolver)) ==> *final(resolver) == *old(resolver) && spec_best_fits(
            context.world_map@,
            context.spec_orders(),
            *old(resolver),
            spec_max_prevent(context.world_map@, context.spec_orders(), *old(resolver), preventing as int),
            r,
        ),
    decreases old(resolver).budget(), 6int,
{
    let dst = match context.order(preventing).command.move_dest() {
        Some(d) => d.province(),
        None => {
            return None;
        },
    };
    let ghost dp = dst@;
    let mut best_prevent: Option<Prevent<usize>> = None;
    let mut best_prevent_strength: usize = 0;
    let n = context.len();
    let mut i: usize = 0;
    while i < n
        invariant
            i <= n,
            n == context.spec_orders().len(),
            n < usize::MAX,
            preventing < n,
            ready(context, resolver),
            resolver.budget() == old(resolver).budget(),
            dp == dst@,
            move_dest_of(context.spec_orders()[preventing as int]) matches Some(d) && d.0 == dp,
            best_prevent matches Some(p) ==> prevent_in_range(p, n as nat),
            best_prevent matches Some(Prevent::Prevents(o, _)) ==> context.spec_orders()[o as int]
                != context.spec_orders()[preventing as int] && moves_into(
                context.spec_orders()[o as int],
                dp,
            ),
            (best_prevent is None) <==> forall|j: int|
                0 <= j < i && #[trigger] context.spec_orders()[j] != context.spec_orders()[preventing as int]
                    ==> !moves_into(context.spec_orders()[j], dp),
            best_prevent is None ==> best_prevent_strength == 0,
            settled(context, old(resolver)) ==> *resolver == *old(resolver) && spec_best_fits(
                context.world_map@,
                context.spec_orders(),
                *old(resolver),
                spec_best_prevent(context.world_map@, context.spec_orders(), *old(resolver), preventing as int, i as nat),
                best_prevent,
            ) && (best_prevent is None <==> spec_best_prevent(
                context.world_map@,
                context.spec_orders(),
                *old(resolver),
                preventing as int,
                i as nat,
            ) is None) && best_prevent_strength == spec_best_strength(
                context.world_map@,
                context.spec_orders(),
                *old(resolver),
                spec_best_prevent(context.world_map@, context.spec_orders(), *old(resolver), preventing as int, i as nat),
            ),
        decreases n - i,
    {
        proof {
            lemma_best_step(context.world_map@, context.spec_orders(), *old(resolver), preventing as int, i as nat);
        }
        let candidate = !context.order(i).same(context.order(preventing))
            && context.order(i).is_move_to_province(dst);
        assert(candidate == (context.spec_orders()[i as int] != context.spec_orders()[preventing as int]
            && moves_into(context.spec_orders()[i as int], dp)));
        if candidate {
            if is_head_to_head(context, resolver, i, preventing) && resolver.resolve(
                context,
                i,
            ).is_success() {
                if best_prevent.is_none() {
                    best_prevent = Some(Prevent::LostHeadToHead);
                }
            } else if let Some(prev) = prevent_result(context, resolver, i) {
                proof {
                    if settled(context, old(resolver)) {
                        lemma_prevent_strength(context.world_map@, context.spec_orders(), *old(resolver), i as int, Some(prev));
                    }
                }
                let nxt_str = prev.strength();
                if nxt_str >= best_prevent_strength {
                    best_prevent_strength = nxt_str;
                    best_prevent = Some(prev);
                }
            } else {
                proof {
                    assert(false);
                }
            }
        }
        proof {
            assert(dest_province(context.spec_orders()[preventing as int]) == dp);
            if settled(context, old(resolver)) {
                let bn = spec_best_prevent(context.world_map@, context.spec_orders(), *old(resolver), preventing as int, (i + 1) as nat);
                assert(*resolver == *old(resolver));
                assert(best_prevent_strength == spec_best_strength(context.world_map@, context.spec_orders(), *old(resolver), bn));
                assert(spec_best_fits(context.world_map@, context.spec_orders(), *old(resolver), bn, best_prevent));
            }
        }
        i = i + 1;
    }
    best_prevent
}

/// The dislodger that a resolver knowing every order finds for the order at `order`: none if
/// no unit moves into its province, or if the unit itself moves away successfully; else the
/// first successful move into its province, if any.
pub open spec fn spec_settled_dislodger(
    orders: Seq<MainOrderView>,
    rs: ResolverState,
    order: int,
    r: Option<usize>,
) -> bool {
    let p = orders[order].region.0;
    if forall|i: int| 0 <= i < orders.len() ==> !moves_into(#[trigger] orders[i], p) {
        r is None
    } else if move_dest_of(orders[order]) is Some && rs.holds_success(order) {
        r is None
    } else {
        match r {
            Some(d) => moves_into(orders[d as int], p) && rs.holds_success(d as int) && forall|j: int|
                0 <= j < d ==> !(moves_into(#[trigger] orders[j], p) && rs.holds_success(j)),
            None => forall|j: int|
                0 <= j < orders.len() ==> !(moves_into(#[trigger] orders[j], p) && rs.holds_success(j)),
        }
    }
}

/// The dislodger a resolver state finds depends only on what it holds of each order.
pub proof fn lemma_settled_dislodger_same(
    orders: Seq<MainOrderView>,
    a: ResolverState,
    b: ResolverState,
    order: int,
    r: Option<usize>,
)
    requires
        forall|i: int| #[trigger] a.entry(i) == b.entry(i),
    ensures
        spec_settled_dislodger(orders, a, order, r) == spec_settled_dislodger(orders, b, order, r),
{
    assert forall|i: int| #[trigger] a.holds_success(i) == b.holds_success(i) by {
        assert(a.entry(i) == b.entry(i));
    }
}

/// Get the order that dislodges the provided order, if one exists.
///
/// A DISLODGE decision of a unit results in 'dislodged' when:
/// There is a unit with a move order to the area of the unit, for which the
/// MOVE decision has status 'moves' and in case the unit (of the DISLODGE
/// decision) was ordered to move has a MOVE decision with status 'fails'.
pub fn dislodger_of(context: &Context, resolver: &mut ResolverState, order: usize) -> (r: Option<usize>)
    requires
        ready(context, old(resolver)),
        order < context.spec_orders().len(),
    ensures
        kept(context, old(resolver), final(resolver)),
        r matches Some(d) ==> d < context.spec_orders().len() && moves_into(
            context.spec_orders()[d as int],
            context.spec_orders()[order as int].region.0,
        ) && final(resolver).holds_success(d as int),
        (forall|i: int|
            0 <= i < context.spec_orders().len() ==> !moves_into(
                #[trigger] context.spec_orders()[i],
                context.spec_orders()[order as int].region.0,
            )) ==> r is None,
        settled(context, old(resolver)) ==> *final(resolver) == *old(resolver) && spec_settled_dislodger(
            context.spec_orders(),
            *old(resolver),
            order as int,
            r,
        ),
    decreases old(resolver).budget(), 1int,
{
    let n = context.len();
    let ghost orders = context.spec_orders();
    let ghost p = orders[order as int].region.0;
    let mut i: usize = 0;
    while i < n
        invariant
            i <= n,
            n == context.spec_orders().len(),
            orders == context.spec_orders(),
            p == orders[order as int].region.0,
            order < n,
            ready(context, resolver),
            resolver.budget() == old(resolver).budget(),
            settled(context, old(resolver)) ==> *resolver == *old(resolver) && (forall|j: int|
                0 <= j < i ==> !(moves_into(#[trigger] orders[j], p) && old(resolver).holds_success(j)))
                && ((exists|j: int| 0 <= j < i && moves_into(#[trigger] orders[j], p)) ==> !(move_dest_of(
                orders[order as int],
            ) is Some && old(resolver).holds_success(order as int))),
        decreases n - i,
    {
        if context.order(i).is_move_to_province(context.order(order).region.province()) {
            assert(moves_into(orders[i as int], p));
            // If we found someone trying to move into `order`'s old province, we
            // check to see if `order` vacated. If so, then it couldn't have been
            // dislodged. We defer this check to avoid triggering unnecessary resolutions.
            if context.order(order).is_move() && resolver.resolve(context, order).is_success() {
                return None;
            }
            if resolver.resolve(context, i).is_success() {
                return Some(i);
            }
        }
        i = i + 1;
    }
    // If we couldn't find any orders that attempted to move into the province
    // `order` occupied, then there can't be any dislodgers.
    None
}

} // verus!
