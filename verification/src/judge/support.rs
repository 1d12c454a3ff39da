//! Helper functions for evaluating the success of support commands
//! during the main phase of a turn.
use super::calc::{moves_into, spec_dest_occupiable, spec_direct_route, path_exists, spec_path};
use super::resolver::{kept, ready, settled, Context, ResolverState};
use super::MappedMainOrder;
use crate::geo::map::borders_between_province;
use crate::geo::{MapView, RegionName, Terrain, WorldMap};
use crate::unit::UnitType;
use crate::order::main_phase::{spec_support_matches, spec_supported_is_legal};
use crate::order::{Command, MainCommand, MainOrderView, SupportedOrder};
use crate::unit::spec_can_occupy;
use vstd::prelude::*;

verus! {

/// Whether the order at `c` could cut the support `s`: it is a move into the supporter's
/// province by a unit of another nation.
pub open spec fn spec_may_cut(s: MainOrderView, c: MainOrderView) -> bool {
    moves_into(c, s.region.0) && s.nation != c.nation
}

/// Whether the cutting order `c` comes from the province that the support `s` helps a move into.
pub open spec fn spec_cutter_is_target(s: MainOrderView, c: MainOrderView) -> bool {
    match s.command {
        MainCommand::Support(SupportedOrder::Move(_, _, dst)) => c.region.0 == dst.0,
        _ => false,
    }
}

/// Whether the order at `c` certainly cuts the support `s`: it may cut it, does not come from
/// the province the support helps a move into, and can travel directly.
pub open spec fn spec_surely_cuts(m: MapView, s: MainOrderView, c: MainOrderView) -> bool {
    &&& spec_may_cut(s, c)
    &&& !spec_cutter_is_target(s, c)
    &&& spec_dest_occupiable(m, c)
    &&& spec_direct_route(m, c)
}

/// The province where a support order's help is needed: the destination of a supported move,
/// or the region of a supported hold.
pub open spec fn spec_needed_at(s: MainOrderView) -> Option<Seq<char>> {
    match s.command {
        MainCommand::Support(SupportedOrder::Move(_, _, dest)) => Some(dest.0),
        MainCommand::Support(SupportedOrder::Hold(_, target)) => Some(target.0),
        _ => None,
    }
}

/// Whether a support order's unit can cross some border from its region into the province
/// where help is needed.
pub open spec fn spec_can_reach(m: MapView, s: MainOrderView) -> bool {
    match spec_needed_at(s) {
        Some(p) => some_passable(borders_between_province(m, s.region, p), s.unit_type),
        None => false,
    }
}

/// Whether a unit of type `u` can cross some of the borders `bs`.
pub open spec fn some_passable(bs: Seq<(RegionName, RegionName, Terrain)>, u: UnitType) -> bool {
    exists|k: int| 0 <= k < bs.len() && spec_can_occupy(u, #[trigger] bs[k].2)
}

/// Whether a support order helps in a province other than its own.
pub open spec fn spec_support_legal(s: MainOrderView) -> bool {
    match spec_needed_at(s) {
        Some(p) => p != s.region.0,
        None => false,
    }
}

/// Whether a support order is a hold support for a unit in its own province.
pub open spec fn spec_supporting_self(s: MainOrderView) -> bool {
    match s.command {
        MainCommand::Support(SupportedOrder::Hold(_, loc)) => loc.0 == s.region.0,
        _ => false,
    }
}

/// Whether the support order `s` applies to the order `o`: it is legal, it declares a legal
/// order that describes `o`, and its unit can reach the province where help is needed.
pub open spec fn spec_support_applies(m: MapView, s: MainOrderView, o: MainOrderView) -> bool {
    &&& s.command matches MainCommand::Support(b)
    &&& spec_support_legal(s)
    &&& spec_supported_is_legal(b)
    &&& spec_support_matches(b, o)
    &&& spec_can_reach(m, s)
}

/// Whether the move at `c` cuts the support at `s`, by a resolver state `rs` that knows every
/// order: it may cut it, it has a path, and it is not an attack from the province the support
/// helps a move into that fails.
pub open spec fn spec_cuts(m: MapView, orders: Seq<MainOrderView>, rs: ResolverState, s: int, c: int) -> bool {
    &&& spec_may_cut(orders[s], orders[c])
    &&& !(spec_cutter_is_target(orders[s], orders[c]) && !rs.holds_success(c))
    &&& spec_path(m, orders, rs, c)
}

fn order_cuts(context: &Context, resolver: &mut ResolverState, support_order: usize, cutting_order: usize) -> (r: bool)
    requires
        ready(context, old(resolver)),
        support_order < context.spec_orders().len(),
        cutting_order < context.spec_orders().len(),
    ensures
        kept(context, old(resolver), final(resolver)),
        r ==> spec_may_cut(
            context.spec_orders()[support_order as int],
            context.spec_orders()[cutting_order as int],
        ),
        spec_surely_cuts(
            context.world_map@,
            context.spec_orders()[support_order as int],
            context.spec_orders()[cutting_order as int],
        ) ==> r,
        settled(context, old(resolver)) ==> *final(resolver) == *old(resolver) && r == spec_cuts(
            context.world_map@,
            context.spec_orders(),
            *old(resolver),
            support_order as int,
            cutting_order as int,
        ),
    decreases old(resolver).budget(), 5int,
{
    let sup = context.order(support_order);
    let cut = context.order(cutting_order);
    // Only moves can cut support
    match cut.command.move_dest() {
        Some(dst) => {
            // If the cutting order is attacking somebody else, it can't cut this support
            if !dst.in_province(sup.region.province()) {
                return false;
            }
            // Units cannot cut support provided by their countrymen
            if sup.nation.same(&cut.nation) {
                return false;
            }
            // If the supported order is attacking the cutting order's province, then
            // support is only cut if the cutting order dislodges the supporter. The cutting
            // order is resolved only in this precise case to minimize cycle risks.
            let is_supporter_immune = match &sup.command {
                MainCommand::Support(SupportedOrder::Move(_, _, supported_dst)) => {
                    if cut.region.same_province(supported_dst) {
                        !resolver.resolve(context, cutting_order).is_success()
                    } else {
                        false
                    }
                },
                _ => false,
            };
            if is_supporter_immune {
                return false;
            }
            // The Szykman rule deals with paradoxes created by convoying support cuts.
            path_exists(context, resolver, cutting_order)
        },
        None => false,
    }
}

/// Find the first order which cuts a specified support order.
pub fn find_cutting_order(context: &Context, resolver: &mut ResolverState, support_order: usize) -> (r: Option<usize>)
    requires
        ready(context, old(resolver)),
        support_order < context.spec_orders().len(),
    ensures
        kept(context, old(resolver), final(resolver)),
        match r {
            Some(c) => c < context.spec_orders().len() && spec_may_cut(
                context.spec_orders()[support_order as int],
                context.spec_orders()[c as int],
            ) && forall|j: int|
                0 <= j < c ==> !spec_surely_cuts(
                    context.world_map@,
                    context.spec_orders()[support_order as int],
                    #[trigger] context.spec_orders()[j],
                ),
            None => forall|j: int|
                0 <= j < context.spec_orders().len() ==> !spec_surely_cuts(
                    context.world_map@,
                    context.spec_orders()[support_order as int],
                    #[trigger] context.spec_orders()[j],
                ),
        },
        settled(context, old(resolver)) ==> *final(resolver) == *old(resolver) && match r {
            Some(c) => spec_cuts(context.world_map@, context.spec_orders(), *old(resolver), support_order as int, c as int)
                && forall|j: int|
                0 <= j < c ==> !#[trigger] spec_cuts(
                    context.world_map@,
                    context.spec_orders(),
                    *old(resolver),
                    support_order as int,
                    j,
                ),
            None => forall|j: int|
                0 <= j < context.spec_orders().len() ==> !#[trigger] spec_cuts(
                    context.world_map@,
                    context.spec_orders(),
                    *old(resolver),
                    support_order as int,
                    j,
                ),
        },
    decreases old(resolver).budget(), 6int,
{
    let n = context.len();
    let mut i: usize = 0;
    while i < n
        invariant
            i <= n,
            n == context.spec_orders().len(),
            support_order < n,
            ready(context, resolver),
            resolver.budget() == old(resolver).budget(),
            forall|j: int|
                0 <= j < i ==> !spec_surely_cuts(
                    context.world_map@,
                    context.spec_orders()[support_order as int],
                    #[trigger] context.spec_orders()[j],
                ),
            settled(context, old(resolver)) ==> *resolver == *old(resolver) && forall|j: int|
                0 <= j < i ==> !#[trigger] spec_cuts(
                    context.world_map@,
                    context.spec_orders(),
                    *old(resolver),
                    support_order as int,
                    j,
                ),
        decreases n - i,
    {
        if order_cuts(context, resolver, support_order, i) {
            return Some(i);
        }
        i = i + 1;
    }
    None
}

/// A SUPPORT decision of a unit ordered to support results in 'cut' when:
/// At least one of the units ordered to move to the area of the supporting unit
/// has a minimum ATTACK STRENGTH of one or more. Again, if the support order is
/// a move support, then the unit that is on the area where the move is directed,
/// should not be taken into account.
///
/// This method short-circuits the search after any hit has been found.
pub fn is_order_cut(context: &Context, resolver: &mut ResolverState, support_order: usize) -> (r: bool)
    requires
        ready(context, old(resolver)),
        support_order < context.spec_orders().len(),
    ensures
        kept(context, old(resolver), final(resolver)),
        r ==> exists|c: int|
            0 <= c < context.spec_orders().len() && spec_may_cut(
                context.spec_orders()[support_order as int],
                #[trigger] context.spec_orders()[c],
            ),
        !r ==> forall|j: int|
            0 <= j < context.spec_orders().len() ==> !spec_surely_cuts(
                context.world_map@,
                context.spec_orders()[support_order as int],
                #[trigger] context.spec_orders()[j],
            ),
        settled(context, old(resolver)) ==> *final(resolver) == *old(resolver) && (r <==> exists|c: int|
            0 <= c < context.spec_orders().len() && #[trigger] spec_cuts(
                context.world_map@,
                context.spec_orders(),
                *old(resolver),
                support_order as int,
                c,
            )),
{
    match find_cutting_order(context, resolver, support_order) {
        Some(c) => {
            assert(spec_may_cut(
                context.spec_orders()[support_order as int],
                context.spec_orders()[c as int],
            ));
            true
        },
        None => false,
    }
}

/// Whether a support order is a hold support for a unit in its own province.
pub fn is_supporting_self(support_order: &MappedMainOrder) -> (r: bool)
    ensures
        r == spec_supporting_self(support_order@),
{
    match &support_order.command {
        MainCommand::Support(SupportedOrder::Hold(_, loc)) => loc.same_province(&support_order.region),
        _ => false,
    }
}

/// Determines if a support order can reach the province where it is needed.
/// This requires a border from the unit's current region to the province
/// where support is needed.
pub fn can_reach(world_map: &WorldMap, support_order: &MappedMainOrder) -> (r: bool)
    ensures
        r == spec_can_reach(world_map@, support_order@),
{
    let needed_at = match &support_order.command {
        MainCommand::Support(SupportedOrder::Move(_, _, dest)) => dest.province(),
        MainCommand::Support(SupportedOrder::Hold(_, target)) => target.province(),
        _ => {
            return false;
        },
    };
    let borders = world_map.find_borders_between(&support_order.region, needed_at);
    let ghost bs = borders_between_province(world_map@, support_order@.region, needed_at@);
    let mut i: usize = 0;
    while i < borders.len()
        invariant
            i <= borders@.len(),
            borders@.map_values(|b: &crate::geo::Border| b@) == bs,
            bs == borders_between_province(world_map@, support_order@.region, needed_at@),
            spec_needed_at(support_order@) == Some(needed_at@),
            forall|k: int| 0 <= k < i ==> !spec_can_occupy(support_order.unit_type, #[trigger] bs[k].2),
        decreases borders@.len() - i,
    {
        if borders[i].is_passable_by(support_order.unit_type) {
            proof {
                assert(bs[i as int] == borders@[i as int]@);
                assert(spec_can_occupy(support_order.unit_type, bs[i as int].2));
                assert(0 <= i < bs.len());
                assert(some_passable(bs, support_order.unit_type));
            }
            return true;
        }
        proof {
            assert(bs[i as int] == borders@[i as int]@);
        }
        i = i + 1;
    }
    false
}

/// Returns true if an order is a legal support order.
fn is_legal(support_order: &MappedMainOrder) -> (r: bool)
    ensures
        r == spec_support_legal(support_order@),
{
    match &support_order.command {
        MainCommand::Support(SupportedOrder::Hold(_, tgt)) => !tgt.same_province(&support_order.region),
        // A support targeting its own area is not allowed.
        MainCommand::Support(SupportedOrder::Move(_, _, dst)) => !dst.same_province(&support_order.region),
        _ => false,
    }
}

/// Returns true if a given support order successfully supports the specified supported order:
/// the support applies to it and the resolver finds the support order successful.
pub fn is_successful(
    context: &Context,
    resolver: &mut ResolverState,
    supported: &MappedMainOrder,
    support_order: usize,
) -> (r: bool)
    requires
        ready(context, old(resolver)),
        support_order < context.spec_orders().len(),
    ensures
        kept(context, old(resolver), final(resolver)),
        r == (spec_support_applies(
            context.world_map@,
            context.spec_orders()[support_order as int],
            supported@,
        ) && final(resolver).holds_success(support_order as int)),
        settled(context, old(resolver)) ==> *final(resolver) == *old(resolver),
    decreases old(resolver).budget(), 1int,
{
    let sup = context.order(support_order);
    match &sup.command {
        MainCommand::Support(beneficiary) => {
            if is_legal(sup) && beneficiary.is_legal() && beneficiary.matches_order(supported)
                && can_reach(context.world_map, sup) {
                resolver.resolve(context, support_order).is_success()
            } else {
                false
            }
        },
        _ => false,
    }
}

/// The orders that give successful support to the order at `i`, by a resolver state `rs`
/// that knows every order: those whose support applies to it and that `rs` holds
/// successful, in order.
pub open spec fn spec_supporters(m: MapView, orders: Seq<MainOrderView>, rs: ResolverState, i: int) -> Seq<usize> {
    Seq::new(orders.len(), |j: int| j as usize).filter(
        |x: usize| spec_support_applies(m, orders[x as int], orders[i]) && rs.holds_success(x as int),
    )
}

/// Finds all successful orders which support the order at `supported`, in order.
pub fn find_for(context: &Context, resolver: &mut ResolverState, supported: usize) -> (r: Vec<usize>)
    requires
        ready(context, old(resolver)),
        supported < context.spec_orders().len(),
    ensures
        kept(context, old(resolver), final(resolver)),
        r@.len() <= context.spec_orders().len(),
        forall|k: int| 0 <= k < r@.len() ==> #[trigger] r@[k] < context.spec_orders().len(),
        forall|k: int|
            0 <= k < r@.len() ==> spec_support_applies(
                context.world_map@,
                #[trigger] context.spec_orders()[r@[k] as int],
                context.spec_orders()[supported as int],
            ),
        forall|a: int, b: int| 0 <= a < b < r@.len() ==> r@[a] < r@[b],
        settled(context, old(resolver)) ==> *final(resolver) == *old(resolver) && forall|i: int|
            0 <= i < context.spec_orders().len() ==> (r@.contains(i as usize) <==> spec_support_applies(
                context.world_map@,
                #[trigger] context.spec_orders()[i],
                context.spec_orders()[supported as int],
            ) && old(resolver).holds_success(i)),
        settled(context, old(resolver)) ==> r@ == spec_supporters(
            context.world_map@,
            context.spec_orders(),
            *old(resolver),
            supported as int,
        ),
    decreases old(resolver).budget(), 2int,
{
    let mut res: Vec<usize> = Vec::new();
    let n = context.len();
    let ghost orders = context.spec_orders();
    let ghost all = Seq::new(orders.len(), |j: int| j as usize);
    let ghost pred = |x: usize|
        spec_support_applies(context.world_map@, orders[x as int], orders[supported as int]) && old(
            resolver,
        ).holds_success(x as int);
    let mut i: usize = 0;
    while i < n
        invariant
            i <= n,
            n == context.spec_orders().len(),
            supported < n,
            ready(context, resolver),
            resolver.budget() == old(resolver).budget(),
            forall|k: int| 0 <= k < res@.len() ==> #[trigger] res@[k] < i,
            forall|k: int|
                0 <= k < res@.len() ==> spec_support_applies(
                    context.world_map@,
                    #[trigger] context.spec_orders()[res@[k] as int],
                    context.spec_orders()[supported as int],
                ),
            forall|a: int, b: int| 0 <= a < b < res@.len() ==> res@[a] < res@[b],
            settled(context, old(resolver)) ==> *resolver == *old(resolver) && forall|j: int|
                0 <= j < i ==> (res@.contains(j as usize) <==> spec_support_applies(
                    context.world_map@,
                    #[trigger] context.spec_orders()[j],
                    context.spec_orders()[supported as int],
                ) && old(resolver).holds_success(j)),
            orders == context.spec_orders(),
            all == Seq::new(orders.len(), |j: int| j as usize),
            forall|x: usize| #[trigger] pred(x) == (spec_support_applies(
                context.world_map@,
                orders[x as int],
                orders[supported as int],
            ) && old(resolver).holds_success(x as int)),
            settled(context, old(resolver)) ==> res@ == all.take(i as int).filter(pred),
        decreases n - i,
    {
        let ghost prev = res@;
        proof {
            crate::lemmas::lemma_filter_step(all, i as int, pred);
            assert(all[i as int] == i);
        }
        if is_successful(context, resolver, context.order(supported), i) {
            res.push(i);
            proof {
                if settled(context, old(resolver)) {
                    assert forall|j: int| 0 <= j < i + 1 implies (res@.contains(j as usize) <==> spec_support_applies(
                        context.world_map@,
                        #[trigger] context.spec_orders()[j],
                        context.spec_orders()[supported as int],
                    ) && old(resolver).holds_success(j)) by {
                        if j < i {
                            if res@.contains(j as usize) {
                                let k = choose|k: int| 0 <= k < res@.len() && res@[k] == j as usize;
                                if k < prev.len() {
                                    assert(prev[k] == j as usize);
                                    assert(prev.contains(j as usize));
                                }
                            }
                            if prev.contains(j as usize) {
                                let k = choose|k: int| 0 <= k < prev.len() && prev[k] == j as usize;
                                assert(res@[k] == j as usize);
                            }
                        } else {
                            assert(res@[prev.len() as int] == i);
                        }
                    }
                }
                assert forall|k: int| 0 <= k < res@.len() implies #[trigger] res@[k] < i + 1 by {
                    if k < prev.len() {
                        assert(res@[k] == prev[k]);
                    }
                }
                assert forall|k: int| 0 <= k < res@.len() implies spec_support_applies(
                    context.world_map@,
                    #[trigger] context.spec_orders()[res@[k] as int],
                    context.spec_orders()[supported as int],
                ) by {
                    if k < prev.len() {
                        assert(res@[k] == prev[k]);
                        assert(spec_support_applies(
                            context.world_map@,
                            context.spec_orders()[prev[k] as int],
                            context.spec_orders()[supported as int],
                        ));
                    }
                }
                assert forall|a: int, b: int| 0 <= a < b < res@.len() implies res@[a] < res@[b] by {
                    if b < prev.len() {
                        assert(res@[a] == prev[a] && res@[b] == prev[b]);
                    } else {
                        assert(res@[a] == prev[a]);
                    }
                }
            }
        } else {
            proof {
                if res@.contains(i) {
                    let k = choose|k: int| 0 <= k < res@.len() && res@[k] == i;
                    assert(res@[k] < i);
                }
            }
        }
        i = i + 1;
    }
    proof {
        assert(res@.no_duplicates()) by {
            assert forall|a: int, b: int| 0 <= a < res@.len() && 0 <= b < res@.len() && a != b implies res@[a]
                != res@[b] by {
                if a < b {
                } else {
                }
            }
        }
        crate::lemmas::lemma_distinct_bounded(res@, n as nat);
        assert(all.take(n as int) =~= all);
        assert(pred =~= (|x: usize|
            spec_support_applies(context.world_map@, orders[x as int], orders[supported as int]) && old(
                resolver,
            ).holds_success(x as int)));
    }
    res
}

} // verus!
