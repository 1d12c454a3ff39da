//! The standard rules of main-phase adjudication.
use super::calc::{
    dest_province, dislodger_of, is_head_to_head, max_prevent_result, move_dest_of, moves_into, path_exists,
    prevent_in_range, spec_convoy_route_exists, spec_dest_occupiable, spec_direct_route, spec_settled_dislodger,
    spec_path, spec_head_to_head, spec_max_prevent, spec_best_strength, lemma_best_strength,
};
use super::outcome_types::{AttackOutcome, ConvoyOutcome, HoldOutcome, OrderOutcome, SupportOutcome};
use super::resolver::{kept, ready, settled, Context, ResolverState};
use super::state_type::OrderState;
use super::strength::{Prevent, Strength};
use super::support::{
    can_reach, find_cutting_order, find_for, is_supporting_self, spec_can_reach, spec_may_cut,
    spec_supporting_self, spec_surely_cuts, spec_supporters, spec_cuts,
};
use super::MappedMainOrder;
use crate::geo::map::first_region_with_key;
use crate::geo::{MapView, Terrain};
use crate::nation::Nation;
use crate::order::{MainCommand, MainOrderView};
use vstd::prelude::*;

verus! {

/// Checks if an order will use an offered convoy route.
///
/// Different editions of the rules have different policies on when a convoy is taken.
pub trait WillUseConvoy {
    /// Whether the move `order` takes the convoy route made of the orders `route`.
    spec fn spec_will_use_convoy(&self, order: MainOrderView, route: Seq<MainOrderView>) -> bool;

    /// Whether the move `order` takes the convoy route made of the orders `route`.
    fn will_use_convoy(&self, order: &MappedMainOrder, route: &Vec<&MappedMainOrder>) -> (r: bool)
        ensures
            r == self.spec_will_use_convoy(order@, ref_views(route@)),
    ;
}

/// The models of the orders that the references point to.
pub open spec fn ref_views(v: Seq<&MappedMainOrder>) -> Seq<MainOrderView> {
    v.map_values(|o: &MappedMainOrder| o@)
}

/// When a move that could be convoyed takes the convoy.
#[derive(Debug, Clone, Copy, PartialEq, Eq, Structural)]
pub enum ConvoyUsePolicy {
    /// Any move order that can be convoyed will use a convoy.
    Any,
    /// A convoy will be used if the order explicitly mandates it, or if the convoy route
    /// includes an order from the same nation as the convoyed unit.
    IncludesSameCountry,
    /// A convoy will only be used if the order explicitly mandates it.
    MustBeExplicit,
}

impl WillUseConvoy for ConvoyUsePolicy {
    open spec fn spec_will_use_convoy(&self, order: MainOrderView, route: Seq<MainOrderView>) -> bool {
        match order.command {
            MainCommand::Move(cmd) => {
                // An order that talks about convoys without mandating one never uses one.
                if cmd.use_convoy == Some(false) {
                    false
                } else {
                    match self {
                        ConvoyUsePolicy::Any => true,
                        ConvoyUsePolicy::IncludesSameCountry => cmd.use_convoy == Some(true)
                            || exists|k: int| 0 <= k < route.len() && route[k].nation == order.nation,
                        ConvoyUsePolicy::MustBeExplicit => cmd.use_convoy == Some(true),
                    }
                }
            },
            _ => false,
        }
    }

    fn will_use_convoy(&self, order: &MappedMainOrder, route: &Vec<&MappedMainOrder>) -> (r: bool) {
        let cmd = match &order.command {
            MainCommand::Move(cmd) => cmd,
            _ => {
                return false;
            },
        };
        // If the order talks about convoys and does not mandate use of a convoy,
        // then never use one.
        if cmd.mentions_convoy() && !cmd.mandates_convoy() {
            assert(cmd.use_convoy == Some(false));
            return false;
        }
        match self {
            ConvoyUsePolicy::Any => true,
            ConvoyUsePolicy::IncludesSameCountry => cmd.mandates_convoy() || includes_nation(
                route,
                &order.nation,
            ),
            ConvoyUsePolicy::MustBeExplicit => cmd.mandates_convoy(),
        }
    }
}

/// The editions' convoy policies are ever more willing: a convoy taken under the explicit
/// policy is taken when the route has a unit of the same nation, and one taken then is taken
/// under the policy that takes any convoy; no policy takes a convoy that the order refuses.
pub proof fn lemma_convoy_policies_nest(order: MainOrderView, route: Seq<MainOrderView>)
    ensures
        ConvoyUsePolicy::MustBeExplicit.spec_will_use_convoy(order, route)
            ==> ConvoyUsePolicy::IncludesSameCountry.spec_will_use_convoy(order, route),
        ConvoyUsePolicy::IncludesSameCountry.spec_will_use_convoy(order, route)
            ==> ConvoyUsePolicy::Any.spec_will_use_convoy(order, route),
        (order.command matches MainCommand::Move(cmd) && cmd.use_convoy == Some(false))
            ==> !ConvoyUsePolicy::Any.spec_will_use_convoy(order, route),
{
}

/// Under the policy that looks for the mover's own nation in the route, a move that does not
/// refuse convoys takes a route as soon as some order of it, at whatever position, was issued
/// by the mover's nation.
pub proof fn lemma_own_nation_anywhere_in_route(order: MainOrderView, route: Seq<MainOrderView>, k: int)
    requires
        order.command matches MainCommand::Move(cmd) && cmd.use_convoy != Some(false),
        0 <= k < route.len(),
        route[k].nation == order.nation,
    ensures
        ConvoyUsePolicy::IncludesSameCountry.spec_will_use_convoy(order, route),
{
}

/// Under the policy that looks for the mover's own nation in the route, a move that neither
/// mandates nor refuses a convoy keeps off a route none of whose orders was issued by the
/// mover's nation.
pub proof fn lemma_no_own_nation_in_route(order: MainOrderView, route: Seq<MainOrderView>)
    requires
        order.command matches MainCommand::Move(cmd) && cmd.use_convoy is None,
        forall|k: int| 0 <= k < route.len() ==> route[k].nation != order.nation,
    ensures
        !ConvoyUsePolicy::IncludesSameCountry.spec_will_use_convoy(order, route),
{
}

/// The policy that takes any convoy takes every route, whoever's orders make it up, for a move
/// that does not refuse convoys; the policy that wants an explicit request takes a route exactly
/// when the move mandates a convoy; and no policy convoys an order that is not a move.
pub proof fn lemma_route_blind_policies(order: MainOrderView, route: Seq<MainOrderView>)
    ensures
        order.command matches MainCommand::Move(cmd) && cmd.use_convoy != Some(false)
            ==> ConvoyUsePolicy::Any.spec_will_use_convoy(order, route),
        order.command matches MainCommand::Move(cmd)
            ==> (ConvoyUsePolicy::MustBeExplicit.spec_will_use_convoy(order, route)
            <==> cmd.use_convoy == Some(true)),
        !(order.command is Move) ==> !ConvoyUsePolicy::Any.spec_will_use_convoy(order, route)
            && !ConvoyUsePolicy::IncludesSameCountry.spec_will_use_convoy(order, route)
            && !ConvoyUsePolicy::MustBeExplicit.spec_will_use_convoy(order, route),
{
}

/// Whether a convoy is taken depends on which orders make up the route, not on the order in
/// which they are listed: under every policy, two routes made of the same orders get the same
/// answer.
pub proof fn lemma_convoy_use_ignores_route_order(
    policy: ConvoyUsePolicy,
    order: MainOrderView,
    r1: Seq<MainOrderView>,
    r2: Seq<MainOrderView>,
)
    requires
        forall|o: MainOrderView| r1.contains(o) <==> r2.contains(o),
    ensures
        policy.spec_will_use_convoy(order, r1) == policy.spec_will_use_convoy(order, r2),
{
    if exists|k: int| 0 <= k < r1.len() && r1[k].nation == order.nation {
        let k = choose|k: int| 0 <= k < r1.len() && r1[k].nation == order.nation;
        assert(r1.contains(r1[k]));
        let j = choose|j: int| 0 <= j < r2.len() && r2[j] == r1[k];
        assert(0 <= j < r2.len() && r2[j].nation == order.nation);
    }
    if exists|k: int| 0 <= k < r2.len() && r2[k].nation == order.nation {
        let k = choose|k: int| 0 <= k < r2.len() && r2[k].nation == order.nation;
        assert(r2.contains(r2[k]));
        let j = choose|j: int| 0 <= j < r1.len() && r1[j] == r2[k];
        assert(0 <= j < r1.len() && r1[j].nation == order.nation);
    }
}

/// Whether some order of `route` was issued by `nation`.
fn includes_nation(route: &Vec<&MappedMainOrder>, nation: &Nation) -> (r: bool)
    ensures
        r == exists|k: int|
            0 <= k < route@.len() && (#[trigger] ref_views(route@)[k]).nation
                == nation@,
{
    let ghost rv = ref_views(route@);
    let mut i: usize = 0;
    while i < route.len()
        invariant
            i <= route@.len(),
            rv == ref_views(route@),
            forall|k: int| 0 <= k < i ==> (#[trigger] rv[k]).nation != nation@,
        decreases route@.len() - i,
    {
        if route[i].nation.same(nation) {
            assert(rv[i as int].nation == nation@);
            return true;
        }
        assert(rv[i as int].nation != nation@);
        i = i + 1;
    }
    false
}

/// The standard Diplomacy rules.
#[derive(Debug, Clone)]
pub struct Rulebook {
    convoy_policy: ConvoyUsePolicy,
}

impl Rulebook {
    /// The policy by which moves take convoys.
    pub closed spec fn policy(&self) -> ConvoyUsePolicy {
        self.convoy_policy
    }

    /// Returns the 1971 edition of the standard rules.
    pub fn edition_1971() -> (r: Rulebook)
        ensures
            r.policy() == ConvoyUsePolicy::Any,
    {
        Rulebook { convoy_policy: ConvoyUsePolicy::Any }
    }

    /// Returns the 1982 edition of the standard rules.
    pub fn edition_1982() -> (r: Rulebook)
        ensures
            r.policy() == ConvoyUsePolicy::IncludesSameCountry,
    {
        Rulebook { convoy_policy: ConvoyUsePolicy::IncludesSameCountry }
    }

    /// Returns the 2023 edition of the standard rules.
    pub fn edition_2023() -> (r: Rulebook)
        ensures
            r.policy() == ConvoyUsePolicy::IncludesSameCountry,
    {
        Rulebook { convoy_policy: ConvoyUsePolicy::IncludesSameCountry }
    }

    /// Returns the rules of the Diplomatic Pouch tournament guidelines.
    pub fn dptg() -> (r: Rulebook)
        ensures
            r.policy() == ConvoyUsePolicy::MustBeExplicit,
    {
        Rulebook { convoy_policy: ConvoyUsePolicy::MustBeExplicit }
    }

    /// A copy of the rulebook.
    pub fn copy(&self) -> (r: Rulebook)
        ensures
            r.policy() == self.policy(),
    {
        Rulebook { convoy_policy: self.convoy_policy }
    }
}

/// An edition of the standard rules.
#[derive(Debug, Clone, Copy, PartialEq, Eq, Structural)]
pub enum Edition {
    /// The 1971 edition.
    Edition1971,
    /// The 1982 edition.
    Edition1982,
    /// The 2023 edition.
    Edition2023,
    /// The Diplomatic Pouch tournament guidelines.
    Dptg,
}

/// The convoy policy of an edition.
pub open spec fn edition_policy(e: Edition) -> ConvoyUsePolicy {
    match e {
        Edition::Edition1971 => ConvoyUsePolicy::Any,
        Edition::Edition1982 => ConvoyUsePolicy::IncludesSameCountry,
        Edition::Edition2023 => ConvoyUsePolicy::IncludesSameCountry,
        Edition::Dptg => ConvoyUsePolicy::MustBeExplicit,
    }
}

/// The name of an edition: its year, or `dptg`.
pub open spec fn edition_name(e: Edition) -> Seq<char> {
    match e {
        Edition::Edition1971 => "1971"@,
        Edition::Edition1982 => "1982"@,
        Edition::Edition2023 => "2023"@,
        Edition::Dptg => "dptg"@,
    }
}

impl Edition {
    /// The name of the edition: its year, or `dptg`.
    pub fn name(&self) -> (r: String)
        ensures
            r@ == edition_name(*self),
    {
        match self {
            Edition::Edition1971 => String::from_str("1971"),
            Edition::Edition1982 => String::from_str("1982"),
            Edition::Edition2023 => String::from_str("2023"),
            Edition::Dptg => String::from_str("dptg"),
        }
    }
}

/// The rules of an edition.
pub closed spec fn edition_rules(e: Edition) -> Rulebook {
    Rulebook { convoy_policy: edition_policy(e) }
}

/// The rules of an edition take convoys by the edition's policy.
pub proof fn lemma_edition_rules(e: Edition)
    ensures
        edition_rules(e).policy() == edition_policy(e),
{
}

impl From<Edition> for Rulebook {
    fn from(edition: Edition) -> (r: Rulebook) {
        match edition {
            Edition::Edition1971 => Rulebook::edition_1971(),
            Edition::Edition1982 => Rulebook::edition_1982(),
            Edition::Edition2023 => Rulebook::edition_2023(),
            Edition::Dptg => Rulebook::dptg(),
        }
    }
}

impl vstd::std_specs::convert::FromSpecImpl<Edition> for Rulebook {
    open spec fn obeys_from_spec() -> bool {
        true
    }

    open spec fn from_spec(edition: Edition) -> Rulebook {
        edition_rules(edition)
    }
}

impl Default for Rulebook {
    fn default() -> (r: Rulebook)
        ensures
            r.policy() == ConvoyUsePolicy::Any,
    {
        Rulebook::edition_1971()
    }
}

impl WillUseConvoy for Rulebook {
    open spec fn spec_will_use_convoy(&self, order: MainOrderView, route: Seq<MainOrderView>) -> bool {
        self.policy().spec_will_use_convoy(order, route)
    }

    fn will_use_convoy(&self, order: &MappedMainOrder, route: &Vec<&MappedMainOrder>) -> (r: bool) {
        self.convoy_policy.will_use_convoy(order, route)
    }
}

/// Whether a convoying unit is at sea: its region names no coast and is a sea region of the map.
pub open spec fn spec_at_sea(m: MapView, o: MainOrderView) -> bool {
    &&& o.region.1 is None
    &&& first_region_with_key(m, o.region) matches Some(i) && m.regions[i].2 == Terrain::Sea
}

/// What a hold outcome says of the order at `i`.
pub open spec fn hold_fits(orders: Seq<MainOrderView>, i: int, h: HoldOutcome<usize>) -> bool {
    match h {
        HoldOutcome::Dislodged(d) => d < orders.len() && moves_into(orders[d as int], orders[i].region.0),
        HoldOutcome::Succeeds => true,
    }
}

/// What a move outcome says of the move at `i`.
pub open spec fn move_fits(m: MapView, orders: Seq<MainOrderView>, i: int, a: AttackOutcome<usize>) -> bool {
    let o = orders[i];
    &&& (a is MoveToSelf) == (move_dest_of(o) == Some(o.region))
    &&& a is NoPath ==> !(spec_dest_occupiable(m, o) && spec_direct_route(m, o))
    &&& !(a is MoveToSelf) && !(a is NoPath) ==> spec_dest_occupiable(m, o) && (spec_direct_route(m, o)
        || spec_convoy_route_exists(m, orders, i))
    &&& a matches AttackOutcome::Prevented(p) ==> p < orders.len() && orders[p as int] != o && moves_into(
        orders[p as int],
        dest_province(o),
    )
    &&& a is FriendlyFire ==> exists|k: int|
        0 <= k < orders.len() && #[trigger] orders[k].region.0 == dest_province(o)
            && orders[k].nation == o.nation
}

/// The first order to a unit in province `p`, if any.
pub open spec fn spec_first_in_province(orders: Seq<MainOrderView>, p: Seq<char>) -> Option<int> {
    if exists|i: int| 0 <= i < orders.len() && #[trigger] orders[i].region.0 == p {
        Some(
            choose|i: int|
                0 <= i < orders.len() && orders[i].region.0 == p && forall|j: int|
                    0 <= j < i ==> #[trigger] orders[j].region.0 != p,
        )
    } else {
        None
    }
}

proof fn lemma_first_in_province(orders: Seq<MainOrderView>, p: Seq<char>, r: Option<usize>)
    requires
        match r {
            Some(i) => i < orders.len() && orders[i as int].region.0 == p && forall|j: int|
                0 <= j < i ==> orders[j].region.0 != p,
            None => forall|j: int| 0 <= j < orders.len() ==> orders[j].region.0 != p,
        },
    ensures
        spec_first_in_province(orders, p) == match r {
            Some(i) => Some(i as int),
            None => None::<int>,
        },
{
    if let Some(i) = r {
        assert(orders[i as int].region.0 == p);
        let c = choose|c: int|
            0 <= c < orders.len() && orders[c].region.0 == p && forall|j: int|
                0 <= j < c ==> #[trigger] orders[j].region.0 != p;
        if c < i {
            assert(orders[c].region.0 != p);
        } else if c > i {
            assert(orders[i as int].region.0 != p);
        }
    }
}

/// The attack strength of the move at `i` by a resolver state `rs` that knows every order:
/// one plus its successful supports.
pub open spec fn spec_attack_strength(m: MapView, orders: Seq<MainOrderView>, rs: ResolverState, i: int) -> nat {
    1 + spec_supporters(m, orders, rs, i).len()
}

/// The attack strength of the move at `i` against a unit of `nation`: supports given by that
/// nation do not count.
pub open spec fn spec_attack_against(
    m: MapView,
    orders: Seq<MainOrderView>,
    rs: ResolverState,
    i: int,
    nation: Seq<char>,
) -> nat {
    let s = spec_supporters(m, orders, rs, i);
    1 + foreign_count(orders, s, nation, s.len())
}

/// What the unit at `occ` in the destination of the move at `i` puts up against it: its hold
/// or defend strength when it stays or meets the move head to head, one when it tries to
/// leave and fails, and nothing when it leaves.
pub open spec fn spec_resistance(m: MapView, orders: Seq<MainOrderView>, rs: ResolverState, i: int, occ: int) -> nat {
    if !(orders[occ].command is Move) || spec_head_to_head(m, orders, rs, i, occ) {
        1 + spec_supporters(m, orders, rs, occ).len()
    } else if !rs.holds_success(occ) {
        1
    } else {
        0
    }
}

/// The attack strength of the head-to-head opponent `occ` of the move at `i`, not counting
/// supports given by the nation of the move at `i`; nothing when there is no head-to-head.
pub open spec fn spec_opponent_strength(m: MapView, orders: Seq<MainOrderView>, rs: ResolverState, i: int, occ: int) -> nat {
    if spec_head_to_head(m, orders, rs, i, occ) {
        let s = spec_supporters(m, orders, rs, occ);
        1 + foreign_count(orders, s, orders[i].nation, s.len())
    } else {
        0
    }
}

/// The outcome of the move at `i` by a resolver state `rs` that knows every order.
///
/// A move to the unit's own region fails, as does one with no path. A move whose attack
/// strength does not beat the strongest prevent against it is prevented. A move into an empty
/// province, or one the occupier leaves, succeeds. Otherwise a unit of the mover's own nation is
/// never dislodged; supports of the occupier's nation do not count for the attack; the move
/// loses a head-to-head battle whose opponent is stronger than its defence, and it must beat
/// the occupier's resistance to succeed.
pub open spec fn spec_move_outcome(m: MapView, orders: Seq<MainOrderView>, rs: ResolverState, i: int) -> AttackOutcome<usize> {
    let o = orders[i];
    let atk = spec_attack_strength(m, orders, rs, i);
    let best = spec_max_prevent(m, orders, rs, i);
    let ps = spec_best_strength(m, orders, rs, best);
    let prevented = match best {
        Some(k) => AttackOutcome::Prevented(k as usize),
        None => AttackOutcome::NoPath,
    };
    if move_dest_of(o) == Some(o.region) {
        AttackOutcome::MoveToSelf
    } else if !spec_path(m, orders, rs, i) {
        AttackOutcome::NoPath
    } else if atk <= ps {
        prevented
    } else {
        match spec_first_in_province(orders, dest_province(o)) {
            None => AttackOutcome::Succeeds,
            Some(occ) => {
                let resistance = spec_resistance(m, orders, rs, i, occ);
                let counted = spec_attack_against(m, orders, rs, i, orders[occ].nation);
                if resistance == 0 {
                    AttackOutcome::Succeeds
                } else if o.nation == orders[occ].nation {
                    AttackOutcome::FriendlyFire
                } else if counted <= ps {
                    prevented
                } else if atk < spec_opponent_strength(m, orders, rs, i, occ) {
                    AttackOutcome::LostHeadToHead
                } else if counted <= resistance {
                    AttackOutcome::OccupierDefended
                } else {
                    AttackOutcome::Succeeds
                }
            },
        }
    }
}

/// What a support outcome says of the support at `i`.
pub open spec fn support_fits(m: MapView, orders: Seq<MainOrderView>, i: int, s: SupportOutcome<usize>) -> bool {
    let o = orders[i];
    &&& (s is SupportingSelf) == spec_supporting_self(o)
    &&& (s is CantReach) == (!spec_supporting_self(o) && !spec_can_reach(m, o))
    &&& s matches SupportOutcome::CutBy(c) ==> c < orders.len() && spec_may_cut(o, orders[c as int])
    &&& s is NotDisrupted ==> forall|j: int|
        0 <= j < orders.len() ==> !spec_surely_cuts(m, o, #[trigger] orders[j])
}

/// What a convoy outcome says of the convoy at `i`.
pub open spec fn convoy_fits(m: MapView, orders: Seq<MainOrderView>, i: int, c: ConvoyOutcome<usize>) -> bool {
    let o = orders[i];
    &&& (c is NotAtSea) == !spec_at_sea(m, o)
    &&& c matches ConvoyOutcome::Dislodged(d) ==> d < orders.len() && moves_into(orders[d as int], o.region.0)
}

/// The outcome of the support at `i` by a resolver state `rs` that knows every order: a
/// support of the supporter itself or one that cannot reach fails on its own terms; otherwise
/// it is cut by the first order that cuts it, or not disrupted when none does.
pub open spec fn spec_settled_support(m: MapView, orders: Seq<MainOrderView>, rs: ResolverState, i: int, s: SupportOutcome<usize>) -> bool {
    if spec_supporting_self(orders[i]) {
        s is SupportingSelf
    } else if !spec_can_reach(m, orders[i]) {
        s is CantReach
    } else {
        match s {
            SupportOutcome::CutBy(c) => spec_cuts(m, orders, rs, i, c as int) && forall|j: int|
                0 <= j < c ==> !#[trigger] spec_cuts(m, orders, rs, i, j),
            SupportOutcome::NotDisrupted => forall|j: int|
                0 <= j < orders.len() ==> !#[trigger] spec_cuts(m, orders, rs, i, j),
            _ => false,
        }
    }
}

/// The outcome of the convoy at `i` by a resolver state `rs` that knows every order: a fleet
/// not at sea convoys nothing; otherwise it is dislodged by its dislodger, if it has one, and
/// else it is in a paradox exactly when `rs` marks it so.
pub open spec fn spec_settled_convoy(m: MapView, orders: Seq<MainOrderView>, rs: ResolverState, i: int, c: ConvoyOutcome<usize>) -> bool {
    if !spec_at_sea(m, orders[i]) {
        c is NotAtSea
    } else {
        match c {
            ConvoyOutcome::Dislodged(d) => spec_settled_dislodger(orders, rs, i, Some(d)),
            ConvoyOutcome::Paradox => spec_settled_dislodger(orders, rs, i, None) && rs.in_paradox(i),
            ConvoyOutcome::NotDisrupted => spec_settled_dislodger(orders, rs, i, None) && !rs.in_paradox(i),
            ConvoyOutcome::NotAtSea => false,
        }
    }
}

/// The outcome of the order at `i` by a resolver state `rs` that knows every order: a hold is
/// dislodged by its dislodger, if it has one; a move, a support and a convoy are judged as
/// [`spec_move_outcome`], [`spec_settled_support`] and [`spec_settled_convoy`] say.
pub open spec fn spec_settled_outcome(m: MapView, orders: Seq<MainOrderView>, rs: ResolverState, i: int, oc: OrderOutcome<usize>) -> bool {
    match orders[i].command {
        MainCommand::Hold => oc matches OrderOutcome::Hold(h) && spec_settled_dislodger(
            orders,
            rs,
            i,
            match h {
                HoldOutcome::Dislodged(d) => Some(d),
                HoldOutcome::Succeeds => None,
            },
        ),
        MainCommand::Move(_) => oc == OrderOutcome::Move(spec_move_outcome(m, orders, rs, i)),
        MainCommand::Support(_) => oc matches OrderOutcome::Support(s) && spec_settled_support(m, orders, rs, i, s),
        MainCommand::Convoy(_) => oc matches OrderOutcome::Convoy(c) && spec_settled_convoy(m, orders, rs, i, c),
    }
}

/// What an outcome of adjudication says of the order at `i`: its kind matches the order's
/// command, the orders it names are in the context, and its reason holds.
pub open spec fn spec_outcome_fits(m: MapView, orders: Seq<MainOrderView>, i: int, oc: OrderOutcome<usize>) -> bool {
    match oc {
        OrderOutcome::Illegal(_) => false,
        OrderOutcome::Hold(h) => orders[i].command is Hold && hold_fits(orders, i, h),
        OrderOutcome::Move(a) => orders[i].command is Move && move_fits(m, orders, i, a),
        OrderOutcome::Support(s) => orders[i].command is Support && support_fits(m, orders, i, s),
        OrderOutcome::Convoy(c) => orders[i].command is Convoy && convoy_fits(m, orders, i, c),
    }
}

/// Whether the order at `i` fails on its own terms, whatever the other orders do: a move to
/// its own region, a support of itself or one that cannot reach, or a convoy not at sea.
pub open spec fn spec_fails_plainly(m: MapView, o: MainOrderView) -> bool {
    match o.command {
        MainCommand::Move(_) => move_dest_of(o) == Some(o.region),
        MainCommand::Support(_) => spec_supporting_self(o) || !spec_can_reach(m, o),
        MainCommand::Convoy(_) => !spec_at_sea(m, o),
        MainCommand::Hold => false,
    }
}

/// An order that fails on its own terms fails, whatever outcome adjudication gives it: a move
/// to the unit's own region, a support of the supporting unit itself or of a move it cannot
/// reach, and a convoy by a unit not at sea never succeed.
pub proof fn lemma_plain_failure(m: MapView, orders: Seq<MainOrderView>, i: int, oc: OrderOutcome<usize>)
    requires
        spec_outcome_fits(m, orders, i, oc),
        spec_fails_plainly(m, orders[i]),
    ensures
        oc.spec_state() == OrderState::Fails,
{
}

/// An adjudicator of main-phase orders.
pub trait Adjudicate {
    /// Determines and returns the outcome of an order.
    ///
    /// The outcome contains enough information to determine both _whether_ the order succeeds
    /// or fails and _why_ the order succeeds or fails.
    fn explain(&self, context: &Context, resolver: &mut ResolverState, order: usize) -> (r: OrderOutcome<usize>)
        requires
            ready(context, old(resolver)),
            order < context.spec_orders().len(),
        ensures
            kept(context, old(resolver), final(resolver)),
            spec_outcome_fits(context.world_map@, context.spec_orders(), order as int, r),
    ;

    /// Determines and returns the success of an order.
    fn adjudicate(&self, context: &Context, resolver: &mut ResolverState, order: usize) -> (r: OrderState)
        requires
            ready(context, old(resolver)),
            order < context.spec_orders().len(),
        ensures
            kept(context, old(resolver), final(resolver)),
            exists|oc: OrderOutcome<usize>|
                #[trigger] spec_outcome_fits(context.world_map@, context.spec_orders(), order as int, oc)
                    && r == oc.spec_state(),
    ;
}

impl Adjudicate for Rulebook {
    fn explain(&self, context: &Context, resolver: &mut ResolverState, order: usize) -> (r: OrderOutcome<usize>) {
        Rulebook::explain_order(context, resolver, order)
    }

    fn adjudicate(&self, context: &Context, resolver: &mut ResolverState, order: usize) -> (r: OrderState) {
        Rulebook::adjudicate_order(context, resolver, order)
    }
}

/// How many of the first `i` positions of `at` hold orders issued by a nation other than
/// `nation`.
pub open spec fn foreign_count(orders: Seq<MainOrderView>, at: Seq<usize>, nation: Seq<char>, i: nat) -> nat
    decreases i,
{
    if i == 0 {
        0
    } else {
        foreign_count(orders, at, nation, (i - 1) as nat) + if orders[at[i - 1] as int].nation != nation {
            1nat
        } else {
            0nat
        }
    }
}

/// How many of the orders at `orders` were issued by a nation other than `nation`.
fn count_foreign(context: &Context, orders: &Vec<usize>, nation: &Nation) -> (r: usize)
    requires
        forall|k: int| 0 <= k < orders@.len() ==> orders@[k] < context.spec_orders().len(),
    ensures
        r <= orders@.len(),
        r == foreign_count(context.spec_orders(), orders@, nation@, orders@.len() as nat),
{
    let mut count: usize = 0;
    let mut i: usize = 0;
    while i < orders.len()
        invariant
            i <= orders@.len(),
            count <= i,
            count == foreign_count(context.spec_orders(), orders@, nation@, i as nat),
            forall|k: int| 0 <= k < orders@.len() ==> orders@[k] < context.spec_orders().len(),
        decreases orders@.len() - i,
    {
        if !context.order(orders[i]).nation.same(nation) {
            count = count + 1;
        }
        i = i + 1;
    }
    count
}

impl Rulebook {
    /// Apply rules to determine hold outcome.
    fn adjudicate_hold(ctx: &Context, rslv: &mut ResolverState, ord: usize) -> (r: HoldOutcome<usize>)
        requires
            ready(ctx, old(rslv)),
            ord < ctx.spec_orders().len(),
        ensures
            kept(ctx, old(rslv), final(rslv)),
            hold_fits(ctx.spec_orders(), ord as int, r),
            r matches HoldOutcome::Dislodged(d) ==> final(rslv).holds_success(d as int),
            settled(ctx, old(rslv)) ==> *final(rslv) == *old(rslv) && spec_settled_dislodger(
                ctx.spec_orders(),
                *old(rslv),
                ord as int,
                match r {
                    HoldOutcome::Dislodged(d) => Some(d),
                    HoldOutcome::Succeeds => None,
                },
            ),
        decreases old(rslv).budget(), 7int,
    {
        match dislodger_of(ctx, rslv, ord) {
            Some(d) => HoldOutcome::Dislodged(d),
            None => HoldOutcome::Succeeds,
        }
    }

    /// Apply rules to determine move outcome.
    #[verifier::rlimit(40)]
    fn adjudicate_move(ctx: &Context, rslv: &mut ResolverState, ord: usize) -> (r: AttackOutcome<usize>)
        requires
            ready(ctx, old(rslv)),
            ord < ctx.spec_orders().len(),
            ctx.spec_orders()[ord as int].command is Move,
        ensures
            kept(ctx, old(rslv), final(rslv)),
            move_fits(ctx.world_map@, ctx.spec_orders(), ord as int, r),
            settled(ctx, old(rslv)) ==> *final(rslv) == *old(rslv) && r == spec_move_outcome(
                ctx.world_map@,
                ctx.spec_orders(),
                *old(rslv),
                ord as int,
            ),
        decreases old(rslv).budget(), 7int,
    {
        let ghost orders = ctx.spec_orders();
        let ghost n = orders.len();
        let o = ctx.order(ord);
        let dest = match &o.command {
            MainCommand::Move(cmd) => &cmd.dest,
            _ => {
                proof {
                    assert(false);
                }
                return AttackOutcome::NoPath;
            },
        };
        if dest.same(&o.region) {
            return AttackOutcome::MoveToSelf;
        }
        if !path_exists(ctx, rslv, ord) {
            return AttackOutcome::NoPath;
        }
        let atk_supports = find_for(ctx, rslv, ord);
        let atk_strength = 1 + atk_supports.len();
        let prevent = max_prevent_result(ctx, rslv, ord);
        // if the attack cannot overcome the prevent even in the best case,
        // there isn't any point in continuing the calculation and we should
        // immediately report the failure. This avoids breaking three army
        // circular movement bounces.
        proof {
            if settled(ctx, old(rslv)) {
                lemma_best_strength(
                    ctx.world_map@,
                    orders,
                    *old(rslv),
                    spec_max_prevent(ctx.world_map@, orders, *old(rslv), ord as int),
                    prevent,
                );
            }
        }
        let prevent_strength = prevent.strength();
        if atk_strength <= prevent_strength {
            let p = match &prevent {
                Some(p) => p.unwrap_order(),
                None => {
                    return AttackOutcome::NoPath;
                },
            };
            return AttackOutcome::Prevented(p);
        }
        let occ = ctx.find_order_to_province(dest.province());
        proof {
            lemma_first_in_province(orders, dest_province(orders[ord as int]), occ);
        }
        match occ {
            Some(occupier) => {
                // A head-to-head battle occurs when two units have mirrored move orders and
                // no convoy is available to help one of the units move around the other.
                let h2h = is_head_to_head(ctx, rslv, ord, occupier);
                // Separately compute the resistance and the head-to-head strengths,
                // to take into account nuances about which support orders participate
                // in which stages.
                let (resistance, h2h_strength) = if !ctx.order(occupier).is_move() || h2h {
                    // DEFEND and HOLD strengths include supports that may seek to thwart
                    // other orders from the same nation.
                    let resisting_supports = find_for(ctx, rslv, occupier);
                    let resistance = 1 + resisting_supports.len();
                    if h2h {
                        // The head-to-head opponent does not get head-to-head support that
                        // would make `ord` lose against its own nation.
                        let foreign = count_foreign(ctx, &resisting_supports, &ctx.order(ord).nation);
                        (resistance, 1 + foreign)
                    } else {
                        (resistance, 0)
                    }
                } else if !rslv.resolve(ctx, occupier).is_success() {
                    // failed exits resist with strength 1 (the unit trapped in the province)
                    (1, 0)
                } else {
                    // successful exits mount no resistance
                    (0, 0)
                };
                // A unit can not dislodge a unit of the same player.
                // Head-to-head, failed exit, and hold cases all collapse in friendly fire.
                if resistance > 0 && ctx.order(ord).nation.same(&ctx.order(occupier).nation) {
                    return AttackOutcome::FriendlyFire;
                } else if resistance > 0 {
                    let self_defend_strength = atk_strength;
                    // Supports to a foreign unit can not be used to dislodge an own unit.
                    // Therefore, move supports from the nation whose unit is resisting the
                    // move are not counted.
                    let counted = count_foreign(ctx, &atk_supports, &ctx.order(occupier).nation);
                    let atk_strength = 1 + counted;
                    // Re-check if the attack strength is sufficient to overcome prevent
                    // strength now that friendly-fire support is ignored.
                    if atk_strength <= prevent_strength {
                        let p = match &prevent {
                            Some(p) => p.unwrap_order(),
                            None => {
                                return AttackOutcome::NoPath;
                            },
                        };
                        return AttackOutcome::Prevented(p);
                    }
                    // Only lose a head-to-head if the head-to-head opponent's attack strength
                    // is higher than our defend strength.
                    if self_defend_strength < h2h_strength {
                        return AttackOutcome::LostHeadToHead;
                    }
                    if atk_strength <= resistance {
                        return AttackOutcome::OccupierDefended;
                    }
                }
            },
            None => {},
        }
        AttackOutcome::Succeeds
    }

    /// Apply rules to determine support outcome.
    fn adjudicate_support(ctx: &Context, rslv: &mut ResolverState, ord: usize) -> (r: SupportOutcome<usize>)
        requires
            ready(ctx, old(rslv)),
            ord < ctx.spec_orders().len(),
        ensures
            kept(ctx, old(rslv), final(rslv)),
            support_fits(ctx.world_map@, ctx.spec_orders(), ord as int, r),
            settled(ctx, old(rslv)) ==> *final(rslv) == *old(rslv) && spec_settled_support(
                ctx.world_map@,
                ctx.spec_orders(),
                *old(rslv),
                ord as int,
                r,
            ),
        decreases old(rslv).budget(), 7int,
    {
        if is_supporting_self(ctx.order(ord)) {
            SupportOutcome::SupportingSelf
        } else if !can_reach(ctx.world_map, ctx.order(ord)) {
            SupportOutcome::CantReach
        } else {
            match find_cutting_order(ctx, rslv, ord) {
                Some(cutter) => SupportOutcome::CutBy(cutter),
                None => SupportOutcome::NotDisrupted,
            }
        }
    }

    /// Apply rules to determine convoy outcome.
    fn adjudicate_convoy(ctx: &Context, rslv: &mut ResolverState, ord: usize) -> (r: ConvoyOutcome<usize>)
        requires
            ready(ctx, old(rslv)),
            ord < ctx.spec_orders().len(),
        ensures
            kept(ctx, old(rslv), final(rslv)),
            convoy_fits(ctx.world_map@, ctx.spec_orders(), ord as int, r),
            r is Paradox ==> final(rslv).in_paradox(ord as int),
            settled(ctx, old(rslv)) ==> *final(rslv) == *old(rslv) && spec_settled_convoy(
                ctx.world_map@,
                ctx.spec_orders(),
                *old(rslv),
                ord as int,
                r,
            ),
        decreases old(rslv).budget(), 7int,
    {
        // Fleets cannot convoy in coastal areas.
        //
        // Explicit-coast regions are marked as being 'sea' to prevent armies from occupying
        // them, but are not valid locations for convoys to operate.
        let o = ctx.order(ord);
        let is_at_sea = o.region.coast().is_none() && match ctx.world_map.find_region_key(&o.region) {
            Some(r) => r.terrain() == Terrain::Sea,
            None => false,
        };
        if !is_at_sea {
            return ConvoyOutcome::NotAtSea;
        }
        if let Some(dislodger) = dislodger_of(ctx, rslv, ord) {
            return ConvoyOutcome::Dislodged(dislodger);
        }
        if rslv.order_in_paradox(ord) {
            ConvoyOutcome::Paradox
        } else {
            ConvoyOutcome::NotDisrupted
        }
    }

    /// Determines and returns the outcome of an order.
    pub fn explain_order(context: &Context, resolver: &mut ResolverState, order: usize) -> (r: OrderOutcome<usize>)
        requires
            ready(context, old(resolver)),
            order < context.spec_orders().len(),
        ensures
            kept(context, old(resolver), final(resolver)),
            spec_outcome_fits(context.world_map@, context.spec_orders(), order as int, r),
            settled(context, old(resolver)) ==> *final(resolver) == *old(resolver) && spec_settled_outcome(
                context.world_map@,
                context.spec_orders(),
                *old(resolver),
                order as int,
                r,
            ),
        decreases old(resolver).budget(), 8int,
    {
        match &context.order(order).command {
            // A move order succeeds when the unit successfully transitions to the target.
            MainCommand::Move(_) => OrderOutcome::Move(Rulebook::adjudicate_move(context, resolver, order)),
            // A support order "succeeds" if the support is not cut. This doesn't
            // necessarily mean support got applied.
            MainCommand::Support(_) => OrderOutcome::Support(
                Rulebook::adjudicate_support(context, resolver, order),
            ),
            // Hold orders succeed when the unit is not dislodged.
            MainCommand::Hold => OrderOutcome::Hold(Rulebook::adjudicate_hold(context, resolver, order)),
            // Convoy orders succeed when the unit is not dislodged and the convoy doesn't create
            // a paradox.
            MainCommand::Convoy(_) => OrderOutcome::Convoy(
                Rulebook::adjudicate_convoy(context, resolver, order),
            ),
        }
    }

    /// Determines and returns the success of an order.
    pub fn adjudicate_order(context: &Context, resolver: &mut ResolverState, order: usize) -> (r: OrderState)
        requires
            ready(context, old(resolver)),
            order < context.spec_orders().len(),
        ensures
            kept(context, old(resolver), final(resolver)),
            exists|oc: OrderOutcome<usize>|
                #[trigger] spec_outcome_fits(context.world_map@, context.spec_orders(), order as int, oc)
                    && r == oc.spec_state(),
            settled(context, old(resolver)) ==> *final(resolver) == *old(resolver) && exists|oc: OrderOutcome<usize>|
                #[trigger] spec_settled_outcome(context.world_map@, context.spec_orders(), *old(resolver), order as int, oc)
                    && r == oc.spec_state(),
        decreases old(resolver).budget(), 9int,
    {
        let oc = Rulebook::explain_order(context, resolver, order);
        oc.state()
    }
}

} // verus!
