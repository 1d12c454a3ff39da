//! The standard rules of build-phase adjudication: whether each order may stand, and how many
//! builds or disbands each nation is owed.
use super::world::{Ownerships, WorldState};
use crate::geo::map::first_region_with_key;
use crate::geo::province::SupplyCenterView;
use crate::geo::{MapView, ProvinceKey, RegionName, SupplyCenter, WorldMap};
use crate::judge::state_type::OrderState;
use crate::judge::MappedBuildOrder;
use crate::nation::Nation;
use crate::order::{BuildCommand, OrderView};
use crate::unit::spec_can_occupy;
use vstd::prelude::*;

verus! {

/// The model of a build order.
pub type BuildOrderView = OrderView<RegionName, BuildCommand>;

/// The outcome of a build-turn order.
#[derive(Debug, Copy, Clone, PartialEq, Eq, Structural)]
pub enum OrderOutcome {
    /// The build or disband order was successful, resulting in a change in units
    /// in the world.
    Succeeds,
    /// A nation cannot issue "build" and "disband" commands in the same turn,
    /// as this would constitute an illegal teleportation of power from the
    /// disbanding region to the building region.
    RedeploymentProhibited,
    /// The build command was to a province where the issuing nation cannot build.
    InvalidProvince,
    /// The build command was to a home SC for the issuing power, but another
    /// power currently controls it.
    ForeignControlled,
    /// Build failed because the target province already has a friendly unit in it.
    OccupiedProvince,
    /// The build command is to a region whose terrain the unit cannot occupy.
    InvalidTerrain,
    /// Disband failed because no unit exists at that location.
    DisbandingNonexistentUnit,
    /// Disband failed because the issuing power does not control the unit at that location.
    DisbandingForeignUnit,
    /// The issuing nation has already had as many successful builds as they are allowed.
    AllBuildsUsed,
    /// The issuing nation has already had as many successful disbands as they are allowed.
    AllDisbandsUsed,
}

impl OrderOutcome {
    /// Whether the order succeeded.
    pub open spec fn spec_state(&self) -> OrderState {
        if *self == OrderOutcome::Succeeds {
            OrderState::Succeeds
        } else {
            OrderState::Fails
        }
    }

    /// Whether the order succeeded.
    pub fn state(&self) -> (r: OrderState)
        ensures
            r == self.spec_state(),
    {
        if *self == OrderOutcome::Succeeds {
            OrderState::Succeeds
        } else {
            OrderState::Fails
        }
    }
}

impl<'a> From<&'a OrderOutcome> for OrderState {
    fn from(outcome: &'a OrderOutcome) -> (r: OrderState) {
        outcome.state()
    }
}

impl<'a> vstd::std_specs::convert::FromSpecImpl<&'a OrderOutcome> for OrderState {
    open spec fn obeys_from_spec() -> bool {
        true
    }

    open spec fn from_spec(outcome: &'a OrderOutcome) -> OrderState {
        outcome.spec_state()
    }
}

/// Whether province `p` is a home supply center of `nation`.
pub open spec fn spec_is_home_sc(m: MapView, nation: Seq<char>, p: Seq<char>) -> bool {
    exists|k: int|
        0 <= k < m.provinces.len() && #[trigger] m.provinces[k].0 == p && m.provinces[k].1
            == SupplyCenterView::Home(nation)
}

/// The nation that controls province `p` at the end of the build phase: the occupier, else
/// the controller at the end of the last build phase.
pub open spec fn spec_current_owner<W: WorldState>(w: &W, last: &Ownerships, p: Seq<char>) -> Option<Seq<char>> {
    match w.spec_occupier(p) {
        Some(n) => Some(n),
        None => last.spec_get(p),
    }
}

/// Whether a build or disband order may stand on its own, leaving aside how many the nation
/// is owed.
pub open spec fn spec_validity<W: WorldState>(m: MapView, w: &W, last: &Ownerships, o: BuildOrderView) -> OrderOutcome {
    let p = o.region.0;
    match o.command {
        BuildCommand::Build => if !spec_is_home_sc(m, o.nation, p) {
            OrderOutcome::InvalidProvince
        } else if spec_current_owner(w, last, p) != Some(o.nation) {
            OrderOutcome::ForeignControlled
        } else if w.spec_occupier(p) is Some {
            OrderOutcome::OccupiedProvince
        } else {
            match first_region_with_key(m, o.region) {
                None => OrderOutcome::InvalidProvince,
                Some(i) => if !spec_can_occupy(o.unit_type, m.regions[i].2) {
                    OrderOutcome::InvalidTerrain
                } else {
                    OrderOutcome::Succeeds
                },
            }
        },
        BuildCommand::Disband => match w.spec_occupier(p) {
            None => OrderOutcome::DisbandingNonexistentUnit,
            Some(n) => if n != o.nation {
                OrderOutcome::DisbandingForeignUnit
            } else {
                OrderOutcome::Succeeds
            },
        },
    }
}

/// Whether the nation has some home supply center on the map.
pub open spec fn spec_has_home(m: MapView, nation: Seq<char>) -> bool {
    exists|p: Seq<char>| spec_is_home_sc(m, nation, p)
}

fn is_home_sc(map: &WorldMap, nation: &Nation, province: &ProvinceKey) -> (r: bool)
    ensures
        r == spec_is_home_sc(map@, nation@, province@),
{
    let provinces = map.provinces();
    let ghost ps = map@.provinces;
    let mut k: usize = 0;
    while k < provinces.len()
        invariant
            k <= provinces@.len(),
            provinces@.map_values(|p: crate::geo::Province| p@) == ps,
            ps == map@.provinces,
            forall|j: int|
                0 <= j < k ==> !(#[trigger] ps[j].0 == province@ && ps[j].1 == SupplyCenterView::Home(nation@)),
        decreases provinces@.len() - k,
    {
        let prov = &provinces[k];
        assert(ps[k as int] == prov@);
        let home = match prov.supply_center() {
            SupplyCenter::Home(owner) => owner.same(nation),
            _ => false,
        };
        if home && prov.key().same(province) {
            assert(ps[k as int].1 == SupplyCenterView::Home(nation@));
            assert(ps[k as int].0 == province@);
            return true;
        }
        k = k + 1;
    }
    false
}

/// The controller of a province at the end of the build phase.
pub fn current_owner<'b, W: WorldState>(w: &'b W, last: &'b Ownerships, province: &ProvinceKey) -> (r: Option<&'b Nation>)
    ensures
        match r {
            Some(n) => spec_current_owner(w, last, province@) == Some(n@),
            None => spec_current_owner(w, last, province@) is None,
        },
{
    match w.occupier(province) {
        Some(n) => Some(n),
        None => last.get(province),
    }
}

/// Rulebook function for build-phase adjudication. This function does not worry about order
/// quantities, and just focuses on whether or not a given build or disband command is
/// otherwise valid.
pub fn adjudicate<W: WorldState>(map: &WorldMap, w: &W, last: &Ownerships, order: &MappedBuildOrder) -> (r: OrderOutcome)
    ensures
        r == spec_validity(map@, w, last, order@),
{
    let province = order.region.province();
    match order.command {
        BuildCommand::Build => {
            if !is_home_sc(map, &order.nation, province) {
                return OrderOutcome::InvalidProvince;
            }
            let owned = match current_owner(w, last, province) {
                Some(n) => n.same(&order.nation),
                None => false,
            };
            if !owned {
                return OrderOutcome::ForeignControlled;
            }
            if w.occupier(province).is_some() {
                return OrderOutcome::OccupiedProvince;
            }
            match map.find_region_key(&order.region) {
                None => OrderOutcome::InvalidProvince,
                Some(region) => if !order.unit_type.can_occupy(region.terrain()) {
                    OrderOutcome::InvalidTerrain
                } else {
                    OrderOutcome::Succeeds
                },
            }
        },
        BuildCommand::Disband => match w.occupier(province) {
            None => OrderOutcome::DisbandingNonexistentUnit,
            Some(n) => if !n.same(&order.nation) {
                OrderOutcome::DisbandingForeignUnit
            } else {
                OrderOutcome::Succeeds
            },
        },
    }
}

/// The number of supply centers among the first `k` provinces that `nation` controls.
pub open spec fn owned_count<W: WorldState>(m: MapView, w: &W, last: &Ownerships, nation: Seq<char>, k: nat) -> nat
    decreases k,
{
    if k == 0 {
        0
    } else {
        let p = m.provinces[k - 1];
        owned_count(m, w, last, nation, (k - 1) as nat) + if !(p.1 is Absent) && spec_current_owner(w, last, p.0)
            == Some(nation) {
            1nat
        } else {
            0nat
        }
    }
}

/// The number of builds (or disbands) a nation is owed: the difference between the supply
/// centers it controls and its units. A nation that controls no supply center owes a disband
/// for each of its units.
pub open spec fn spec_delta<W: WorldState>(m: MapView, w: &W, last: &Ownerships, nation: Seq<char>) -> Option<(BuildCommand, nat)> {
    let owned = owned_count(m, w, last, nation, m.provinces.len());
    let units = w.spec_units(nation).len();
    if owned > units {
        Some((BuildCommand::Build, (owned - units) as nat))
    } else if owned < units {
        Some((BuildCommand::Disband, (units - owned) as nat))
    } else {
        None
    }
}

/// A nation that controls no supply center owes a disband for every unit it has.
pub proof fn lemma_no_supply_center_disbands_all<W: WorldState>(m: MapView, w: &W, last: &Ownerships, nation: Seq<char>)
    requires
        owned_count(m, w, last, nation, m.provinces.len()) == 0,
        w.spec_units(nation).len() > 0,
    ensures
        spec_delta(m, w, last, nation) == Some((BuildCommand::Disband, w.spec_units(nation).len())),
{
}

/// The number of supply centers that `nation` controls.
pub fn count_owned<W: WorldState>(map: &WorldMap, w: &W, last: &Ownerships, nation: &Nation) -> (r: usize)
    ensures
        r == owned_count(map@, w, last, nation@, map@.provinces.len()),
{
    let provinces = map.provinces();
    let ghost ps = map@.provinces;
    let mut count: usize = 0;
    let mut k: usize = 0;
    while k < provinces.len()
        invariant
            k <= provinces@.len(),
            provinces@.map_values(|p: crate::geo::Province| p@) == ps,
            ps == map@.provinces,
            count == owned_count(map@, w, last, nation@, k as nat),
            count <= k,
        decreases provinces@.len() - k,
    {
        let prov = &provinces[k];
        assert(ps[k as int] == prov@);
        if prov.is_supply_center() {
            match current_owner(w, last, prov.key()) {
                Some(n) => {
                    if n.same(nation) {
                        count = count + 1;
                    }
                },
                None => {},
            }
        }
        k = k + 1;
    }
    count
}

} // verus!
