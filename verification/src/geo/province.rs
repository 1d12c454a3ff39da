use super::region::ProvinceKey;
use crate::nation::Nation;
use vstd::prelude::*;

verus! {

/// The supply-center status of a province.
#[derive(Debug, Clone, PartialEq, Eq)]
pub enum SupplyCenter {
    /// The province holds no supply center.
    Absent,
    /// The province holds a supply center that belongs to no nation at the start of the game.
    Neutral,
    /// The province holds a home supply center of the given nation.
    Home(Nation),
}

/// The model of a supply-center status, with nations by name.
pub enum SupplyCenterView {
    Absent,
    Neutral,
    Home(Seq<char>),
}

impl View for SupplyCenter {
    type V = SupplyCenterView;

    open spec fn view(&self) -> SupplyCenterView {
        match self {
            SupplyCenter::Absent => SupplyCenterView::Absent,
            SupplyCenter::Neutral => SupplyCenterView::Neutral,
            SupplyCenter::Home(n) => SupplyCenterView::Home(n@),
        }
    }
}

/// A province of the map: a named space made up of one or more regions.
#[derive(Debug, Clone, PartialEq, Eq)]
pub struct Province {
    key: ProvinceKey,
    /// Whether and to whom the province is a supply center.
    pub supply_center: SupplyCenter,
}

impl View for Province {
    type V = (Seq<char>, SupplyCenterView);

    closed spec fn view(&self) -> (Seq<char>, SupplyCenterView) {
        (self.key@, self.supply_center@)
    }
}

impl Province {
    /// Creates a province with the given key and supply-center status.
    pub fn new(key: ProvinceKey, supply_center: SupplyCenter) -> (r: Province)
        ensures
            r@ == (key@, supply_center@),
    {
        Province { key, supply_center }
    }

    /// The province's key.
    pub fn key(&self) -> (r: &ProvinceKey)
        ensures
            r@ == self@.0,
    {
        &self.key
    }

    /// The province's supply-center status.
    pub fn supply_center(&self) -> (r: &SupplyCenter)
        ensures
            r@ == self@.1,
    {
        &self.supply_center
    }

    /// Whether the province holds a supply center.
    pub fn is_supply_center(&self) -> (r: bool)
        ensures
            r == !(self@.1 is Absent),
    {
        match &self.supply_center {
            SupplyCenter::Absent => false,
            _ => true,
        }
    }
}

} // verus!
