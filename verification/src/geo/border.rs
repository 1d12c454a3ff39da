use super::region::{ProvinceKey, RegionKey, RegionName, Terrain};
use crate::unit::{spec_can_occupy, UnitType};
use vstd::prelude::*;

verus! {

/// A border between two regions, with the terrain a unit must be able to cross.
#[derive(Debug, Clone, PartialEq, Eq)]
pub struct Border {
    a: RegionKey,
    b: RegionKey,
    terrain: Terrain,
}

impl View for Border {
    type V = (RegionName, RegionName, Terrain);

    closed spec fn view(&self) -> (RegionName, RegionName, Terrain) {
        (self.a@, self.b@, self.terrain)
    }
}

/// A border model touches a region when the region is one of its two ends.
pub open spec fn border_touches(b: (RegionName, RegionName, Terrain), r: RegionName) -> bool {
    b.0 == r || b.1 == r
}

/// A border model touches a province when one of its two ends lies in the province.
pub open spec fn border_touches_province(
    b: (RegionName, RegionName, Terrain),
    p: Seq<char>,
) -> bool {
    b.0.0 == p || b.1.0 == p
}

/// The far end of a border as seen from region `r`.
pub open spec fn border_dest_from(b: (RegionName, RegionName, Terrain), r: RegionName) -> Option<
    RegionName,
> {
    if b.0 == r {
        Some(b.1)
    } else if b.1 == r {
        Some(b.0)
    } else {
        None
    }
}

/// The far end of a border as seen from province `p`.
pub open spec fn border_dest_from_province(
    b: (RegionName, RegionName, Terrain),
    p: Seq<char>,
) -> Option<RegionName> {
    if b.0.0 == p {
        Some(b.1)
    } else if b.1.0 == p {
        Some(b.0)
    } else {
        None
    }
}

/// A border model joins two regions, in either direction.
pub open spec fn border_connects(
    b: (RegionName, RegionName, Terrain),
    r1: RegionName,
    r2: RegionName,
) -> bool {
    (b.0 == r1 && b.1 == r2) || (b.0 == r2 && b.1 == r1)
}

/// A border model joins a region to some region of a province, in either direction.
pub open spec fn border_connects_province(
    b: (RegionName, RegionName, Terrain),
    r1: RegionName,
    p2: Seq<char>,
) -> bool {
    (b.0 == r1 && b.1.0 == p2) || (b.1 == r1 && b.0.0 == p2)
}

impl Border {
    /// Creates a border between two regions.
    pub fn new(a: RegionKey, b: RegionKey, terrain: Terrain) -> (r: Border)
        ensures
            r@ == (a@, b@, terrain),
    {
        Border { a, b, terrain }
    }

    /// The terrain of the border.
    pub fn terrain(&self) -> (r: Terrain)
        ensures
            r == self@.2,
    {
        self.terrain
    }

    /// Whether a unit of the given type can cross the border.
    pub fn is_passable_by(&self, unit_type: UnitType) -> (r: bool)
        ensures
            r == spec_can_occupy(unit_type, self@.2),
    {
        unit_type.can_occupy(self.terrain)
    }

    /// The two regions the border joins.
    pub fn regions(&self) -> (r: (&RegionKey, &RegionKey))
        ensures
            r.0@ == self@.0,
            r.1@ == self@.1,
    {
        (&self.a, &self.b)
    }

    /// Whether the border touches region `r`.
    pub fn contains(&self, r: &RegionKey) -> (res: bool)
        ensures
            res == border_touches(self@, r@),
    {
        self.a.same(r) || self.b.same(r)
    }

    /// Whether the border touches province `p`.
    pub fn contains_province(&self, p: &ProvinceKey) -> (res: bool)
        ensures
            res == border_touches_province(self@, p@),
    {
        self.a.in_province(p) || self.b.in_province(p)
    }

    /// The far end of the border as seen from `r`, if `r` is one end.
    pub fn dest_from(&self, r: &RegionKey) -> (res: Option<&RegionKey>)
        ensures
            match res {
                Some(d) => border_dest_from(self@, r@) == Some(d@),
                None => border_dest_from(self@, r@) is None,
            },
    {
        if self.a.same(r) {
            Some(&self.b)
        } else if self.b.same(r) {
            Some(&self.a)
        } else {
            None
        }
    }

    /// The far end of the border as seen from province `p`, if one end lies in `p`.
    pub fn dest_from_province(&self, p: &ProvinceKey) -> (res: Option<&RegionKey>)
        ensures
            match res {
                Some(d) => border_dest_from_province(self@, p@) == Some(d@),
                None => border_dest_from_province(self@, p@) is None,
            },
    {
        if self.a.in_province(p) {
            Some(&self.b)
        } else if self.b.in_province(p) {
            Some(&self.a)
        } else {
            None
        }
    }

    /// Whether the border joins `r1` and `r2`.
    pub fn connects(&self, r1: &RegionKey, r2: &RegionKey) -> (res: bool)
        ensures
            res == border_connects(self@, r1@, r2@),
    {
        (self.a.same(r1) && self.b.same(r2)) || (self.a.same(r2) && self.b.same(r1))
    }

    /// Whether the border joins `r1` to some region of province `p2`.
    pub fn connects_province(&self, r1: &RegionKey, p2: &ProvinceKey) -> (res: bool)
        ensures
            res == border_connects_province(self@, r1@, p2@),
    {
        (self.a.same(r1) && self.b.in_province(p2)) || (self.b.same(r1) && self.a.in_province(p2))
    }
}

} // verus!
