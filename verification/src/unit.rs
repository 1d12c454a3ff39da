use crate::geo::{ProvinceKey, RegionKey, RegionName, Terrain};
use crate::lemmas::{first_index, lemma_first_index, lemma_map_push};
use crate::nation::Nation;
use crate::parser::words::{ci_eq, is_keyword};
use crate::parser::{Error, ErrorKind};
use crate::ShortName;
use vstd::prelude::*;

verus! {

/// The type of a military unit. Armies are convoyable land-based units; fleets
/// are sea-going units which are able to convoy armies.
#[derive(Debug, Clone, Copy, PartialEq, Eq, Hash, PartialOrd, Ord, Structural)]
pub enum UnitType {
    /// A convoyable land-based unit which can traverse inland and coastal terrain.
    Army,
    /// A sea-based unit which can traverse sea and coastal terrain.
    Fleet,
}

/// The unit type named by a word: `a` or `army`, `f` or `fleet`, in any case.
pub open spec fn spec_parse_unit_type(w: Seq<char>) -> Option<UnitType> {
    if ci_eq(w, "a"@) || ci_eq(w, "army"@) {
        Some(UnitType::Army)
    } else if ci_eq(w, "f"@) || ci_eq(w, "fleet"@) {
        Some(UnitType::Fleet)
    } else {
        None
    }
}

/// Whether a unit of type `u` may stand on, or cross, terrain `t`.
pub open spec fn spec_can_occupy(u: UnitType, t: Terrain) -> bool {
    match t {
        Terrain::Coast => true,
        Terrain::Land => u == UnitType::Army,
        Terrain::Sea => u == UnitType::Fleet,
    }
}

impl UnitType {
    /// Parses a unit type: `a` or `army`, `f` or `fleet`, in any case.
    pub fn parse(s: &str) -> (r: Result<UnitType, Error>)
        ensures
            match r {
                Ok(u) => spec_parse_unit_type(s@) == Some(u),
                Err(e) => spec_parse_unit_type(s@) is None && e.spec_kind()
                    == ErrorKind::InvalidUnitType,
            },
    {
        if is_keyword(s, "a") || is_keyword(s, "army") {
            Ok(UnitType::Army)
        } else if is_keyword(s, "f") || is_keyword(s, "fleet") {
            Ok(UnitType::Fleet)
        } else {
            Err(Error::new(ErrorKind::InvalidUnitType, s))
        }
    }

    /// Whether a unit of this type may stand on, or cross, the given terrain.
    pub fn can_occupy(self, terrain: Terrain) -> (r: bool)
        ensures
            r == spec_can_occupy(self, terrain),
    {
        match terrain {
            Terrain::Coast => true,
            Terrain::Land => self == UnitType::Army,
            Terrain::Sea => self == UnitType::Fleet,
        }
    }
}

impl ShortName for UnitType {
    open spec fn spec_short_name(&self) -> Seq<char> {
        match *self {
            UnitType::Army => seq!['A'],
            UnitType::Fleet => seq!['F'],
        }
    }

    fn short_name(&self) -> (r: String) {
        let r = match *self {
            UnitType::Army => String::from_str("A"),
            UnitType::Fleet => String::from_str("F"),
        };
        proof {
            reveal_strlit("A");
            reveal_strlit("F");
            assert(r@ =~= self.spec_short_name());
        }
        r
    }
}

/// The model of a unit: its nation's name and its type.
pub type UnitView = (Seq<char>, UnitType);

/// A specific unit that belongs to a nation.
///
/// Diplomacy doesn't invest much in unit identity across turns, so there's no difference
/// between one Austrian fleet and another.
#[derive(Debug, Clone, PartialEq, Eq, Hash)]
pub struct Unit {
    nation: Nation,
    unit_type: UnitType,
}

impl View for Unit {
    type V = UnitView;

    closed spec fn view(&self) -> UnitView {
        (self.nation@, self.unit_type)
    }
}

impl Unit {
    /// Creates a unit of the given nation and type.
    pub fn new(nation: Nation, unit_type: UnitType) -> (r: Unit)
        ensures
            r@ == (nation@, unit_type),
    {
        Unit { nation, unit_type }
    }

    /// The nation that owns the unit.
    pub fn nation(&self) -> (r: &Nation)
        ensures
            r@ == self@.0,
    {
        &self.nation
    }

    /// The unit's type.
    pub fn unit_type(&self) -> (r: UnitType)
        ensures
            r == self@.1,
    {
        self.unit_type
    }

    /// Returns an equal unit.
    pub fn copy(&self) -> (r: Unit)
        ensures
            r@ == self@,
    {
        Unit { nation: self.nation.copy(), unit_type: self.unit_type }
    }
}

/// The model of a unit position: the unit and the model of its location.
pub type UnitPositionView = (UnitView, RegionName);

/// A unit's instantaneous position in a region.
#[derive(Debug, Clone, PartialEq, Eq, Hash)]
pub struct UnitPosition<L = RegionKey> {
    pub unit: Unit,
    /// The unit's current location.
    pub region: L,
}

impl<L: View> View for UnitPosition<L> {
    type V = (UnitView, L::V);

    open spec fn view(&self) -> (UnitView, L::V) {
        (self.unit@, self.region@)
    }
}

impl<L> UnitPosition<L> {
    /// Create a new unit at a given position.
    pub fn new(unit: Unit, region: L) -> (r: UnitPosition<L>)
        ensures
            r.unit == unit,
            r.region == region,
    {
        UnitPosition { unit, region }
    }

    /// The nation that owns the unit.
    pub fn nation(&self) -> (r: &Nation)
        ensures
            r@ == self.unit@.0,
    {
        self.unit.nation()
    }

    /// Create a view of the unit position that has a reference to its region.
    pub fn as_region_ref(&self) -> (r: UnitPosition<&L>)
        ensures
            r.unit@ == self.unit@,
            *r.region == self.region,
    {
        UnitPosition { unit: self.unit.copy(), region: &self.region }
    }
}

impl UnitPosition<&RegionKey> {
    /// Returns a [`UnitPosition`] that converts the region to an owned value by copying.
    pub fn with_cloned_region(&self) -> (r: UnitPosition<RegionKey>)
        ensures
            r@ == self@,
    {
        UnitPosition { unit: self.unit.copy(), region: self.region.copy() }
    }
}

/// The name written before a colon: the word with its trailing colons removed.
pub open spec fn trim_colons(w: Seq<char>) -> Seq<char>
    decreases w.len(),
{
    if w.len() > 0 && w.last() == ':' {
        trim_colons(w.drop_last())
    } else {
        w
    }
}

/// Removes the trailing colons of a word.
pub fn trim_colons_exec(w: &str) -> (r: &str)
    ensures
        r@ == trim_colons(w@),
{
    let n = w.unicode_len();
    let mut j: usize = n;
    proof {
        assert(w@.take(n as int) =~= w@);
    }
    while j > 0 && w.get_char(j - 1) == ':'
        invariant
            j <= n,
            n == w@.len(),
            trim_colons(w@) == trim_colons(w@.take(j as int)),
        decreases j,
    {
        proof {
            let t = w@.take(j as int);
            assert(t.drop_last() =~= w@.take(j - 1));
        }
        j = j - 1;
    }
    proof {
        let t = w@.take(j as int);
        if j > 0 {
            assert(t.last() == w@[j - 1]);
        }
    }
    w.substring_char(0, j)
}

impl UnitPosition<RegionKey> {
    /// Returns an equal unit position.
    pub fn copy(&self) -> (r: UnitPosition<RegionKey>)
        ensures
            r@ == self@,
    {
        UnitPosition { unit: self.unit.copy(), region: self.region.copy() }
    }

    /// Whether two unit positions are equal: same nation, unit type and region.
    pub fn same(&self, other: &UnitPosition<RegionKey>) -> (r: bool)
        ensures
            r == (self@ == other@),
    {
        self.unit.nation().same(other.unit.nation()) && self.unit.unit_type()
            == other.unit.unit_type() && self.region.same(&other.region)
    }

    /// Writes the position as `NATION: U region`.
    pub fn to_string(&self) -> (r: String)
        ensures
            r@ == self.unit@.0 + ": "@ + self.unit@.1.spec_short_name() + " "@
                + self.region.spec_short_name(),
    {
        let mut s = self.unit.nation().short_name();
        s.append(": ");
        let u = self.unit.unit_type().short_name();
        s.append(u.as_str());
        s.append(" ");
        let r = self.region.short_name();
        s.append(r.as_str());
        s
    }
}

/// Knowledge of unit positions at a point in time.
pub trait UnitPositions {
    /// The model of the positions known to the collection, in its order.
    spec fn spec_positions(&self) -> Seq<UnitPositionView>;

    /// The current unit positions. Every unit is returned exactly once.
    fn unit_positions(&self) -> (r: Vec<UnitPosition>)
        ensures
            r@.map_values(|p: UnitPosition| p@) == self.spec_positions(),
    ;

    /// Get the unit currently occupying a province: the first position in the province.
    ///
    /// This function returns the region of the occupier as well.
    fn find_province_occupier(&self, province: &ProvinceKey) -> (r: Option<UnitPosition>)
        ensures
            match r {
                Some(pos) => first_index(
                    self.spec_positions(),
                    |q: UnitPositionView| q.1.0 == province@,
                ) matches Some(i) && self.spec_positions()[i] == pos@,
                None => first_index(
                    self.spec_positions(),
                    |q: UnitPositionView| q.1.0 == province@,
                ) is None,
            },
    ;

    /// Get the unit currently occupying a specific region: the first unit positioned there.
    fn find_region_occupier(&self, region: &RegionKey) -> (r: Option<Unit>)
        ensures
            match r {
                Some(u) => first_index(
                    self.spec_positions(),
                    |q: UnitPositionView| q.1 == region@,
                ) matches Some(i) && self.spec_positions()[i].0 == u@,
                None => first_index(self.spec_positions(), |q: UnitPositionView| q.1 == region@)
                    is None,
            },
    ;
}

impl UnitPositions for Vec<UnitPosition<RegionKey>> {
    open spec fn spec_positions(&self) -> Seq<UnitPositionView> {
        self@.map_values(|p: UnitPosition| p@)
    }

    fn unit_positions(&self) -> (r: Vec<UnitPosition>) {
        let mut res: Vec<UnitPosition> = Vec::new();
        let n = self.len();
        let mut i: usize = 0;
        while i < n
            invariant
                i <= n,
                n == self@.len(),
                res@.map_values(|p: UnitPosition| p@) == self@.take(i as int).map_values(
                    |p: UnitPosition| p@,
                ),
            decreases n - i,
        {
            let ghost prev = res@;
            let p = self[i].copy();
            res.push(p);
            proof {
                lemma_map_push(prev, p, |p: UnitPosition| p@);
                assert(self@.take(i + 1) =~= self@.take(i as int).push(self@[i as int]));
                lemma_map_push(self@.take(i as int), self@[i as int], |p: UnitPosition| p@);
            }
            i = i + 1;
        }
        proof {
            assert(self@.take(n as int) =~= self@);
        }
        res
    }

    fn find_province_occupier(&self, province: &ProvinceKey) -> (r: Option<UnitPosition>) {
        let n = self.len();
        let mut i: usize = 0;
        while i < n
            invariant
                i <= n,
                n == self@.len(),
                forall|j: int| 0 <= j < i ==> self@[j].region@.0 != province@,
            decreases n - i,
        {
            if self[i].region.in_province(province) {
                proof {
                    lemma_first_index(
                        self.spec_positions(),
                        |q: UnitPositionView| q.1.0 == province@,
                        i as int,
                    );
                }
                return Some(self[i].copy());
            }
            i = i + 1;
        }
        None
    }

    fn find_region_occupier(&self, region: &RegionKey) -> (r: Option<Unit>) {
        let n = self.len();
        let mut i: usize = 0;
        while i < n
            invariant
                i <= n,
                n == self@.len(),
                forall|j: int| 0 <= j < i ==> self@[j].region@ != region@,
            decreases n - i,
        {
            if self[i].region.same(region) {
                proof {
                    lemma_first_index(self.spec_positions(), |q: UnitPositionView| q.1 == region@, i as int);
                }
                return Some(self[i].unit.copy());
            }
            i = i + 1;
        }
        None
    }
}

} // verus!
