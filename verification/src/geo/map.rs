use super::border::{
    border_connects, border_connects_province, border_dest_from, border_dest_from_province,
    border_touches, border_touches_province, Border,
};
use super::province::{Province, SupplyCenterView};
use super::region::{region_short_name, Coast, ProvinceKey, Region, RegionKey, RegionName, Terrain};
use crate::lemmas::{lemma_filter_map_step, lemma_filter_step, lemma_map_push};
use crate::ShortName;
use vstd::prelude::*;

verus! {

/// The model of a map: its provinces, regions and borders, in insertion order.
pub struct MapView {
    pub provinces: Seq<(Seq<char>, SupplyCenterView)>,
    pub regions: Seq<(Seq<char>, Option<Coast>, Terrain)>,
    pub borders: Seq<(RegionName, RegionName, Terrain)>,
}

/// A collection of provinces, their constituent regions, and the interconnecting borders.
#[derive(Debug, Clone, PartialEq, Eq)]
pub struct WorldMap {
    provinces: Vec<Province>,
    regions: Vec<Region>,
    borders: Vec<Border>,
}

impl View for WorldMap {
    type V = MapView;

    closed spec fn view(&self) -> MapView {
        MapView {
            provinces: self.provinces@.map_values(|p: Province| p@),
            regions: self.regions@.map_values(|r: Region| r@),
            borders: self.borders@.map_values(|b: Border| b@),
        }
    }
}

/// The key of a region model.
pub open spec fn region_key_of(r: (Seq<char>, Option<Coast>, Terrain)) -> RegionName {
    (r.0, r.1)
}

/// Whether a region model has the given key.
pub open spec fn keyed(key: RegionName) -> spec_fn((Seq<char>, Option<Coast>, Terrain)) -> bool {
    |r: (Seq<char>, Option<Coast>, Terrain)| region_key_of(r) == key
}

/// Index of the first region of the map with the given key, if any.
#[verifier::opaque]
pub open spec fn first_region_with_key(m: MapView, key: RegionName) -> Option<int> {
    crate::lemmas::first_index(m.regions, keyed(key))
}

/// A region with the key, with none before it, is the first region with the key.
pub proof fn lemma_first_region_at(m: MapView, key: RegionName, i: int)
    requires
        0 <= i < m.regions.len(),
        region_key_of(m.regions[i]) == key,
        forall|j: int| 0 <= j < i ==> region_key_of(m.regions[j]) != key,
    ensures
        first_region_with_key(m, key) == Some(i),
{
    reveal(first_region_with_key);
    crate::lemmas::lemma_first_index(m.regions, keyed(key), i);
}

/// Without a region with the key, there is no first one.
pub proof fn lemma_no_region(m: MapView, key: RegionName)
    requires
        forall|j: int| 0 <= j < m.regions.len() ==> region_key_of(m.regions[j]) != key,
    ensures
        first_region_with_key(m, key) is None,
{
    reveal(first_region_with_key);
    crate::lemmas::lemma_first_index_props(m.regions, keyed(key));
}

/// The first region with a key lies on the map and has the key.
pub proof fn lemma_first_region_bound(m: MapView, key: RegionName)
    ensures
        first_region_with_key(m, key) matches Some(i) ==> 0 <= i < m.regions.len() && region_key_of(m.regions[i]) == key,
{
    reveal(first_region_with_key);
    crate::lemmas::lemma_first_index_props(m.regions, keyed(key));
}

/// The borders of the map that touch region `r`, in map order.
pub open spec fn borders_touching(m: MapView, r: RegionName) -> Seq<
    (RegionName, RegionName, Terrain),
> {
    m.borders.filter(|b: (RegionName, RegionName, Terrain)| border_touches(b, r))
}

/// The regions across a border from region `r`, in map order.
pub open spec fn bordering_regions(m: MapView, r: RegionName) -> Seq<RegionName> {
    m.borders.filter_map(|b: (RegionName, RegionName, Terrain)| border_dest_from(b, r))
}

/// The regions across a border from some region of province `p`, in map order.
pub open spec fn bordering_province(m: MapView, p: Seq<char>) -> Seq<RegionName> {
    m.borders.filter_map(|b: (RegionName, RegionName, Terrain)| border_dest_from_province(b, p))
}

/// The borders of the map that join region `r1` with some region of province `p2`.
pub open spec fn borders_between_province(m: MapView, r1: RegionName, p2: Seq<char>) -> Seq<
    (RegionName, RegionName, Terrain),
> {
    m.borders.filter(|b: (RegionName, RegionName, Terrain)| border_connects_province(b, r1, p2))
}

/// Index of the first border of the map joining `r1` and `r2`, if any.
pub open spec fn first_border_between(m: MapView, r1: RegionName, r2: RegionName) -> Option<int> {
    if exists|i: int| 0 <= i < m.borders.len() && border_connects(m.borders[i], r1, r2) {
        Some(
            choose|i: int|
                0 <= i < m.borders.len() && border_connects(m.borders[i], r1, r2) && forall|j: int|
                    0 <= j < i ==> !border_connects(m.borders[j], r1, r2),
        )
    } else {
        None
    }
}

impl WorldMap {
    /// Creates a map with no provinces, regions or borders.
    pub fn new() -> (r: WorldMap)
        ensures
            r@.provinces.len() == 0,
            r@.regions.len() == 0,
            r@.borders.len() == 0,
    {
        let r = WorldMap { provinces: Vec::new(), regions: Vec::new(), borders: Vec::new() };
        proof {
            assert(r@.provinces =~= Seq::empty());
            assert(r@.regions =~= Seq::empty());
            assert(r@.borders =~= Seq::empty());
        }
        r
    }

    /// Adds a province.
    pub fn add_province(&mut self, p: Province)
        ensures
            final(self)@.provinces == old(self)@.provinces.push(p@),
            final(self)@.regions == old(self)@.regions,
            final(self)@.borders == old(self)@.borders,
    {
        self.provinces.push(p);
        proof {
            assert(self@.provinces =~= old(self)@.provinces.push(p@));
        }
    }

    /// Adds a region.
    pub fn add_region(&mut self, r: Region)
        ensures
            final(self)@.provinces == old(self)@.provinces,
            final(self)@.regions == old(self)@.regions.push(r@),
            final(self)@.borders == old(self)@.borders,
    {
        self.regions.push(r);
        proof {
            assert(self@.regions =~= old(self)@.regions.push(r@));
        }
    }

    /// Adds a border.
    pub fn add_border(&mut self, b: Border)
        ensures
            final(self)@.provinces == old(self)@.provinces,
            final(self)@.regions == old(self)@.regions,
            final(self)@.borders == old(self)@.borders.push(b@),
    {
        self.borders.push(b);
        proof {
            assert(self@.borders =~= old(self)@.borders.push(b@));
        }
    }

    /// The provinces in the map. Each province is listed exactly once.
    pub fn provinces(&self) -> (r: &Vec<Province>)
        ensures
            r@.map_values(|p: Province| p@) == self@.provinces,
    {
        &self.provinces
    }

    /// The regions in the map.
    pub fn regions(&self) -> (r: &Vec<Region>)
        ensures
            r@.map_values(|x: Region| x@) == self@.regions,
    {
        &self.regions
    }

    /// The borders in the map.
    pub fn borders(&self) -> (r: &Vec<Border>)
        ensures
            r@.map_values(|b: Border| b@) == self@.borders,
    {
        &self.borders
    }

    /// Find a region by its key: the first region of the map with that key.
    pub fn find_region_key(&self, key: &RegionKey) -> (r: Option<&Region>)
        ensures
            match r {
                Some(reg) => first_region_with_key(self@, key@) matches Some(i) && self@.regions[i]
                    == reg@,
                None => first_region_with_key(self@, key@) is None,
            },
    {
        let n: usize = self.regions.len();
        let mut i: usize = 0;
        while i < n
            invariant
                0 <= i <= n,
                n == self.regions@.len(),
                self@.regions == self.regions@.map_values(|x: Region| x@),
                forall|j: int| 0 <= j < i ==> region_key_of(self@.regions[j]) != key@,
            decreases n - i,
        {
            if self.regions[i].is_keyed_by(key) {
                proof {
                    assert(self@.regions[i as int] == self.regions@[i as int]@);
                    lemma_first_region_at(self@, key@, i as int);
                }
                return Some(&self.regions[i]);
            }
            i = i + 1;
        }
        proof {
            lemma_no_region(self@, key@);
        }
        None
    }

    /// Find a region by its canonical short name, such as `spa(nc)`.
    pub fn find_region(&self, short_name: &str) -> (r: Option<&Region>)
        ensures
            match r {
                Some(reg) => exists|i: int|
                    0 <= i < self@.regions.len() && self@.regions[i] == reg@ && region_short_name(
                        region_key_of(reg@),
                    ) == short_name@,
                None => forall|i: int|
                    0 <= i < self@.regions.len() ==> region_short_name(region_key_of(self@.regions[i]))
                        != short_name@,
            },
    {
        let wanted = String::from_str(short_name);
        let n: usize = self.regions.len();
        let mut i: usize = 0;
        while i < n
            invariant
                0 <= i <= n,
                n == self.regions@.len(),
                self@.regions == self.regions@.map_values(|x: Region| x@),
                forall|j: int|
                    0 <= j < i ==> region_short_name(region_key_of(self@.regions[j]))
                        != short_name@,
                wanted@ == short_name@,
            decreases n - i,
        {
            let name = self.regions[i].short_name();
            if name == wanted {
                proof {
                    assert(self@.regions[i as int] == self.regions@[i as int]@);
                }
                return Some(&self.regions[i]);
            }
            i = i + 1;
        }
        None
    }

    /// Get all borders with a region.
    pub fn borders_containing(&self, r: &RegionKey) -> (res: Vec<&Border>)
        ensures
            res@.map_values(|b: &Border| b@) == borders_touching(self@, r@),
    {
        let ghost pred = |b: (RegionName, RegionName, Terrain)| border_touches(b, r@);
        let mut res: Vec<&Border> = Vec::new();
        let n: usize = self.borders.len();
        let mut i: usize = 0;
        while i < n
            invariant
                0 <= i <= n,
                n == self.borders@.len(),
                self@.borders == self.borders@.map_values(|b: Border| b@),
                res@.map_values(|b: &Border| b@) == self@.borders.take(i as int).filter(pred),
                forall|x: (RegionName, RegionName, Terrain)| pred(x) == border_touches(x, r@),
            decreases n - i,
        {
            let b = &self.borders[i];
            let ghost prev = res@;
            proof {
                lemma_filter_step(self@.borders, i as int, pred);
                assert(self@.borders[i as int] == b@);
            }
            if b.contains(r) {
                res.push(b);
                proof {
                    lemma_map_push(prev, b, |b: &Border| b@);
                }
            }
            i = i + 1;
        }
        proof {
            assert(self@.borders.take(n as int) =~= self@.borders);
        }
        res
    }

    /// Gets the regions that share a border with the specified region.
    pub fn find_bordering(&self, r: &RegionKey) -> (res: Vec<&RegionKey>)
        ensures
            res@.map_values(|k: &RegionKey| k@) == bordering_regions(self@, r@),
    {
        let ghost f = |b: (RegionName, RegionName, Terrain)| border_dest_from(b, r@);
        let mut res: Vec<&RegionKey> = Vec::new();
        let n: usize = self.borders.len();
        let mut i: usize = 0;
        while i < n
            invariant
                0 <= i <= n,
                n == self.borders@.len(),
                self@.borders == self.borders@.map_values(|b: Border| b@),
                res@.map_values(|k: &RegionKey| k@) == self@.borders.take(i as int).filter_map(f),
                forall|x: (RegionName, RegionName, Terrain)| f(x) == border_dest_from(x, r@),
            decreases n - i,
        {
            let b = &self.borders[i];
            let ghost prev = res@;
            proof {
                lemma_filter_map_step(self@.borders, i as int, f);
                assert(self@.borders[i as int] == b@);
            }
            match b.dest_from(r) {
                Some(d) => {
                    res.push(d);
                    proof {
                        lemma_map_push(prev, d, |k: &RegionKey| k@);
                    }
                },
                None => {},
            }
            i = i + 1;
        }
        proof {
            assert(self@.borders.take(n as int) =~= self@.borders);
        }
        res
    }

    /// Gets the regions that share a border with some region of the specified province.
    pub fn find_bordering_province(&self, p: &ProvinceKey) -> (res: Vec<&RegionKey>)
        ensures
            res@.map_values(|k: &RegionKey| k@) == bordering_province(self@, p@),
    {
        let ghost f = |b: (RegionName, RegionName, Terrain)| border_dest_from_province(b, p@);
        let mut res: Vec<&RegionKey> = Vec::new();
        let n: usize = self.borders.len();
        let mut i: usize = 0;
        while i < n
            invariant
                0 <= i <= n,
                n == self.borders@.len(),
                self@.borders == self.borders@.map_values(|b: Border| b@),
                res@.map_values(|k: &RegionKey| k@) == self@.borders.take(i as int).filter_map(f),
                forall|x: (RegionName, RegionName, Terrain)| f(x) == border_dest_from_province(x, p@),
            decreases n - i,
        {
            let b = &self.borders[i];
            let ghost prev = res@;
            proof {
                lemma_filter_map_step(self@.borders, i as int, f);
                assert(self@.borders[i as int] == b@);
            }
            match b.dest_from_province(p) {
                Some(d) => {
                    res.push(d);
                    proof {
                        lemma_map_push(prev, d, |k: &RegionKey| k@);
                    }
                },
                None => {},
            }
            i = i + 1;
        }
        proof {
            assert(self@.borders.take(n as int) =~= self@.borders);
        }
        res
    }

    /// Get a border between two regions, if one exists: the first such border of the map.
    pub fn find_border_between(&self, r1: &RegionKey, r2: &RegionKey) -> (res: Option<&Border>)
        ensures
            match res {
                Some(b) => first_border_between(self@, r1@, r2@) matches Some(i) && self@.borders[i]
                    == b@,
                None => first_border_between(self@, r1@, r2@) is None,
            },
    {
        let n: usize = self.borders.len();
        let mut i: usize = 0;
        while i < n
            invariant
                0 <= i <= n,
                n == self.borders@.len(),
                self@.borders == self.borders@.map_values(|b: Border| b@),
                forall|j: int| 0 <= j < i ==> !border_connects(self@.borders[j], r1@, r2@),
            decreases n - i,
        {
            if self.borders[i].connects(r1, r2) {
                proof {
                    let m = self@;
                    let k: int = choose|k: int|
                        0 <= k < m.borders.len() && border_connects(m.borders[k], r1@, r2@)
                            && forall|j: int|
                            0 <= j < k ==> !border_connects(m.borders[j], r1@, r2@);
                    assert(border_connects(m.borders[i as int], r1@, r2@));
                    if k < i {
                        assert(!border_connects(m.borders[k], r1@, r2@));
                    }
                    if i < k {
                        assert(!border_connects(m.borders[i as int], r1@, r2@));
                    }
                }
                return Some(&self.borders[i]);
            }
            i = i + 1;
        }
        None
    }

    /// Finds all borders connecting a region to a given province.
    /// Used for support and convoy cases.
    pub fn find_borders_between(&self, r1: &RegionKey, p2: &ProvinceKey) -> (res: Vec<&Border>)
        ensures
            res@.map_values(|b: &Border| b@) == borders_between_province(self@, r1@, p2@),
    {
        let ghost pred = |b: (RegionName, RegionName, Terrain)| border_connects_province(b, r1@, p2@);
        let mut res: Vec<&Border> = Vec::new();
        let n: usize = self.borders.len();
        let mut i: usize = 0;
        while i < n
            invariant
                0 <= i <= n,
                n == self.borders@.len(),
                self@.borders == self.borders@.map_values(|b: Border| b@),
                res@.map_values(|b: &Border| b@) == self@.borders.take(i as int).filter(pred),
                forall|x: (RegionName, RegionName, Terrain)| pred(x) == border_connects_province(x, r1@, p2@),
            decreases n - i,
        {
            let b = &self.borders[i];
            let ghost prev = res@;
            proof {
                lemma_filter_step(self@.borders, i as int, pred);
                assert(self@.borders[i as int] == b@);
            }
            if b.connects_province(r1, p2) {
                res.push(b);
                proof {
                    lemma_map_push(prev, b, |b: &Border| b@);
                }
            }
            i = i + 1;
        }
        proof {
            assert(self@.borders.take(n as int) =~= self@.borders);
        }
        res
    }
}

} // verus!
