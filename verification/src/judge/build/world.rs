//! The state of the world a build phase is judged against: who controls each province, and
//! which units stand where.
use crate::geo::{ProvinceKey, RegionKey, RegionName, SupplyCenter, WorldMap};
use crate::geo::province::SupplyCenterView;
use crate::lemmas::{first_index, lemma_first_index, lemma_first_index_props};
use crate::nation::Nation;
use crate::unit::{UnitPosition, UnitPositionView, UnitType};
use vstd::prelude::*;

verus! {

/// The position of the first entry for province `p`, if any.
#[verifier::opaque]
pub open spec fn key_index(es: Seq<(Seq<char>, Seq<char>)>, p: Seq<char>) -> Option<int> {
    first_index(es, |e: (Seq<char>, Seq<char>)| e.0 == p)
}

/// What the first entry for a province is.
pub proof fn lemma_key_index(es: Seq<(Seq<char>, Seq<char>)>, p: Seq<char>)
    ensures
        match key_index(es, p) {
            Some(i) => 0 <= i < es.len() && es[i].0 == p && forall|j: int| 0 <= j < i ==> es[j].0 != p,
            None => forall|j: int| 0 <= j < es.len() ==> es[j].0 != p,
        },
{
    reveal(key_index);
    lemma_first_index_props(es, |e: (Seq<char>, Seq<char>)| e.0 == p);
}

/// The first entry for a province is at `i`.
pub proof fn lemma_key_index_at(es: Seq<(Seq<char>, Seq<char>)>, p: Seq<char>, i: int)
    requires
        0 <= i < es.len(),
        es[i].0 == p,
        forall|j: int| 0 <= j < i ==> es[j].0 != p,
    ensures
        key_index(es, p) == Some(i),
{
    reveal(key_index);
    lemma_first_index(es, |e: (Seq<char>, Seq<char>)| e.0 == p, i);
}

/// A table from provinces to the nations that control them.
pub struct Ownerships {
    entries: Vec<(ProvinceKey, Nation)>,
}

impl Ownerships {
    /// The entries, provinces and nations by name.
    pub closed spec fn spec_entries(&self) -> Seq<(Seq<char>, Seq<char>)> {
        self.entries@.map_values(|e: (ProvinceKey, Nation)| (e.0@, e.1@))
    }

    /// The nation that controls province `p`, if any.
    pub open spec fn spec_get(&self, p: Seq<char>) -> Option<Seq<char>> {
        match key_index(self.spec_entries(), p) {
            Some(i) => Some(self.spec_entries()[i].1),
            None => None,
        }
    }

    /// An empty table.
    pub fn new() -> (r: Ownerships)
        ensures
            r.spec_entries().len() == 0,
            forall|p: Seq<char>| r.spec_get(p) is None,
    {
        let r = Ownerships { entries: Vec::new() };
        proof {
            assert forall|p: Seq<char>| r.spec_get(p) is None by {
                lemma_key_index(r.spec_entries(), p);
            }
        }
        r
    }

    /// Whether the table is empty.
    pub fn is_empty(&self) -> (r: bool)
        ensures
            r == (self.spec_entries().len() == 0),
    {
        self.entries.len() == 0
    }

    /// The number of entries.
    pub fn len(&self) -> (r: usize)
        ensures
            r == self.spec_entries().len(),
    {
        self.entries.len()
    }

    /// The position of the first entry for `province`, if any.
    fn position(&self, province: &ProvinceKey) -> (r: Option<usize>)
        ensures
            match r {
                Some(i) => key_index(self.spec_entries(), province@)
                    == Some(i as int),
                None => key_index(self.spec_entries(), province@) is None,
            },
    {
        let ghost es = self.spec_entries();
        let mut i: usize = 0;
        while i < self.entries.len()
            invariant
                i <= self.entries@.len(),
                es == self.spec_entries(),
                forall|k: int| 0 <= k < i ==> (#[trigger] es[k]).0 != province@,
            decreases self.entries@.len() - i,
        {
            assert(es[i as int] == (self.entries@[i as int].0@, self.entries@[i as int].1@));
            if self.entries[i].0.same(province) {
                proof {
                    lemma_key_index_at(es, province@, i as int);
                }
                return Some(i);
            }
            i = i + 1;
        }
        proof {
            lemma_key_index(es, province@);
            if key_index(es, province@) is Some {
                let k = key_index(es, province@)->0;
                assert(es[k].0 == province@);
            }
        }
        None
    }

    /// Record that `nation` controls `province`, replacing any earlier controller.
    pub fn insert(&mut self, province: ProvinceKey, nation: Nation)
        ensures
            final(self).spec_get(province@) == Some(nation@),
            forall|p: Seq<char>| p != province@ ==> final(self).spec_get(p) == old(self).spec_get(p),
    {
        let ghost before = self.spec_entries();
        let ghost pv = province@;
        let ghost nv = nation@;
        match self.position(&province) {
            Some(i) => {
                proof {
                    lemma_key_index(before, pv);
                }
                self.entries.set(i, (province, nation));
                proof {
                    let after = self.spec_entries();
                    assert(after =~= before.update(i as int, (pv, nv)));
                    lemma_update_entries(before, i as int, pv, nv);
                }
            },
            None => {
                self.entries.push((province, nation));
                proof {
                    let after = self.spec_entries();
                    assert(after =~= before.push((pv, nv)));
                    lemma_push_entries(before, pv, nv);
                }
            },
        }
    }

    /// The nation that controls `province`, if any.
    pub fn get(&self, province: &ProvinceKey) -> (r: Option<&Nation>)
        ensures
            match r {
                Some(n) => self.spec_get(province@) == Some(n@),
                None => self.spec_get(province@) is None,
            },
    {
        match self.position(province) {
            Some(i) => {
                proof {
                    lemma_key_index(self.spec_entries(), province@);
                }
                assert(self.spec_entries()[i as int].1 == self.entries@[i as int].1@);
                Some(&self.entries[i].1)
            },
            None => None,
        }
    }
}

proof fn lemma_update_entries(before: Seq<(Seq<char>, Seq<char>)>, i: int, pv: Seq<char>, nv: Seq<char>)
    requires
        key_index(before, pv) == Some(i),
        0 <= i < before.len(),
    ensures
        ({
            let after = before.update(i, (pv, nv));
            &&& key_index(after, pv) == Some(i)
            &&& forall|p: Seq<char>|
                p != pv ==> #[trigger] key_index(after, p) == key_index(before, p) && (key_index(before, p) matches Some(k)
                    ==> after[k] == before[k])
        }),
{
    let after = before.update(i, (pv, nv));
    lemma_key_index(before, pv);
    lemma_key_index_at(after, pv, i);
    assert forall|p: Seq<char>| p != pv implies key_index(after, p)
        == key_index(before, p) && (key_index(before, p) matches Some(k) ==> after[k] == before[k]) by {
        lemma_key_index(before, p);
        lemma_key_index(after, p);
        match key_index(before, p) {
            Some(k) => {
                assert(k != i);
                lemma_key_index_at(after, p, k);
            },
            None => {
                if key_index(after, p) is Some {
                    let k = key_index(after, p)->0;
                    assert(after[k] == before[k]);
                }
            },
        }
    }
}

proof fn lemma_push_entries(before: Seq<(Seq<char>, Seq<char>)>, pv: Seq<char>, nv: Seq<char>)
    requires
        key_index(before, pv) is None,
    ensures
        ({
            let after = before.push((pv, nv));
            &&& key_index(after, pv) == Some(before.len() as int)
            &&& forall|p: Seq<char>|
                p != pv ==> #[trigger] key_index(after, p) == key_index(before, p) && (key_index(before, p) matches Some(k)
                    ==> after[k] == before[k])
        }),
{
    let after = before.push((pv, nv));
    lemma_key_index(before, pv);
    lemma_key_index_at(after, pv, before.len() as int);
    assert forall|p: Seq<char>| p != pv implies key_index(after, p)
        == key_index(before, p) && (key_index(before, p) matches Some(k) ==> after[k] == before[k]) by {
        lemma_key_index(before, p);
        lemma_key_index(after, p);
        match key_index(before, p) {
            Some(k) => {
                lemma_key_index_at(after, p, k);
            },
            None => {
                if key_index(after, p) is Some {
                    let k = key_index(after, p)->0;
                    assert(after[k] == before[k]);
                }
            },
        }
    }
}

/// Convert a map into an initial ownership state where each nation owns their home
/// supply centers and all other supply centers are unowned.
pub fn to_initial_ownerships(map: &WorldMap) -> (r: Ownerships)
    ensures
        forall|p: Seq<char>|
            #[trigger] r.spec_get(p) == home_owner(map@.provinces, p),
{
    let provinces = map.provinces();
    let ghost ps = map@.provinces;
    let mut out = Ownerships::new();
    let mut i: usize = 0;
    while i < provinces.len()
        invariant
            i <= provinces@.len(),
            provinces@.map_values(|p: crate::geo::Province| p@) == ps,
            forall|p: Seq<char>| #[trigger] out.spec_get(p) == home_owner(ps.take(i as int), p),
        decreases provinces@.len() - i,
    {
        let prov = &provinces[i];
        assert(ps[i as int] == prov@);
        proof {
            assert(ps.take(i + 1).drop_last() =~= ps.take(i as int));
            assert(ps.take(i + 1).last() == prov@);
        }
        match prov.supply_center() {
            SupplyCenter::Home(owner) => {
                out.insert(prov.key().copy(), owner.copy());
            },
            _ => {},
        }
        proof {
            assert forall|p: Seq<char>| #[trigger] out.spec_get(p) == home_owner(ps.take(i + 1), p) by {
                lemma_home_owner_step(ps.take(i + 1), p);
            }
        }
        i = i + 1;
    }
    proof {
        assert(ps.take(ps.len() as int) =~= ps);
    }
    out
}

/// The nation whose home supply center province `p` is: the last province of that name that
/// is a home supply center decides.
pub open spec fn home_owner(provinces: Seq<(Seq<char>, SupplyCenterView)>, p: Seq<char>) -> Option<Seq<char>>
    decreases provinces.len(),
{
    if provinces.len() == 0 {
        None
    } else {
        let last = provinces.last();
        if last.0 == p && last.1 is Home {
            Some(last.1->Home_0)
        } else {
            home_owner(provinces.drop_last(), p)
        }
    }
}

proof fn lemma_home_owner_step(provinces: Seq<(Seq<char>, SupplyCenterView)>, p: Seq<char>)
    requires
        provinces.len() > 0,
    ensures
        home_owner(provinces, p) == if provinces.last().0 == p && provinces.last().1 is Home {
            Some(provinces.last().1->Home_0)
        } else {
            home_owner(provinces.drop_last(), p)
        },
{
}

/// Provider for the resolver to get state about the game world that it needs to successfully
/// judge a build phase.
pub trait WorldState {
    /// The nations in the game, by name.
    spec fn spec_nations(&self) -> Seq<Seq<char>>;

    /// The nation with a unit in province `p`, by name.
    spec fn spec_occupier(&self, p: Seq<char>) -> Option<Seq<char>>;

    /// The units of a nation, by type and region.
    spec fn spec_units(&self, nation: Seq<char>) -> Seq<(UnitType, RegionName)>;

    /// Get the set of nations in the game. This must include nations that issued no
    /// orders this turn, and may include nations that have no units if those units
    /// are entitled to build.
    fn nations(&self) -> (r: Vec<&Nation>)
        ensures
            r@.map_values(|n: &Nation| n@) == self.spec_nations(),
    ;

    /// Get the nation with a unit _currently in_ the specified province. This should
    /// return `None` if the province is vacant, even if it's controlled by a nation.
    fn occupier(&self, province: &ProvinceKey) -> (r: Option<&Nation>)
        ensures
            match r {
                Some(n) => self.spec_occupier(province@) == Some(n@),
                None => self.spec_occupier(province@) is None,
            },
    ;

    /// Get the number of units owned by the specified nation
    fn unit_count(&self, nation: &Nation) -> (r: usize)
        ensures
            r == self.spec_units(nation@).len(),
    ;

    /// Get the units owned by the specified nation
    fn units(&self, nation: &Nation) -> (r: Vec<(UnitType, RegionKey)>)
        ensures
            r@.map_values(|u: (UnitType, RegionKey)| (u.0, u.1@)) == self.spec_units(nation@),
    ;
}

/// A board of units and province occupiers, as the world state of a build phase.
pub struct Board {
    nations: Vec<Nation>,
    occupiers: Ownerships,
    units: Vec<UnitPosition>,
}

impl Board {
    /// The positions of the units on the board.
    pub closed spec fn spec_positions(&self) -> Seq<UnitPositionView> {
        self.units@.map_values(|p: UnitPosition| p@)
    }

    /// A board with nothing on it.
    pub fn empty() -> (r: Board)
        ensures
            r.spec_nations().len() == 0,
            r.spec_positions().len() == 0,
            forall|p: Seq<char>| r.spec_occupier(p) is None,
    {
        Board { nations: Vec::new(), occupiers: Ownerships::new(), units: Vec::new() }
    }

    fn add_nation(&mut self, nation: &Nation)
        ensures
            final(self).spec_nations().contains(nation@),
            forall|n: Seq<char>| old(self).spec_nations().contains(n) ==> final(self).spec_nations().contains(n),
            forall|n: Seq<char>| final(self).spec_nations().contains(n) ==> n == nation@ || old(self).spec_nations().contains(n),
            final(self).spec_positions() == old(self).spec_positions(),
            forall|p: Seq<char>| final(self).spec_occupier(p) == old(self).spec_occupier(p),
    {
        let ghost before = self.spec_nations();
        let mut i: usize = 0;
        while i < self.nations.len()
            invariant
                i <= self.nations@.len(),
                before == self.spec_nations(),
                forall|k: int| 0 <= k < i ==> before[k] != nation@,
            decreases self.nations@.len() - i,
        {
            assert(before[i as int] == self.nations@[i as int]@);
            if self.nations[i].same(nation) {
                return;
            }
            i = i + 1;
        }
        self.nations.push(nation.copy());
        proof {
            let after = self.spec_nations();
            assert(after =~= before.push(nation@));
            assert(after[before.len() as int] == nation@);
            assert forall|n: Seq<char>| before.contains(n) implies after.contains(n) by {
                let k = choose|k: int| 0 <= k < before.len() && before[k] == n;
                assert(after[k] == n);
            }
            assert forall|n: Seq<char>| after.contains(n) implies n == nation@ || before.contains(n) by {
                let k = choose|k: int| 0 <= k < after.len() && after[k] == n;
                if k < before.len() {
                    assert(before[k] == n);
                }
            }
        }
    }

    /// Mark a province as occupied by a nation without having to set a unit that is present
    /// in it.
    pub fn with_occupier(self, province: ProvinceKey, nation: Nation) -> (r: Board)
        ensures
            r.spec_occupier(province@) == Some(nation@),
            forall|p: Seq<char>| p != province@ ==> r.spec_occupier(p) == self.spec_occupier(p),
            r.spec_nations().contains(nation@),
            r.spec_positions() == self.spec_positions(),
    {
        let mut b = self;
        b.add_nation(&nation);
        b.occupiers.insert(province, nation);
        b
    }

    /// Add a unit to the world. This also sets the unit's nation as the occupier of the
    /// unit's province.
    pub fn with_unit(self, position: UnitPosition) -> (r: Board)
        ensures
            r.spec_occupier(position.region@.0) == Some(position.unit@.0),
            forall|p: Seq<char>| p != position.region@.0 ==> r.spec_occupier(p) == self.spec_occupier(p),
            r.spec_nations().contains(position.unit@.0),
            r.spec_positions() == self.spec_positions().push(position@),
    {
        let mut b = self;
        let nation = position.nation().copy();
        let province = position.region.province().copy();
        b.add_nation(&nation);
        b.occupiers.insert(province, nation);
        let ghost before = b.spec_positions();
        b.units.push(position);
        proof {
            assert(b.spec_positions() =~= before.push(position@));
        }
        b
    }
}

impl WorldState for Board {
    closed spec fn spec_nations(&self) -> Seq<Seq<char>> {
        self.nations@.map_values(|n: Nation| n@)
    }

    closed spec fn spec_occupier(&self, p: Seq<char>) -> Option<Seq<char>> {
        self.occupiers.spec_get(p)
    }

    closed spec fn spec_units(&self, nation: Seq<char>) -> Seq<(UnitType, RegionName)> {
        self.spec_positions().filter(|q: UnitPositionView| q.0.0 == nation).map_values(
            |q: UnitPositionView| (q.0.1, q.1),
        )
    }

    fn nations(&self) -> (r: Vec<&Nation>) {
        let mut out: Vec<&Nation> = Vec::new();
        let mut i: usize = 0;
        while i < self.nations.len()
            invariant
                i <= self.nations@.len(),
                out@.len() == i,
                forall|k: int| 0 <= k < i ==> #[trigger] out@[k]@ == self.nations@[k]@,
            decreases self.nations@.len() - i,
        {
            out.push(&self.nations[i]);
            i = i + 1;
        }
        proof {
            assert(out@.map_values(|n: &Nation| n@) =~= self.spec_nations());
        }
        out
    }

    fn occupier(&self, province: &ProvinceKey) -> (r: Option<&Nation>) {
        self.occupiers.get(province)
    }

    fn unit_count(&self, nation: &Nation) -> (r: usize) {
        let units = self.units(nation);
        proof {
            assert(units@.map_values(|u: (UnitType, RegionKey)| (u.0, u.1@)).len() == units@.len());
        }
        units.len()
    }

    fn units(&self, nation: &Nation) -> (r: Vec<(UnitType, RegionKey)>) {
        let ghost ps = self.spec_positions();
        let ghost pred = |q: UnitPositionView| q.0.0 == nation@;
        let ghost f = |q: UnitPositionView| (q.0.1, q.1);
        let mut out: Vec<(UnitType, RegionKey)> = Vec::new();
        let mut i: usize = 0;
        while i < self.units.len()
            invariant
                i <= self.units@.len(),
                ps == self.spec_positions(),
                forall|q: UnitPositionView| pred(q) == (q.0.0 == nation@),
                forall|q: UnitPositionView| f(q) == (q.0.1, q.1),
                out@.map_values(|u: (UnitType, RegionKey)| (u.0, u.1@)) == ps.take(i as int).filter(pred).map_values(f),
            decreases self.units@.len() - i,
        {
            let u = &self.units[i];
            let ghost prev = out@;
            proof {
                crate::lemmas::lemma_filter_step(ps, i as int, pred);
                assert(ps[i as int] == u@);
            }
            if u.unit.nation().same(nation) {
                let e = (u.unit.unit_type(), u.region.copy());
                out.push(e);
                proof {
                    assert(u.unit@.0 == nation@);
                    assert(u@.0.0 == nation@);
                    assert(ps[i as int].0.0 == nation@);
                    assert(pred(ps[i as int]));
                    crate::lemmas::lemma_map_push(prev, e, |u: (UnitType, RegionKey)| (u.0, u.1@));
                    crate::lemmas::lemma_map_push(ps.take(i as int).filter(pred), ps[i as int], f);
                    assert(f(ps[i as int]) == (e.0, e.1@));
                }
            } else {
                assert(u.unit@.0 != nation@);
                assert(u@.0.0 != nation@);
                assert(ps[i as int].0.0 != nation@);
                assert(!pred(ps[i as int]));
            }
            i = i + 1;
        }
        proof {
            assert(ps.take(ps.len() as int) =~= ps);
        }
        out
    }
}

} // verus!
