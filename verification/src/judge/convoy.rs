use crate::geo::map::{bordering_province, first_region_with_key};
use crate::geo::{MapView, ProvinceKey, RegionKey, RegionName, Terrain, WorldMap};
use crate::lemmas::lemma_distinct_bounded;
use crate::order::main_phase::spec_convoy_matches;
use crate::order::{MainCommand, MainOrderView};
use crate::unit::{UnitPosition, UnitPositionView, UnitType};
use super::calc::spec_convoy_route_exists;
use super::resolver::{kept, ready, settled, Context, ResolverState};
use super::rulebook::WillUseConvoy;
use super::MappedMainOrder;
use vstd::prelude::*;

verus! {

/// Failure cases for convoy route lookup.
#[derive(Debug, Clone, Copy, PartialEq, Eq, Structural)]
pub enum ConvoyRouteError {
    /// Only armies can be convoyed.
    CanOnlyConvoyArmy,
    /// Hold, support, and convoy orders cannot be convoyed.
    CanOnlyConvoyMove,
}

/// The province a route has reached: the start, or the province of the last convoying unit.
pub open spec fn current_province(regions: Seq<RegionName>, start: Seq<char>, path: Seq<usize>) -> Seq<
    char,
> {
    if path.len() == 0 {
        start
    } else {
        regions[path.last() as int].0
    }
}

/// Whether region `r` shares a border with some region of province `p`.
pub open spec fn adjacent(m: MapView, p: Seq<char>, r: RegionName) -> bool {
    bordering_province(m, p).contains(r)
}

/// Whether some region of province `dest` shares a border with some region of province `p`.
pub open spec fn reaches(m: MapView, p: Seq<char>, dest: Seq<char>) -> bool {
    exists|i: int| 0 <= i < bordering_province(m, p).len() && bordering_province(m, p)[i].0 == dest
}

/// A start of a convoy route: distinct convoying units, each next to the province reached
/// before it, beginning next to province `start`.
#[verifier::opaque]
pub open spec fn is_partial_route(
    m: MapView,
    regions: Seq<RegionName>,
    start: Seq<char>,
    path: Seq<usize>,
) -> bool {
    &&& path.no_duplicates()
    &&& forall|k: int| 0 <= k < path.len() ==> path[k] < regions.len()
    &&& forall|k: int|
        0 <= k < path.len() ==> adjacent(
            m,
            current_province(regions, start, path.take(k)),
            regions[path[k] as int],
        )
}

/// A convoy route from province `start` to province `dest`: a non-empty start of a route
/// whose last unit lies next to the destination.
pub open spec fn is_route(
    m: MapView,
    regions: Seq<RegionName>,
    start: Seq<char>,
    dest: Seq<char>,
    path: Seq<usize>,
) -> bool {
    path.len() > 0 && is_partial_route(m, regions, start, path) && reaches(
        m,
        current_province(regions, start, path),
        dest,
    )
}

fn contains_index(v: &Vec<usize>, c: usize) -> (r: bool)
    ensures
        r == v@.contains(c),
{
    let mut i: usize = 0;
    while i < v.len()
        invariant
            i <= v@.len(),
            forall|j: int| 0 <= j < i ==> v@[j] != c,
        decreases v@.len() - i,
    {
        if v[i] == c {
            return true;
        }
        i = i + 1;
    }
    false
}

fn contains_region(v: &Vec<&RegionKey>, r: &RegionKey) -> (res: bool)
    ensures
        res == v@.map_values(|k: &RegionKey| k@).contains(r@),
{
    let mut i: usize = 0;
    while i < v.len()
        invariant
            i <= v@.len(),
            forall|j: int| 0 <= j < i ==> v@[j]@ != r@,
        decreases v@.len() - i,
    {
        if v[i].same(r) {
            proof {
                assert(v@.map_values(|k: &RegionKey| k@)[i as int] == r@);
            }
            return true;
        }
        i = i + 1;
    }
    proof {
        if v@.map_values(|k: &RegionKey| k@).contains(r@) {
            let vs = v@.map_values(|k: &RegionKey| k@);
            let j = choose|j: int| 0 <= j < vs.len() && #[trigger] vs[j] == r@;
            assert(v@[j]@ == r@);
        }
    }
    false
}

fn any_in_province(v: &Vec<&RegionKey>, p: &ProvinceKey) -> (res: bool)
    ensures
        res == exists|j: int| 0 <= j < v@.len() && v@[j]@.0 == p@,
{
    let mut i: usize = 0;
    while i < v.len()
        invariant
            i <= v@.len(),
            forall|j: int| 0 <= j < i ==> v@[j]@.0 != p@,
        decreases v@.len() - i,
    {
        if v[i].in_province(p) {
            return true;
        }
        i = i + 1;
    }
    false
}

proof fn lemma_extend_partial(
    m: MapView,
    regions: Seq<RegionName>,
    start: Seq<char>,
    w: Seq<usize>,
    c: usize,
)
    requires
        is_partial_route(m, regions, start, w),
        !w.contains(c),
        c < regions.len(),
        adjacent(m, current_province(regions, start, w), regions[c as int]),
    ensures
        is_partial_route(m, regions, start, w.push(c)),
        current_province(regions, start, w.push(c)) == regions[c as int].0,
        w.push(c).no_duplicates(),
        forall|k: int| 0 <= k < w.push(c).len() ==> w.push(c)[k] < regions.len(),
{
    reveal(is_partial_route);
    let nw = w.push(c);
    assert forall|k: int| 0 <= k < nw.len() implies adjacent(
        m,
        current_province(regions, start, nw.take(k)),
        regions[nw[k] as int],
    ) by {
        if k < w.len() {
            assert(nw.take(k) =~= w.take(k));
        } else {
            assert(nw.take(k) =~= w);
        }
    }
    assert forall|i: int, j: int| 0 <= i < nw.len() && 0 <= j < nw.len() && i != j implies nw[i]
        != nw[j] by {
        if i == w.len() {
            assert(nw[j] == w[j]);
        } else if j == w.len() {
            assert(nw[i] == w[i]);
        }
    }
}

/// A convoy route that comes next to the destination only at its end: no shorter non-empty
/// start of it lies next to the destination.
pub open spec fn is_minimal_route(
    m: MapView,
    regions: Seq<RegionName>,
    start: Seq<char>,
    dest: Seq<char>,
    q: Seq<usize>,
) -> bool {
    is_route(m, regions, start, dest, q) && not_yet_reached(m, regions, start, dest, q)
}

/// No non-empty start of `w` shorter than `w` lies next to the destination.
pub open spec fn not_yet_reached(
    m: MapView,
    regions: Seq<RegionName>,
    start: Seq<char>,
    dest: Seq<char>,
    w: Seq<usize>,
) -> bool {
    forall|k: int| 1 <= k < w.len() ==> !#[trigger] reaches(m, current_province(regions, start, w.take(k)), dest)
}

/// Route `q` extends the route `w` taken so far.
pub open spec fn extends(q: Seq<usize>, w: Seq<usize>) -> bool {
    q.len() >= w.len() && q.take(w.len() as int) == w
}

/// Some complete route extends `w` with the unit `c` next.
#[verifier::opaque]
pub open spec fn route_via(
    m: MapView,
    rs: Seq<RegionName>,
    start: Seq<char>,
    dest: Seq<char>,
    w: Seq<usize>,
    c: usize,
) -> bool {
    exists|q: Seq<usize>|
        is_route(m, rs, start, dest, q) && q.len() > w.len() && extends(q, w) && q[w.len() as int]
            == c
}

/// Some complete route extends `w`.
#[verifier::opaque]
pub open spec fn route_after(
    m: MapView,
    rs: Seq<RegionName>,
    start: Seq<char>,
    dest: Seq<char>,
    w: Seq<usize>,
) -> bool {
    exists|q: Seq<usize>| is_route(m, rs, start, dest, q) && extends(q, w)
}

proof fn lemma_skip_branch(
    m: MapView,
    rs: Seq<RegionName>,
    start: Seq<char>,
    dest: Seq<char>,
    w: Seq<usize>,
    c: usize,
)
    requires
        is_partial_route(m, rs, start, w),
        w.contains(c) || !adjacent(m, current_province(rs, start, w), rs[c as int]),
    ensures
        !route_via(m, rs, start, dest, w, c),
{
    reveal(route_via);
    reveal(is_partial_route);
    if route_via(m, rs, start, dest, w, c) {
        let q = choose|q: Seq<usize>|
            is_route(m, rs, start, dest, q) && q.len() > w.len() && extends(q, w) && q[w.len() as int]
                == c;
        let k = w.len() as int;
        assert(q.take(k) =~= w);
        assert(adjacent(m, current_province(rs, start, q.take(k)), rs[q[k] as int]));
        if w.contains(c) {
            let j = choose|j: int| 0 <= j < w.len() && w[j] == c;
            assert(q[j] == w[j]);
        }
    }
}

proof fn lemma_take_branch(
    m: MapView,
    rs: Seq<RegionName>,
    start: Seq<char>,
    dest: Seq<char>,
    w: Seq<usize>,
    c: usize,
)
    requires
        route_via(m, rs, start, dest, w, c),
    ensures
        route_after(m, rs, start, dest, w.push(c)),
{
    reveal(route_via);
    reveal(route_after);
    let q = choose|q: Seq<usize>|
        is_route(m, rs, start, dest, q) && q.len() > w.len() && extends(q, w) && q[w.len() as int] == c;
    assert(q.take(w.len() as int) == w);
    assert(q.take(w.len() as int + 1) =~= w.push(c));
    assert(extends(q, w.push(c)));
}

proof fn lemma_extends_trans(p: Seq<usize>, w: Seq<usize>, c: usize)
    requires
        extends(p, w.push(c)),
    ensures
        extends(p, w),
{
    assert(p.take(w.len() as int + 1).take(w.len() as int) =~= p.take(w.len() as int));
    assert(w.push(c).take(w.len() as int) =~= w);
}

proof fn lemma_route_split(
    m: MapView,
    rs: Seq<RegionName>,
    start: Seq<char>,
    dest: Seq<char>,
    w: Seq<usize>,
)
    requires
        route_after(m, rs, start, dest, w),
        !(w.len() > 0 && reaches(m, current_province(rs, start, w), dest)),
    ensures
        exists|c: usize| c < rs.len() && route_via(m, rs, start, dest, w, c),
{
    reveal(route_via);
    reveal(route_after);
    reveal(is_partial_route);
    let q = choose|q: Seq<usize>| is_route(m, rs, start, dest, q) && extends(q, w);
    if q.len() == w.len() {
        assert(q =~= w);
    } else {
        let c = q[w.len() as int];
        assert(c < rs.len());
        assert(route_via(m, rs, start, dest, w, c));
    }
}

proof fn lemma_route_found(
    m: MapView,
    rs: Seq<RegionName>,
    start: Seq<char>,
    dest: Seq<char>,
    w: Seq<usize>,
)
    requires
        is_partial_route(m, rs, start, w),
        w.len() > 0,
        reaches(m, current_province(rs, start, w), dest),
    ensures
        is_route(m, rs, start, dest, w),
        extends(w, w),
{
    assert(w.take(w.len() as int) =~= w);
}

fn copy_path(w: &Vec<usize>) -> (r: Vec<usize>)
    ensures
        r@ == w@,
{
    let mut next_path: Vec<usize> = Vec::new();
    let mut k: usize = 0;
    while k < w.len()
        invariant
            k <= w@.len(),
            next_path@ == w@.take(k as int),
        decreases w@.len() - k,
    {
        next_path.push(w[k]);
        proof {
            assert(next_path@ =~= w@.take(k + 1));
        }
        k = k + 1;
    }
    proof {
        assert(next_path@ =~= w@);
    }
    next_path
}

/// Find all routes from the current province `origin` to province `dest` through the given
/// convoying units, extending the route `working_path` taken so far from province `start`.
///
/// A route is reported as soon as it lies next to the destination; it is not extended further.
fn extend_routes(
    map: &WorldMap,
    regions: &Vec<RegionKey>,
    origin: &ProvinceKey,
    dest: &ProvinceKey,
    working_path: Vec<usize>,
    Ghost(start): Ghost<Seq<char>>,
) -> (r: Vec<Vec<usize>>)
    requires
        is_partial_route(map@, regions@.map_values(|k: RegionKey| k@), start, working_path@),
        origin@ == current_province(regions@.map_values(|k: RegionKey| k@), start, working_path@),
        not_yet_reached(map@, regions@.map_values(|k: RegionKey| k@), start, dest@, working_path@),
    ensures
        forall|i: int|
            0 <= i < r@.len() ==> is_route(
                map@,
                regions@.map_values(|k: RegionKey| k@),
                start,
                dest@,
                #[trigger] r@[i]@,
            ) && extends(r@[i]@, working_path@),
        route_after(map@, regions@.map_values(|k: RegionKey| k@), start, dest@, working_path@)
            ==> r@.len() > 0,
        forall|a: int, b: int| 0 <= a < b < r@.len() ==> r@[a]@ != r@[b]@,
        forall|i: int|
            0 <= i < r@.len() ==> is_minimal_route(
                map@,
                regions@.map_values(|k: RegionKey| k@),
                start,
                dest@,
                #[trigger] r@[i]@,
            ),
        forall|q: Seq<usize>|
            is_minimal_route(map@, regions@.map_values(|k: RegionKey| k@), start, dest@, q)
                && #[trigger] extends(q, working_path@) ==> exists|i: int| 0 <= i < r@.len() && r@[i]@ == q,
    decreases regions@.len() - working_path@.len(),
{
    let ghost rs = regions@.map_values(|k: RegionKey| k@);
    let ghost w = working_path@;
    let adjacent_regions = map.find_bordering_province(origin);
    // if we've got a convoy going and there is one hop to the destination,
    // we've found a valid solution.
    if working_path.len() > 0 && any_in_province(&adjacent_regions, dest) {
        proof {
            let j = choose|j: int| 0 <= j < adjacent_regions@.len() && adjacent_regions@[j]@.0 == dest@;
            assert(bordering_province(map@, origin@)[j] == adjacent_regions@[j]@);
            lemma_route_found(map@, rs, start, dest@, w);
        }
        let mut one: Vec<Vec<usize>> = Vec::new();
        one.push(working_path);
        proof {
            assert(one@[0]@ == w);
            assert(w.take(w.len() as int) =~= w);
            assert forall|q: Seq<usize>|
                #[trigger] is_minimal_route(map@, rs, start, dest@, q) && extends(q, w) implies exists|i: int|
                0 <= i < one@.len() && one@[i]@ == q by {
                if q.len() > w.len() {
                    assert(q.take(w.len() as int) == w);
                    assert(!reaches(map@, current_province(rs, start, q.take(w.len() as int)), dest@));
                }
                assert(q =~= w);
            }
        }
        return one;
    }
    proof {
        if w.len() > 0 && reaches(map@, origin@, dest@) {
            let j = choose|j: int|
                0 <= j < bordering_province(map@, origin@).len() && bordering_province(map@, origin@)[j].0
                    == dest@;
            assert(adjacent_regions@[j]@.0 == dest@);
        }
    }
    let mut paths: Vec<Vec<usize>> = Vec::new();
    let n = regions.len();
    let mut c: usize = 0;
    while c < n
        invariant
            c <= n,
            n == regions@.len(),
            rs == regions@.map_values(|k: RegionKey| k@),
            w == working_path@,
            is_partial_route(map@, rs, start, w),
            origin@ == current_province(rs, start, w),
            adjacent_regions@.map_values(|k: &RegionKey| k@) == bordering_province(map@, origin@),
            forall|i: int|
                0 <= i < paths@.len() ==> is_route(map@, rs, start, dest@, #[trigger] paths@[i]@)
                    && extends(paths@[i]@, w),
            (exists|d: usize| d < c && route_via(map@, rs, start, dest@, w, d)) ==> paths@.len() > 0,
            forall|a: int, b: int| 0 <= a < b < paths@.len() ==> paths@[a]@ != paths@[b]@,
            forall|i: int| 0 <= i < paths@.len() ==> (#[trigger] paths@[i])@.len() > w.len() && paths@[i]@[w.len() as int] < c,
            not_yet_reached(map@, rs, start, dest@, w),
            !(w.len() > 0 && reaches(map@, origin@, dest@)),
            forall|i: int| 0 <= i < paths@.len() ==> is_minimal_route(map@, rs, start, dest@, #[trigger] paths@[i]@),
            forall|q: Seq<usize>|
                #[trigger] is_minimal_route(map@, rs, start, dest@, q) && extends(q, w) && q.len() > w.len()
                    && q[w.len() as int] < c ==> exists|i: int| 0 <= i < paths@.len() && paths@[i]@ == q,
        decreases n - c,
    {
        // move to adjacent, and don't allow backtracking/cycles
        if !contains_index(&working_path, c) && contains_region(&adjacent_regions, &regions[c]) {
            let mut next_path = copy_path(&working_path);
            proof {
                assert(regions@[c as int]@ == rs[c as int]);
                lemma_extend_partial(map@, rs, start, w, c);
                lemma_distinct_bounded(w.push(c), n as nat);
            }
            next_path.push(c);
            let ghost nw = next_path@;
            proof {
                assert(nw == w.push(c));
                assert forall|k: int| 1 <= k < nw.len() implies !#[trigger] reaches(
                    map@,
                    current_province(rs, start, nw.take(k)),
                    dest@,
                ) by {
                    assert(nw.take(k) =~= w.take(k));
                    if k == w.len() {
                        assert(w.take(k) =~= w);
                    }
                }
            }
            let mut steps = extend_routes(
                map,
                regions,
                regions[c].province(),
                dest,
                next_path,
                Ghost(start),
            );
            let ghost old_paths = paths@;
            let ghost old_steps = steps@;
            proof {
                if route_via(map@, rs, start, dest@, w, c) {
                    lemma_take_branch(map@, rs, start, dest@, w, c);
                }
            }
            paths.append(&mut steps);
            proof {
                assert forall|i: int| 0 <= i < paths@.len() implies is_route(
                    map@,
                    rs,
                    start,
                    dest@,
                    #[trigger] paths@[i]@,
                ) && extends(paths@[i]@, w) by {
                    if i < old_paths.len() {
                        assert(paths@[i] == old_paths[i]);
                    } else {
                        assert(paths@[i] == old_steps[i - old_paths.len()]);
                        lemma_extends_trans(paths@[i]@, w, c);
                    }
                }
                assert forall|i: int| 0 <= i < paths@.len() implies (#[trigger] paths@[i])@.len() > w.len()
                    && paths@[i]@[w.len() as int] < c + 1 by {
                    if i < old_paths.len() {
                        assert(paths@[i] == old_paths[i]);
                    } else {
                        let q = paths@[i]@;
                        assert(paths@[i] == old_steps[i - old_paths.len()]);
                        assert(extends(q, nw));
                        assert(q.take(w.len() as int + 1)[w.len() as int] == nw[w.len() as int]);
                    }
                }
                assert forall|a: int, b: int| 0 <= a < b < paths@.len() implies paths@[a]@ != paths@[b]@ by {
                    if b < old_paths.len() {
                        assert(paths@[a] == old_paths[a] && paths@[b] == old_paths[b]);
                    } else if a >= old_paths.len() {
                        assert(paths@[a] == old_steps[a - old_paths.len()]);
                        assert(paths@[b] == old_steps[b - old_paths.len()]);
                    } else {
                        let q = paths@[b]@;
                        assert(paths@[a] == old_paths[a]);
                        assert(paths@[b] == old_steps[b - old_paths.len()]);
                        assert(extends(q, nw));
                        assert(q.take(w.len() as int + 1)[w.len() as int] == nw[w.len() as int]);
                        assert(q[w.len() as int] == c);
                    }
                }
                assert forall|i: int| 0 <= i < paths@.len() implies is_minimal_route(
                    map@,
                    rs,
                    start,
                    dest@,
                    #[trigger] paths@[i]@,
                ) by {
                    if i < old_paths.len() {
                        assert(paths@[i] == old_paths[i]);
                    } else {
                        assert(paths@[i] == old_steps[i - old_paths.len()]);
                    }
                }
                assert forall|q: Seq<usize>|
                    #[trigger] is_minimal_route(map@, rs, start, dest@, q) && extends(q, w) && q.len() > w.len()
                        && q[w.len() as int] < c + 1 implies exists|i: int| 0 <= i < paths@.len() && paths@[i]@ == q by {
                    if q[w.len() as int] < c {
                        let i = choose|i: int| 0 <= i < old_paths.len() && old_paths[i]@ == q;
                        assert(paths@[i] == old_paths[i]);
                    } else {
                        assert(q.take(w.len() as int + 1) =~= q.take(w.len() as int).push(q[w.len() as int]));
                        assert(q.take(w.len() as int + 1) == nw);
                        assert(extends(q, nw));
                        let j = choose|j: int| 0 <= j < old_steps.len() && old_steps[j]@ == q;
                        assert(paths@[old_paths.len() + j] == old_steps[j]);
                    }
                }
            }
        } else {
            proof {
                assert(regions@[c as int]@ == rs[c as int]);
                lemma_skip_branch(map@, rs, start, dest@, w, c);
                assert forall|q: Seq<usize>|
                    #[trigger] is_minimal_route(map@, rs, start, dest@, q) && extends(q, w) && q.len() > w.len()
                        && q[w.len() as int] < c + 1 implies exists|i: int| 0 <= i < paths@.len() && paths@[i]@ == q by {
                    if q[w.len() as int] == c {
                        reveal(route_via);
                        assert(route_via(map@, rs, start, dest@, w, c));
                    }
                }
            }
        }
        proof {
            if exists|d: usize| d < c + 1 && route_via(map@, rs, start, dest@, w, d) {
                let d = choose|d: usize| d < c + 1 && route_via(map@, rs, start, dest@, w, d);
                if d < c {
                    assert(exists|d: usize| d < c && route_via(map@, rs, start, dest@, w, d));
                }
            }
        }
        c = c + 1;
    }
    proof {
        if route_after(map@, rs, start, dest@, w) {
            lemma_route_split(map@, rs, start, dest@, w);
        }
        assert forall|q: Seq<usize>|
            #[trigger] is_minimal_route(map@, rs, start, dest@, q) && extends(q, w) implies exists|i: int|
            0 <= i < paths@.len() && paths@[i]@ == q by {
            reveal(is_partial_route);
            if q.len() == w.len() {
                assert(q.take(w.len() as int) =~= q);
                assert(q == w);
            }
            assert(q[w.len() as int] < rs.len());
        }
    }
    paths
}

/// A fleet at sea: a fleet whose region is, by the map, a sea region.
pub open spec fn is_sea_fleet(m: MapView, p: UnitPositionView) -> bool {
    &&& (p.0).1 == UnitType::Fleet
    &&& first_region_with_key(m, p.1) matches Some(i) && m.regions[i].2 == Terrain::Sea
}

/// The regions of the fleets at sea among `positions`, in order.
pub open spec fn sea_fleet_regions(m: MapView, positions: Seq<UnitPositionView>) -> Seq<RegionName> {
    positions.filter(|p: UnitPositionView| is_sea_fleet(m, p)).map_values(
        |p: UnitPositionView| p.1,
    )
}

/// Whether a convoy route may exist for an army's move, assuming every fleet at sea convoys it.
pub open spec fn spec_route_may_exist(
    m: MapView,
    positions: Seq<UnitPositionView>,
    mv: MainOrderView,
) -> bool {
    mv.unit_type == UnitType::Army && match mv.command {
        MainCommand::Move(cmd) => exists|q: Seq<usize>|
            is_route(m, sea_fleet_regions(m, positions), mv.region.0, cmd.dest.0, q),
        _ => false,
    }
}

proof fn lemma_route_extends(m: MapView, rs: Seq<RegionName>, more: Seq<RegionName>, start: Seq<char>, dest: Seq<char>, q: Seq<usize>)
    requires
        is_route(m, rs, start, dest, q),
    ensures
        is_route(m, rs + more, start, dest, q),
{
    reveal(is_partial_route);
    let all = rs + more;
    assert forall|j: int| 0 <= j <= q.len() implies current_province(all, start, q.take(j)) == current_province(
        rs,
        start,
        q.take(j),
    ) by {
        if j > 0 {
            assert(q.take(j).last() == q[j - 1]);
        }
    }
    assert(q.take(q.len() as int) =~= q);
    assert forall|k: int| 0 <= k < q.len() implies adjacent(m, current_province(all, start, q.take(k)), all[q[k] as int]) by {
        assert(current_province(all, start, q.take(k)) == current_province(rs, start, q.take(k)));
    }
    assert(current_province(all, start, q) == current_province(rs, start, q)) by {
        assert(current_province(all, start, q.take(q.len() as int)) == current_province(rs, start, q.take(q.len() as int)));
    }
}

/// A convoy route that may exist for an army's move still may when more units stand on the
/// board.
pub proof fn lemma_route_may_exist_monotone(
    m: MapView,
    positions: Seq<UnitPositionView>,
    extra: Seq<UnitPositionView>,
    mv: MainOrderView,
)
    requires
        spec_route_may_exist(m, positions, mv),
    ensures
        spec_route_may_exist(m, positions + extra, mv),
{
    let pred = |p: UnitPositionView| is_sea_fleet(m, p);
    let f = |p: UnitPositionView| p.1;
    Seq::filter_distributes_over_add(positions, extra, pred);
    assert(sea_fleet_regions(m, positions + extra) =~= sea_fleet_regions(m, positions) + sea_fleet_regions(
        m,
        extra,
    ));
    if let MainCommand::Move(cmd) = mv.command {
        let q = choose|q: Seq<usize>| is_route(m, sea_fleet_regions(m, positions), mv.region.0, cmd.dest.0, q);
        lemma_route_extends(m, sea_fleet_regions(m, positions), sea_fleet_regions(m, extra), mv.region.0, cmd.dest.0, q);
    }
}

proof fn lemma_route_after_empty(m: MapView, rs: Seq<RegionName>, start: Seq<char>, dest: Seq<char>)
    ensures
        route_after(m, rs, start, dest, Seq::empty()) == exists|q: Seq<usize>|
            is_route(m, rs, start, dest, q),
{
    reveal(route_after);
    if exists|q: Seq<usize>| is_route(m, rs, start, dest, q) {
        let q = choose|q: Seq<usize>| is_route(m, rs, start, dest, q);
        assert(q.take(0) =~= Seq::<usize>::empty());
        assert(extends(q, Seq::empty()));
    }
}

proof fn lemma_empty_partial(m: MapView, rs: Seq<RegionName>, start: Seq<char>)
    ensures
        is_partial_route(m, rs, start, Seq::empty()),
{
    reveal(is_partial_route);
}

/// The regions of the fleets at sea among the positions.
fn sea_fleets(map: &WorldMap, unit_positions: &Vec<UnitPosition>) -> (r: Vec<RegionKey>)
    ensures
        r@.map_values(|k: RegionKey| k@) == sea_fleet_regions(
            map@,
            unit_positions@.map_values(|p: UnitPosition| p@),
        ),
{
    let ghost ps = unit_positions@.map_values(|p: UnitPosition| p@);
    let ghost pred = |p: UnitPositionView| is_sea_fleet(map@, p);
    let ghost f = |p: UnitPositionView| p.1;
    let mut fleets: Vec<RegionKey> = Vec::new();
    let n = unit_positions.len();
    let mut i: usize = 0;
    while i < n
        invariant
            i <= n,
            n == unit_positions@.len(),
            ps == unit_positions@.map_values(|p: UnitPosition| p@),
            forall|p: UnitPositionView| pred(p) == is_sea_fleet(map@, p),
            forall|p: UnitPositionView| f(p) == p.1,
            fleets@.map_values(|k: RegionKey| k@) == ps.take(i as int).filter(pred).map_values(f),
        decreases n - i,
    {
        let u = &unit_positions[i];
        let is_fleet = u.unit.unit_type() == UnitType::Fleet;
        let at_sea = match map.find_region_key(&u.region) {
            Some(r) => r.terrain() == Terrain::Sea,
            None => false,
        };
        let keep = is_fleet && at_sea;
        let ghost prev = fleets@;
        proof {
            crate::lemmas::lemma_filter_step(ps, i as int, pred);
            assert(ps[i as int] == u@);
            assert(at_sea == (first_region_with_key(map@, u@.1) matches Some(j) && map@.regions[j].2
                == Terrain::Sea));
            assert(keep == is_sea_fleet(map@, u@));
        }
        if keep {
            let k = u.region.copy();
            fleets.push(k);
            proof {
                crate::lemmas::lemma_map_push(prev, k, |k: RegionKey| k@);
                crate::lemmas::lemma_map_push(ps.take(i as int).filter(pred), ps[i as int], f);
            }
        }
        i = i + 1;
    }
    proof {
        assert(ps.take(n as int) =~= ps);
        assert(sea_fleet_regions(map@, ps) =~= ps.filter(pred).map_values(f));
    }
    fleets
}

/// Checks if a convoy route may exist for an order, based on the positions
/// of fleets, the move order's source region, and the destination region.
///
/// This is used before adjudication to identify illegal orders, so it does
/// not take in a full context.
pub fn route_may_exist(
    map: &WorldMap,
    unit_positions: &Vec<UnitPosition>,
    mv_ord: &crate::judge::MappedMainOrder,
) -> (r: bool)
    ensures
        r == spec_route_may_exist(map@, unit_positions@.map_values(|p: UnitPosition| p@), mv_ord@),
{
    if mv_ord.unit_type == UnitType::Fleet {
        return false;
    }
    let dst = match &mv_ord.command {
        MainCommand::Move(cmd) => &cmd.dest,
        _ => {
            return false;
        },
    };
    let ghost ps = unit_positions@.map_values(|p: UnitPosition| p@);
    let fleets = sea_fleets(map, unit_positions);
    proof {
        lemma_empty_partial(map@, fleets@.map_values(|k: RegionKey| k@), mv_ord@.region.0);
    }
    let steps = extend_routes(
        map,
        &fleets,
        mv_ord.region.province(),
        dst.province(),
        Vec::new(),
        Ghost(mv_ord@.region.0),
    );
    proof {
        let rs = sea_fleet_regions(map@, ps);
        assert(fleets@.map_values(|k: RegionKey| k@) == rs);
        lemma_route_after_empty(map@, rs, mv_ord@.region.0, dst@.0);
        assert(mv_ord@.command matches MainCommand::Move(cmd) && cmd.dest == dst@);
        if steps@.len() > 0 {
            assert(is_route(map@, rs, mv_ord@.region.0, dst@.0, steps@[0]@));
            assert(spec_route_may_exist(map@, ps, mv_ord@));
        } else {
            assert(!route_after(map@, rs, mv_ord@.region.0, dst@.0, Seq::empty()));
            assert(!spec_route_may_exist(map@, ps, mv_ord@));
        }
    }
    steps.len() > 0
}

/// Find all convoy routes from province `origin` to province `dest` through the regions of
/// the given convoy orders. Each route lists positions in `convoys`.
pub fn route_steps(
    map: &WorldMap,
    convoys: &Vec<MappedMainOrder>,
    origin: &ProvinceKey,
    dest: &ProvinceKey,
) -> (r: Vec<Vec<usize>>)
    ensures
        forall|i: int|
            0 <= i < r@.len() ==> is_route(
                map@,
                order_regions(order_views(convoys@)),
                origin@,
                dest@,
                #[trigger] r@[i]@,
            ),
        (exists|q: Seq<usize>|
            #[trigger] is_route(
                map@,
                order_regions(order_views(convoys@)),
                origin@,
                dest@,
                q,
            )) ==> r@.len() > 0,
        forall|a: int, b: int| 0 <= a < b < r@.len() ==> r@[a]@ != r@[b]@,
        forall|i: int|
            0 <= i < r@.len() ==> is_minimal_route(
                map@,
                order_regions(order_views(convoys@)),
                origin@,
                dest@,
                #[trigger] r@[i]@,
            ),
        forall|q: Seq<usize>|
            #[trigger] is_minimal_route(map@, order_regions(order_views(convoys@)), origin@, dest@, q)
                ==> exists|i: int| 0 <= i < r@.len() && r@[i]@ == q,
{
    let regions = regions_of(convoys);
    let ghost rs = regions@.map_values(|k: RegionKey| k@);
    proof {
        lemma_empty_partial(map@, rs, origin@);
        lemma_route_after_empty(map@, rs, origin@, dest@);
    }
    let r = extend_routes(map, &regions, origin, dest, Vec::new(), Ghost(origin@));
    proof {
        assert(rs == order_regions(order_views(convoys@)));
        assert forall|q: Seq<usize>|
            #[trigger] is_minimal_route(map@, order_regions(order_views(convoys@)), origin@, dest@, q)
                implies exists|i: int| 0 <= i < r@.len() && r@[i]@ == q by {
            assert(q.take(0) =~= Seq::<usize>::empty());
            assert(extends(q, Seq::<usize>::empty()));
        }
        assert forall|i: int| 0 <= i < r@.len() implies is_route(
            map@,
            order_regions(order_views(convoys@)),
            origin@,
            dest@,
            #[trigger] r@[i]@,
        ) by {
            assert(is_route(map@, rs, origin@, dest@, r@[i]@));
        }
    }
    r
}

/// The models of the given orders.
pub open spec fn order_views(v: Seq<MappedMainOrder>) -> Seq<MainOrderView> {
    v.map_values(|o: MappedMainOrder| o@)
}

/// The regions of the given orders, in order.
pub open spec fn order_regions(orders: Seq<MainOrderView>) -> Seq<RegionName> {
    orders.map_values(|o: MainOrderView| o.region)
}

fn regions_of(orders: &Vec<MappedMainOrder>) -> (r: Vec<RegionKey>)
    ensures
        r@.map_values(|k: RegionKey| k@) == order_regions(order_views(orders@)),
{
    let mut out: Vec<RegionKey> = Vec::new();
    let mut i: usize = 0;
    while i < orders.len()
        invariant
            i <= orders@.len(),
            out@.len() == i,
            forall|k: int| 0 <= k < i ==> out@[k]@ == orders@[k]@.region,
        decreases orders@.len() - i,
    {
        out.push(orders[i].region.copy());
        i = i + 1;
    }
    proof {
        assert(out@.map_values(|k: RegionKey| k@) =~= order_regions(order_views(orders@)));
    }
    out
}

/// Whether order `c` is a convoy order that carries the move `mv`.
pub open spec fn spec_is_convoy_for(c: MainOrderView, mv: MainOrderView) -> bool {
    match c.command {
        MainCommand::Convoy(cm) => spec_convoy_matches(cm, mv),
        _ => false,
    }
}

/// A convoy route for the move at position `mv` of `orders`: the orders at positions `q` are
/// convoy orders for that move and their regions form a route from the move's province to
/// the province of its destination.
pub open spec fn is_convoy_route(m: MapView, orders: Seq<MainOrderView>, mv: int, q: Seq<usize>) -> bool {
    &&& forall|k: int| 0 <= k < q.len() ==> spec_is_convoy_for(#[trigger] orders[q[k] as int], orders[mv])
    &&& match orders[mv].command {
        MainCommand::Move(cmd) => is_route(m, order_regions(orders), orders[mv].region.0, cmd.dest.0, q),
        _ => false,
    }
}

/// Checks whether `convoy` is a valid convoy that will carry `mv_ord` from
/// its current location to the destination.
fn is_convoy_for(convoy: &MappedMainOrder, mv_ord: &MappedMainOrder) -> (r: bool)
    ensures
        r == spec_is_convoy_for(convoy@, mv_ord@),
{
    match &convoy.command {
        MainCommand::Convoy(cm) => cm.matches_order(mv_ord),
        _ => false,
    }
}

proof fn lemma_route_through(
    m: MapView,
    sub: Seq<RegionName>,
    all: Seq<RegionName>,
    steps: Seq<usize>,
    start: Seq<char>,
    dest: Seq<char>,
    p: Seq<usize>,
)
    requires
        is_route(m, sub, start, dest, p),
        sub.len() == steps.len(),
        forall|k: int| 0 <= k < steps.len() ==> steps[k] < all.len() && all[steps[k] as int] == sub[k],
        forall|a: int, b: int| 0 <= a < b < steps.len() ==> steps[a] < steps[b],
    ensures
        is_route(m, all, start, dest, p.map_values(|k: usize| steps[k as int])),
        not_yet_reached(m, all, start, dest, p.map_values(|k: usize| steps[k as int])) == not_yet_reached(
            m,
            sub,
            start,
            dest,
            p,
        ),
{
    reveal(is_partial_route);
    let q = p.map_values(|k: usize| steps[k as int]);
    assert forall|j: int| 0 <= j <= p.len() implies current_province(all, start, q.take(j))
        == current_province(sub, start, p.take(j)) by {
        if j > 0 {
            assert(q.take(j).last() == q[j - 1]);
            assert(p.take(j).last() == p[j - 1]);
        }
    }
    assert(q.take(q.len() as int) =~= q);
    assert(p.take(p.len() as int) =~= p);
    assert forall|k: int| 0 <= k < q.len() implies adjacent(
        m,
        current_province(all, start, q.take(k)),
        all[q[k] as int],
    ) by {
        assert(current_province(all, start, q.take(k)) == current_province(sub, start, p.take(k)));
    }
    assert forall|a: int, b: int| 0 <= a < q.len() && 0 <= b < q.len() && a != b implies q[a]
        != q[b] by {
        assert(p[a] != p[b]);
        if p[a] < p[b] {
            assert(steps[p[a] as int] < steps[p[b] as int]);
        } else {
            assert(steps[p[b] as int] < steps[p[a] as int]);
        }
    }
    assert forall|k: int| 1 <= k < q.len() implies #[trigger] reaches(m, current_province(all, start, q.take(k)), dest)
        == reaches(m, current_province(sub, start, p.take(k)), dest) by {
        assert(current_province(all, start, q.take(k)) == current_province(sub, start, p.take(k)));
    }
    if not_yet_reached(m, sub, start, dest, p) {
        assert forall|k: int| 1 <= k < q.len() implies !#[trigger] reaches(m, current_province(all, start, q.take(k)), dest) by {
            assert(!reaches(m, current_province(sub, start, p.take(k)), dest));
        }
    }
    if not_yet_reached(m, all, start, dest, q) {
        assert forall|k: int| 1 <= k < p.len() implies !#[trigger] reaches(m, current_province(sub, start, p.take(k)), dest) by {
            assert(!reaches(m, current_province(all, start, q.take(k)), dest));
        }
    }
}

/// The position in `steps` of the value `x`, where it occurs there.
pub open spec fn position_in(steps: Seq<usize>, x: usize) -> usize {
    (choose|k: int| 0 <= k < steps.len() && steps[k] == x) as usize
}

proof fn lemma_route_back(
    m: MapView,
    sub: Seq<RegionName>,
    all: Seq<RegionName>,
    steps: Seq<usize>,
    start: Seq<char>,
    dest: Seq<char>,
    q: Seq<usize>,
)
    requires
        is_route(m, all, start, dest, q),
        sub.len() == steps.len(),
        steps.len() <= usize::MAX,
        forall|k: int| 0 <= k < steps.len() ==> steps[k] < all.len() && all[steps[k] as int] == sub[k],
        forall|j: int| 0 <= j < q.len() ==> steps.contains(#[trigger] q[j]),
    ensures
        is_route(m, sub, start, dest, q.map_values(|x: usize| position_in(steps, x))),
        not_yet_reached(m, all, start, dest, q) ==> not_yet_reached(
            m,
            sub,
            start,
            dest,
            q.map_values(|x: usize| position_in(steps, x)),
        ),
        q.map_values(|x: usize| position_in(steps, x)).map_values(|k: usize| steps[k as int]) == q,
{
    reveal(is_partial_route);
    let p = q.map_values(|x: usize| position_in(steps, x));
    assert forall|j: int| 0 <= j < q.len() implies 0 <= #[trigger] p[j] < steps.len() && steps[p[j] as int]
        == q[j] && sub[p[j] as int] == all[q[j] as int] by {
        assert(steps.contains(q[j]));
        let k = choose|k: int| 0 <= k < steps.len() && steps[k] == q[j];
        assert(0 <= k < steps.len() && steps[k] == q[j]);
        assert(position_in(steps, q[j]) == k as usize);
        assert(p[j] == position_in(steps, q[j]));
    }
    assert forall|j: int| 0 <= j <= q.len() implies current_province(sub, start, p.take(j))
        == current_province(all, start, q.take(j)) by {
        if j > 0 {
            assert(p.take(j).last() == p[j - 1]);
            assert(q.take(j).last() == q[j - 1]);
        }
    }
    assert(p.take(p.len() as int) =~= p);
    assert(q.take(q.len() as int) =~= q);
    assert forall|k: int| 0 <= k < p.len() implies adjacent(
        m,
        current_province(sub, start, p.take(k)),
        sub[p[k] as int],
    ) by {
        assert(current_province(sub, start, p.take(k)) == current_province(all, start, q.take(k)));
    }
    assert forall|a: int, b: int| 0 <= a < p.len() && 0 <= b < p.len() && a != b implies p[a]
        != p[b] by {
        assert(q[a] != q[b]);
    }
    assert(current_province(sub, start, p) == current_province(all, start, q)) by {
        assert(current_province(sub, start, p.take(p.len() as int)) == current_province(all, start, q.take(q.len() as int)));
    }
    if not_yet_reached(m, all, start, dest, q) {
        assert forall|k: int| 1 <= k < p.len() implies !#[trigger] reaches(m, current_province(sub, start, p.take(k)), dest) by {
            assert(current_province(sub, start, p.take(k)) == current_province(all, start, q.take(k)));
            assert(!reaches(m, current_province(all, start, q.take(k)), dest));
        }
    }
    assert(p.map_values(|k: usize| steps[k as int]) =~= q);
}

/// The convoy orders for the move at `mv` that the resolver finds successful, with their
/// regions.
fn successful_convoys(context: &Context, state: &mut ResolverState, mv: usize) -> (r: (
    Vec<usize>,
    Vec<RegionKey>,
))
    requires
        ready(context, old(state)),
        mv < context.spec_orders().len(),
    ensures
        kept(context, old(state), final(state)),
        r.0@.len() == r.1@.len(),
        forall|k: int|
            0 <= k < r.0@.len() ==> r.0@[k] < context.spec_orders().len() && spec_is_convoy_for(
                context.spec_orders()[r.0@[k] as int],
                context.spec_orders()[mv as int],
            ) && r.1@[k]@ == context.spec_orders()[r.0@[k] as int].region,
        forall|a: int, b: int| 0 <= a < b < r.0@.len() ==> r.0@[a] < r.0@[b],
        settled(context, old(state)) ==> *final(state) == *old(state) && forall|i: int|
            0 <= i < context.spec_orders().len() ==> (r.0@.contains(i as usize) <==> spec_is_convoy_for(
                #[trigger] context.spec_orders()[i],
                context.spec_orders()[mv as int],
            ) && old(state).holds_success(i)),
    decreases old(state).budget(), 1int,
{
    let mut steps: Vec<usize> = Vec::new();
    let mut regions: Vec<RegionKey> = Vec::new();
    let n = context.len();
    let mut i: usize = 0;
    while i < n
        invariant
            i <= n,
            n == context.spec_orders().len(),
            mv < n,
            ready(context, state),
            state.budget() == old(state).budget(),
            steps@.len() == regions@.len(),
            forall|k: int|
                0 <= k < steps@.len() ==> steps@[k] < i && spec_is_convoy_for(
                    context.spec_orders()[steps@[k] as int],
                    context.spec_orders()[mv as int],
                ) && regions@[k]@ == context.spec_orders()[steps@[k] as int].region,
            forall|a: int, b: int| 0 <= a < b < steps@.len() ==> steps@[a] < steps@[b],
            settled(context, old(state)) ==> *state == *old(state) && forall|j: int|
                0 <= j < i ==> (steps@.contains(j as usize) <==> spec_is_convoy_for(
                    #[trigger] context.spec_orders()[j],
                    context.spec_orders()[mv as int],
                ) && old(state).holds_success(j)),
        decreases n - i,
    {
        let ghost prev = steps@;
        if is_convoy_for(context.order(i), context.order(mv)) && state.resolve(context, i).is_success() {
            steps.push(i);
            regions.push(context.order(i).region.copy());
            proof {
                if settled(context, old(state)) {
                    assert forall|j: int| 0 <= j < i + 1 implies (steps@.contains(j as usize) <==> spec_is_convoy_for(
                        #[trigger] context.spec_orders()[j],
                        context.spec_orders()[mv as int],
                    ) && old(state).holds_success(j)) by {
                        if j < i {
                            if steps@.contains(j as usize) {
                                let k = choose|k: int| 0 <= k < steps@.len() && steps@[k] == j as usize;
                                if k < prev.len() {
                                    assert(prev[k] == j as usize);
                                    assert(prev.contains(j as usize));
                                }
                            }
                            if prev.contains(j as usize) {
                                let k = choose|k: int| 0 <= k < prev.len() && prev[k] == j as usize;
                                assert(steps@[k] == j as usize);
                            }
                        } else {
                            assert(steps@[prev.len() as int] == i);
                        }
                    }
                }
            }
        } else {
            proof {
                if steps@.contains(i) {
                    let k = choose|k: int| 0 <= k < steps@.len() && steps@[k] == i;
                    assert(steps@[k] < i);
                }
            }
        }
        i = i + 1;
    }
    (steps, regions)
}

/// Some convoy route for the move at position `mv` of `orders` is made of convoys that the
/// resolver state `rs` holds successful.
pub open spec fn spec_successful_route_exists(
    m: MapView,
    orders: Seq<MainOrderView>,
    rs: ResolverState,
    mv: int,
) -> bool {
    exists|q: Seq<usize>|
        is_convoy_route(m, orders, mv, q) && forall|k: int|
            #![trigger q[k]]
            0 <= k < q.len() ==> rs.holds_success(q[k] as int)
}

proof fn lemma_successful_route_moves(m: MapView, orders: Seq<MainOrderView>, rs: ResolverState, mv: int)
    requires
        spec_successful_route_exists(m, orders, rs, mv),
    ensures
        orders[mv].command is Move,
{
    let q = choose|q: Seq<usize>|
        is_convoy_route(m, orders, mv, q) && forall|k: int|
            #![trigger q[k]]
            0 <= k < q.len() ==> rs.holds_success(q[k] as int);
    assert(is_convoy_route(m, orders, mv, q));
}

/// A convoy route for the move at position `mv` of `orders` that comes next to the
/// destination only at its end.
pub open spec fn is_minimal_convoy_route(m: MapView, orders: Seq<MainOrderView>, mv: int, q: Seq<usize>) -> bool {
    &&& is_convoy_route(m, orders, mv, q)
    &&& match orders[mv].command {
        MainCommand::Move(cmd) => not_yet_reached(m, order_regions(orders), orders[mv].region.0, cmd.dest.0, q),
        _ => false,
    }
}

/// Finds all valid convoy routes for a given move order. Each route lists positions of
/// convoy orders in the context.
pub fn routes(context: &Context, state: &mut ResolverState, mv_ord: usize) -> (r: Result<
    Vec<Vec<usize>>,
    ConvoyRouteError,
>)
    requires
        ready(context, old(state)),
        mv_ord < context.spec_orders().len(),
    ensures
        kept(context, old(state), final(state)),
        (r == Err::<Vec<Vec<usize>>, ConvoyRouteError>(ConvoyRouteError::CanOnlyConvoyArmy))
            == (context.spec_orders()[mv_ord as int].unit_type == UnitType::Fleet),
        (r == Err::<Vec<Vec<usize>>, ConvoyRouteError>(ConvoyRouteError::CanOnlyConvoyMove)) == (
        context.spec_orders()[mv_ord as int].unit_type == UnitType::Army
            && !(context.spec_orders()[mv_ord as int].command is Move)),
        r matches Ok(v) ==> forall|i: int|
            0 <= i < v@.len() ==> is_convoy_route(
                context.world_map@,
                context.spec_orders(),
                mv_ord as int,
                #[trigger] v@[i]@,
            ),
        r matches Ok(v) ==> forall|i: int|
            0 <= i < v@.len() ==> is_minimal_convoy_route(
                context.world_map@,
                context.spec_orders(),
                mv_ord as int,
                #[trigger] v@[i]@,
            ),
        settled(context, old(state)) ==> *final(state) == *old(state) && (r matches Ok(v) ==> (v@.len()
            > 0 <==> spec_successful_route_exists(
            context.world_map@,
            context.spec_orders(),
            *old(state),
            mv_ord as int,
        )) && forall|j: int, k: int|
            0 <= j < v@.len() && 0 <= k < v@[j]@.len() ==> old(state).holds_success(
                #[trigger] v@[j]@[k] as int,
            )),
    decreases old(state).budget(), 2int,
{
    let ord = context.order(mv_ord);
    if ord.unit_type == UnitType::Fleet {
        return Err(ConvoyRouteError::CanOnlyConvoyArmy);
    }
    let dst = match &ord.command {
        MainCommand::Move(cmd) => &cmd.dest,
        _ => {
            return Err(ConvoyRouteError::CanOnlyConvoyMove);
        },
    };
    // Get the convoy orders that can ferry the provided move order and are
    // successful. All convoy orders are resolved eagerly to avoid wild recursion during the
    // depth-first search.
    let (steps, regions) = successful_convoys(context, state, mv_ord);
    let ghost orders = context.spec_orders();
    let ghost all = order_regions(orders);
    let ghost sub = regions@.map_values(|k: RegionKey| k@);
    let ghost start = ord@.region.0;
    proof {
        lemma_empty_partial(context.world_map@, sub, start);
    }
    let paths = extend_routes(
        context.world_map,
        &regions,
        ord.region.province(),
        dst.province(),
        Vec::new(),
        Ghost(start),
    );
    proof {
        if settled(context, old(state)) && spec_successful_route_exists(
            context.world_map@,
            orders,
            *old(state),
            mv_ord as int,
        ) {
            let q = choose|q: Seq<usize>|
                is_convoy_route(context.world_map@, orders, mv_ord as int, q) && forall|k: int|
                    #![trigger q[k]]
                    0 <= k < q.len() ==> old(state).holds_success(q[k] as int);
            reveal(is_partial_route);
            assert forall|j: int| 0 <= j < q.len() implies steps@.contains(#[trigger] q[j]) by {
                assert(q[j] < orders.len());
                assert(spec_is_convoy_for(orders[q[j] as int], orders[mv_ord as int]));
                assert(old(state).holds_success(q[j] as int));
                assert(context.spec_orders()[q[j] as int] == orders[q[j] as int]);
            }
            assert forall|k: int| 0 <= k < steps@.len() implies steps@[k] < all.len() && all[steps@[k] as int]
                == sub[k] by {
                assert(sub[k] == regions@[k]@);
            }
            lemma_route_back(context.world_map@, sub, all, steps@, start, dst@.0, q);
            lemma_route_after_empty(context.world_map@, sub, start, dst@.0);
        }
    }
    let mut out: Vec<Vec<usize>> = Vec::new();
    let mut i: usize = 0;
    while i < paths.len()
        invariant
            i <= paths@.len(),
            orders == context.spec_orders(),
            mv_ord < orders.len(),
            all == order_regions(orders),
            sub == regions@.map_values(|k: RegionKey| k@),
            start == orders[mv_ord as int].region.0,
            orders[mv_ord as int].command matches MainCommand::Move(cmd) && cmd.dest == dst@,
            steps@.len() == regions@.len(),
            forall|k: int|
                0 <= k < steps@.len() ==> steps@[k] < orders.len() && spec_is_convoy_for(
                    orders[steps@[k] as int],
                    orders[mv_ord as int],
                ) && regions@[k]@ == orders[steps@[k] as int].region,
            forall|a: int, b: int| 0 <= a < b < steps@.len() ==> steps@[a] < steps@[b],
            forall|j: int|
                0 <= j < paths@.len() ==> is_route(
                    context.world_map@,
                    sub,
                    start,
                    dst@.0,
                    #[trigger] paths@[j]@,
                ),
            out@.len() == i,
            forall|j: int|
                0 <= j < i ==> is_minimal_convoy_route(
                    context.world_map@,
                    orders,
                    mv_ord as int,
                    #[trigger] out@[j]@,
                ),
            forall|j: int|
                0 <= j < paths@.len() ==> is_minimal_route(
                    context.world_map@,
                    sub,
                    start,
                    dst@.0,
                    #[trigger] paths@[j]@,
                ),
            settled(context, old(state)) ==> forall|x: int|
                0 <= x < orders.len() ==> (steps@.contains(x as usize) <==> spec_is_convoy_for(
                    #[trigger] orders[x],
                    orders[mv_ord as int],
                ) && old(state).holds_success(x)),
            settled(context, old(state)) ==> forall|j: int, k: int|
                0 <= j < i && 0 <= k < out@[j]@.len() ==> old(state).holds_success(#[trigger] out@[j]@[k] as int),
        decreases paths@.len() - i,
    {
        let p = &paths[i];
        let mut q: Vec<usize> = Vec::new();
        let mut k: usize = 0;
        while k < p.len()
            invariant
                k <= p@.len(),
                q@.len() == k,
                is_route(context.world_map@, sub, start, dst@.0, p@),
                sub.len() == steps@.len(),
                forall|j: int| 0 <= j < k ==> q@[j] == steps@[p@[j] as int],
            decreases p@.len() - k,
        {
            proof {
                reveal(is_partial_route);
            }
            q.push(steps[p[k]]);
            k = k + 1;
        }
        proof {
            assert(sub.len() == steps@.len());
            assert forall|k: int| 0 <= k < steps@.len() implies steps@[k] < all.len() && all[steps@[k] as int]
                == sub[k] by {
                assert(sub[k] == regions@[k]@);
            }
            lemma_route_through(context.world_map@, sub, all, steps@, start, dst@.0, p@);
            assert(q@ =~= p@.map_values(|k: usize| steps@[k as int]));
            reveal(is_partial_route);
            assert forall|j: int| 0 <= j < q@.len() implies spec_is_convoy_for(
                #[trigger] orders[q@[j] as int],
                orders[mv_ord as int],
            ) by {
                assert(p@[j] < sub.len());
            }
            if settled(context, old(state)) {
                assert forall|j: int| 0 <= j < q@.len() implies old(state).holds_success(#[trigger] q@[j] as int) by {
                    assert(p@[j] < sub.len());
                    let x = steps@[p@[j] as int];
                    assert(steps@.contains(x));
                    assert(x < orders.len());
                    assert(orders[x as int] == orders[x as int]);
                }
            }
        }
        let ghost prev_out = out@;
        proof {
            assert(is_minimal_route(context.world_map@, sub, start, dst@.0, p@));
        }
        out.push(q);
        proof {
            assert forall|j: int| 0 <= j < i + 1 implies is_minimal_convoy_route(
                context.world_map@,
                orders,
                mv_ord as int,
                #[trigger] out@[j]@,
            ) by {
                if j < i {
                    assert(out@[j] == prev_out[j]);
                }
            }
            if settled(context, old(state)) {
                assert forall|j: int, k: int|
                    0 <= j < i + 1 && 0 <= k < out@[j]@.len() implies old(state).holds_success(#[trigger] out@[j]@[k] as int) by {
                    if j < i {
                        assert(out@[j] == prev_out[j]);
                    }
                }
            }
        }
        i = i + 1;
    }
    proof {
        if settled(context, old(state)) && out@.len() > 0 {
            assert(is_convoy_route(context.world_map@, orders, mv_ord as int, out@[0]@));
            assert forall|k: int| 0 <= k < out@[0]@.len() implies old(state).holds_success(#[trigger] out@[0]@[k] as int) by {
                assert(old(state).holds_success(out@[0]@[k] as int));
            }
        }
    }
    Ok(out)
}

/// Determines if any valid convoy route exists for the given move order.
pub fn route_exists(context: &Context, state: &mut ResolverState, mv_ord: usize) -> (r: bool)
    requires
        ready(context, old(state)),
        mv_ord < context.spec_orders().len(),
    ensures
        kept(context, old(state), final(state)),
        r ==> spec_convoy_route_exists(context.world_map@, context.spec_orders(), mv_ord as int),
        settled(context, old(state)) ==> *final(state) == *old(state) && (r <==> (
        context.spec_orders()[mv_ord as int].unit_type == UnitType::Army && spec_successful_route_exists(
            context.world_map@,
            context.spec_orders(),
            *old(state),
            mv_ord as int,
        ))),
    decreases old(state).budget(), 3int,
{
    let res = routes(context, state, mv_ord);
    match res {
        Ok(v) => {
            if v.len() > 0 {
                proof {
                    assert(is_convoy_route(
                        context.world_map@,
                        context.spec_orders(),
                        mv_ord as int,
                        v@[0]@,
                    ));
                }
                true
            } else {
                false
            }
        },
        Err(e) => {
            proof {
                if spec_successful_route_exists(
                    context.world_map@,
                    context.spec_orders(),
                    *old(state),
                    mv_ord as int,
                ) {
                    lemma_successful_route_moves(
                        context.world_map@,
                        context.spec_orders(),
                        *old(state),
                        mv_ord as int,
                    );
                    assert(context.spec_orders()[mv_ord as int].command is Move);
                    assert(res == Err::<Vec<Vec<usize>>, ConvoyRouteError>(e));
                    assert(e == ConvoyRouteError::CanOnlyConvoyArmy || e == ConvoyRouteError::CanOnlyConvoyMove);
                }
            }
            false
        },
    }
}

/// Determines if a move order will use one of its convoy routes, by the rulebook's policy.
pub fn uses_convoy(context: &Context, state: &mut ResolverState, mv_ord: usize) -> (r: bool)
    requires
        ready(context, old(state)),
        mv_ord < context.spec_orders().len(),
    ensures
        kept(context, old(state), final(state)),
        r ==> exists|q: Seq<usize>|
            is_convoy_route(context.world_map@, context.spec_orders(), mv_ord as int, q)
                && context.rules.spec_will_use_convoy(
                context.spec_orders()[mv_ord as int],
                q.map_values(|k: usize| context.spec_orders()[k as int]),
            ),
        settled(context, old(state)) ==> *final(state) == *old(state),
        settled(context, old(state)) && r ==> exists|q: Seq<usize>|
            is_convoy_route(context.world_map@, context.spec_orders(), mv_ord as int, q) && (forall|k: int|
                #![trigger q[k]]
                0 <= k < q.len() ==> old(state).holds_success(q[k] as int))
                && context.rules.spec_will_use_convoy(
                context.spec_orders()[mv_ord as int],
                q.map_values(|k: usize| context.spec_orders()[k as int]),
            ),
        settled(context, old(state)) && context.spec_orders()[mv_ord as int].unit_type == UnitType::Army
            && spec_successful_route_exists(
            context.world_map@,
            context.spec_orders(),
            *old(state),
            mv_ord as int,
        ) && (forall|q: Seq<usize>|
            #[trigger] is_convoy_route(context.world_map@, context.spec_orders(), mv_ord as int, q)
                ==> context.rules.spec_will_use_convoy(
                context.spec_orders()[mv_ord as int],
                q.map_values(|k: usize| context.spec_orders()[k as int]),
            )) ==> r,
{
    let res = routes(context, state, mv_ord);
    match res {
        Ok(v) => {
            let mut i: usize = 0;
            while i < v.len()
                invariant
                    i <= v@.len(),
                    forall|j: int|
                        0 <= j < v@.len() ==> is_convoy_route(
                            context.world_map@,
                            context.spec_orders(),
                            mv_ord as int,
                            #[trigger] v@[j]@,
                        ),
                    mv_ord < context.spec_orders().len(),
                    ready(context, state),
                    state.budget() == old(state).budget(),
                    settled(context, old(state)) ==> *state == *old(state) && (v@.len() > 0
                        <==> spec_successful_route_exists(
                        context.world_map@,
                        context.spec_orders(),
                        *old(state),
                        mv_ord as int,
                    )) && forall|j: int, k: int|
                        0 <= j < v@.len() && 0 <= k < v@[j]@.len() ==> old(state).holds_success(
                            #[trigger] v@[j]@[k] as int,
                        ),
                    (settled(context, old(state)) && forall|q: Seq<usize>|
                        #[trigger] is_convoy_route(context.world_map@, context.spec_orders(), mv_ord as int, q)
                            ==> context.rules.spec_will_use_convoy(
                            context.spec_orders()[mv_ord as int],
                            q.map_values(|k: usize| context.spec_orders()[k as int]),
                        )) ==> i == 0,
                decreases v@.len() - i,
            {
                let route = &v[i];
                let mut members: Vec<&MappedMainOrder> = Vec::new();
                let mut k: usize = 0;
                while k < route.len()
                    invariant
                        k <= route@.len(),
                        is_convoy_route(context.world_map@, context.spec_orders(), mv_ord as int, route@),
                        members@.len() == k,
                        mv_ord < context.spec_orders().len(),
                        forall|j: int| 0 <= j < k ==> members@[j]@ == context.spec_orders()[route@[j] as int],
                    decreases route@.len() - k,
                {
                    proof {
                        reveal(is_partial_route);
                    }
                    members.push(context.order(route[k]));
                    k = k + 1;
                }
                proof {
                    assert(super::rulebook::ref_views(members@) =~= route@.map_values(
                        |k: usize| context.spec_orders()[k as int],
                    ));
                }
                if context.rules.will_use_convoy(context.order(mv_ord), &members) {
                    proof {
                        if settled(context, old(state)) {
                            assert forall|k: int| #![trigger route@[k]] 0 <= k < route@.len() implies old(state).holds_success(
                                route@[k] as int,
                            ) by {
                                assert(old(state).holds_success(v@[i as int]@[k] as int));
                            }
                        }
                    }
                    return true;
                }
                i = i + 1;
            }
            false
        },
        Err(e) => {
            proof {
                if spec_successful_route_exists(
                    context.world_map@,
                    context.spec_orders(),
                    *old(state),
                    mv_ord as int,
                ) {
                    lemma_successful_route_moves(
                        context.world_map@,
                        context.spec_orders(),
                        *old(state),
                        mv_ord as int,
                    );
                    assert(context.spec_orders()[mv_ord as int].command is Move);
                    assert(res == Err::<Vec<Vec<usize>>, ConvoyRouteError>(e));
                    assert(e == ConvoyRouteError::CanOnlyConvoyArmy || e == ConvoyRouteError::CanOnlyConvoyMove);
                }
            }
            false
        },
    }
}

} // verus!
