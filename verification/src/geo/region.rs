use crate::parser::{Error, ErrorKind};
use crate::ShortName;
use vstd::prelude::*;

verus! {

/// Differentiates regions within a province.
#[derive(Debug, Clone, Copy, PartialEq, Eq, Hash, PartialOrd, Ord, Structural)]
pub enum Coast {
    North,
    East,
    South,
    West,
}

/// The two-letter code of a coast, as written inside parentheses.
pub open spec fn coast_code(c: Coast) -> Seq<char> {
    match c {
        Coast::North => seq!['n', 'c'],
        Coast::East => seq!['e', 'c'],
        Coast::South => seq!['s', 'c'],
        Coast::West => seq!['w', 'c'],
    }
}

/// The coast whose two-letter code is `s`, if any.
pub open spec fn spec_parse_coast(s: Seq<char>) -> Option<Coast> {
    if s == seq!['n', 'c'] {
        Some(Coast::North)
    } else if s == seq!['e', 'c'] {
        Some(Coast::East)
    } else if s == seq!['s', 'c'] {
        Some(Coast::South)
    } else if s == seq!['w', 'c'] {
        Some(Coast::West)
    } else {
        None
    }
}

/// The written suffix of an optional coast: empty, or the code in parentheses.
pub open spec fn coast_suffix(c: Option<Coast>) -> Seq<char> {
    match c {
        None => Seq::empty(),
        Some(c) => seq!['('] + coast_code(c) + seq![')'],
    }
}

/// Equality of optional coasts.
pub fn same_coast(a: Option<Coast>, b: Option<Coast>) -> (r: bool)
    ensures
        r == (a == b),
{
    match (a, b) {
        (None, None) => true,
        (Some(x), Some(y)) => x == y,
        _ => false,
    }
}

impl ShortName for Coast {
    open spec fn spec_short_name(&self) -> Seq<char> {
        coast_suffix(Some(*self))
    }

    fn short_name(&self) -> (r: String) {
        let r = match *self {
            Coast::North => String::from_str("(nc)"),
            Coast::East => String::from_str("(ec)"),
            Coast::South => String::from_str("(sc)"),
            Coast::West => String::from_str("(wc)"),
        };
        proof {
            reveal_strlit("(nc)");
            reveal_strlit("(ec)");
            reveal_strlit("(sc)");
            reveal_strlit("(wc)");
            assert(r@ =~= coast_suffix(Some(*self)));
        }
        r
    }
}

impl Coast {
    /// Parses a two-letter coast code such as `nc`.
    pub fn parse(s: &str) -> (r: Result<Coast, Error>)
        ensures
            match r {
                Ok(c) => spec_parse_coast(s@) == Some(c),
                Err(e) => spec_parse_coast(s@) is None && e.spec_kind() == ErrorKind::BadCoast
                    && e.spec_input() == s@,
            },
    {
        let n: usize = s.unicode_len();
        if n == 2 {
            let a = s.get_char(0);
            let b = s.get_char(1);
            proof {
                assert(s@ =~= seq![a, b]);
            }
            if b == 'c' {
                if a == 'n' {
                    return Ok(Coast::North);
                } else if a == 'e' {
                    return Ok(Coast::East);
                } else if a == 's' {
                    return Ok(Coast::South);
                } else if a == 'w' {
                    return Ok(Coast::West);
                }
            }
        }
        Err(Error::new(ErrorKind::BadCoast, s))
    }
}

/// The type of environment (land, sea, coast). Armies cannot operate at sea, and
/// fleets cannot operate on land.
#[derive(Debug, Clone, Copy, PartialEq, Eq, Hash, PartialOrd, Ord, Structural)]
pub enum Terrain {
    Land,
    Coast,
    Sea,
}

/// The short name of a province, such as `lon`.
#[derive(Debug, Clone, PartialEq, Eq, Hash, PartialOrd, Ord)]
pub struct ProvinceKey(String);

impl View for ProvinceKey {
    type V = Seq<char>;

    closed spec fn view(&self) -> Seq<char> {
        self.0@
    }
}

impl ProvinceKey {
    /// Creates a province key from its short name.
    pub fn new(s: &str) -> (r: ProvinceKey)
        ensures
            r@ == s@,
    {
        ProvinceKey(String::from_str(s))
    }

    /// Creates a province key from its short name.
    pub fn from(s: &str) -> (r: ProvinceKey)
        ensures
            r@ == s@,
    {
        ProvinceKey(String::from_str(s))
    }

    /// Creates a province key from an owned short name.
    pub fn from_string(s: String) -> (r: ProvinceKey)
        ensures
            r@ == s@,
    {
        ProvinceKey(s)
    }

    /// Compares two keys by name.
    pub fn same(&self, other: &ProvinceKey) -> (r: bool)
        ensures
            r == (self@ == other@),
    {
        self.0 == other.0
    }

    /// Returns a copy of the key.
    pub fn copy(&self) -> (r: ProvinceKey)
        ensures
            r@ == self@,
    {
        ProvinceKey(self.0.clone())
    }

    /// Whether this key's name comes strictly before the other's in character order.
    pub fn precedes(&self, other: &ProvinceKey) -> (r: bool)
        ensures
            r == text_lt(self@, other@),
    {
        let a = self.0.as_str();
        let b = other.0.as_str();
        let n = a.unicode_len();
        let m = b.unicode_len();
        let mut i: usize = 0;
        proof {
            assert(a@.skip(0) =~= a@);
            assert(b@.skip(0) =~= b@);
        }
        while i < n && i < m
            invariant
                i <= n,
                i <= m,
                n == a@.len(),
                m == b@.len(),
                a@ == self@,
                b@ == other@,
                a@.take(i as int) == b@.take(i as int),
                text_lt(a@, b@) == text_lt(a@.skip(i as int), b@.skip(i as int)),
            decreases n - i,
        {
            let x = a.get_char(i);
            let y = b.get_char(i);
            proof {
                lemma_text_lt_step(a@.skip(i as int), b@.skip(i as int));
                assert(a@.skip(i as int)[0] == x);
                assert(b@.skip(i as int)[0] == y);
                assert(a@.skip(i as int).drop_first() =~= a@.skip(i + 1));
                assert(b@.skip(i as int).drop_first() =~= b@.skip(i + 1));
            }
            if x != y {
                return (x as u32) < (y as u32);
            }
            proof {
                assert(a@.take(i + 1) =~= a@.take(i as int).push(x));
                assert(b@.take(i + 1) =~= b@.take(i as int).push(y));
            }
            i = i + 1;
        }
        proof {
            lemma_text_lt_step(a@.skip(i as int), b@.skip(i as int));
        }
        i == n && i < m
    }
}

/// Whether text `a` comes strictly before text `b` in character order.
pub open spec fn text_lt(a: Seq<char>, b: Seq<char>) -> bool
    decreases a.len(),
{
    if a.len() == 0 {
        b.len() > 0
    } else if b.len() == 0 {
        false
    } else if a[0] != b[0] {
        (a[0] as u32) < (b[0] as u32)
    } else {
        text_lt(a.drop_first(), b.drop_first())
    }
}

/// No text comes before itself.
pub proof fn lemma_text_lt_irreflexive(a: Seq<char>)
    ensures
        !text_lt(a, a),
    decreases a.len(),
{
    if a.len() > 0 {
        lemma_text_lt_irreflexive(a.drop_first());
    }
}

/// Coming before is transitive.
pub proof fn lemma_text_lt_transitive(a: Seq<char>, b: Seq<char>, c: Seq<char>)
    requires
        text_lt(a, b),
        text_lt(b, c),
    ensures
        text_lt(a, c),
    decreases a.len(),
{
    if a.len() > 0 && b.len() > 0 && c.len() > 0 && a[0] == b[0] && b[0] == c[0] {
        lemma_text_lt_transitive(a.drop_first(), b.drop_first(), c.drop_first());
    }
}

/// No region comes before itself, and coming before is transitive.
pub proof fn lemma_region_lt_order(a: RegionName, b: RegionName, c: RegionName)
    ensures
        !region_lt(a, a),
        region_lt(a, b) && region_lt(b, c) ==> region_lt(a, c),
{
    lemma_text_lt_irreflexive(a.0);
    if region_lt(a, b) && region_lt(b, c) {
        if text_lt(a.0, b.0) && text_lt(b.0, c.0) {
            lemma_text_lt_transitive(a.0, b.0, c.0);
        }
    }
}

proof fn lemma_text_lt_step(a: Seq<char>, b: Seq<char>)
    ensures
        text_lt(a, b) == if a.len() == 0 {
            b.len() > 0
        } else if b.len() == 0 {
            false
        } else if a[0] != b[0] {
            (a[0] as u32) < (b[0] as u32)
        } else {
            text_lt(a.drop_first(), b.drop_first())
        },
{
}

impl ShortName for ProvinceKey {
    open spec fn spec_short_name(&self) -> Seq<char> {
        self@
    }

    fn short_name(&self) -> (r: String) {
        self.0.clone()
    }
}

/// The model of a region key: the province's short name and the optional coast.
pub type RegionName = (Seq<char>, Option<Coast>);

/// The written short name of a region, such as `spa(nc)`.
pub open spec fn region_short_name(r: RegionName) -> Seq<char> {
    r.0 + coast_suffix(r.1)
}

/// The place of a coast in the order of regions of a province: no coast first, then north,
/// east, south and west.
pub open spec fn spec_coast_rank(c: Option<Coast>) -> u8 {
    match c {
        None => 0,
        Some(Coast::North) => 1,
        Some(Coast::East) => 2,
        Some(Coast::South) => 3,
        Some(Coast::West) => 4,
    }
}

/// The place of a coast in the order of regions of a province.
pub fn coast_rank(c: Option<Coast>) -> (r: u8)
    ensures
        r == spec_coast_rank(c),
{
    match c {
        None => 0,
        Some(Coast::North) => 1,
        Some(Coast::East) => 2,
        Some(Coast::South) => 3,
        Some(Coast::West) => 4,
    }
}

/// Whether region `a` comes strictly before region `b`: by province name, then by coast.
pub open spec fn region_lt(a: RegionName, b: RegionName) -> bool {
    text_lt(a.0, b.0) || (a.0 == b.0 && spec_coast_rank(a.1) < spec_coast_rank(b.1))
}

/// A space to which a unit can move. Provinces are made up of 1 or more regions.
#[derive(Debug, Clone, PartialEq, Eq, Hash, PartialOrd, Ord)]
pub struct Region(ProvinceKey, Option<Coast>, Terrain);

impl View for Region {
    type V = (Seq<char>, Option<Coast>, Terrain);

    closed spec fn view(&self) -> (Seq<char>, Option<Coast>, Terrain) {
        (self.0@, self.1, self.2)
    }
}

impl Region {
    /// Creates a new region.
    pub fn new(province: ProvinceKey, coast: Option<Coast>, terrain: Terrain) -> (r: Region)
        ensures
            r@ == (province@, coast, terrain),
    {
        Region(province, coast, terrain)
    }

    /// Gets the parent province for the region.
    pub fn province(&self) -> (r: &ProvinceKey)
        ensures
            r@ == self@.0,
    {
        &self.0
    }

    /// Gets the coast of the region.
    pub fn coast(&self) -> (r: Option<Coast>)
        ensures
            r == self@.1,
    {
        self.1
    }

    /// Gets the region's terrain.
    pub fn terrain(&self) -> (r: Terrain)
        ensures
            r == self@.2,
    {
        self.2
    }

    /// The key that identifies this region.
    pub fn key(&self) -> (r: RegionKey)
        ensures
            r@ == (self@.0, self@.1),
    {
        RegionKey(self.0.copy(), self.1)
    }

    /// Whether this region is the one named by `key`.
    pub fn is_keyed_by(&self, key: &RegionKey) -> (r: bool)
        ensures
            r == ((self@.0, self@.1) == key@),
    {
        self.0.same(&key.0) && same_coast(self.1, key.1)
    }
}

impl ShortName for Region {
    open spec fn spec_short_name(&self) -> Seq<char> {
        region_short_name((self@.0, self@.1))
    }

    fn short_name(&self) -> (r: String) {
        self.key().short_name()
    }
}

/// An identifier that references a region.
#[derive(Debug, Clone, PartialEq, Eq, PartialOrd, Ord, Hash)]
pub struct RegionKey(ProvinceKey, Option<Coast>);

impl View for RegionKey {
    type V = RegionName;

    closed spec fn view(&self) -> RegionName {
        (self.0@, self.1)
    }
}

impl RegionKey {
    /// Creates a new region key.
    pub fn new(province: ProvinceKey, coast: Option<Coast>) -> (r: RegionKey)
        ensures
            r@ == (province@, coast),
    {
        RegionKey(province, coast)
    }

    /// Gets the parent province for the region.
    pub fn province(&self) -> (r: &ProvinceKey)
        ensures
            r@ == self@.0,
    {
        &self.0
    }

    /// Gets the coast of the region.
    pub fn coast(&self) -> (r: Option<Coast>)
        ensures
            r == self@.1,
    {
        self.1
    }

    /// Compares two keys: same province and same coast.
    pub fn same(&self, other: &RegionKey) -> (r: bool)
        ensures
            r == (self@ == other@),
    {
        self.0.same(&other.0) && same_coast(self.1, other.1)
    }

    /// Whether the region lies in the given province.
    pub fn in_province(&self, p: &ProvinceKey) -> (r: bool)
        ensures
            r == (self@.0 == p@),
    {
        self.0.same(p)
    }

    /// Whether this region comes strictly before the other: by province name, then by coast.
    pub fn precedes(&self, other: &RegionKey) -> (r: bool)
        ensures
            r == region_lt(self@, other@),
    {
        if self.0.precedes(&other.0) {
            true
        } else if self.0.same(&other.0) {
            coast_rank(self.1) < coast_rank(other.1)
        } else {
            false
        }
    }

    /// Whether two keys name regions of the same province.
    pub fn same_province(&self, other: &RegionKey) -> (r: bool)
        ensures
            r == (self@.0 == other@.0),
    {
        self.0.same(&other.0)
    }

    /// Returns a copy of the key.
    pub fn copy(&self) -> (r: RegionKey)
        ensures
            r@ == self@,
    {
        RegionKey(self.0.copy(), self.1)
    }
}

impl ShortName for RegionKey {
    open spec fn spec_short_name(&self) -> Seq<char> {
        region_short_name(self@)
    }

    fn short_name(&self) -> (r: String) {
        let mut s = self.0.short_name();
        match self.1 {
            Some(c) => {
                let suffix = c.short_name();
                s.append(suffix.as_str());
            },
            None => {},
        }
        proof {
            assert(s@ =~= region_short_name(self@));
        }
        s
    }
}


/// Index of the first occurrence of `c` in `s`, if any.
pub open spec fn first_index_of(s: Seq<char>, c: char) -> Option<int> {
    if exists|i: int| 0 <= i < s.len() && s[i] == c {
        Some(choose|i: int| 0 <= i < s.len() && s[i] == c && forall|j: int| 0 <= j < i ==> s[j] != c)
    } else {
        None
    }
}

/// The region named by `s`: a province name, optionally followed by `(` and a two-letter
/// coast code; anything after the code is ignored, and a second `(` is malformed.
pub open spec fn spec_parse_region(s: Seq<char>) -> Result<RegionName, ErrorKind> {
    match first_index_of(s, '(') {
        None => Ok((s, None)),
        Some(i) => {
            let rest = s.skip(i + 1);
            if rest.contains('(') {
                Err(ErrorKind::MalformedRegion)
            } else {
                let code = if rest.len() < 2 { rest } else { rest.take(2) };
                match spec_parse_coast(code) {
                    Some(c) => Ok((s.take(i), Some(c))),
                    None => Err(ErrorKind::BadCoast),
                }
            }
        },
    }
}

/// Finds the first `c` in `s` at or after `from`.
pub fn find_char_from(s: &str, c: char, from: usize) -> (r: Option<usize>)
    requires
        from <= s@.len(),
    ensures
        match r {
            Some(i) => from <= i < s@.len() && s@[i as int] == c && forall|j: int|
                from <= j < i ==> s@[j] != c,
            None => forall|j: int| from <= j < s@.len() ==> s@[j] != c,
        },
{
    let n: usize = s.unicode_len();
    let mut i: usize = from;
    while i < n
        invariant
            from <= i <= n,
            n == s@.len(),
            forall|j: int| from <= j < i ==> s@[j] != c,
        decreases n - i,
    {
        if s.get_char(i) == c {
            return Some(i);
        }
        i = i + 1;
    }
    None
}

/// Lemma: the witness found by a scan is the first index of the character.
pub proof fn lemma_first_index_of(s: Seq<char>, c: char, i: int)
    requires
        0 <= i < s.len(),
        s[i] == c,
        forall|j: int| 0 <= j < i ==> s[j] != c,
    ensures
        first_index_of(s, c) == Some(i),
{
    let k: int = choose|k: int| 0 <= k < s.len() && s[k] == c && forall|j: int| 0 <= j < k ==> s[j] != c;
    assert(0 <= k < s.len() && s[k] == c && forall|j: int| 0 <= j < k ==> s[j] != c);
    if k < i {
        assert(s[k] != c);
    }
    if i < k {
        assert(s[i] != c);
    }
}

impl RegionKey {
    /// Parses a region key such as `lon` or `spa(nc)`.
    pub fn parse(s: &str) -> (r: Result<RegionKey, Error>)
        ensures
            match r {
                Ok(k) => spec_parse_region(s@) == Ok::<RegionName, ErrorKind>(k@),
                Err(e) => spec_parse_region(s@) == Err::<RegionName, ErrorKind>(e.spec_kind()),
            },
    {
        let n: usize = s.unicode_len();
        match find_char_from(s, '(', 0) {
            None => {
                proof {
                    assert(!(exists|i: int| 0 <= i < s@.len() && s@[i] == '('));
                }
                Ok(RegionKey(ProvinceKey::new(s), None))
            },
            Some(p) => {
                proof {
                    lemma_first_index_of(s@, '(', p as int);
                }
                let second = find_char_from(s, '(', p + 1);
                let ghost rest = s@.skip(p + 1);
                if second.is_some() {
                    proof {
                        let q = second.unwrap();
                        assert(rest[q - (p + 1)] == '(');
                    }
                    return Err(Error::new(ErrorKind::MalformedRegion, s));
                }
                proof {
                    assert forall|j: int| 0 <= j < rest.len() implies rest[j] != '(' by {
                        assert(rest[j] == s@[j + p + 1]);
                    }
                    assert(!rest.contains('('));
                }
                let end: usize = if n - (p + 1) < 2 { n } else { p + 3 };
                let code = s.substring_char(p + 1, end);
                proof {
                    if rest.len() < 2 {
                        assert(code@ =~= rest);
                    } else {
                        assert(code@ =~= rest.take(2));
                    }
                }
                let province = s.substring_char(0, p);
                match Coast::parse(code) {
                    Ok(c) => {
                        proof {
                            assert(province@ =~= s@.take(p as int));
                        }
                        Ok(RegionKey(ProvinceKey::new(province), Some(c)))
                    },
                    Err(e) => Err(e),
                }
            },
        }
    }
}

} // verus!
