//! Seasons, phases, and points in game time.
use vstd::prelude::*;

verus! {

/// A season of the game year.
#[derive(Debug, Clone, Copy, PartialEq, Eq, Hash, PartialOrd, Ord, Structural)]
pub enum Season {
    Spring,
    Fall,
    Winter,
}

/// The kind of orders a turn accepts.
#[derive(Debug, Clone, Copy, PartialEq, Eq, Hash, PartialOrd, Ord, Structural)]
pub enum Phase {
    /// Units hold, move, support and convoy.
    Main,
    /// Dislodged units retreat or disband.
    Retreat,
    /// Nations build or disband units.
    Build,
}

/// A point in game time: a season and phase of a year.
#[derive(Debug, Clone, Copy, PartialEq, Eq, Hash, Structural)]
pub struct Time {
    season: Season,
    year: usize,
    phase: Phase,
}

impl Time {
    /// The season of the time.
    pub closed spec fn spec_season(&self) -> Season {
        self.season
    }

    /// The year of the time.
    pub closed spec fn spec_year(&self) -> usize {
        self.year
    }

    /// The phase of the time.
    pub closed spec fn spec_phase(&self) -> Phase {
        self.phase
    }

    /// Creates a time.
    pub fn new(season: Season, year: usize, phase: Phase) -> (r: Time)
        ensures
            r.spec_season() == season,
            r.spec_year() == year,
            r.spec_phase() == phase,
    {
        Time { season, year, phase }
    }

    /// The season of the time.
    pub fn season(&self) -> (r: Season)
        ensures
            r == self.spec_season(),
    {
        self.season
    }

    /// The year of the time.
    pub fn year(&self) -> (r: usize)
        ensures
            r == self.spec_year(),
    {
        self.year
    }

    /// The phase of the time.
    pub fn phase(&self) -> (r: Phase)
        ensures
            r == self.spec_phase(),
    {
        self.phase
    }

    /// Two times are equal exactly when their season, year and phase are.
    pub proof fn lemma_eq(a: Time, b: Time)
        ensures
            (a == b) == (a.spec_season() == b.spec_season() && a.spec_year() == b.spec_year()
                && a.spec_phase() == b.spec_phase()),
    {
    }
}

} // verus!
