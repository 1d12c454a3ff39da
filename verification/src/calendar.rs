//! Types for representing the passage of in-game time.
//!
//! The calendar is used to determine what season and phase a game should enter
//! at the conclusion of a turn.
use crate::lemmas::{first_index, lemma_first_index, lemma_first_index_props};
use crate::time::{Phase, Season, Time};
use vstd::arithmetic::div_mod::{lemma_fundamental_div_mod, lemma_div_pos_is_pos, lemma_mod_bound};
use vstd::prelude::*;

verus! {

/// Identifier of a specific turn in a game.
pub type Month = (Season, Phase);

/// Why a calendar cannot be made.
#[derive(Debug, Clone, Copy, PartialEq, Eq)]
pub enum Error {
    NoMonths,
    DuplicateMonth(Month),
    StartingMonthNotInCalendar,
}

/// The months with a retreat phase inserted after each main phase.
pub open spec fn with_retreats(months: Seq<Month>) -> Seq<Month>
    decreases months.len(),
{
    if months.len() == 0 {
        Seq::empty()
    } else {
        let p = with_retreats(months.drop_last());
        let m = months.last();
        if m.1 == Phase::Main {
            p.push(m).push((m.0, Phase::Retreat))
        } else {
            p.push(m)
        }
    }
}

/// The position of the first month equal to `m`, if any.
#[verifier::opaque]
pub open spec fn first_position(months: Seq<Month>, m: Month) -> Option<int> {
    first_index(months, |x: Month| x == m)
}

/// What the first position of a month is.
pub proof fn lemma_first_position(months: Seq<Month>, m: Month)
    ensures
        match first_position(months, m) {
            Some(i) => 0 <= i < months.len() && months[i] == m && forall|j: int|
                0 <= j < i ==> months[j] != m,
            None => forall|j: int| 0 <= j < months.len() ==> months[j] != m,
        },
{
    reveal(first_position);
    lemma_first_index_props(months, |x: Month| x == m);
}

/// The first month equal to `m` is at `i`.
pub proof fn lemma_first_position_at(months: Seq<Month>, m: Month, i: int)
    requires
        0 <= i < months.len(),
        months[i] == m,
        forall|j: int| 0 <= j < i ==> months[j] != m,
    ensures
        first_position(months, m) == Some(i),
{
    reveal(first_position);
    lemma_first_index(months, |x: Month| x == m, i);
}

/// The position of the first month that equals an earlier one, if any.
#[verifier::opaque]
pub open spec fn first_duplicate(months: Seq<Month>) -> Option<int> {
    if exists|i: int| 0 <= i < months.len() && #[trigger] first_position(months, months[i]) != Some(i) {
        Some(choose|i: int|
            0 <= i < months.len() && first_position(months, months[i]) != Some(i) && forall|j: int|
                0 <= j < i ==> #[trigger] first_position(months, months[j]) == Some(j))
    } else {
        None
    }
}

/// The calendar dictates the sequence of turns in a game.
///
/// # Purpose
/// The calendar allows conversion between unsigned integers and game turns.
/// This allows a persistence layer to store turns as numbers while relying on `Calendar` to
/// determine which kinds of order should be accepted at any given time.
///
/// # Turns Without Orders
/// Some turns neither need nor accept orders, such as a retreat phase after a main phase in which
/// no units are dislodged. In these scenarios, the caller should still advance its turn counter to
/// indicate the completion of that turn.
pub struct Calendar {
    starting_year: usize,
    starting_month_index: usize,
    months: Vec<Month>,
}

impl Calendar {
    /// The months of a year, in order.
    pub closed spec fn spec_months(&self) -> Seq<Month> {
        self.months@
    }

    /// The year of the first turn.
    pub closed spec fn spec_start_year(&self) -> nat {
        self.starting_year as nat
    }

    /// The position of the first turn's month in the year.
    pub closed spec fn spec_start_index(&self) -> nat {
        self.starting_month_index as nat
    }

    /// A year has at least one month, no month twice, and the first turn's month is one of them.
    pub open spec fn wf(&self) -> bool {
        &&& self.spec_months().len() > 0
        &&& self.spec_months().no_duplicates()
        &&& self.spec_start_index() < self.spec_months().len()
    }

    /// The turn number `turn` counts the months from the first turn: its month and year.
    pub open spec fn spec_nth(&self, turn: nat) -> (Month, nat) {
        let idx = (self.spec_start_index() + turn) as int;
        let n = self.spec_months().len() as int;
        (self.spec_months()[idx % n], (self.spec_start_year() + idx / n) as nat)
    }

    /// The turn number of the month `m` of year `year`, if that month is in the calendar and
    /// comes no earlier than the first turn.
    pub open spec fn spec_position(&self, m: Month, year: nat) -> Option<nat> {
        match first_position(self.spec_months(), m) {
            Some(i) => if year < self.spec_start_year() || (year == self.spec_start_year() && i
                < self.spec_start_index()) {
                None
            } else {
                Some(((year - self.spec_start_year()) * self.spec_months().len() + i
                    - self.spec_start_index()) as nat)
            },
            None => None,
        }
    }

    /// Create a new calendar starting at the specified time, with retreat phases automatically
    /// inserted after each main phase.
    pub fn new(start: Time, months: Vec<Month>) -> (r: Result<Calendar, Error>)
        requires
            2 * months@.len() <= usize::MAX,
        ensures
            Calendar::made_from(start, with_retreats(months@), r),
    {
        let mut all: Vec<Month> = Vec::new();
        let mut i: usize = 0;
        while i < months.len()
            invariant
                i <= months@.len(),
                2 * months@.len() <= usize::MAX,
                all@ == with_retreats(months@.take(i as int)),
                all@.len() <= 2 * i,
            decreases months@.len() - i,
        {
            let m = months[i];
            proof {
                assert(months@.take(i + 1).drop_last() =~= months@.take(i as int));
                assert(months@.take(i + 1).last() == m);
            }
            all.push(m);
            if m.1 == Phase::Main {
                all.push((m.0, Phase::Retreat));
            }
            i = i + 1;
        }
        proof {
            assert(months@.take(months@.len() as int) =~= months@);
        }
        Calendar::with_explicit_retreats(start, all)
    }

    /// How a calendar is made from a start time and the months of a year: it fails without
    /// months, with the first repeated month, or when the start time's month is not one of
    /// them; otherwise it starts at the start time.
    pub open spec fn made_from(start: Time, months: Seq<Month>, r: Result<Calendar, Error>) -> bool {
        if months.len() == 0 {
            r == Err::<Calendar, Error>(Error::NoMonths)
        } else if first_duplicate(months) is Some {
            r == Err::<Calendar, Error>(Error::DuplicateMonth(months[first_duplicate(months)->0]))
        } else if first_position(months, (start.spec_season(), start.spec_phase())) is None {
            r == Err::<Calendar, Error>(Error::StartingMonthNotInCalendar)
        } else {
            &&& r is Ok
            &&& r->Ok_0.wf()
            &&& r->Ok_0.spec_months() == months
            &&& r->Ok_0.spec_start_year() == start.spec_year()
            &&& r->Ok_0.spec_start_index() == first_position(
                months,
                (start.spec_season(), start.spec_phase()),
            )->0
        }
    }

    /// Create a calendar whose months already hold their retreat phases.
    pub fn with_explicit_retreats(start: Time, months: Vec<Month>) -> (r: Result<Calendar, Error>)
        ensures
            Calendar::made_from(start, months@, r),
    {
        if months.len() == 0 {
            return Err(Error::NoMonths);
        }
        if let Some(first_duplicate) = find_first_duplicate(&months) {
            return Err(Error::DuplicateMonth(months[first_duplicate]));
        }
        assert(first_duplicate(months@) is None);
        match month_position(&months, (start.season(), start.phase())) {
            Some(idx) => {
                proof {
                    lemma_no_duplicates(months@);
                    lemma_first_position(months@, (start.spec_season(), start.spec_phase()));
                }
                Ok(Calendar { starting_year: start.year(), starting_month_index: idx, months })
            },
            None => Err(Error::StartingMonthNotInCalendar),
        }
    }

    /// Create an iterator that goes through the turns of the game in order, starting with the
    /// first turn.
    pub fn iter(&self) -> (r: Iter<'_>)
        ensures
            r.spec_calendar() == self,
            r.spec_step() == 0,
    {
        Iter { calendar: self, step: 0 }
    }

    /// Get the time associated with the `nth` turn of the game.
    pub fn nth(&self, turn: usize) -> (r: Time)
        requires
            self.wf(),
            self.spec_start_index() + turn + self.spec_months().len() <= usize::MAX,
            self.spec_start_year() + (self.spec_start_index() + turn) <= usize::MAX,
        ensures
            (r.spec_season(), r.spec_phase()) == self.spec_nth(turn as nat).0,
            r.spec_year() == self.spec_nth(turn as nat).1,
    {
        let n = self.months.len();
        let month_idx = self.starting_month_index + turn;
        proof {
            lemma_div_le(month_idx as int, n as int);
        }
        let year = self.starting_year + (month_idx / n);
        let (season, phase) = self.months[month_idx % n];
        Time::new(season, year, phase)
    }

    /// The turn number of the given time, if the calendar reaches it.
    pub fn position(&self, time: &Time) -> (r: Option<usize>)
        requires
            self.wf(),
            (time.spec_year() + 1) * self.spec_months().len() <= usize::MAX,
        ensures
            match r {
                Some(t) => self.spec_position(
                    (time.spec_season(), time.spec_phase()),
                    time.spec_year() as nat,
                ) == Some(t as nat),
                None => self.spec_position(
                    (time.spec_season(), time.spec_phase()),
                    time.spec_year() as nat,
                ) is None,
            },
    {
        let month_idx = match month_position(&self.months, (time.season(), time.phase())) {
            Some(i) => i,
            None => {
                return None;
            },
        };
        if time.year() < self.starting_year {
            return None;
        }
        let years_passed = time.year() - self.starting_year;
        if years_passed == 0 && month_idx < self.starting_month_index {
            return None;
        }
        let n = self.months.len();
        proof {
            lemma_first_position(self.months@, (time.spec_season(), time.spec_phase()));
            assert(years_passed * n <= time.spec_year() * n) by (nonlinear_arith)
                requires
                    years_passed <= time.spec_year(),
            ;
            assert((time.spec_year() + 1) * n == time.spec_year() * n + n) by (nonlinear_arith);
            if years_passed > 0 {
                assert(years_passed * n >= n) by (nonlinear_arith)
                    requires
                        years_passed > 0,
                        n > 0,
                ;
            }
        }
        let passed = years_passed * n + month_idx;
        Some(passed - self.starting_month_index)
    }
}

proof fn lemma_div_le(x: int, n: int)
    requires
        0 <= x,
        0 < n,
    ensures
        x / n <= x,
        0 <= x / n,
{
    lemma_div_pos_is_pos(x, n);
    assert(x / n <= x) by (nonlinear_arith)
        requires
            0 <= x,
            0 < n,
            0 <= x / n,
    {
        lemma_fundamental_div_mod(x, n);
        lemma_mod_bound(x, n);
    }
}

proof fn lemma_no_duplicates(months: Seq<Month>)
    requires
        first_duplicate(months) is None,
    ensures
        months.no_duplicates(),
{
    reveal(first_duplicate);
    assert forall|i: int, j: int| 0 <= i < months.len() && 0 <= j < months.len() && i != j implies months[i]
        != months[j] by {
        assert(first_position(months, months[i]) == Some(i));
        assert(first_position(months, months[j]) == Some(j));
    }
}

/// The position of the first month equal to `m`, if any.
fn month_position(months: &Vec<Month>, m: Month) -> (r: Option<usize>)
    ensures
        match r {
            Some(i) => first_position(months@, m) == Some(i as int),
            None => first_position(months@, m) is None,
        },
{
    let mut i: usize = 0;
    while i < months.len()
        invariant
            i <= months@.len(),
            forall|j: int| 0 <= j < i ==> months@[j] != m,
        decreases months@.len() - i,
    {
        let c = months[i];
        if c.0 == m.0 && c.1 == m.1 {
            proof {
                assert(months@[i as int] == m);
                lemma_first_position_at(months@, m, i as int);
            }
            return Some(i);
        }
        i = i + 1;
    }
    proof {
        lemma_first_position(months@, m);
        if first_position(months@, m) is Some {
            let k = first_position(months@, m)->0;
            assert(months@[k] == m);
        }
    }
    None
}

proof fn lemma_first_duplicate_at(months: Seq<Month>, i: int)
    requires
        0 <= i < months.len(),
        first_position(months, months[i]) != Some(i),
        forall|j: int| 0 <= j < i ==> #[trigger] first_position(months, months[j]) == Some(j),
    ensures
        first_duplicate(months) == Some(i),
{
    reveal(first_duplicate);
    let k = choose|k: int|
        0 <= k < months.len() && #[trigger] first_position(months, months[k]) != Some(k) && forall|j: int|
            0 <= j < k ==> #[trigger] first_position(months, months[j]) == Some(j);
    if k < i {
        assert(first_position(months, months[k]) == Some(k));
    } else if k > i {
        assert(first_position(months, months[i]) == Some(i));
    }
}

proof fn lemma_no_first_duplicate(months: Seq<Month>)
    requires
        forall|j: int| 0 <= j < months.len() ==> #[trigger] first_position(months, months[j]) == Some(j),
    ensures
        first_duplicate(months) is None,
{
    reveal(first_duplicate);
}

/// The position of the first month that equals an earlier one, if any.
fn find_first_duplicate(months: &Vec<Month>) -> (r: Option<usize>)
    ensures
        match r {
            Some(i) => i < months@.len() && first_duplicate(months@) == Some(i as int),
            None => first_duplicate(months@) is None,
        },
{
    let mut i: usize = 0;
    while i < months.len()
        invariant
            i <= months@.len(),
            forall|j: int| 0 <= j < i ==> #[trigger] first_position(months@, months@[j]) == Some(j),
        decreases months@.len() - i,
    {
        let m = months[i];
        match month_position(months, m) {
            Some(p) => {
                if p != i {
                    proof {
                        lemma_first_duplicate_at(months@, i as int);
                    }
                    return Some(i);
                }
            },
            None => {
                proof {
                    lemma_first_position(months@, m);
                    assert(months@[i as int] == m);
                }
            },
        }
        i = i + 1;
    }
    proof {
        lemma_no_first_duplicate(months@);
    }
    None
}

/// Time iterator for a calendar, producing all times in order starting with the first turn
/// of the game.
pub struct Iter<'a> {
    calendar: &'a Calendar,
    step: usize,
}

impl<'a> Iter<'a> {
    /// The calendar walked.
    pub closed spec fn spec_calendar(&self) -> &'a Calendar {
        self.calendar
    }

    /// The turn number of the next time produced.
    pub closed spec fn spec_step(&self) -> nat {
        self.step as nat
    }

    /// Produce the time of the next turn.
    pub fn next(&mut self) -> (r: Option<Time>)
        requires
            old(self).spec_calendar().wf(),
            old(self).spec_calendar().spec_start_index() + old(self).spec_step() + 1
                + old(self).spec_calendar().spec_months().len() <= usize::MAX,
            old(self).spec_calendar().spec_start_year() + old(self).spec_calendar().spec_start_index()
                + old(self).spec_step() <= usize::MAX,
        ensures
            final(self).spec_calendar() == old(self).spec_calendar(),
            final(self).spec_step() == old(self).spec_step() + 1,
            r matches Some(t) && (t.spec_season(), t.spec_phase()) == old(self).spec_calendar().spec_nth(
                old(self).spec_step(),
            ).0 && t.spec_year() == old(self).spec_calendar().spec_nth(old(self).spec_step()).1,
    {
        let time = self.calendar.nth(self.step);
        self.step = self.step + 1;
        Some(time)
    }

    /// The times of the next `n` turns, in order.
    pub fn take(self, n: usize) -> (r: Vec<Time>)
        requires
            self.spec_calendar().wf(),
            self.spec_calendar().spec_start_index() + self.spec_step() + n
                + self.spec_calendar().spec_months().len() <= usize::MAX,
            self.spec_calendar().spec_start_year() + self.spec_calendar().spec_start_index()
                + self.spec_step() + n <= usize::MAX,
        ensures
            r@.len() == n,
            forall|k: int|
                0 <= k < n ==> (#[trigger] r@[k].spec_season(), r@[k].spec_phase())
                    == self.spec_calendar().spec_nth((self.spec_step() + k) as nat).0
                    && r@[k].spec_year() == self.spec_calendar().spec_nth((self.spec_step() + k) as nat).1,
    {
        let mut out: Vec<Time> = Vec::new();
        let mut k: usize = 0;
        while k < n
            invariant
                k <= n,
                self.spec_calendar().wf(),
                self.spec_calendar().spec_start_index() + self.spec_step() + n
                    + self.spec_calendar().spec_months().len() <= usize::MAX,
                self.spec_calendar().spec_start_year() + self.spec_calendar().spec_start_index()
                    + self.spec_step() + n <= usize::MAX,
                out@.len() == k,
                forall|j: int|
                    0 <= j < k ==> (#[trigger] out@[j].spec_season(), out@[j].spec_phase())
                        == self.spec_calendar().spec_nth((self.spec_step() + j) as nat).0
                        && out@[j].spec_year() == self.spec_calendar().spec_nth((self.spec_step() + j) as nat).1,
            decreases n - k,
        {
            let t = self.calendar.nth(self.step + k);
            out.push(t);
            k = k + 1;
        }
        out
    }
}

/// Turn numbers and times convert both ways: the turn number of the `turn`th turn's time is
/// `turn`.
pub proof fn lemma_position_of_nth(c: Calendar, turn: nat)
    requires
        c.wf(),
    ensures
        c.spec_position(c.spec_nth(turn).0, c.spec_nth(turn).1) == Some(turn),
{
    let n = c.spec_months().len() as int;
    let s = c.spec_start_index() as int;
    let idx = s + turn;
    lemma_fundamental_div_mod(idx, n);
    lemma_mod_bound(idx, n);
    lemma_div_pos_is_pos(idx, n);
    let m = c.spec_months()[idx % n];
    let q = idx / n;
    assert(first_position(c.spec_months(), m) == Some(idx % n)) by {
        let i = idx % n;
        assert(c.spec_months()[i] == m);
        assert forall|j: int| 0 <= j < i implies c.spec_months()[j] != m by {
            assert(c.spec_months().no_duplicates());
        }
        lemma_first_position_at(c.spec_months(), m, i);
    }
    if q == 0 {
        assert(idx % n == idx) by (nonlinear_arith)
            requires
                idx == n * q + idx % n,
                q == 0,
        ;
    }
    assert(q * n + idx % n - s == turn) by (nonlinear_arith)
        requires
            idx == n * q + idx % n,
            idx == s + turn,
    ;
}

/// A time the calendar reaches is the time of its turn number.
pub proof fn lemma_nth_of_position(c: Calendar, m: Month, year: nat)
    requires
        c.wf(),
        c.spec_position(m, year) is Some,
    ensures
        c.spec_nth(c.spec_position(m, year)->0) == (m, year),
{
    let n = c.spec_months().len() as int;
    let s = c.spec_start_index() as int;
    let i = first_position(c.spec_months(), m)->0;
    let y = year - c.spec_start_year();
    let t = c.spec_position(m, year)->0;
    lemma_first_position(c.spec_months(), m);
    let idx = s + t;
    if y > 0 {
        assert(y * n >= n) by (nonlinear_arith)
            requires
                y > 0,
                n > 0,
        ;
    }
    assert(y * n + i - s >= 0);
    assert(idx == y * n + i);
    assert(0 <= i < n);
    assert(c.spec_months()[i] == m);
    vstd::arithmetic::div_mod::lemma_fundamental_div_mod_converse(idx, n, y, i);
}

/// The calendar repeats every year: the turn a year's worth of months after another falls on
/// the same month of the next year.
pub proof fn lemma_one_year_period(c: Calendar, turn: nat)
    requires
        c.wf(),
    ensures
        c.spec_nth(turn + c.spec_months().len()) == (c.spec_nth(turn).0, c.spec_nth(turn).1 + 1),
{
    let n = c.spec_months().len() as int;
    let idx = (c.spec_start_index() + turn) as int;
    lemma_fundamental_div_mod(idx, n);
    lemma_mod_bound(idx, n);
    let q = idx / n;
    let r = idx % n;
    assert(idx + n == n * (q + 1) + r) by (nonlinear_arith)
        requires
            idx == n * q + r,
    ;
    vstd::arithmetic::div_mod::lemma_fundamental_div_mod_converse(idx + n, n, q + 1, r);
    assert((c.spec_start_index() + (turn + c.spec_months().len())) as int == idx + n);
}

} // verus!
