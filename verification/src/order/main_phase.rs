use super::{Command, Model, Order, OrderView};
use crate::geo::{region_short_name, RegionKey, RegionName};
use crate::unit::UnitType;
use crate::ShortName;
use vstd::prelude::*;

verus! {

/// An order of the main phase.
pub type MainOrder<L> = Order<L, MainCommand<L>>;

/// The model of a main-phase order.
pub type MainOrderView = OrderView<RegionName, MainCommand<RegionName>>;

/// A command that is issued to a unit at a location during the main phase of a season.
#[derive(Debug, Clone, PartialEq, Eq, Hash, PartialOrd, Ord)]
pub enum MainCommand<L> {
    /// The unit is to remain in place and do nothing else.
    Hold,
    /// The unit is to attempt to move from its current location to another location.
    Move(MoveCommand<L>),
    /// The unit is to remain in place and support another order.
    Support(SupportedOrder<L>),
    /// The unit is to remain in place and attempt to help move an army to a specified location.
    Convoy(ConvoyedMove<L>),
}

/// A move command with a destination and an optional convoy specification.
#[derive(Debug, Clone, PartialEq, Eq, Hash, PartialOrd, Ord)]
pub struct MoveCommand<L> {
    /// The destination region.
    pub dest: L,
    /// Whether the order required, forbade, or didn't specify convoy usage.
    ///
    /// Right now, the adjudicator doesn't handle the forbid case, so there's no way to construct
    /// such a command.
    pub use_convoy: Option<bool>,
}

/// Declaration of the order to be supported by a support command.
#[derive(Debug, Clone, PartialEq, Eq, Hash, PartialOrd, Ord)]
pub enum SupportedOrder<L> {
    /// The supporting unit will attempt to keep the unit in `Region` in place.
    /// A "hold" support covers units that have hold, support, or convoy commands.
    Hold(UnitType, L),
    /// The supporting unit will attempt to help the unit move from the first
    /// region to the second.
    Move(UnitType, L, L),
}

/// An army's move which a fleet should convoy.
#[derive(Debug, Clone, PartialEq, Eq, Hash, PartialOrd, Ord)]
pub struct ConvoyedMove<L>(pub L, pub L);

impl<L: View> View for MoveCommand<L> {
    type V = MoveCommand<L::V>;

    open spec fn view(&self) -> MoveCommand<L::V> {
        MoveCommand { dest: self.dest@, use_convoy: self.use_convoy }
    }
}

impl<L: View> View for SupportedOrder<L> {
    type V = SupportedOrder<L::V>;

    open spec fn view(&self) -> SupportedOrder<L::V> {
        match self {
            SupportedOrder::Hold(u, r) => SupportedOrder::Hold(*u, r@),
            SupportedOrder::Move(u, f, t) => SupportedOrder::Move(*u, f@, t@),
        }
    }
}

impl<L: View> View for ConvoyedMove<L> {
    type V = ConvoyedMove<L::V>;

    open spec fn view(&self) -> ConvoyedMove<L::V> {
        ConvoyedMove(self.0@, self.1@)
    }
}

impl<L: View> View for MainCommand<L> {
    type V = MainCommand<L::V>;

    open spec fn view(&self) -> MainCommand<L::V> {
        match self {
            MainCommand::Hold => MainCommand::Hold,
            MainCommand::Move(m) => MainCommand::Move(m@),
            MainCommand::Support(s) => MainCommand::Support(s@),
            MainCommand::Convoy(c) => MainCommand::Convoy(c@),
        }
    }
}

impl<L: View> Command<L> for MainCommand<L> {
    open spec fn spec_move_dest(&self) -> Option<L::V> {
        match self {
            MainCommand::Move(m) => Some(m.dest@),
            _ => None,
        }
    }

    fn move_dest(&self) -> (r: Option<&L>) {
        match self {
            MainCommand::Move(m) => Some(&m.dest),
            _ => None,
        }
    }

    fn is_move(&self) -> (r: bool) {
        match self {
            MainCommand::Move(_) => true,
            _ => false,
        }
    }
}

impl<L: View> Command<L> for MoveCommand<L> {
    open spec fn spec_move_dest(&self) -> Option<L::V> {
        Some(self.dest@)
    }

    fn move_dest(&self) -> (r: Option<&L>) {
        Some(&self.dest)
    }

    fn is_move(&self) -> (r: bool) {
        true
    }
}

impl<L> MoveCommand<L> {
    /// Create a new move command without providing a convoy preference.
    pub fn new(dest: L) -> (r: MoveCommand<L>)
        ensures
            r.dest == dest,
            r.use_convoy is None,
    {
        MoveCommand { dest, use_convoy: None }
    }

    /// Create a new move command which mandates that a convoy be used.
    pub fn with_mandatory_convoy(dest: L) -> (r: MoveCommand<L>)
        ensures
            r.dest == dest,
            r.use_convoy == Some(true),
    {
        MoveCommand { dest, use_convoy: Some(true) }
    }

    /// Get the move command's destination region.
    pub fn dest(&self) -> (r: &L)
        ensures
            *r == self.dest,
    {
        &self.dest
    }

    /// The order explicitly mandates the use of a convoy. If `true`, direct paths
    /// to the destination should not be considered when choosing a path.
    ///
    /// This can be `false` in two cases: The command didn't specify a convoy preference, or the
    /// command explicitly forbade a convoy.
    pub fn mandates_convoy(&self) -> (r: bool)
        ensures
            r == (self.use_convoy == Some(true)),
    {
        match self.use_convoy {
            Some(b) => b,
            None => false,
        }
    }

    /// The order explicitly mentions convoys, either mandating or forbidding their use.
    pub fn mentions_convoy(&self) -> (r: bool)
        ensures
            r == (self.use_convoy is Some),
    {
        self.use_convoy.is_some()
    }
}

impl<L> ConvoyedMove<L> {
    /// Create a new convoyed move.
    pub fn new(from: L, to: L) -> (r: ConvoyedMove<L>)
        ensures
            r.0 == from,
            r.1 == to,
    {
        ConvoyedMove(from, to)
    }

    /// The region the army leaves.
    pub fn from(&self) -> (r: &L)
        ensures
            *r == self.0,
    {
        &self.0
    }

    /// The region the army enters.
    pub fn to(&self) -> (r: &L)
        ensures
            *r == self.1,
    {
        &self.1
    }
}

/// A supported order is legal unless it is a move to the region the unit already occupies.
pub open spec fn spec_supported_is_legal(s: SupportedOrder<RegionName>) -> bool {
    match s {
        SupportedOrder::Hold(..) => true,
        SupportedOrder::Move(_, f, t) => f != t,
    }
}

/// Whether a supported-order declaration describes the given order: a hold support matches
/// any non-move order of that unit type in that region; a move support matches exactly that
/// move.
pub open spec fn spec_support_matches(s: SupportedOrder<RegionName>, o: MainOrderView) -> bool {
    match s {
        SupportedOrder::Hold(u, r) => !(o.command is Move) && r == o.region && u == o.unit_type,
        SupportedOrder::Move(u, f, t) => match o.command {
            MainCommand::Move(m) => u == o.unit_type && f == o.region && t == m.dest,
            _ => false,
        },
    }
}

/// Whether a convoy declaration describes the given order: an army's move along that route.
pub open spec fn spec_convoy_matches(c: ConvoyedMove<RegionName>, o: MainOrderView) -> bool {
    o.unit_type == UnitType::Army && match o.command {
        MainCommand::Move(m) => c.0 == o.region && c.1 == m.dest,
        _ => false,
    }
}

impl SupportedOrder<RegionKey> {
    /// A support is legal unless it supports a unit moving to its own region.
    pub fn is_legal(&self) -> (r: bool)
        ensures
            r == spec_supported_is_legal(self@),
    {
        match self {
            SupportedOrder::Hold(..) => true,
            SupportedOrder::Move(_, fr, to) => !fr.same(to),
        }
    }

    /// Whether this declaration describes the given order.
    pub fn matches_order(&self, other: &MainOrder<RegionKey>) -> (r: bool)
        ensures
            r == spec_support_matches(self@, other@),
    {
        match self {
            SupportedOrder::Hold(ut, loc) => !other.command.is_move() && loc.same(&other.region)
                && *ut == other.unit_type,
            SupportedOrder::Move(ut, fr, to) => match &other.command {
                MainCommand::Move(cmd) => *ut == other.unit_type && fr.same(&other.region)
                    && to.same(&cmd.dest),
                _ => false,
            },
        }
    }
}

impl ConvoyedMove<RegionKey> {
    /// Whether this declaration describes the given order.
    pub fn matches_order(&self, rhs: &MainOrder<RegionKey>) -> (r: bool)
        ensures
            r == spec_convoy_matches(self@, rhs@),
    {
        if rhs.unit_type == UnitType::Army {
            match &rhs.command {
                MainCommand::Move(cmd) => self.0.same(&rhs.region) && self.1.same(&cmd.dest),
                _ => false,
            }
        } else {
            false
        }
    }
}

impl<L: Model> Model for MainCommand<L> {
    fn same(&self, other: &Self) -> (r: bool) {
        match (self, other) {
            (MainCommand::Hold, MainCommand::Hold) => true,
            (MainCommand::Move(a), MainCommand::Move(b)) => a.dest.same(&b.dest) && match (
                a.use_convoy,
                b.use_convoy,
            ) {
                (None, None) => true,
                (Some(x), Some(y)) => x == y,
                _ => false,
            },
            (MainCommand::Support(a), MainCommand::Support(b)) => match (a, b) {
                (SupportedOrder::Hold(u1, r1), SupportedOrder::Hold(u2, r2)) => *u1 == *u2
                    && r1.same(r2),
                (SupportedOrder::Move(u1, f1, t1), SupportedOrder::Move(u2, f2, t2)) => *u1 == *u2
                    && f1.same(f2) && t1.same(t2),
                _ => false,
            },
            (MainCommand::Convoy(a), MainCommand::Convoy(b)) => a.0.same(&b.0) && a.1.same(&b.1),
            _ => false,
        }
    }

    fn copy(&self) -> (r: Self) {
        match self {
            MainCommand::Hold => MainCommand::Hold,
            MainCommand::Move(m) => MainCommand::Move(
                MoveCommand { dest: m.dest.copy(), use_convoy: m.use_convoy },
            ),
            MainCommand::Support(SupportedOrder::Hold(u, r)) => MainCommand::Support(
                SupportedOrder::Hold(*u, r.copy()),
            ),
            MainCommand::Support(SupportedOrder::Move(u, f, t)) => MainCommand::Support(
                SupportedOrder::Move(*u, f.copy(), t.copy()),
            ),
            MainCommand::Convoy(c) => MainCommand::Convoy(ConvoyedMove(c.0.copy(), c.1.copy())),
        }
    }
}

/// The written form of a main-phase command.
pub open spec fn main_command_text(c: MainCommand<RegionName>) -> Seq<char> {
    match c {
        MainCommand::Hold => "holds"@,
        MainCommand::Move(m) => "-> "@ + region_short_name(m.dest) + match m.use_convoy {
            Some(true) => " via convoy"@,
            Some(false) => " no convoy"@,
            None => Seq::empty(),
        },
        MainCommand::Support(SupportedOrder::Hold(u, r)) => "supports "@ + u.spec_short_name()
            + " "@ + region_short_name(r),
        MainCommand::Support(SupportedOrder::Move(u, f, t)) => "supports "@ + u.spec_short_name()
            + " "@ + region_short_name(f) + " -> "@ + region_short_name(t),
        MainCommand::Convoy(cm) => "convoys A "@ + region_short_name(cm.0) + " -> "@
            + region_short_name(cm.1),
    }
}

impl MainCommand<RegionKey> {
    /// Writes the command, as it would follow the unit in a written order.
    pub fn to_string(&self) -> (r: String)
        ensures
            r@ == main_command_text(self@),
    {
        match self {
            MainCommand::Hold => String::from_str("holds"),
            MainCommand::Move(m) => {
                let mut s = String::from_str("-> ");
                let d = m.dest.short_name();
                s.append(d.as_str());
                match m.use_convoy {
                    Some(true) => s.append(" via convoy"),
                    Some(false) => s.append(" no convoy"),
                    None => {},
                }
                proof {
                    assert(s@ =~= main_command_text(self@));
                }
                s
            },
            MainCommand::Support(SupportedOrder::Hold(u, r)) => {
                let mut s = String::from_str("supports ");
                let us = u.short_name();
                s.append(us.as_str());
                s.append(" ");
                let rs = r.short_name();
                s.append(rs.as_str());
                s
            },
            MainCommand::Support(SupportedOrder::Move(u, f, t)) => {
                let mut s = String::from_str("supports ");
                let us = u.short_name();
                s.append(us.as_str());
                s.append(" ");
                let fs = f.short_name();
                s.append(fs.as_str());
                s.append(" -> ");
                let ts = t.short_name();
                s.append(ts.as_str());
                s
            },
            MainCommand::Convoy(cm) => {
                let mut s = String::from_str("convoys A ");
                let fs = cm.0.short_name();
                s.append(fs.as_str());
                s.append(" -> ");
                let ts = cm.1.short_name();
                s.append(ts.as_str());
                s
            },
        }
    }
}

} // verus!
