use super::{Command, Model, Order, OrderView};
use crate::geo::{RegionKey, RegionName};
use crate::ShortName;
use vstd::prelude::*;

verus! {

/// Valid commands for the retreat phase of a turn.
#[derive(Debug, Clone, PartialEq, Eq, PartialOrd, Ord, Hash)]
pub enum RetreatCommand<L> {
    Hold,
    Move(L),
}

/// An order of the retreat phase.
pub type RetreatOrder<L> = Order<L, RetreatCommand<L>>;

/// The model of a retreat order.
pub type RetreatOrderView = OrderView<RegionName, RetreatCommand<RegionName>>;

impl<L: View> View for RetreatCommand<L> {
    type V = RetreatCommand<L::V>;

    open spec fn view(&self) -> RetreatCommand<L::V> {
        match self {
            RetreatCommand::Hold => RetreatCommand::Hold,
            RetreatCommand::Move(d) => RetreatCommand::Move(d@),
        }
    }
}

impl<L: View> Command<L> for RetreatCommand<L> {
    open spec fn spec_move_dest(&self) -> Option<L::V> {
        match self {
            RetreatCommand::Hold => None,
            RetreatCommand::Move(d) => Some(d@),
        }
    }

    fn move_dest(&self) -> (r: Option<&L>) {
        match self {
            RetreatCommand::Hold => None,
            RetreatCommand::Move(d) => Some(d),
        }
    }

    fn is_move(&self) -> (r: bool) {
        match self {
            RetreatCommand::Hold => false,
            RetreatCommand::Move(_) => true,
        }
    }
}

impl<L: Model> Model for RetreatCommand<L> {
    fn same(&self, other: &Self) -> (r: bool) {
        match (self, other) {
            (RetreatCommand::Hold, RetreatCommand::Hold) => true,
            (RetreatCommand::Move(a), RetreatCommand::Move(b)) => a.same(b),
            _ => false,
        }
    }

    fn copy(&self) -> (r: Self) {
        match self {
            RetreatCommand::Hold => RetreatCommand::Hold,
            RetreatCommand::Move(a) => RetreatCommand::Move(a.copy()),
        }
    }
}

/// The written form of a retreat command.
pub open spec fn retreat_command_text(c: RetreatCommand<RegionName>) -> Seq<char> {
    match c {
        RetreatCommand::Hold => "hold"@,
        RetreatCommand::Move(d) => "-> "@ + crate::geo::region_short_name(d),
    }
}

impl RetreatCommand<RegionKey> {
    /// Writes the command: `hold` or `-> region`.
    pub fn to_string(&self) -> (r: String)
        ensures
            r@ == retreat_command_text(self@),
    {
        match self {
            RetreatCommand::Hold => String::from_str("hold"),
            RetreatCommand::Move(d) => {
                let mut s = String::from_str("-> ");
                let t = d.short_name();
                s.append(t.as_str());
                s
            },
        }
    }
}

} // verus!
