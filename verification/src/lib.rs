//! An adjudicator for orders in the board game Diplomacy, with the rules of
//! adjudication stated as contracts and checked by Verus.
pub mod calendar;
pub mod geo;
pub mod judge;
mod lemmas;
pub mod nation;
pub mod order;
pub mod parser;
pub mod time;
pub mod unit;

use vstd::prelude::*;

pub use crate::calendar::{Calendar, Month};
pub use crate::nation::Nation;
pub use crate::order::{Command, Order};
pub use crate::time::{Phase, Season, Time};
pub use crate::unit::{Unit, UnitPosition, UnitPositions, UnitType};

verus! {

/// Short display names of game objects, as used in written orders.
pub trait ShortName {
    /// The short name as a sequence of characters.
    spec fn spec_short_name(&self) -> Seq<char>;

    /// Returns the short display name of the object.
    fn short_name(&self) -> (r: String)
        ensures
            r@ == self.spec_short_name(),
    ;
}

} // verus!
