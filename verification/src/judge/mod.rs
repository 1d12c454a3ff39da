//! Contains the logic needed to adjudicate a turn.
pub mod build;
pub mod calc;
pub mod convoy;
mod outcome;
mod outcome_types;
mod resolver;
pub mod retreat;
pub mod rulebook;
mod state_type;
mod strength;
pub mod submission;
pub mod support;

pub use self::convoy::ConvoyRouteError;
pub use self::outcome::{mismatches, Outcome};
pub use self::outcome_types::{
    AttackOutcome, ConvoyOutcome, HoldOutcome, IllegalOrder, OrderOutcome, SupportOutcome,
};
pub use self::resolver::{Context, ResolutionState, ResolverState, RESOLUTION_BUDGET};
pub use self::rulebook::{Adjudicate, ConvoyUsePolicy, Edition, Rulebook, WillUseConvoy};
pub use self::state_type::OrderState;
pub use self::strength::{Prevent, Strength};
pub use self::submission::Submission;

use crate::geo::RegionKey;
use crate::order::{BuildOrder, MainOrder, RetreatOrder};

use vstd::prelude::*;

verus! {

/// A main-phase order on the map's regions.
pub type MappedMainOrder = MainOrder<RegionKey>;
/// A build-phase order on the map's regions.
pub type MappedBuildOrder = BuildOrder<RegionKey>;
/// A retreat-phase order on the map's regions.
pub type MappedRetreatOrder = RetreatOrder<RegionKey>;

} // verus!
