//! Resolver for build phases.
pub mod adjudication;
pub mod disorder;
mod graph;
pub mod resolve;
pub mod rules;
pub mod submission;
pub mod world;

pub use self::rules::{adjudicate, current_owner, BuildOrderView, OrderOutcome};
pub use self::submission::{Outcome, Submission};
pub use self::world::{to_initial_ownerships, Board, Ownerships, WorldState};
