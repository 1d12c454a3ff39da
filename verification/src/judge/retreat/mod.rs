//! The retreat phase: which units were dislodged, where each may retreat, and the outcome of
//! retreat orders.
pub mod resolve;
mod start;

pub use self::resolve::{Context, OrderOutcome, Outcome};
pub use self::start::{DestStatus, Destinations, Start};
