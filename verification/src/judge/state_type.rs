use vstd::prelude::*;

verus! {

/// Whether an order succeeds or fails.
#[derive(Debug, Clone, Copy, PartialEq, Eq, Hash, Structural)]
pub enum OrderState {
    /// The order succeeds.
    Succeeds,
    /// The order fails.
    Fails,
}

impl OrderState {
    /// The state for a success flag.
    pub fn from_bool(b: bool) -> (r: OrderState)
        ensures
            (r == OrderState::Succeeds) == b,
    {
        if b {
            OrderState::Succeeds
        } else {
            OrderState::Fails
        }
    }

    /// Whether the state is success.
    pub fn is_success(self) -> (r: bool)
        ensures
            r == (self == OrderState::Succeeds),
    {
        self == OrderState::Succeeds
    }
}

impl From<OrderState> for bool {
    fn from(state: OrderState) -> (r: bool) {
        state == OrderState::Succeeds
    }
}

impl vstd::std_specs::convert::FromSpecImpl<OrderState> for bool {
    open spec fn obeys_from_spec() -> bool {
        true
    }

    open spec fn from_spec(state: OrderState) -> bool {
        state == OrderState::Succeeds
    }
}

} // verus!
