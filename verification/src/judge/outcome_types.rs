use super::state_type::OrderState;
use vstd::prelude::*;

verus! {

/// The outcome of a main-phase hold order.
#[derive(Debug, Clone, Copy, PartialEq, Eq)]
pub enum HoldOutcome<O> {
    /// The unit remains in its current region
    Succeeds,
    /// The unit is dislodged by the specified order
    Dislodged(O),
}

impl<O> HoldOutcome<O> {
    /// Whether `r` is this outcome with each order it refers to mapped by `f`.
    pub open spec fn spec_mapped<U, F: Fn(O) -> U>(self, f: F, r: HoldOutcome<U>) -> bool {
        match self {
            HoldOutcome::Succeeds => r is Succeeds,
            HoldOutcome::Dislodged(o) => r matches HoldOutcome::Dislodged(u) && f.ensures(
                (o,),
                u,
            ),
        }
    }

    /// Apply a function to any orders referenced by `self`, returning a new outcome.
    pub fn map_order<U>(self, map_fn: impl Fn(O) -> U) -> (r: HoldOutcome<U>)
        requires
            forall|o: O| map_fn.requires((o,)),
        ensures
            self.spec_mapped(map_fn, r),
    {
        match self {
            HoldOutcome::Succeeds => HoldOutcome::Succeeds,
            HoldOutcome::Dislodged(o) => HoldOutcome::Dislodged(map_fn(o)),
        }
    }

    /// Whether the hold succeeded.
    pub open spec fn spec_state(&self) -> OrderState {
        if self is Succeeds {
            OrderState::Succeeds
        } else {
            OrderState::Fails
        }
    }

    /// Whether the hold succeeded.
    pub fn state(&self) -> (r: OrderState)
        ensures
            r == self.spec_state(),
    {
        match self {
            HoldOutcome::Succeeds => OrderState::Succeeds,
            _ => OrderState::Fails,
        }
    }
}

/// The outcome of a main-phase move order.
#[derive(Debug, Clone, Copy, PartialEq, Eq)]
pub enum AttackOutcome<O> {
    /// The order was a move to the unit's current location.
    MoveToSelf,
    /// There was no way for the unit to reach the specified destination.
    ///
    /// This usually indicates that a convoy was possible but either disrupted
    /// or not ordered, as routes where there is no possibility of a path are
    /// instead deemed illegal.
    NoPath,
    /// The unit tried to move into a province occupied by another unit of the
    /// same nation.
    FriendlyFire,
    /// The unit was prevented from entering the province by the specified order.
    Prevented(O),
    /// The intended victim of the attack instead dislodged the attacker and did not use a convoy.
    ///
    /// A unit that loses a head-to-head battle is dislodged, cannot retreat to the province from
    /// which it was attacked, and has no strength to prevent other units from occupying that
    /// province.
    LostHeadToHead,
    /// The intended victim of the attack fended off the attacker, possibly with support from
    /// other units.
    OccupierDefended,
    /// The unit successfully moved to its destination.
    Succeeds,
}

impl<O> AttackOutcome<O> {
    /// Whether `r` is this outcome with each order it refers to mapped by `f`.
    pub open spec fn spec_mapped<U, F: Fn(O) -> U>(self, f: F, r: AttackOutcome<U>) -> bool {
        match self {
            AttackOutcome::MoveToSelf => r is MoveToSelf,
            AttackOutcome::NoPath => r is NoPath,
            AttackOutcome::FriendlyFire => r is FriendlyFire,
            AttackOutcome::Prevented(o) => r matches AttackOutcome::Prevented(u)
                && f.ensures((o,), u),
            AttackOutcome::LostHeadToHead => r is LostHeadToHead,
            AttackOutcome::OccupierDefended => r is OccupierDefended,
            AttackOutcome::Succeeds => r is Succeeds,
        }
    }

    /// Apply a function to any orders referenced by `self`, returning a new outcome.
    pub fn map_order<U>(self, map_fn: impl Fn(O) -> U) -> (r: AttackOutcome<U>)
        requires
            forall|o: O| map_fn.requires((o,)),
        ensures
            self.spec_mapped(map_fn, r),
    {
        match self {
            AttackOutcome::MoveToSelf => AttackOutcome::MoveToSelf,
            AttackOutcome::NoPath => AttackOutcome::NoPath,
            AttackOutcome::FriendlyFire => AttackOutcome::FriendlyFire,
            AttackOutcome::Prevented(p) => AttackOutcome::Prevented(map_fn(p)),
            AttackOutcome::LostHeadToHead => AttackOutcome::LostHeadToHead,
            AttackOutcome::OccupierDefended => AttackOutcome::OccupierDefended,
            AttackOutcome::Succeeds => AttackOutcome::Succeeds,
        }
    }

    /// Whether the move succeeded.
    pub open spec fn spec_state(&self) -> OrderState {
        if self is Succeeds {
            OrderState::Succeeds
        } else {
            OrderState::Fails
        }
    }

    /// Whether the move succeeded.
    pub fn state(&self) -> (r: OrderState)
        ensures
            r == self.spec_state(),
    {
        match self {
            AttackOutcome::Succeeds => OrderState::Succeeds,
            _ => OrderState::Fails,
        }
    }
}

/// The outcome of a support order.
#[derive(Debug, Clone, Copy, PartialEq, Eq)]
pub enum SupportOutcome<O> {
    /// The support was given.
    NotDisrupted,
    /// The unit was ordered to support itself holding.
    SupportingSelf,
    /// The support order can't reach the province where assistance is required.
    ///
    /// Support cannot be convoyed, so reachability is a simple border check.
    CantReach,
    /// The support was cut by the specified order.
    CutBy(O),
}

impl<O> SupportOutcome<O> {
    /// Whether the support was given.
    pub fn is_successful(&self) -> (r: bool)
        ensures
            r == (self is NotDisrupted),
    {
        match self {
            SupportOutcome::NotDisrupted => true,
            _ => false,
        }
    }

    /// Whether `r` is this outcome with each order it refers to mapped by `f`.
    pub open spec fn spec_mapped<U, F: Fn(O) -> U>(self, f: F, r: SupportOutcome<U>) -> bool {
        match self {
            SupportOutcome::NotDisrupted => r is NotDisrupted,
            SupportOutcome::SupportingSelf => r is SupportingSelf,
            SupportOutcome::CantReach => r is CantReach,
            SupportOutcome::CutBy(o) => r matches SupportOutcome::CutBy(u) && f.ensures(
                (o,),
                u,
            ),
        }
    }

    /// Apply a function to any orders referenced by `self`, returning a new outcome.
    pub fn map_order<U>(self, map_fn: impl Fn(O) -> U) -> (r: SupportOutcome<U>)
        requires
            forall|o: O| map_fn.requires((o,)),
        ensures
            self.spec_mapped(map_fn, r),
    {
        match self {
            SupportOutcome::NotDisrupted => SupportOutcome::NotDisrupted,
            SupportOutcome::SupportingSelf => SupportOutcome::SupportingSelf,
            SupportOutcome::CantReach => SupportOutcome::CantReach,
            SupportOutcome::CutBy(atk) => SupportOutcome::CutBy(map_fn(atk)),
        }
    }

    /// Whether the support was given.
    pub open spec fn spec_state(&self) -> OrderState {
        if self is NotDisrupted {
            OrderState::Succeeds
        } else {
            OrderState::Fails
        }
    }

    /// Whether the support was given.
    pub fn state(&self) -> (r: OrderState)
        ensures
            r == self.spec_state(),
    {
        match self {
            SupportOutcome::NotDisrupted => OrderState::Succeeds,
            _ => OrderState::Fails,
        }
    }
}

/// The outcome of a convoy order.
#[derive(Debug, Clone, Copy, PartialEq, Eq)]
pub enum ConvoyOutcome<O> {
    /// The convoy order is invalid because the convoying unit is not at sea.
    NotAtSea,
    /// The convoying unit was dislodged by another move
    Dislodged(O),
    /// The convoy was failed to resolve a paradox
    Paradox,
    /// The convoy was not disrupted. This doesn't mean the move necessarily succeeded.
    NotDisrupted,
}

impl<O> ConvoyOutcome<O> {
    /// Whether `r` is this outcome with each order it refers to mapped by `f`.
    pub open spec fn spec_mapped<U, F: Fn(O) -> U>(self, f: F, r: ConvoyOutcome<U>) -> bool {
        match self {
            ConvoyOutcome::NotAtSea => r is NotAtSea,
            ConvoyOutcome::Dislodged(o) => r matches ConvoyOutcome::Dislodged(u)
                && f.ensures((o,), u),
            ConvoyOutcome::Paradox => r is Paradox,
            ConvoyOutcome::NotDisrupted => r is NotDisrupted,
        }
    }

    /// Apply a function to any orders referenced by `self`, returning a new outcome.
    pub fn map_order<U>(self, map_fn: impl Fn(O) -> U) -> (r: ConvoyOutcome<U>)
        requires
            forall|o: O| map_fn.requires((o,)),
        ensures
            self.spec_mapped(map_fn, r),
    {
        match self {
            ConvoyOutcome::NotAtSea => ConvoyOutcome::NotAtSea,
            ConvoyOutcome::Dislodged(by) => ConvoyOutcome::Dislodged(map_fn(by)),
            ConvoyOutcome::Paradox => ConvoyOutcome::Paradox,
            ConvoyOutcome::NotDisrupted => ConvoyOutcome::NotDisrupted,
        }
    }

    /// Whether the convoy held.
    pub open spec fn spec_state(&self) -> OrderState {
        if self is NotDisrupted {
            OrderState::Succeeds
        } else {
            OrderState::Fails
        }
    }

    /// Whether the convoy held.
    pub fn state(&self) -> (r: OrderState)
        ensures
            r == self.spec_state(),
    {
        match self {
            ConvoyOutcome::NotDisrupted => OrderState::Succeeds,
            _ => OrderState::Fails,
        }
    }
}

/// Outcome for an order that was illegal and not considered during adjudication.
#[derive(Debug, Copy, Clone, PartialEq, Eq, Structural)]
pub enum IllegalOrder {
    /// There is no unit in position to act on the order.
    NoUnit,
    /// There is a unit in the region to which the order is addressed, but it belongs to a nation
    /// other than the order issuer.
    ForeignUnit,
    /// The owning nation issued multiple orders to the same unit, and this order was discarded
    /// as a result.
    MultipleToSameUnit,
    /// There is no path for the unit to follow, even assuming all existing fleets are ordered
    /// to convoy the unit from its current location to its destination.
    UnreachableDestination,
}

/// The outcome of a specific order. The variant of the outcome will match the issued order
/// type.
#[derive(Debug, Clone, Copy, PartialEq, Eq)]
pub enum OrderOutcome<O> {
    Illegal(IllegalOrder),
    Hold(HoldOutcome<O>),
    Move(AttackOutcome<O>),
    Support(SupportOutcome<O>),
    Convoy(ConvoyOutcome<O>),
}

impl<O> OrderOutcome<O> {
    /// Apply a function to any orders referenced by `self`, returning a new outcome.
    pub fn map_order<U>(self, map_fn: impl Fn(O) -> U) -> (r: OrderOutcome<U>)
        requires
            forall|o: O| map_fn.requires((o,)),
        ensures
            r.spec_state() == self.spec_state(),
            match self {
                OrderOutcome::Illegal(i) => r == OrderOutcome::<U>::Illegal(i),
                OrderOutcome::Hold(h) => r matches OrderOutcome::Hold(x) && h.spec_mapped(map_fn, x),
                OrderOutcome::Move(a) => r matches OrderOutcome::Move(x) && a.spec_mapped(map_fn, x),
                OrderOutcome::Support(su) => r matches OrderOutcome::Support(x) && su.spec_mapped(map_fn, x),
                OrderOutcome::Convoy(c) => r matches OrderOutcome::Convoy(x) && c.spec_mapped(map_fn, x),
            },
    {
        match self {
            OrderOutcome::Illegal(oo) => OrderOutcome::Illegal(oo),
            OrderOutcome::Hold(oo) => OrderOutcome::Hold(oo.map_order(map_fn)),
            OrderOutcome::Move(oo) => OrderOutcome::Move(oo.map_order(map_fn)),
            OrderOutcome::Support(oo) => OrderOutcome::Support(oo.map_order(map_fn)),
            OrderOutcome::Convoy(oo) => OrderOutcome::Convoy(oo.map_order(map_fn)),
        }
    }

    /// Whether the order succeeded: illegal orders fail, and the others succeed as their
    /// phase-specific outcome says.
    pub open spec fn spec_state(&self) -> OrderState {
        match self {
            OrderOutcome::Illegal(_) => OrderState::Fails,
            OrderOutcome::Hold(h) => h.spec_state(),
            OrderOutcome::Move(m) => m.spec_state(),
            OrderOutcome::Support(s) => s.spec_state(),
            OrderOutcome::Convoy(c) => c.spec_state(),
        }
    }

    /// Whether the order succeeded.
    pub fn state(&self) -> (r: OrderState)
        ensures
            r == self.spec_state(),
    {
        match self {
            OrderOutcome::Illegal(_) => OrderState::Fails,
            OrderOutcome::Hold(h) => h.state(),
            OrderOutcome::Move(m) => m.state(),
            OrderOutcome::Support(s) => s.state(),
            OrderOutcome::Convoy(c) => c.state(),
        }
    }
}

impl<'a, O> From<&'a OrderOutcome<O>> for OrderState {
    fn from(outcome: &'a OrderOutcome<O>) -> (r: OrderState) {
        outcome.state()
    }
}

impl<'a, O> vstd::std_specs::convert::FromSpecImpl<&'a OrderOutcome<O>> for OrderState {
    open spec fn obeys_from_spec() -> bool {
        true
    }

    open spec fn from_spec(outcome: &'a OrderOutcome<O>) -> OrderState {
        outcome.spec_state()
    }
}

} // verus!
