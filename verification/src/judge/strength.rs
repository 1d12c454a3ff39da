use vstd::prelude::*;

verus! {

/// Compute the strength of an action from its result.
pub trait Strength {
    /// The model of the strength.
    spec fn spec_strength(&self) -> nat;

    /// Compute the strength of an action from its result.
    fn strength(&self) -> (r: usize)
        requires
            self.spec_strength() <= usize::MAX,
        ensures
            r == self.spec_strength(),
    ;
}

/// The intermediate state for a prevent strength calculation. Prevent strength
/// determines how much force is applied to stop any other units from entering the
/// destination province.
#[derive(Debug, Clone, PartialEq, Eq)]
pub enum Prevent<O> {
    /// The preventing unit cannot reach its destination.
    NoPath,
    /// The order lost a head-to-head battle. It cannot prevent others from
    /// entering its destination.
    LostHeadToHead,
    /// The order attempts to prevent others from moving to the destination province with support.
    Prevents(O, Vec<O>),
}

impl<O: Copy> Prevent<O> {
    /// The preventing order.
    pub fn unwrap_order(&self) -> (r: O)
        requires
            self is Prevents,
        ensures
            self matches Prevent::Prevents(o, _) && r == o,
    {
        match self {
            Prevent::Prevents(o, _) => *o,
            _ => {
                proof {
                    assert(false);
                }
                unreached()
            },
        }
    }
}

impl<O> Strength for Prevent<O> {
    open spec fn spec_strength(&self) -> nat {
        match self {
            Prevent::NoPath | Prevent::LostHeadToHead => 0,
            Prevent::Prevents(_, sup) => 1 + sup@.len(),
        }
    }

    fn strength(&self) -> (r: usize) {
        match self {
            Prevent::NoPath | Prevent::LostHeadToHead => 0,
            Prevent::Prevents(_, sup) => 1 + sup.len(),
        }
    }
}

impl<T: Strength> Strength for Option<T> {
    open spec fn spec_strength(&self) -> nat {
        match self {
            Some(t) => t.spec_strength(),
            None => 0,
        }
    }

    fn strength(&self) -> (r: usize) {
        match self {
            Some(t) => t.strength(),
            None => 0,
        }
    }
}

} // verus!
