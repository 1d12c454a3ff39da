use crate::ShortName;
use vstd::prelude::*;

verus! {

/// An actor in the game. Nations can own units and issue orders.
#[derive(Debug, Clone, PartialEq, Eq, Hash, PartialOrd, Ord)]
pub struct Nation(String);

impl View for Nation {
    type V = Seq<char>;

    closed spec fn view(&self) -> Seq<char> {
        self.0@
    }
}

impl Nation {
    /// Creates a nation from its name.
    pub fn from(s: &str) -> (r: Nation)
        ensures
            r@ == s@,
    {
        Nation(String::from_str(s))
    }

    /// Creates a nation from an owned name.
    pub fn from_string(s: String) -> (r: Nation)
        ensures
            r@ == s@,
    {
        Nation(s)
    }

    /// Compares two nations by name.
    pub fn same(&self, other: &Nation) -> (r: bool)
        ensures
            r == (self@ == other@),
    {
        self.0 == other.0
    }

    /// Returns a copy with the same name.
    pub fn copy(&self) -> (r: Nation)
        ensures
            r@ == self@,
    {
        Nation(self.0.clone())
    }
}

impl ShortName for Nation {
    open spec fn spec_short_name(&self) -> Seq<char> {
        self@
    }

    fn short_name(&self) -> (r: String) {
        self.0.clone()
    }
}

} // verus!
