use super::{Command, Model, Order};
use crate::geo::RegionKey;
use vstd::prelude::*;

verus! {

/// A command issued during the build phase.
#[derive(Debug, Clone, Copy, PartialEq, Eq, Hash, PartialOrd, Ord, Structural)]
pub enum BuildCommand {
    /// Create a new unit in the region.
    Build,
    /// Remove the unit in the region.
    Disband,
}

/// An order of the build phase.
pub type BuildOrder<L> = Order<L, BuildCommand>;

impl View for BuildCommand {
    type V = BuildCommand;

    open spec fn view(&self) -> BuildCommand {
        *self
    }
}

impl Model for BuildCommand {
    fn same(&self, other: &Self) -> (r: bool) {
        *self == *other
    }

    fn copy(&self) -> (r: Self) {
        *self
    }
}

impl Command<RegionKey> for BuildCommand {
    open spec fn spec_move_dest(&self) -> Option<<RegionKey as View>::V> {
        None
    }

    fn move_dest(&self) -> (r: Option<&RegionKey>) {
        None
    }

    fn is_move(&self) -> (r: bool) {
        false
    }
}

/// The written form of a build command.
pub open spec fn build_command_text(c: BuildCommand) -> Seq<char> {
    match c {
        BuildCommand::Build => "build"@,
        BuildCommand::Disband => "disband"@,
    }
}

impl BuildCommand {
    /// Writes the command: `build` or `disband`.
    pub fn to_string(&self) -> (r: String)
        ensures
            r@ == build_command_text(*self),
    {
        match self {
            BuildCommand::Build => String::from_str("build"),
            BuildCommand::Disband => String::from_str("disband"),
        }
    }
}

} // verus!
