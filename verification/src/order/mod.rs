//! Orders: a nation's instruction to one of its units, in each phase of a turn.
pub mod build_phase;
pub mod main_phase;
pub mod retreat_phase;

pub use self::build_phase::{BuildCommand, BuildOrder};
pub use self::main_phase::{
    main_command_text, ConvoyedMove, MainCommand, MainOrder, MainOrderView, MoveCommand,
    SupportedOrder,
};
pub use self::retreat_phase::{RetreatCommand, RetreatOrder, RetreatOrderView};

use crate::geo::{ProvinceKey, RegionKey, RegionName};
use crate::nation::Nation;
use crate::unit::{Unit, UnitPosition, UnitType};
use crate::ShortName;
use vstd::prelude::*;

verus! {

/// Values whose models can be compared and copied.
pub trait Model: View + Sized {
    /// Whether two values have the same model.
    fn same(&self, other: &Self) -> (r: bool)
        ensures
            r == (self@ == other@),
    ;

    /// Returns a value with the same model.
    fn copy(&self) -> (r: Self)
        ensures
            r@ == self@,
    ;
}

impl Model for RegionKey {
    fn same(&self, other: &Self) -> (r: bool) {
        RegionKey::same(self, other)
    }

    fn copy(&self) -> (r: Self) {
        RegionKey::copy(self)
    }
}

/// A command issued to a unit: whether, and where, it moves.
pub trait Command<L: View> {
    /// The model of the destination, for commands that move the unit.
    spec fn spec_move_dest(&self) -> Option<L::V>;

    /// The destination of the unit, for commands that move it.
    fn move_dest(&self) -> (r: Option<&L>)
        ensures
            match r {
                Some(d) => self.spec_move_dest() == Some(d@),
                None => self.spec_move_dest() is None,
            },
    ;

    /// Whether the command moves the unit.
    fn is_move(&self) -> (r: bool)
        ensures
            r == (self.spec_move_dest() is Some),
    ;
}

/// The model of an order: the nation by name, the unit type, and the models of the
/// unit's location and of the command.
pub struct OrderView<L, C> {
    pub nation: Seq<char>,
    pub unit_type: UnitType,
    pub region: L,
    pub command: C,
}

/// An order issued by a nation to one of its units in a given region.
#[derive(Debug, Clone, PartialEq, Eq, Hash, PartialOrd, Ord)]
pub struct Order<L, C> {
    /// The nation that issued the order.
    pub nation: Nation,
    /// The type of the unit ordered.
    pub unit_type: UnitType,
    /// The region where the ordered unit stands.
    pub region: L,
    /// What the unit is to do.
    pub command: C,
}

impl<L: View, C: View> View for Order<L, C> {
    type V = OrderView<L::V, C::V>;

    open spec fn view(&self) -> OrderView<L::V, C::V> {
        OrderView {
            nation: self.nation@,
            unit_type: self.unit_type,
            region: self.region@,
            command: self.command@,
        }
    }
}

impl<L, C> Order<L, C> {
    /// Creates a new order.
    pub fn new(nation: Nation, unit_type: UnitType, region: L, command: C) -> (r: Order<L, C>)
        ensures
            r.nation == nation,
            r.unit_type == unit_type,
            r.region == region,
            r.command == command,
    {
        Order { nation, unit_type, region, command }
    }

    /// Creates an order for the unit at a given position.
    pub fn new_from_position(position: UnitPosition<L>, command: C) -> (r: Order<L, C>)
        ensures
            r.nation@ == position.unit@.0,
            r.unit_type == position.unit@.1,
            r.region == position.region,
            r.command == command,
    {
        let UnitPosition { unit, region } = position;
        let nation = unit.nation().copy();
        let unit_type = unit.unit_type();
        Order { nation, unit_type, region, command }
    }
}

impl<L: View, C: Command<L>> Order<L, C> {
    /// Whether the order moves the unit.
    pub fn is_move(&self) -> (r: bool)
        ensures
            r == (self.command.spec_move_dest() is Some),
    {
        self.command.is_move()
    }

    /// The destination of the order, if it moves the unit.
    pub fn move_dest(&self) -> (r: Option<&L>)
        ensures
            match r {
                Some(d) => self.command.spec_move_dest() == Some(d@),
                None => self.command.spec_move_dest() is None,
            },
    {
        self.command.move_dest()
    }
}

impl<C: Command<RegionKey>> Order<RegionKey, C> {
    /// Whether the order moves the unit into the given province.
    pub fn is_move_to_province(&self, province: &ProvinceKey) -> (r: bool)
        ensures
            r == (self.command.spec_move_dest() matches Some(d) && d.0 == province@),
    {
        match self.command.move_dest() {
            Some(d) => d.in_province(province),
            None => false,
        }
    }

    /// The position of the ordered unit.
    pub fn unit_position(&self) -> (r: UnitPosition<RegionKey>)
        ensures
            r@ == ((self.nation@, self.unit_type), self.region@),
    {
        UnitPosition::new(Unit::new(self.nation.copy(), self.unit_type), self.region.copy())
    }

    /// The ordered unit.
    pub fn unit(&self) -> (r: Unit)
        ensures
            r@ == (self.nation@, self.unit_type),
    {
        Unit::new(self.nation.copy(), self.unit_type)
    }
}

impl<L: Model, C: Model> Model for Order<L, C> {
    fn same(&self, other: &Self) -> (r: bool) {
        self.nation.same(&other.nation) && self.unit_type == other.unit_type && self.region.same(
            &other.region,
        ) && self.command.same(&other.command)
    }

    fn copy(&self) -> (r: Self) {
        Order {
            nation: self.nation.copy(),
            unit_type: self.unit_type,
            region: self.region.copy(),
            command: self.command.copy(),
        }
    }
}

/// The written form of an order: `NATION: U region` followed by the command's text.
pub open spec fn order_text<L, C>(o: OrderView<L, C>, region_text: Seq<char>, command_text: Seq<
    char,
>) -> Seq<char> {
    o.nation + ": "@ + o.unit_type.spec_short_name() + " "@ + region_text + " "@ + command_text
}

/// Writes the `NATION: U region ` prefix shared by all orders.
pub fn order_prefix(nation: &Nation, unit_type: UnitType, region: &RegionKey) -> (r: String)
    ensures
        r@ == nation@ + ": "@ + unit_type.spec_short_name() + " "@ + region.spec_short_name()
            + " "@,
{
    let mut s = nation.short_name();
    s.append(": ");
    let u = unit_type.short_name();
    s.append(u.as_str());
    s.append(" ");
    let r = region.short_name();
    s.append(r.as_str());
    s.append(" ");
    s
}


impl MainOrder<RegionKey> {
    /// Writes the order, such as `GER: A ber -> sil`.
    pub fn to_string(&self) -> (r: String)
        ensures
            r@ == order_text(self@, self.region.spec_short_name(), main_command_text(self@.command)),
    {
        let mut s = order_prefix(&self.nation, self.unit_type, &self.region);
        let c = self.command.to_string();
        s.append(c.as_str());
        s
    }
}

impl RetreatOrder<RegionKey> {
    /// Writes the order, such as `AUS: A vie -> boh`.
    pub fn to_string(&self) -> (r: String)
        ensures
            r@ == order_text(
                self@,
                self.region.spec_short_name(),
                retreat_phase::retreat_command_text(self@.command),
            ),
    {
        let mut s = order_prefix(&self.nation, self.unit_type, &self.region);
        let c = self.command.to_string();
        s.append(c.as_str());
        s
    }
}

impl BuildOrder<RegionKey> {
    /// Writes the order, such as `GER: A ber build`.
    pub fn to_string(&self) -> (r: String)
        ensures
            r@ == order_text(
                self@,
                self.region.spec_short_name(),
                build_phase::build_command_text(self@.command),
            ),
    {
        let mut s = order_prefix(&self.nation, self.unit_type, &self.region);
        let c = self.command.to_string();
        s.append(c.as_str());
        s
    }
}

} // verus!
