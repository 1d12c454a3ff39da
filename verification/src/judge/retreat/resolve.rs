//! The outcome of retreat orders.
use super::start::{lookup_status, DestStatus, Start};
use crate::geo::region::{lemma_region_lt_order, region_lt};
use crate::geo::RegionName;
use crate::judge::state_type::OrderState;
use crate::judge::MappedRetreatOrder;
use crate::lemmas::first_index;
use crate::order::{Model, RetreatCommand, RetreatOrderView};
use crate::unit::UnitPositionView;
use vstd::prelude::*;

verus! {

/// The outcome of a retreat-phase order.
#[derive(Debug, Clone, Copy, PartialEq, Eq)]
pub enum OrderOutcome<O> {
    /// The unit retreats to its destination.
    Moves,
    /// The unit was ordered to hold, and disbands.
    Disbands,
    /// The order is addressed to a unit that was not dislodged.
    InvalidRecipient,
    /// The destination cannot take the retreating unit, for the given reason.
    InvalidDestination(DestStatus),
    /// Another retreat to the same province prevents the move; both units disband.
    Prevented(O),
}

impl<O> OrderOutcome<O> {
    /// Whether the order succeeded.
    pub open spec fn spec_state(&self) -> OrderState {
        match self {
            OrderOutcome::Moves | OrderOutcome::Disbands => OrderState::Succeeds,
            _ => OrderState::Fails,
        }
    }

    /// Whether the order succeeded.
    pub fn state(&self) -> (r: OrderState)
        ensures
            r == self.spec_state(),
    {
        match self {
            OrderOutcome::Moves | OrderOutcome::Disbands => OrderState::Succeeds,
            _ => OrderState::Fails,
        }
    }

    /// Apply a function to any orders referenced by `self`, returning a new outcome.
    pub fn map_order<U>(self, map_fn: impl Fn(O) -> U) -> (r: OrderOutcome<U>)
        requires
            forall|o: O| map_fn.requires((o,)),
        ensures
            r.spec_state() == self.spec_state(),
            match self {
                OrderOutcome::Moves => r is Moves,
                OrderOutcome::Disbands => r is Disbands,
                OrderOutcome::InvalidRecipient => r is InvalidRecipient,
                OrderOutcome::InvalidDestination(s) => r == OrderOutcome::<U>::InvalidDestination(s),
                OrderOutcome::Prevented(o) => r matches OrderOutcome::Prevented(u) && map_fn.ensures((o,), u),
            },
    {
        match self {
            OrderOutcome::Moves => OrderOutcome::Moves,
            OrderOutcome::Disbands => OrderOutcome::Disbands,
            OrderOutcome::InvalidRecipient => OrderOutcome::InvalidRecipient,
            OrderOutcome::InvalidDestination(s) => OrderOutcome::InvalidDestination(s),
            OrderOutcome::Prevented(o) => OrderOutcome::Prevented(map_fn(o)),
        }
    }
}

impl<'a, O> From<&'a OrderOutcome<O>> for OrderState {
    fn from(outcome: &'a OrderOutcome<O>) -> (r: OrderState) {
        outcome.state()
    }
}

impl<'a, O> vstd::std_specs::convert::FromSpecImpl<&'a OrderOutcome<O>> for OrderState {
    open spec fn obeys_from_spec() -> bool {
        true
    }

    open spec fn from_spec(outcome: &'a OrderOutcome<O>) -> OrderState {
        outcome.spec_state()
    }
}

/// The position of the dislodged unit a retreat order is addressed to, if any.
pub open spec fn recipient(
    dests: Seq<(UnitPositionView, Seq<(RegionName, DestStatus)>)>,
    o: RetreatOrderView,
) -> Option<int> {
    first_index(
        dests,
        |e: (UnitPositionView, Seq<(RegionName, DestStatus)>)| e.0 == ((o.nation, o.unit_type), o.region),
    )
}

/// The status of a retreat order's destination, for a move to a dislodged unit.
#[verifier::opaque]
pub open spec fn retreat_status(
    dests: Seq<(UnitPositionView, Seq<(RegionName, DestStatus)>)>,
    o: RetreatOrderView,
) -> Option<DestStatus> {
    match recipient(dests, o) {
        Some(j) => match o.command {
            RetreatCommand::Move(dst) => Some(lookup_status(dests[j].1, dst)),
            RetreatCommand::Hold => None,
        },
        None => None,
    }
}

/// Whether the order at `c` is a valid retreat into the province the order at `i` retreats to.
pub open spec fn competes(
    dests: Seq<(UnitPositionView, Seq<(RegionName, DestStatus)>)>,
    orders: Seq<RetreatOrderView>,
    i: int,
    c: int,
) -> bool {
    &&& 0 <= c < orders.len()
    &&& c != i
    &&& retreat_status(dests, orders[c]) == Some(DestStatus::Available)
    &&& orders[c].command matches RetreatCommand::Move(dc)
    &&& orders[i].command matches RetreatCommand::Move(di)
    &&& dc.0 == di.0
}

/// The outcome of the retreat order at `i`:
/// - an order to a unit that was not dislodged is an invalid recipient;
/// - a hold disbands the unit;
/// - a move to a destination that is not available fails with the destination's status;
/// - a move that competes with other valid retreats into the same province is prevented by one
///   of them whose region comes first;
/// - any other move succeeds.
pub open spec fn spec_retreat_outcome(
    dests: Seq<(UnitPositionView, Seq<(RegionName, DestStatus)>)>,
    orders: Seq<RetreatOrderView>,
    i: int,
    oc: OrderOutcome<usize>,
) -> bool {
    match recipient(dests, orders[i]) {
        None => oc == OrderOutcome::<usize>::InvalidRecipient,
        Some(j) => match orders[i].command {
            RetreatCommand::Hold => oc == OrderOutcome::<usize>::Disbands,
            RetreatCommand::Move(dst) => {
                let st = lookup_status(dests[j].1, dst);
                if st != DestStatus::Available {
                    oc == OrderOutcome::<usize>::InvalidDestination(st)
                } else if exists|c: int| #[trigger] competes(dests, orders, i, c) {
                    &&& oc matches OrderOutcome::Prevented(p)
                    &&& competes(dests, orders, i, p as int)
                    &&& forall|c: int|
                        #[trigger] competes(dests, orders, i, c) ==> !region_lt(
                            orders[c].region,
                            orders[p as int].region,
                        )
                } else {
                    oc == OrderOutcome::<usize>::Moves
                }
            },
        },
    }
}

/// Two valid retreats into one province both fail: a retreat that another valid retreat
/// competes with never moves.
pub proof fn lemma_contested_retreat_fails(
    dests: Seq<(UnitPositionView, Seq<(RegionName, DestStatus)>)>,
    orders: Seq<RetreatOrderView>,
    i: int,
    c: int,
    oc: OrderOutcome<usize>,
)
    requires
        spec_retreat_outcome(dests, orders, i, oc),
        competes(dests, orders, i, c),
    ensures
        oc !is Moves,
        oc.spec_state() == OrderState::Fails,
{
}

/// The retreat orders submitted for a retreat phase.
pub struct Context<'a> {
    start: &'a Start<'a>,
    orders: Vec<MappedRetreatOrder>,
}

impl<'a> Context<'a> {
    /// The start of the retreat phase.
    pub closed spec fn spec_start(&self) -> &'a Start<'a> {
        self.start
    }

    /// The models of the orders, in the order they were submitted.
    pub closed spec fn spec_orders(&self) -> Seq<RetreatOrderView> {
        self.orders@.map_values(|o: MappedRetreatOrder| o@)
    }

    /// Creates a retreat context for the given orders.
    pub fn new(start: &'a Start<'a>, orders: Vec<MappedRetreatOrder>) -> (r: Context<'a>)
        ensures
            r.spec_start() == start,
            r.spec_orders() == orders@.map_values(|o: MappedRetreatOrder| o@),
    {
        Context { start, orders }
    }

    /// The status of the order's destination, if it is a move to a dislodged unit.
    fn status(&self, i: usize) -> (r: Option<DestStatus>)
        requires
            self.spec_start().wf(),
            i < self.spec_orders().len(),
        ensures
            r == retreat_status(self.spec_start().spec_destinations(), self.spec_orders()[i as int]),
    {
        let o = &self.orders[i];
        assert(self.spec_orders()[i as int] == o@);
        proof {
            reveal(retreat_status);
        }
        match self.start.find_recipient(o.unit_type, &o.nation, &o.region) {
            Some(j) => {
                proof {
                    crate::lemmas::lemma_first_index_props(
                        self.spec_start().spec_destinations(),
                        |e: (UnitPositionView, Seq<(RegionName, DestStatus)>)| e.0 == ((o@.nation, o@.unit_type), o@.region),
                    );
                }
                match &o.command {
                    RetreatCommand::Move(dst) => Some(self.start.status_of(j, dst)),
                    RetreatCommand::Hold => None,
                }
            },
            None => None,
        }
    }

    /// Resolve the retreat orders.
    pub fn resolve(&self) -> (r: Outcome)
        requires
            self.spec_start().wf(),
        ensures
            r.spec_orders() == self.spec_orders(),
            r.spec_outcomes().len() == self.spec_orders().len(),
            forall|i: int|
                0 <= i < self.spec_orders().len() ==> spec_retreat_outcome(
                    self.spec_start().spec_destinations(),
                    self.spec_orders(),
                    i,
                    #[trigger] r.spec_outcomes()[i],
                ),
    {
        let ghost dests = self.spec_start().spec_destinations();
        let ghost orders = self.spec_orders();
        let n = self.orders.len();
        let mut statuses: Vec<Option<DestStatus>> = Vec::new();
        let mut i: usize = 0;
        while i < n
            invariant
                i <= n,
                n == orders.len(),
                dests == self.spec_start().spec_destinations(),
                orders == self.spec_orders(),
                self.spec_start().wf(),
                statuses@.len() == i,
                forall|k: int| 0 <= k < i ==> #[trigger] statuses@[k] == retreat_status(dests, orders[k]),
            decreases n - i,
        {
            statuses.push(self.status(i));
            i = i + 1;
        }
        let mut outcomes: Vec<OrderOutcome<usize>> = Vec::new();
        let mut i: usize = 0;
        while i < n
            invariant
                i <= n,
                n == orders.len(),
                n == self.orders@.len(),
                dests == self.spec_start().spec_destinations(),
                orders == self.spec_orders(),
                self.spec_start().wf(),
                statuses@.len() == n,
                forall|k: int| 0 <= k < n ==> #[trigger] statuses@[k] == retreat_status(dests, orders[k]),
                outcomes@.len() == i,
                forall|k: int|
                    0 <= k < i ==> spec_retreat_outcome(dests, orders, k, #[trigger] outcomes@[k]),
            decreases n - i,
        {
            let oc = self.outcome_of(&statuses, i);
            outcomes.push(oc);
            i = i + 1;
        }
        let mut copied: Vec<MappedRetreatOrder> = Vec::new();
        let mut k: usize = 0;
        while k < n
            invariant
                k <= n,
                n == self.orders@.len(),
                copied@.len() == k,
                forall|j: int| 0 <= j < k ==> #[trigger] copied@[j]@ == self.orders@[j]@,
            decreases n - k,
        {
            copied.push(self.orders[k].copy());
            k = k + 1;
        }
        proof {
            assert(copied@.map_values(|o: MappedRetreatOrder| o@) =~= self.spec_orders());
        }
        Outcome { orders: copied, outcomes }
    }

    /// The outcome of the order at `i`, given the statuses of all orders.
    fn outcome_of(&self, statuses: &Vec<Option<DestStatus>>, i: usize) -> (r: OrderOutcome<usize>)
        requires
            self.spec_start().wf(),
            i < self.spec_orders().len(),
            statuses@.len() == self.spec_orders().len(),
            forall|k: int|
                0 <= k < self.spec_orders().len() ==> #[trigger] statuses@[k] == retreat_status(
                    self.spec_start().spec_destinations(),
                    self.spec_orders()[k],
                ),
        ensures
            spec_retreat_outcome(
                self.spec_start().spec_destinations(),
                self.spec_orders(),
                i as int,
                r,
            ),
    {
        let ghost dests = self.spec_start().spec_destinations();
        let ghost orders = self.spec_orders();
        let o = &self.orders[i];
        assert(orders[i as int] == o@);
        proof {
            reveal(retreat_status);
        }
        let found = self.start.find_recipient(o.unit_type, &o.nation, &o.region);
        if found.is_none() {
            return OrderOutcome::InvalidRecipient;
        }
        let dst = match &o.command {
            RetreatCommand::Hold => {
                return OrderOutcome::Disbands;
            },
            RetreatCommand::Move(dst) => dst,
        };
        let st = match statuses[i] {
            Some(s) => s,
            None => {
                return OrderOutcome::InvalidRecipient;
            },
        };
        if st != DestStatus::Available {
            return OrderOutcome::InvalidDestination(st);
        }
        // Among the other valid retreats into the same province, the one whose region comes
        // first prevents this one.
        let n = self.orders.len();
        let mut best: Option<usize> = None;
        let mut c: usize = 0;
        while c < n
            invariant
                c <= n,
                n == orders.len(),
                n == self.orders@.len(),
                i < n,
                orders == self.spec_orders(),
                dests == self.spec_start().spec_destinations(),
                orders[i as int].command == RetreatCommand::Move(dst@),
                statuses@.len() == n,
                forall|k: int| 0 <= k < n ==> #[trigger] statuses@[k] == retreat_status(dests, orders[k]),
                match best {
                    Some(p) => p < c && competes(dests, orders, i as int, p as int) && forall|k: int|
                        0 <= k < c && #[trigger] competes(dests, orders, i as int, k) ==> !region_lt(
                            orders[k].region,
                            orders[p as int].region,
                        ),
                    None => forall|k: int| 0 <= k < c ==> !#[trigger] competes(dests, orders, i as int, k),
                },
            decreases n - c,
        {
            let other = &self.orders[c];
            assert(orders[c as int] == other@);
            let valid = c != i && match statuses[c] {
                Some(s) => s == DestStatus::Available,
                None => false,
            };
            let same_province = match &other.command {
                RetreatCommand::Move(odst) => odst.same_province(dst),
                RetreatCommand::Hold => false,
            };
            if valid && same_province {
                assert(competes(dests, orders, i as int, c as int));
                match best {
                    Some(p) => {
                        assert(orders[p as int] == self.orders@[p as int]@);
                        if other.region.precedes(&self.orders[p].region) {
                            proof {
                                assert forall|k: int|
                                    0 <= k < c + 1 && #[trigger] competes(dests, orders, i as int, k) implies !region_lt(
                                    orders[k].region,
                                    orders[c as int].region,
                                ) by {
                                    lemma_region_lt_order(orders[k].region, orders[c as int].region, orders[p as int].region);
                                }
                            }
                            best = Some(c);
                        }
                    },
                    None => {
                        proof {
                            lemma_region_lt_order(orders[c as int].region, orders[c as int].region, orders[c as int].region);
                        }
                        best = Some(c);
                    },
                }
            }
            c = c + 1;
        }
        match best {
            Some(p) => OrderOutcome::Prevented(p),
            None => OrderOutcome::Moves,
        }
    }
}

/// The outcome of a retreat phase.
pub struct Outcome {
    orders: Vec<MappedRetreatOrder>,
    outcomes: Vec<OrderOutcome<usize>>,
}

impl Outcome {
    /// The models of the orders, in the order they were submitted.
    pub closed spec fn spec_orders(&self) -> Seq<RetreatOrderView> {
        self.orders@.map_values(|o: MappedRetreatOrder| o@)
    }

    /// The outcome of each order.
    pub closed spec fn spec_outcomes(&self) -> Seq<OrderOutcome<usize>> {
        self.outcomes@
    }

    /// The orders, in the order they were submitted.
    pub fn orders(&self) -> (r: &Vec<MappedRetreatOrder>)
        ensures
            r@.map_values(|o: MappedRetreatOrder| o@) == self.spec_orders(),
    {
        &self.orders
    }

    /// The outcome of the first order equal to `order`, if it was submitted. An outcome that
    /// names another order gives its position in [`Outcome::orders`].
    pub fn get(&self, order: &MappedRetreatOrder) -> (r: Option<OrderOutcome<usize>>)
        requires
            self.spec_outcomes().len() == self.spec_orders().len(),
        ensures
            match r {
                Some(oc) => exists|i: int|
                    0 <= i < self.spec_orders().len() && self.spec_orders()[i] == order@ && oc
                        == self.spec_outcomes()[i] && forall|j: int|
                        0 <= j < i ==> self.spec_orders()[j] != order@,
                None => forall|i: int| 0 <= i < self.spec_orders().len() ==> self.spec_orders()[i] != order@,
            },
    {
        let mut i: usize = 0;
        while i < self.orders.len()
            invariant
                i <= self.orders@.len(),
                self.spec_outcomes().len() == self.spec_orders().len(),
                forall|j: int| 0 <= j < i ==> self.spec_orders()[j] != order@,
            decreases self.orders@.len() - i,
        {
            if self.orders[i].same(order) {
                assert(self.spec_orders()[i as int] == order@);
                return Some(self.outcomes[i]);
            }
            i = i + 1;
        }
        None
    }

    /// Every order with its outcome, in the order they were submitted.
    pub fn order_outcomes(&self) -> (r: Vec<(&MappedRetreatOrder, OrderOutcome<usize>)>)
        requires
            self.spec_outcomes().len() == self.spec_orders().len(),
        ensures
            r@.len() == self.spec_orders().len(),
            forall|k: int|
                0 <= k < r@.len() ==> (#[trigger] r@[k]).0@ == self.spec_orders()[k] && r@[k].1
                    == self.spec_outcomes()[k],
    {
        let mut out: Vec<(&MappedRetreatOrder, OrderOutcome<usize>)> = Vec::new();
        let mut i: usize = 0;
        while i < self.orders.len()
            invariant
                i <= self.orders@.len(),
                self.spec_outcomes().len() == self.spec_orders().len(),
                out@.len() == i,
                forall|k: int|
                    0 <= k < i ==> (#[trigger] out@[k]).0@ == self.spec_orders()[k] && out@[k].1
                        == self.spec_outcomes()[k],
            decreases self.orders@.len() - i,
        {
            out.push((&self.orders[i], self.outcomes[i]));
            i = i + 1;
        }
        out
    }
}

} // verus!
