//! The outcome of a main-phase adjudication.
use super::outcome_types::{IllegalOrder, OrderOutcome};
use super::state_type::OrderState;
use super::resolver::{knows_all, same_knowledge, settled, Context, ResolverState};
use super::rulebook::{spec_outcome_fits, spec_settled_outcome, Rulebook};
use super::MappedMainOrder;
use crate::geo::WorldMap;
use crate::order::{MainOrderView, Model};
use vstd::prelude::*;

verus! {

/// The outcome an outcome table gives an order: the reason of the last illegal entry for it,
/// if any, else the outcome of the first adjudicated order equal to it, if any.
pub open spec fn spec_lookup(
    orders: Seq<MainOrderView>,
    outcomes: Seq<OrderOutcome<usize>>,
    illegal: Seq<(MainOrderView, IllegalOrder)>,
    o: MainOrderView,
) -> Option<OrderOutcome<usize>> {
    if exists|k: int| 0 <= k < illegal.len() && illegal[k].0 == o {
        let k = choose|k: int|
            0 <= k < illegal.len() && illegal[k].0 == o && forall|j: int|
                k < j < illegal.len() ==> illegal[j].0 != o;
        Some(OrderOutcome::Illegal(illegal[k].1))
    } else if exists|i: int| 0 <= i < orders.len() && orders[i] == o {
        let i = choose|i: int|
            0 <= i < orders.len() && orders[i] == o && forall|j: int| 0 <= j < i ==> orders[j] != o;
        Some(outcomes[i])
    } else {
        None
    }
}

/// Contains information about the outcome of a turn, used for reporting back
/// to players and for setting up the next turn.
///
/// Orders that took part in resolution are referred to by their position in [`Outcome::orders`].
pub struct Outcome<'a> {
    context: Context<'a>,
    resolver: ResolverState,
    judged: Ghost<ResolverState>,
    outcomes: Vec<OrderOutcome<usize>>,
    illegal: Vec<(MappedMainOrder, IllegalOrder)>,
}

impl<'a> Outcome<'a> {
    /// Each order that took part in resolution has an outcome.
    #[verifier::type_invariant]
    spec fn inv(&self) -> bool {
        &&& self.outcomes@.len() == self.context.spec_orders().len()
        &&& self.context.wf()
        &&& self.resolver.wf(self.context.spec_orders().len())
        &&& same_knowledge(self.judged@, self.resolver)
        &&& self.judged@.spent() == self.resolver.spent()
        &&& knows_all(self.judged@, self.context.spec_orders().len() as int) ==> forall|i: int|
            0 <= i < self.context.spec_orders().len() ==> spec_settled_outcome(
                self.context.world_map@,
                self.context.spec_orders(),
                self.judged@,
                i,
                #[trigger] self.outcomes@[i],
            )
    }

    /// Whether the outcomes are a fixed point of the rules: the resolver state they were
    /// explained with knows every order for certain, and holds for each order the success that
    /// its outcome gives it.
    pub open spec fn spec_fixed_point(&self) -> bool {
        &&& knows_all(self.spec_judged(), self.spec_orders().len() as int)
        &&& forall|i: int|
            0 <= i < self.spec_orders().len() ==> (#[trigger] self.spec_judged().entry(i))->0.order_state
                == self.spec_outcomes()[i].spec_state()
    }

    /// Whether resolution ran out of nesting budget and took some order to fail without judging
    /// it.
    pub fn budget_spent(&self) -> (r: bool)
        ensures
            r == self.spec_judged().spent(),
    {
        proof {
            use_type_invariant(self);
        }
        self.resolver.is_spent()
    }

    /// Whether the outcomes are a fixed point of the rules. When they are, each outcome is the
    /// rules' judgment of its order under the successes the outcomes themselves give.
    pub fn is_fixed_point(&self) -> (r: bool)
        ensures
            r == self.spec_fixed_point(),
            r ==> forall|i: int|
                0 <= i < self.spec_orders().len() ==> spec_settled_outcome(
                    self.spec_map()@,
                    self.spec_orders(),
                    self.spec_judged(),
                    i,
                    #[trigger] self.spec_outcomes()[i],
                ),
    {
        proof {
            use_type_invariant(self);
        }
        let n = self.outcomes.len();
        let mut i: usize = 0;
        while i < n
            invariant
                i <= n,
                n == self.spec_orders().len(),
                n == self.outcomes@.len(),
                same_knowledge(self.spec_judged(), self.resolver),
                self.outcomes@ == self.spec_outcomes(),
                forall|k: int|
                    0 <= k < i ==> (#[trigger] self.spec_judged().entry(k) matches Some(s) && s.is_certain
                        && s.order_state == self.spec_outcomes()[k].spec_state()),
            decreases n - i,
        {
            assert(self.resolver.entry(i as int) == self.spec_judged().entry(i as int));
            match self.resolver.get(i) {
                Some(s) => {
                    if !s.is_certain || s.order_state != self.outcomes[i].state() {
                        return false;
                    }
                },
                None => {
                    return false;
                },
            }
            i = i + 1;
        }
        true
    }

    /// The resolver state the outcomes were explained with: a copy of the final resolver,
    /// holding the same of every order.
    pub closed spec fn spec_judged(&self) -> ResolverState {
        self.judged@
    }


    /// The models of the orders that took part in resolution, in the order they were provided.
    pub closed spec fn spec_orders(&self) -> Seq<MainOrderView> {
        self.context.spec_orders()
    }

    /// The outcome of each order that took part in resolution.
    pub closed spec fn spec_outcomes(&self) -> Seq<OrderOutcome<usize>> {
        self.outcomes@
    }

    /// The illegal orders with the reason each was discarded.
    pub closed spec fn spec_illegal(&self) -> Seq<(MainOrderView, IllegalOrder)> {
        self.illegal@.map_values(|e: (MappedMainOrder, IllegalOrder)| (e.0@, e.1))
    }

    /// The map the orders were adjudicated on.
    pub closed spec fn spec_map(&self) -> &'a WorldMap {
        self.context.world_map
    }

    /// Every order known to the outcome: those that took part in resolution, then the
    /// illegal ones.
    pub open spec fn spec_all_orders(&self) -> Seq<MainOrderView> {
        let os = self.spec_orders();
        let il = self.spec_illegal();
        Seq::new(
            os.len() + il.len(),
            |k: int|
                if k < os.len() {
                    os[k]
                } else {
                    il[k - os.len()].0
                },
        )
    }

    /// The outcome the table gives an order.
    pub open spec fn spec_get(&self, o: MainOrderView) -> Option<OrderOutcome<usize>> {
        spec_lookup(self.spec_orders(), self.spec_outcomes(), self.spec_illegal(), o)
    }

    /// Every order known to the outcome has an outcome.
    pub proof fn lemma_every_order_has_outcome(&self, k: int)
        requires
            0 <= k < self.spec_all_orders().len(),
        ensures
            self.spec_get(self.spec_all_orders()[k]) is Some,
    {
        let os = self.spec_orders();
        let il = self.spec_illegal();
        let o = self.spec_all_orders()[k];
        if k < os.len() {
            assert(os[k] == o);
        } else {
            assert(il[k - os.len()].0 == o);
        }
    }

    /// Explains each order of a resolved context.
    pub(crate) fn new(
        context: Context<'a>,
        resolver: ResolverState,
        illegal: Vec<(MappedMainOrder, IllegalOrder)>,
    ) -> (r: Outcome<'a>)
        requires
            context.wf(),
            resolver.wf(context.spec_orders().len()),
        ensures
            r.spec_orders() == context.spec_orders(),
            r.spec_map() == context.world_map,
            r.spec_outcomes().len() == context.spec_orders().len(),
            forall|i: int|
                0 <= i < context.spec_orders().len() ==> spec_outcome_fits(
                    context.world_map@,
                    context.spec_orders(),
                    i,
                    #[trigger] r.spec_outcomes()[i],
                ),
            r.spec_illegal() == illegal@.map_values(|e: (MappedMainOrder, IllegalOrder)| (e.0@, e.1)),
            same_knowledge(r.spec_judged(), resolver),
            knows_all(r.spec_judged(), context.spec_orders().len() as int) ==> forall|i: int|
                0 <= i < context.spec_orders().len() ==> spec_settled_outcome(
                    context.world_map@,
                    context.spec_orders(),
                    r.spec_judged(),
                    i,
                    #[trigger] r.spec_outcomes()[i],
                ),
    {
        let mut state = resolver.copy();
        let ghost judged = state;
        let mut outcomes: Vec<OrderOutcome<usize>> = Vec::new();
        let n = context.len();
        let mut i: usize = 0;
        while i < n
            invariant
                i <= n,
                n == context.spec_orders().len(),
                context.wf(),
                state.wf(n as nat),
                outcomes@.len() == i,
                forall|k: int|
                    0 <= k < i ==> spec_outcome_fits(
                        context.world_map@,
                        context.spec_orders(),
                        k,
                        #[trigger] outcomes@[k],
                    ),
                same_knowledge(judged, resolver),
                knows_all(judged, n as int) ==> state == judged && forall|k: int|
                    0 <= k < i ==> spec_settled_outcome(
                        context.world_map@,
                        context.spec_orders(),
                        judged,
                        k,
                        #[trigger] outcomes@[k],
                    ),
            decreases n - i,
        {
            proof {
                if knows_all(judged, n as int) {
                    assert(settled(&context, &state));
                }
            }
            let oc = Rulebook::explain_order(&context, &mut state, i);
            outcomes.push(oc);
            i = i + 1;
        }
        Outcome { context, resolver, judged: Ghost(judged), outcomes, illegal }
    }

    /// The orders that participated in resolution, in the order they were provided. This does not
    /// include illegal orders.
    pub fn orders(&self) -> (r: &Vec<MappedMainOrder>)
        ensures
            r@.map_values(|o: MappedMainOrder| o@) == self.spec_orders(),
    {
        self.context.orders()
    }

    /// The resolved context.
    pub(crate) fn context(&self) -> (r: &Context<'a>)
        ensures
            r.spec_orders() == self.spec_orders(),
            r.world_map == self.spec_map(),
            r.wf(),
            self.spec_outcomes().len() == self.spec_orders().len(),
    {
        proof {
            use_type_invariant(self);
        }
        &self.context
    }

    /// The resolver's final state.
    pub(crate) closed spec fn spec_resolver(&self) -> ResolverState {
        self.resolver
    }

    /// A copy of the resolver's final state.
    pub(crate) fn resolver_copy(&self) -> (r: ResolverState)
        ensures
            r.wf(self.spec_orders().len()),
            forall|i: int| r.entry(i) == self.spec_resolver().entry(i),
            r.chain() == self.spec_resolver().chain(),
            forall|i: int| r.in_paradox(i) == self.spec_resolver().in_paradox(i),
            r.budget() == self.spec_resolver().budget(),
            same_knowledge(r, self.spec_judged()),
    {
        proof {
            use_type_invariant(self);
        }
        self.resolver.copy()
    }

    /// The illegal orders with the reason each was discarded.
    pub fn illegal_orders(&self) -> (r: &Vec<(MappedMainOrder, IllegalOrder)>)
        ensures
            r@.map_values(|e: (MappedMainOrder, IllegalOrder)| (e.0@, e.1)) == self.spec_illegal(),
    {
        &self.illegal
    }

    /// The map the orders were adjudicated on.
    pub fn world_map(&self) -> (r: &'a WorldMap)
        ensures
            r == self.spec_map(),
    {
        self.context.world_map
    }

    /// The outcome of the order at position `i` of [`Outcome::orders`].
    pub fn outcome_at(&self, i: usize) -> (r: OrderOutcome<usize>)
        requires
            i < self.spec_outcomes().len(),
        ensures
            r == self.spec_outcomes()[i as int],
    {
        proof {
            use_type_invariant(self);
        }
        self.outcomes[i]
    }

    /// The union of all orders known to the outcome: the orders that took part in resolution,
    /// including the hold orders generated to ensure all units had an order, followed by the
    /// illegal orders.
    pub fn all_orders(&self) -> (r: Vec<&MappedMainOrder>)
        ensures
            r@.map_values(|o: &MappedMainOrder| o@) == self.spec_all_orders(),
    {
        let mut out: Vec<&MappedMainOrder> = Vec::new();
        let orders = self.context.orders();
        let mut i: usize = 0;
        while i < orders.len()
            invariant
                i <= orders@.len(),
                orders@.map_values(|o: MappedMainOrder| o@) == self.spec_orders(),
                out@.len() == i,
                forall|k: int| 0 <= k < i ==> out@[k]@ == self.spec_orders()[k],
            decreases orders@.len() - i,
        {
            out.push(&orders[i]);
            i = i + 1;
        }
        let mut j: usize = 0;
        while j < self.illegal.len()
            invariant
                j <= self.illegal@.len(),
                out@.len() == self.spec_orders().len() + j,
                forall|k: int| 0 <= k < self.spec_orders().len() ==> out@[k]@ == self.spec_orders()[k],
                forall|k: int| 0 <= k < j ==> out@[self.spec_orders().len() + k]@ == self.spec_illegal()[k].0,
            decreases self.illegal@.len() - j,
        {
            out.push(&self.illegal[j].0);
            j = j + 1;
        }
        proof {
            assert(out@.map_values(|o: &MappedMainOrder| o@) =~= self.spec_all_orders());
        }
        out
    }

    /// Every order known to the outcome with the outcome the table gives it.
    pub fn all_orders_with_outcomes(&self) -> (r: Vec<(&MappedMainOrder, OrderOutcome<usize>)>)
        ensures
            r@.map_values(|e: (&MappedMainOrder, OrderOutcome<usize>)| e.0@) == self.spec_all_orders(),
            forall|k: int| 0 <= k < r@.len() ==> self.spec_get(#[trigger] r@[k].0@) == Some(r@[k].1),
    {
        let all = self.all_orders();
        let ghost allv = self.spec_all_orders();
        let mut out: Vec<(&MappedMainOrder, OrderOutcome<usize>)> = Vec::new();
        let mut i: usize = 0;
        while i < all.len()
            invariant
                i <= all@.len(),
                all@.map_values(|o: &MappedMainOrder| o@) == allv,
                allv == self.spec_all_orders(),
                out@.len() == i,
                forall|k: int| 0 <= k < i ==> out@[k].0@ == allv[k],
                forall|k: int| 0 <= k < i ==> self.spec_get(#[trigger] out@[k].0@) == Some(out@[k].1),
            decreases all@.len() - i,
        {
            let o = all[i];
            proof {
                let os = self.spec_orders();
                let il = self.spec_illegal();
                assert(allv[i as int] == o@);
                if (i as int) < os.len() {
                    assert(os[i as int] == o@);
                } else {
                    let j = i - os.len();
                    assert(allv.len() == os.len() + il.len());
                    assert(0 <= j < il.len());
                    assert(allv[i as int] == il[j].0);
                    assert(il[j].0 == o@);
                }
            }
            let oc = match self.get(o) {
                Some(oc) => oc,
                None => {
                    proof {
                        assert(false);
                    }
                    OrderOutcome::Illegal(IllegalOrder::NoUnit)
                },
            };
            out.push((o, oc));
            i = i + 1;
        }
        proof {
            assert(out@.map_values(|e: (&MappedMainOrder, OrderOutcome<usize>)| e.0@) =~= allv);
        }
        out
    }

    /// The outcome the table gives an order: its reason if it was illegal, else the outcome of
    /// the order equal to it that took part in resolution.
    pub fn get(&self, order: &MappedMainOrder) -> (r: Option<OrderOutcome<usize>>)
        ensures
            r == self.spec_get(order@),
    {
        proof {
            use_type_invariant(self);
        }
        let mut j: usize = self.illegal.len();
        let ghost il = self.spec_illegal();
        while j > 0
            invariant
                j <= self.illegal@.len(),
                il == self.spec_illegal(),
                forall|k: int| j <= k < il.len() ==> il[k].0 != order@,
            decreases j,
        {
            j = j - 1;
            if self.illegal[j].0.same(order) {
                proof {
                    assert(il[j as int].0 == order@);
                    let k = choose|k: int|
                        0 <= k < il.len() && il[k].0 == order@ && forall|j2: int|
                            k < j2 < il.len() ==> il[j2].0 != order@;
                    assert(0 <= j < il.len() && il[j as int].0 == order@ && forall|j2: int|
                        j < j2 < il.len() ==> il[j2].0 != order@);
                    if k < j {
                    } else if k > j {
                    }
                    assert(k == j);
                }
                return Some(OrderOutcome::Illegal(self.illegal[j].1));
            }
        }
        let orders = self.context.orders();
        let mut i: usize = 0;
        while i < orders.len()
            invariant
                i <= orders@.len(),
                orders@.map_values(|o: MappedMainOrder| o@) == self.spec_orders(),
                self.outcomes@.len() == self.spec_orders().len(),
                il == self.spec_illegal(),
                forall|k: int| 0 <= k < i ==> self.spec_orders()[k] != order@,
                forall|k: int| 0 <= k < il.len() ==> il[k].0 != order@,
            decreases orders@.len() - i,
        {
            if orders[i].same(order) {
                proof {
                    let os = self.spec_orders();
                    assert(os[i as int] == order@);
                    let k = choose|k: int|
                        0 <= k < os.len() && os[k] == order@ && forall|j2: int| 0 <= j2 < k ==> os[j2] != order@;
                    assert(0 <= i < os.len() && os[i as int] == order@ && forall|j2: int|
                        0 <= j2 < i ==> os[j2] != order@);
                    if k < i {
                    } else if k > i {
                    }
                    assert(k == i);
                }
                return Some(self.outcomes[i]);
            }
            i = i + 1;
        }
        None
    }
}

/// Whether the outcome gives the order of `e` no outcome, or one whose success differs from
/// the expected state of `e`.
pub open spec fn mismatched(outcome: &Outcome, e: (MainOrderView, OrderState)) -> bool {
    match outcome.spec_get(e.0) {
        Some(oc) => oc.spec_state() != e.1,
        None => true,
    }
}

/// The positions, in increasing order, of the expected entries whose order has no outcome or
/// whose outcome's success differs from the expected state.
pub fn mismatches(outcome: &Outcome, expected: &Vec<(MappedMainOrder, OrderState)>) -> (r: Vec<usize>)
    ensures
        r@ == Seq::new(expected@.len(), |k: int| k as usize).filter(
            |k: usize| mismatched(outcome, (expected@[k as int].0@, expected@[k as int].1)),
        ),
{
    let ghost all = Seq::new(expected@.len(), |k: int| k as usize);
    let ghost pred = |k: usize| mismatched(outcome, (expected@[k as int].0@, expected@[k as int].1));
    let mut out: Vec<usize> = Vec::new();
    let mut k: usize = 0;
    while k < expected.len()
        invariant
            k <= expected@.len(),
            all == Seq::new(expected@.len(), |k: int| k as usize),
            forall|x: usize| #[trigger] pred(x) == mismatched(outcome, (expected@[x as int].0@, expected@[x as int].1)),
            out@ == all.take(k as int).filter(pred),
        decreases expected@.len() - k,
    {
        proof {
            crate::lemmas::lemma_filter_step(all, k as int, pred);
            assert(all[k as int] == k);
        }
        let bad = match outcome.get(&expected[k].0) {
            Some(oc) => oc.state() != expected[k].1,
            None => true,
        };
        if bad {
            out.push(k);
        }
        k = k + 1;
    }
    proof {
        assert(all.take(expected@.len() as int) =~= all);
        assert(pred =~= (|k: usize| mismatched(outcome, (expected@[k as int].0@, expected@[k as int].1))));
    }
    out
}

} // verus!
