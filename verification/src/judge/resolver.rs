use super::calc::move_dest_of;
use super::outcome::Outcome;
use super::outcome_types::{IllegalOrder, OrderOutcome};
use super::rulebook::{spec_outcome_fits, spec_settled_outcome, Rulebook};
use super::state_type::OrderState;
use super::MappedMainOrder;
use crate::geo::{MapView, ProvinceKey, WorldMap};
use crate::order::{Command, MainCommand, MainOrderView, Model};
use vstd::prelude::*;

verus! {

/// The nesting budget a fresh resolver starts with. Each hypothetical resolution nested
/// inside another uses one unit; a resolution that finds its budget spent treats the order
/// as failing.
pub const RESOLUTION_BUDGET: usize = 4096;

/// The immutable inputs to adjudication: the valid orders, the world map, and the rulebook.
///
/// Orders are referred to by their position in the context.
pub struct Context<'a> {
    /// Set of legal orders for this turn, including generated hold orders.
    pub orders: Vec<MappedMainOrder>,
    /// The rules used to adjudicate.
    pub rules: Rulebook,
    /// The map against which orders were issued.
    pub world_map: &'a WorldMap,
}

impl<'a> Context<'a> {
    /// The models of the orders, in the order they were provided.
    pub closed spec fn spec_orders(&self) -> Seq<MainOrderView> {
        self.orders@.map_values(|o: MappedMainOrder| o@)
    }

    /// The number of orders stays below the largest machine integer, so strengths can be
    /// counted.
    pub open spec fn wf(&self) -> bool {
        self.spec_orders().len() < usize::MAX
    }

    /// Creates a new resolver context for a set of valid orders on a map.
    pub fn new(world_map: &'a WorldMap, rules: Rulebook, orders: &Vec<MappedMainOrder>) -> (r: Context<'a>)
        requires
            orders@.len() < usize::MAX,
        ensures
            r.spec_orders() == orders@.map_values(|o: MappedMainOrder| o@),
            r.rules == rules,
            r.world_map == world_map,
            r.wf(),
    {
        let mut copied: Vec<MappedMainOrder> = Vec::new();
        let n = orders.len();
        let mut i: usize = 0;
        while i < n
            invariant
                i <= n,
                n == orders@.len(),
                copied@.map_values(|o: MappedMainOrder| o@) == orders@.take(i as int).map_values(
                    |o: MappedMainOrder| o@,
                ),
            decreases n - i,
        {
            let o = orders[i].copy();
            let ghost prev = copied@;
            copied.push(o);
            proof {
                crate::lemmas::lemma_map_push(prev, o, |o: MappedMainOrder| o@);
                assert(orders@.take(i + 1) =~= orders@.take(i as int).push(orders@[i as int]));
                crate::lemmas::lemma_map_push(orders@.take(i as int), orders@[i as int], |o: MappedMainOrder| o@);
            }
            i = i + 1;
        }
        proof {
            assert(orders@.take(n as int) =~= orders@);
        }
        Context { orders: copied, rules, world_map }
    }

    /// Creates a context that owns the given orders.
    pub fn from_orders(world_map: &'a WorldMap, rules: Rulebook, orders: Vec<MappedMainOrder>) -> (r: Context<'a>)
        requires
            orders@.len() < usize::MAX,
        ensures
            r.spec_orders() == orders@.map_values(|o: MappedMainOrder| o@),
            r.rules == rules,
            r.world_map == world_map,
            r.wf(),
    {
        Context { orders, rules, world_map }
    }

    /// The number of orders.
    pub fn len(&self) -> (r: usize)
        ensures
            r == self.spec_orders().len(),
    {
        self.orders.len()
    }

    /// The order at position `i`.
    pub fn order(&self, i: usize) -> (r: &MappedMainOrder)
        requires
            i < self.spec_orders().len(),
        ensures
            r@ == self.spec_orders()[i as int],
    {
        &self.orders[i]
    }

    /// Get a view of the orders in the order they were submitted.
    pub fn orders(&self) -> (r: &Vec<MappedMainOrder>)
        ensures
            r@.map_values(|o: MappedMainOrder| o@) == self.spec_orders(),
    {
        &self.orders
    }

    /// The first order issued to a unit in province `p`, if any.
    pub fn find_order_to_province(&self, p: &ProvinceKey) -> (r: Option<usize>)
        ensures
            match r {
                Some(i) => i < self.spec_orders().len() && self.spec_orders()[i as int].region.0 == p@
                    && forall|j: int| 0 <= j < i ==> self.spec_orders()[j].region.0 != p@,
                None => forall|j: int|
                    0 <= j < self.spec_orders().len() ==> self.spec_orders()[j].region.0 != p@,
            },
    {
        let n = self.orders.len();
        let mut i: usize = 0;
        while i < n
            invariant
                i <= n,
                n == self.spec_orders().len(),
                forall|j: int| 0 <= j < i ==> self.spec_orders()[j].region.0 != p@,
            decreases n - i,
        {
            if self.orders[i].region.in_province(p) {
                return Some(i);
            }
            i = i + 1;
        }
        None
    }

    /// Resolve the context using its rulebook.
    ///
    /// The adjudicator is responsible for rule questions, while the resolver is responsible for
    /// tracking whether orders are successful. The two are interdependent, calling back and forth
    /// as they work towards a solution.
    pub fn resolve(self) -> (r: Outcome<'a>)
        requires
            self.wf(),
        ensures
            r.spec_orders() == self.spec_orders(),
            r.spec_map() == self.world_map,
            r.spec_outcomes().len() == self.spec_orders().len(),
            forall|i: int|
                0 <= i < self.spec_orders().len() ==> spec_outcome_fits(
                    self.world_map@,
                    self.spec_orders(),
                    i,
                    #[trigger] r.spec_outcomes()[i],
                ),
            r.spec_illegal().len() == 0,
            knows_all(r.spec_judged(), self.spec_orders().len() as int) ==> forall|i: int|
                0 <= i < self.spec_orders().len() ==> spec_settled_outcome(
                    self.world_map@,
                    self.spec_orders(),
                    r.spec_judged(),
                    i,
                    #[trigger] r.spec_outcomes()[i],
                ),
    {
        self.resolve_with(Vec::new())
    }

    /// Resolve the context, and list the given illegal orders in the outcome.
    pub(crate) fn resolve_with(self, illegal: Vec<(MappedMainOrder, IllegalOrder)>) -> (r: Outcome<'a>)
        requires
            self.wf(),
        ensures
            r.spec_orders() == self.spec_orders(),
            r.spec_map() == self.world_map,
            r.spec_outcomes().len() == self.spec_orders().len(),
            forall|i: int|
                0 <= i < self.spec_orders().len() ==> spec_outcome_fits(
                    self.world_map@,
                    self.spec_orders(),
                    i,
                    #[trigger] r.spec_outcomes()[i],
                ),
            r.spec_illegal() == illegal@.map_values(|e: (MappedMainOrder, IllegalOrder)| (e.0@, e.1)),
            knows_all(r.spec_judged(), self.spec_orders().len() as int) ==> forall|i: int|
                0 <= i < self.spec_orders().len() ==> spec_settled_outcome(
                    self.world_map@,
                    self.spec_orders(),
                    r.spec_judged(),
                    i,
                    #[trigger] r.spec_outcomes()[i],
                ),
    {
        let mut rs = ResolverState::new();
        let n = self.orders.len();
        let mut i: usize = 0;
        while i < n
            invariant
                i <= n,
                n == self.spec_orders().len(),
                self.wf(),
                rs.wf(n as nat),
                rs.budget() == RESOLUTION_BUDGET,
            decreases n - i,
        {
            rs.resolve(&self, i);
            i = i + 1;
        }
        Outcome::new(self, rs, illegal)
    }
}

/// The resolver is ready to work on the context: the context is well formed and the
/// resolver only refers to its orders.
pub open spec fn ready(ctx: &Context, rs: &ResolverState) -> bool {
    ctx.wf() && rs.wf(ctx.spec_orders().len())
}

/// Whether the resolver knows for certain whether each order of the context succeeds; such a
/// resolver answers every question from what it holds, and is left as it was.
pub open spec fn settled(ctx: &Context, rs: &ResolverState) -> bool {
    forall|i: int|
        0 <= i < ctx.spec_orders().len() ==> (#[trigger] rs.entry(i) matches Some(s) && s.is_certain)
}

/// Whether the resolver state `rs` knows for certain whether each of the first `n` orders
/// succeeds.
pub open spec fn knows_all(rs: ResolverState, n: int) -> bool {
    forall|i: int| 0 <= i < n ==> (#[trigger] rs.entry(i) matches Some(s) && s.is_certain)
}

/// Whether two resolver states hold the same of every order: the same entries and the same
/// paradoxes.
pub open spec fn same_knowledge(a: ResolverState, b: ResolverState) -> bool {
    &&& forall|i: int| #[trigger] a.entry(i) == b.entry(i)
    &&& forall|i: int| #[trigger] a.in_paradox(i) == b.in_paradox(i)
}

/// Whether `r` is a success that the rules can give the order at `i`: the success of some
/// outcome that fits the order, that of a move of a circular movement (it succeeds), or that
/// of a convoy of a paradox (it fails).
pub open spec fn spec_ruled(m: MapView, orders: Seq<MainOrderView>, i: int, r: OrderState) -> bool {
    ||| exists|oc: OrderOutcome<usize>| #[trigger] spec_outcome_fits(m, orders, i, oc) && r == oc.spec_state()
    ||| move_dest_of(orders[i]) is Some && r == OrderState::Succeeds
    ||| orders[i].command is Convoy && r == OrderState::Fails
}

/// Whether a dependency cycle is a circular movement: every order in it is a move.
pub open spec fn circular_movement(orders: Seq<MainOrderView>, cycle: Seq<usize>) -> bool {
    forall|k: int| 0 <= k < cycle.len() ==> move_dest_of(#[trigger] orders[cycle[k] as int]) is Some
}

/// What the resolver holds of order `j` once a cycle that is not a circular movement is
/// broken: an order outside the cycle, or known for certain, keeps its state; a convoy of the
/// cycle fails for certain; any other order of the cycle is forgotten.
pub open spec fn broken_entry(
    orders: Seq<MainOrderView>,
    before: Option<ResolutionState>,
    in_cycle: bool,
    j: int,
) -> Option<ResolutionState> {
    if !in_cycle || (before matches Some(s) && s.is_certain) {
        before
    } else if orders[j].command is Convoy {
        Some(ResolutionState { order_state: OrderState::Fails, is_certain: true })
    } else {
        None
    }
}

/// A chain with its last `n` entries popped, as far as there are any.
pub open spec fn pop_n(chain: Seq<usize>, n: nat) -> Seq<usize>
    decreases n,
{
    if n == 0 {
        chain
    } else {
        pop_n(chain, (n - 1) as nat).take(if pop_n(chain, (n - 1) as nat).len() > 0 {
            pop_n(chain, (n - 1) as nat).len() - 1
        } else {
            0
        })
    }
}

proof fn lemma_pop_n_step(chain: Seq<usize>, k: nat)
    ensures
        pop_n(chain, k + 1) == pop_n(chain, k).take(if pop_n(chain, k).len() > 0 {
            pop_n(chain, k).len() - 1
        } else {
            0
        }),
{
}

/// Whether position `j` is in the cycle.
pub open spec fn in_cycle(cycle: Seq<usize>, j: int) -> bool {
    exists|k: int| 0 <= k < cycle.len() && #[trigger] cycle[k] as int == j
}

proof fn lemma_take_push_contains(s: Seq<usize>, k: int, x: int)
    requires
        0 <= k < s.len(),
    ensures
        in_cycle(s.take(k + 1), x) == (in_cycle(s.take(k), x) || s[k] as int == x),
{
    if in_cycle(s.take(k + 1), x) {
        let i = choose|i: int| 0 <= i < k + 1 && #[trigger] s.take(k + 1)[i] as int == x;
        if i < k {
            assert(s.take(k)[i] as int == x);
        }
    }
    if in_cycle(s.take(k), x) {
        let i = choose|i: int| 0 <= i < k && #[trigger] s.take(k)[i] as int == x;
        assert(s.take(k + 1)[i] as int == x);
    }
    if s[k] as int == x {
        assert(s.take(k + 1)[k] as int == x);
    }
}

/// A step of resolution left the resolver ready and its budget unchanged.
pub open spec fn kept(ctx: &Context, before: &ResolverState, after: &ResolverState) -> bool {
    after.wf(ctx.spec_orders().len()) && after.budget() == before.budget()
}

/// The resolver's knowledge of one order: whether it succeeds, and whether that is certain
/// or a guess.
#[derive(Debug, Clone, Copy, PartialEq, Eq, Hash, Structural)]
pub struct ResolutionState {
    pub order_state: OrderState,
    pub is_certain: bool,
}

impl ResolutionState {
    /// A guess at the order's state.
    pub fn guessing(order_state: OrderState) -> (r: ResolutionState)
        ensures
            r.order_state == order_state,
            !r.is_certain,
    {
        ResolutionState { order_state, is_certain: false }
    }

    /// A certain knowledge of the order's state.
    pub fn known(order_state: OrderState) -> (r: ResolutionState)
        ensures
            r.order_state == order_state,
            r.is_certain,
    {
        ResolutionState { order_state, is_certain: true }
    }

    /// Whether the state is a guess.
    pub fn is_guess(&self) -> (r: bool)
        ensures
            r == !self.is_certain,
    {
        !self.is_certain
    }
}

/// Mutable state of a main-phase resolution: what is known or guessed of each order, the
/// convoy orders that form part of a paradox, and the chain of guesses that later results
/// depend on.
pub struct ResolverState {
    state: Vec<Option<ResolutionState>>,
    paradoxical_orders: Vec<bool>,
    dependency_chain: Vec<usize>,
    depth: usize,
    exhausted: bool,
}

impl ResolverState {
    /// What the resolver holds of order `i`.
    pub closed spec fn entry(&self, i: int) -> Option<ResolutionState> {
        if 0 <= i < self.state@.len() {
            self.state@[i]
        } else {
            None
        }
    }

    /// Whether the resolver holds, as known or as a guess, that order `i` succeeds.
    pub open spec fn holds_success(&self, i: int) -> bool {
        &&& self.entry(i) is Some
        &&& self.entry(i)->0.order_state == OrderState::Succeeds
    }

    /// The chain of orders whose guesses later results depend on.
    pub closed spec fn chain(&self) -> Seq<usize> {
        self.dependency_chain@
    }

    /// Whether order `i` is a convoy that forms part of a paradox.
    pub closed spec fn in_paradox(&self, i: int) -> bool {
        0 <= i < self.paradoxical_orders@.len() && self.paradoxical_orders@[i]
    }

    /// The nesting budget left to this resolver.
    pub closed spec fn budget(&self) -> int {
        self.depth as int
    }

    /// Whether the resolver ever ran out of nesting budget and took an order to fail without
    /// judging it.
    pub closed spec fn spent(&self) -> bool {
        self.exhausted
    }

    /// The resolver only refers to orders of a context with `n` orders.
    pub open spec fn wf(&self, n: nat) -> bool {
        forall|k: int| 0 <= k < self.chain().len() ==> self.chain()[k] < n
    }

    /// Create a new resolver that knows nothing yet.
    pub fn new() -> (r: ResolverState)
        ensures
            forall|i: int| r.entry(i) is None,
            r.chain().len() == 0,
            forall|i: int| !r.in_paradox(i),
            r.budget() == RESOLUTION_BUDGET,
            forall|n: nat| r.wf(n),
            !r.spent(),
    {
        ResolverState {
            state: Vec::new(),
            paradoxical_orders: Vec::new(),
            dependency_chain: Vec::new(),
            depth: RESOLUTION_BUDGET,
            exhausted: false,
        }
    }

    /// Returns a resolver with the same knowledge and budget.
    pub fn copy(&self) -> (r: ResolverState)
        ensures
            r.spent() == self.spent(),
            forall|i: int| r.entry(i) == self.entry(i),
            r.chain() == self.chain(),
            forall|i: int| r.in_paradox(i) == self.in_paradox(i),
            r.budget() == self.budget(),
    {
        let mut state: Vec<Option<ResolutionState>> = Vec::new();
        let mut i: usize = 0;
        while i < self.state.len()
            invariant
                i <= self.state@.len(),
                state@ == self.state@.take(i as int),
            decreases self.state@.len() - i,
        {
            state.push(self.state[i]);
            proof {
                assert(state@ =~= self.state@.take(i + 1));
            }
            i = i + 1;
        }
        let mut paradox: Vec<bool> = Vec::new();
        let mut j: usize = 0;
        while j < self.paradoxical_orders.len()
            invariant
                j <= self.paradoxical_orders@.len(),
                paradox@ == self.paradoxical_orders@.take(j as int),
            decreases self.paradoxical_orders@.len() - j,
        {
            paradox.push(self.paradoxical_orders[j]);
            proof {
                assert(paradox@ =~= self.paradoxical_orders@.take(j + 1));
            }
            j = j + 1;
        }
        let mut chain: Vec<usize> = Vec::new();
        let mut k: usize = 0;
        while k < self.dependency_chain.len()
            invariant
                k <= self.dependency_chain@.len(),
                chain@ == self.dependency_chain@.take(k as int),
            decreases self.dependency_chain@.len() - k,
        {
            chain.push(self.dependency_chain[k]);
            proof {
                assert(chain@ =~= self.dependency_chain@.take(k + 1));
            }
            k = k + 1;
        }
        proof {
            assert(state@ =~= self.state@);
            assert(paradox@ =~= self.paradoxical_orders@);
            assert(chain@ =~= self.dependency_chain@);
        }
        ResolverState {
            state,
            paradoxical_orders: paradox,
            dependency_chain: chain,
            depth: self.depth,
            exhausted: self.exhausted,
        }
    }

    /// What the resolver holds of order `i`.
    pub fn get(&self, i: usize) -> (r: Option<ResolutionState>)
        ensures
            r == self.entry(i as int),
    {
        if i < self.state.len() {
            self.state[i]
        } else {
            None
        }
    }

    fn set_state(&mut self, i: usize, resolution: ResolutionState)
        ensures
            final(self).spent() == old(self).spent(),
            final(self).entry(i as int) == Some(resolution),
            forall|j: int| j != i ==> final(self).entry(j) == old(self).entry(j),
            final(self).chain() == old(self).chain(),
            forall|j: int| final(self).in_paradox(j) == old(self).in_paradox(j),
            final(self).budget() == old(self).budget(),
    {
        while self.state.len() <= i
            invariant
                forall|j: int| self.entry(j) == old(self).entry(j),
                self.chain() == old(self).chain(),
                forall|j: int| self.in_paradox(j) == old(self).in_paradox(j),
                self.budget() == old(self).budget(),
                self.spent() == old(self).spent(),
            decreases i + 1 - self.state@.len(),
        {
            self.state.push(None);
        }
        self.state.set(i, Some(resolution));
    }

    fn set_depth(&mut self, depth: usize)
        ensures
            final(self).spent() == old(self).spent(),
            forall|j: int| final(self).entry(j) == old(self).entry(j),
            final(self).chain() == old(self).chain(),
            forall|j: int| final(self).in_paradox(j) == old(self).in_paradox(j),
            final(self).budget() == depth,
    {
        self.depth = depth;
    }

    fn clear_state(&mut self, i: usize)
        ensures
            final(self).spent() == old(self).spent(),
            final(self).entry(i as int) is None,
            forall|j: int| j != i ==> final(self).entry(j) == old(self).entry(j),
            final(self).chain() == old(self).chain(),
            forall|j: int| final(self).in_paradox(j) == old(self).in_paradox(j),
            final(self).budget() == old(self).budget(),
    {
        if i < self.state.len() {
            self.state.set(i, None);
        }
    }

    fn mark_paradox(&mut self, i: usize)
        ensures
            final(self).spent() == old(self).spent(),
            final(self).in_paradox(i as int),
            forall|j: int| j != i ==> final(self).in_paradox(j) == old(self).in_paradox(j),
            forall|j: int| final(self).entry(j) == old(self).entry(j),
            final(self).chain() == old(self).chain(),
            final(self).budget() == old(self).budget(),
    {
        while self.paradoxical_orders.len() <= i
            invariant
                forall|j: int| self.in_paradox(j) == old(self).in_paradox(j),
                forall|j: int| self.entry(j) == old(self).entry(j),
                self.chain() == old(self).chain(),
                self.budget() == old(self).budget(),
                self.spent() == old(self).spent(),
            decreases i + 1 - self.paradoxical_orders@.len(),
        {
            self.paradoxical_orders.push(false);
        }
        self.paradoxical_orders.set(i, true);
    }

    /// Whether the resolver ever ran out of nesting budget.
    pub fn is_spent(&self) -> (r: bool)
        ensures
            r == self.spent(),
    {
        self.exhausted
    }

    /// Whether the resolver knows, not guesses, the state of order `i`.
    pub fn knows_outcome_of(&self, i: usize) -> (r: bool)
        ensures
            r == (self.entry(i as int) matches Some(s) && s.is_certain),
    {
        match self.get(i) {
            Some(s) => !s.is_guess(),
            None => false,
        }
    }

    /// Whether order `i` is a convoy that forms part of a paradox.
    pub fn order_in_paradox(&self, i: usize) -> (r: bool)
        ensures
            r == self.in_paradox(i as int),
    {
        i < self.paradoxical_orders.len() && self.paradoxical_orders[i]
    }

    fn chain_contains(&self, i: usize) -> (r: bool)
        ensures
            r == self.chain().contains(i),
    {
        let mut k: usize = 0;
        while k < self.dependency_chain.len()
            invariant
                k <= self.dependency_chain@.len(),
                forall|j: int| 0 <= j < k ==> self.dependency_chain@[j] != i,
            decreases self.dependency_chain@.len() - k,
        {
            if self.dependency_chain[k] == i {
                return true;
            }
            k = k + 1;
        }
        false
    }

    /// Take durable state from another resolver, keeping this resolver's budget.
    fn snap_to(&mut self, other: ResolverState)
        ensures
            forall|j: int| final(self).entry(j) == other.entry(j),
            final(self).chain() == other.chain(),
            forall|j: int| final(self).in_paradox(j) == other.in_paradox(j),
            final(self).budget() == old(self).budget(),
            final(self).spent() == (old(self).spent() || other.spent()),
    {
        self.state = other.state;
        self.paradoxical_orders = other.paradoxical_orders;
        self.dependency_chain = other.dependency_chain;
        self.exhausted = self.exhausted || other.exhausted;
    }

    /// Create a copy of the resolver state, add a guess at the success or failure
    /// of the given order, then adjudicate the order with the amended resolver.
    ///
    /// This returns the entire guesser because in some cases the calling resolver needs
    /// the dependency chain and the entire state generated during the post-guess adjudication.
    fn with_guess(&self, context: &Context, order: usize, guess: OrderState) -> (r: (
        ResolverState,
        OrderState,
    ))
        requires
            context.wf(),
            order < context.spec_orders().len(),
            self.wf(context.spec_orders().len()),
            self.budget() > 0,
        ensures
            r.0.wf(context.spec_orders().len()),
            r.0.budget() == self.budget() - 1,
            exists|oc: OrderOutcome<usize>|
                #[trigger] spec_outcome_fits(context.world_map@, context.spec_orders(), order as int, oc)
                    && r.1 == oc.spec_state(),
        decreases self.budget() - 1, 10int,
    {
        let mut guesser = self.copy();
        guesser.depth = self.depth - 1;
        guesser.set_state(order, ResolutionState::guessing(guess));
        let result = Rulebook::adjudicate_order(context, &mut guesser, order);
        (guesser, result)
    }

    /// When a dependency cycle is detected, attempt to resolve all orders in the cycle.
    ///
    /// A cycle of moves only is a circular movement: every move in it succeeds, for certain.
    /// Otherwise the chain loses one guess per order of the cycle, and each order of the cycle
    /// that is not known for certain is forgotten, except a convoy, which is in a paradox and
    /// fails for certain.
    fn resolve_dependency_cycle(&mut self, context: &Context, cycle: &Vec<usize>)
        requires
            forall|k: int| 0 <= k < cycle@.len() ==> cycle@[k] < context.spec_orders().len(),
            old(self).wf(context.spec_orders().len()),
        ensures
            final(self).wf(context.spec_orders().len()),
            final(self).budget() == old(self).budget(),
            final(self).spent() == old(self).spent(),
            circular_movement(context.spec_orders(), cycle@) ==> {
                &&& forall|j: int|
                    0 <= j < context.spec_orders().len() ==> #[trigger] final(self).entry(j) == if in_cycle(cycle@, j) {
                        Some(ResolutionState { order_state: OrderState::Succeeds, is_certain: true })
                    } else {
                        old(self).entry(j)
                    }
                &&& final(self).chain() == old(self).chain()
                &&& forall|j: int| #[trigger] final(self).in_paradox(j) == old(self).in_paradox(j)
            },
            !circular_movement(context.spec_orders(), cycle@) ==> {
                &&& forall|j: int|
                    0 <= j < context.spec_orders().len() ==> #[trigger] final(self).entry(j) == broken_entry(
                        context.spec_orders(),
                        old(self).entry(j),
                        in_cycle(cycle@, j),
                        j,
                    )
                &&& final(self).chain() == pop_n(old(self).chain(), cycle@.len())
                &&& forall|j: int|
                    0 <= j < context.spec_orders().len() ==> #[trigger] final(self).in_paradox(j) == (old(self).in_paradox(j) || (
                    in_cycle(cycle@, j) && !(old(self).entry(j) matches Some(s) && s.is_certain)
                        && context.spec_orders()[j].command is Convoy))
            },
    {
        let n = cycle.len();
        let ghost orders = context.spec_orders();
        let mut all_moves = true;
        let mut k: usize = 0;
        while k < n
            invariant
                k <= n,
                n == cycle@.len(),
                orders == context.spec_orders(),
                forall|j: int| 0 <= j < n ==> cycle@[j] < context.spec_orders().len(),
                all_moves == forall|j: int| 0 <= j < k ==> move_dest_of(#[trigger] orders[cycle@[j] as int]) is Some,
            decreases n - k,
        {
            let is_mv = context.order(cycle[k]).command.is_move();
            assert(is_mv == (move_dest_of(orders[cycle@[k as int] as int]) is Some));
            if !is_mv {
                all_moves = false;
            }
            k = k + 1;
        }
        // if every order in the cycle is a move, then this is a circular move
        if all_moves {
            let ghost before = *self;
            let mut k: usize = 0;
            while k < n
                invariant
                    k <= n,
                    n == cycle@.len(),
                    forall|j: int| 0 <= j < n ==> cycle@[j] < context.spec_orders().len(),
                    self.wf(context.spec_orders().len()),
                    self.budget() == before.budget(),
                    self.spent() == before.spent(),
                    before.wf(context.spec_orders().len()),
                    self.chain() == before.chain(),
                    forall|j: int| #[trigger] self.in_paradox(j) == before.in_paradox(j),
                    forall|j: int|
                        0 <= j < context.spec_orders().len() ==> #[trigger] self.entry(j) == if in_cycle(cycle@.take(k as int), j) {
                            Some(ResolutionState { order_state: OrderState::Succeeds, is_certain: true })
                        } else {
                            before.entry(j)
                        },
                decreases n - k,
            {
                self.set_state(cycle[k], ResolutionState::known(OrderState::Succeeds));
                proof {
                    assert forall|j: int| 0 <= j < context.spec_orders().len() implies #[trigger] self.entry(j) == if in_cycle(cycle@.take(k + 1), j) {
                        Some(ResolutionState { order_state: OrderState::Succeeds, is_certain: true })
                    } else {
                        before.entry(j)
                    } by {
                        lemma_take_push_contains(cycle@, k as int, j);
                    }
                }
                k = k + 1;
            }
            proof {
                assert(cycle@.take(n as int) =~= cycle@);
            }
        } else {
            let ghost before = *self;
            let mut k: usize = 0;
            while k < n
                invariant
                    k <= n,
                    n == cycle@.len(),
                    orders == context.spec_orders(),
                    forall|j: int| 0 <= j < n ==> cycle@[j] < context.spec_orders().len(),
                    self.wf(context.spec_orders().len()),
                    self.budget() == before.budget(),
                    self.spent() == before.spent(),
                    self.chain() == pop_n(before.chain(), k as nat),
                    forall|j: int|
                        0 <= j < context.spec_orders().len() ==> #[trigger] self.entry(j) == broken_entry(
                            orders,
                            before.entry(j),
                            in_cycle(cycle@.take(k as int), j),
                            j,
                        ),
                    forall|j: int|
                        0 <= j < context.spec_orders().len() ==> #[trigger] self.in_paradox(j) == (before.in_paradox(j) || (
                        in_cycle(cycle@.take(k as int), j) && !(before.entry(j) matches Some(s)
                            && s.is_certain) && orders[j].command is Convoy)),
                decreases n - k,
            {
                let o = cycle[k];
                let ghost pre = *self;
                let ghost prev = self.chain();
                proof {
                    assert forall|j: int| 0 <= j < prev.len() implies prev[j] < context.spec_orders().len() by {
                        assert(prev[j] == self.chain()[j]);
                    }
                }
                self.dependency_chain.pop();
                proof {
                    assert forall|j: int| 0 <= j < self.chain().len() implies self.chain()[j]
                        < context.spec_orders().len() by {
                        assert(self.chain()[j] == prev[j]);
                    }
                    lemma_pop_n_step(before.chain(), k as nat);
                    assert(self.state@ == pre.state@);
                    assert(self.paradoxical_orders@ == pre.paradoxical_orders@);
                    assert forall|j: int| #[trigger] self.entry(j) == pre.entry(j) by {}
                    assert forall|j: int| #[trigger] self.in_paradox(j) == pre.in_paradox(j) by {}
                    if prev.len() > 0 {
                        assert(self.chain() =~= prev.take(prev.len() - 1));
                    } else {
                        assert(self.chain() =~= prev.take(0));
                    }
                }
                let ghost mid = *self;
                if !self.knows_outcome_of(o) {
                    match &context.order(o).command {
                        MainCommand::Convoy(_) => {
                            self.mark_paradox(o);
                            self.set_state(o, ResolutionState::known(OrderState::Fails));
                        },
                        _ => {
                            self.clear_state(o);
                        },
                    }
                }
                proof {
                    assert forall|j: int| 0 <= j < context.spec_orders().len() implies #[trigger] self.entry(j) == broken_entry(
                        orders,
                        before.entry(j),
                        in_cycle(cycle@.take(k + 1), j),
                        j,
                    ) by {
                        lemma_take_push_contains(cycle@, k as int, j);
                        assert(mid.entry(j) == broken_entry(orders, before.entry(j), in_cycle(cycle@.take(k as int), j), j));
                        if j != o as int {
                            assert(self.entry(j) == mid.entry(j));
                        } else {
                            assert(cycle@[k as int] as int == j);
                        }
                    }
                    assert forall|j: int| 0 <= j < context.spec_orders().len() implies #[trigger] self.in_paradox(j) == (before.in_paradox(j) || (
                        in_cycle(cycle@.take(k + 1), j) && !(before.entry(j) matches Some(s)
                            && s.is_certain) && orders[j].command is Convoy)) by {
                        lemma_take_push_contains(cycle@, k as int, j);
                        assert(mid.entry(j) == broken_entry(orders, before.entry(j), in_cycle(cycle@.take(k as int), j), j));
                        if j != o as int {
                            assert(self.in_paradox(j) == mid.in_paradox(j));
                        } else {
                            assert(cycle@[k as int] as int == j);
                        }
                    }
                }
                k = k + 1;
            }
            proof {
                assert(cycle@.take(n as int) =~= cycle@);
            }
        }
    }

    /// Resolve whether an order succeeds or fails, possibly updating
    /// the resolver's state in the process.
    ///
    /// The answer is recorded for the order; an answer the resolver already held is returned
    /// as it stands, and a certain one leaves the resolver unchanged.
    pub fn resolve(&mut self, context: &Context, order: usize) -> (r: OrderState)
        requires
            context.wf(),
            order < context.spec_orders().len(),
            old(self).wf(context.spec_orders().len()),
        ensures
            final(self).wf(context.spec_orders().len()),
            final(self).budget() == old(self).budget(),
            final(self).entry(order as int) matches Some(s) && s.order_state == r,
            old(self).entry(order as int) matches Some(s) ==> r == s.order_state,
            old(self).entry(order as int) matches Some(s) && s.is_certain ==> *final(self) == *old(
                self,
            ),
            old(self).spent() ==> final(self).spent(),
            old(self).entry(order as int) is None ==> spec_ruled(
                context.world_map@,
                context.spec_orders(),
                order as int,
                r,
            ) || final(self).spent(),
        decreases old(self).budget(), 0int,
    {
        if let Some(state) = self.get(order) {
            if state.is_guess() {
                // In recursive cases, we accumulate dependencies
                if !self.chain_contains(order) {
                    self.dependency_chain.push(order);
                }
            }
            return state.order_state;
        }
        if self.depth == 0 {
            self.set_state(order, ResolutionState::known(OrderState::Fails));
            self.exhausted = true;
            return OrderState::Fails;
        }
        // checkpoint the resolver and tell it to assume the order fails.
        // get the order state based on that assumption.
        let (first_resolver, first_result) = self.with_guess(context, order, OrderState::Fails);
        let own = self.dependency_chain.len();
        // If we found no new dependencies then this is a valid resolution!
        // We now snap to the resolver state from the assumption so that we can
        // reuse it in future calculations. A hypothetical that ended with a shorter chain
        // than ours is treated the same way.
        if first_resolver.dependency_chain.len() <= own {
            self.snap_to(first_resolver);
            self.set_state(order, ResolutionState::known(first_result));
            first_result
        } else {
            let next_dep = first_resolver.dependency_chain[own];
            // if we depend on some new guess but we haven't hit a cycle,
            // then we cautiously proceed. We update state to match what we've learned
            // from the hypothetical and proceed with our guesses.
            if next_dep != order {
                self.snap_to(first_resolver);
                self.set_state(order, ResolutionState::guessing(first_result));
                self.dependency_chain.push(order);
                first_result
            } else {
                // if the next dependency is the one we're already depending on, we're stuck.
                let (_second_resolver, second_result) = self.with_guess(
                    context,
                    order,
                    OrderState::Succeeds,
                );
                // If there's a paradox but the outcome doesn't depend on this order,
                // then all we've learned is the state of this one order.
                if first_result == second_result {
                    self.set_state(order, ResolutionState::known(first_result));
                    first_result
                } else {
                    let mut tail: Vec<usize> = Vec::new();
                    let m = first_resolver.dependency_chain.len();
                    let mut k: usize = own;
                    while k < m
                        invariant
                            own <= k <= m,
                            m == first_resolver.chain().len(),
                            first_resolver.wf(context.spec_orders().len()),
                            forall|j: int| 0 <= j < tail@.len() ==> tail@[j] < context.spec_orders().len(),
                            tail@ == first_resolver.chain().subrange(own as int, k as int),
                        decreases m - k,
                    {
                        tail.push(first_resolver.dependency_chain[k]);
                        k = k + 1;
                    }
                    proof {
                        assert(tail@[0] == order);
                        assert(in_cycle(tail@, order as int));
                    }
                    self.resolve_dependency_cycle(context, &tail);
                    let depth = self.depth;
                    self.set_depth(depth - 1);
                    let r = self.resolve(context, order);
                    self.set_depth(depth);
                    r
                }
            }
        }
    }
}

impl Default for ResolverState {
    /// A resolver that knows nothing yet.
    fn default() -> (r: ResolverState)
        ensures
            forall|i: int| r.entry(i) is None,
            r.chain().len() == 0,
            forall|i: int| !r.in_paradox(i),
            r.budget() == RESOLUTION_BUDGET,
    {
        ResolverState::new()
    }
}

} // verus!
