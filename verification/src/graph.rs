//! Graph runtime: the budget that captured graphs claim before any pool is
//! sized, and the governor that admits captures only while no graph is alive.

use vstd::prelude::*;

verus! {

/// Graph budget, a first class input of the memory planner.
#[derive(Debug, Clone, Copy, PartialEq, Eq, Structural)]
pub struct GraphAllowance {
    /// Resident budget of the instantiated decode graphs, in bytes per card.
    pub decode_bytes: u64,
    /// Budget of the speculative verify graphs.
    pub verify_bytes: u64,
}

/// The sum of two byte counts, held at the largest `u64`.
pub open spec fn saturated_sum(a: u64, b: u64) -> u64 {
    if a + b > u64::MAX {
        u64::MAX
    } else {
        (a + b) as u64
    }
}

impl GraphAllowance {
    /// The total, in the model.
    pub open spec fn spec_total(&self) -> u64 {
        saturated_sum(self.decode_bytes, self.verify_bytes)
    }

    /// The whole budget; saturates instead of overflowing.
    pub fn total(&self) -> (r: u64)
        ensures
            r == self.spec_total(),
    {
        self.decode_bytes.saturating_add(self.verify_bytes)
    }
}

/// One graph shape. Everything dynamic goes through device tensors.
#[derive(Debug, PartialEq, Eq, Structural)]
pub struct GraphProfile {
    /// Captured batch; smaller batches are padded up to it.
    pub batch: u32,
    /// Longest KV frontier admitted by this profile.
    pub max_frontier: u32,
}

impl Clone for GraphProfile {
    fn clone(&self) -> (r: Self)
        ensures
            r == *self,
    {
        GraphProfile { batch: self.batch, max_frontier: self.max_frontier }
    }
}

/// Phases of the capture life cycle.
#[derive(Debug, Clone, Copy, PartialEq, Eq, Structural)]
pub enum GraphPhase {
    /// No graph is alive: the only window in which pools may be trimmed.
    Idle,
    /// A capture is running: nothing may be governed.
    Capturing,
    /// Graphs are alive: no trim, no pool change.
    Live,
}

/// What the governor refuses.
#[derive(Debug)]
pub enum GraphError {
    /// The life cycle does not admit the operation in this phase.
    IllegalTransition { from: GraphPhase, op: &'static str, law: &'static str },
    /// No profile fits: the engine runs eagerly.
    DegradedToEager { free_bytes: u64, needed: u64 },
}

impl GraphError {
    /// The refusal of `op` in phase `from` under `law`.
    pub open spec fn is_illegal(self, from: GraphPhase, op: Seq<char>, law: Seq<char>) -> bool {
        match self {
            GraphError::IllegalTransition { from: f, op: o, law: l } => f == from && o@ == op && l@
                == law,
            GraphError::DegradedToEager { .. } => false,
        }
    }
}

/// The state of a governor.
#[verifier::ext_equal]
pub struct GovernorState {
    pub phase: GraphPhase,
    pub allowance: GraphAllowance,
    pub profiles: Seq<GraphProfile>,
    pub live_graphs: nat,
}

/// The capture governor: phase, budget and planned profiles.
pub struct GraphGovernor {
    phase: GraphPhase,
    allowance: GraphAllowance,
    profiles: Vec<GraphProfile>,
    live_graphs: u32,
}

impl View for GraphGovernor {
    type V = GovernorState;

    closed spec fn view(&self) -> GovernorState {
        GovernorState {
            phase: self.phase,
            allowance: self.allowance,
            profiles: self.profiles@,
            live_graphs: self.live_graphs as nat,
        }
    }
}

impl GovernorState {
    /// A governor always has a profile, and a graph is alive in phase `Live` only.
    pub open spec fn wf(&self) -> bool {
        &&& self.profiles.len() > 0
        &&& self.live_graphs == if self.phase == GraphPhase::Live {
            1nat
        } else {
            0nat
        }
    }
}

/// The governed operations.
pub enum GovernorOp {
    BeginCapture,
    EndCapture,
    DestroyAll,
}

impl GovernorState {
    /// Whether the life cycle admits `op` now.
    pub open spec fn admits(&self, op: GovernorOp) -> bool {
        match op {
            GovernorOp::BeginCapture => self.phase == GraphPhase::Idle,
            GovernorOp::EndCapture => self.phase == GraphPhase::Capturing,
            GovernorOp::DestroyAll => self.phase != GraphPhase::Capturing,
        }
    }

    /// The state after `op`; a refused operation changes nothing.
    pub open spec fn step(&self, op: GovernorOp) -> GovernorState {
        if !self.admits(op) {
            *self
        } else {
            match op {
                GovernorOp::BeginCapture => GovernorState { phase: GraphPhase::Capturing, ..*self },
                GovernorOp::EndCapture => GovernorState {
                    phase: GraphPhase::Live,
                    live_graphs: 1,
                    ..*self
                },
                GovernorOp::DestroyAll => GovernorState {
                    phase: GraphPhase::Idle,
                    live_graphs: 0,
                    ..*self
                },
            }
        }
    }

    /// The state after all of `ops`, the first one first.
    pub open spec fn run(&self, ops: Seq<GovernorOp>) -> GovernorState
        decreases ops.len(),
    {
        if ops.len() == 0 {
            *self
        } else {
            self.run(ops.drop_last()).step(ops.last())
        }
    }
}

/// The indices that a budget keeps: profiles are visited from the last to the
/// first, and each one whose cost still fits is paid for. In ascending order.
pub open spec fn kept_indices(costs: Seq<u64>, budget: int) -> Seq<int>
    decreases costs.len(),
{
    if costs.len() == 0 {
        Seq::empty()
    } else if costs.last() <= budget {
        kept_indices(costs.drop_last(), budget - costs.last()).push(costs.len() - 1)
    } else {
        kept_indices(costs.drop_last(), budget)
    }
}

/// The items at `indices`, in that order.
pub open spec fn pick<T>(items: Seq<T>, indices: Seq<int>) -> Seq<T> {
    Seq::new(indices.len(), |i: int| items[indices[i]])
}

/// The sum of all costs.
pub open spec fn cost_sum(costs: Seq<u64>) -> int
    decreases costs.len(),
{
    if costs.len() == 0 {
        0
    } else {
        cost_sum(costs.drop_last()) + costs.last()
    }
}

/// The sum of the costs at `indices`.
pub open spec fn picked_sum(costs: Seq<u64>, indices: Seq<int>) -> int
    decreases indices.len(),
{
    if indices.len() == 0 {
        0
    } else {
        picked_sum(costs, indices.drop_last()) + costs[indices.last()]
    }
}

/// Whether `least` is the lowest of the costs.
pub open spec fn is_least(costs: Seq<u64>, least: u64) -> bool {
    costs.contains(least) && forall|i: int| 0 <= i < costs.len() ==> least <= #[trigger] costs[i]
}

/// `result` is what a preflight answers for these costs: the kept profiles, or
/// the degradation with the free bytes and the cost of the cheapest profile.
pub open spec fn preflight_answer(
    profiles: Seq<GraphProfile>,
    costs: Seq<u64>,
    free_bytes: u64,
    result: Result<Vec<GraphProfile>, GraphError>,
) -> bool {
    let kept = kept_indices(costs, free_bytes as int);
    match result {
        Ok(list) => kept.len() > 0 && list@ == pick(profiles, kept),
        Err(GraphError::DegradedToEager { free_bytes: f, needed }) => kept.len() == 0 && f
            == free_bytes && is_least(costs, needed),
        Err(_) => false,
    }
}

/// `costs` is what `f` may answer for `profiles`, one by one.
pub open spec fn costs_of<F: Fn(&GraphProfile) -> u64>(
    f: F,
    profiles: Seq<GraphProfile>,
    costs: Seq<u64>,
) -> bool {
    &&& costs.len() == profiles.len()
    &&& forall|i: int|
        0 <= i < profiles.len() ==> call_ensures(f, (&profiles[i],), #[trigger] costs[i])
}

impl GraphGovernor {
    /// A governor over a non-empty profile table, in phase `Idle`.
    pub fn new(allowance: GraphAllowance, profiles: Vec<GraphProfile>) -> (r: Self)
        requires
            profiles@.len() > 0,
        ensures
            r@ == (GovernorState {
                phase: GraphPhase::Idle,
                allowance,
                profiles: profiles@,
                live_graphs: 0,
            }),
            r@.wf(),
    {
        GraphGovernor { phase: GraphPhase::Idle, allowance, profiles, live_graphs: 0 }
    }

    pub fn allowance(&self) -> (r: &GraphAllowance)
        ensures
            *r == self@.allowance,
    {
        &self.allowance
    }

    pub fn phase(&self) -> (r: GraphPhase)
        ensures
            r == self@.phase,
    {
        self.phase
    }

    /// What is left for pools once the graph budget is taken out.
    pub fn reserve_from(&self, free_bytes: u64) -> (r: u64)
        ensures
            r == if free_bytes >= self@.allowance.spec_total() {
                free_bytes - self@.allowance.spec_total()
            } else {
                0
            },
    {
        free_bytes.saturating_sub(self.allowance.total())
    }

    /// Enters a capture; admitted in phase `Idle` only.
    pub fn begin_capture(&mut self) -> (r: Result<(), GraphError>)
        ensures
            r is Ok <==> old(self)@.admits(GovernorOp::BeginCapture),
            r is Err ==> r->Err_0.is_illegal(
                old(self)@.phase,
                "begin_capture"@,
                "A1.2: 捕获仅允许净空窗口(无存活图)"@,
            ),
            final(self)@ == old(self)@.step(GovernorOp::BeginCapture),
            old(self)@.wf() ==> final(self)@.wf(),
    {
        match self.phase {
            GraphPhase::Idle => {
                self.phase = GraphPhase::Capturing;
                Ok(())
            },
            _ => Err(
                GraphError::IllegalTransition {
                    from: self.phase,
                    op: "begin_capture",
                    law: "A1.2: 捕获仅允许净空窗口(无存活图)",
                },
            ),
        }
    }

    /// Ends a capture and registers one graph; admitted in phase `Capturing`
    /// only, for a planned profile.
    pub fn end_capture(&mut self, profile: GraphProfile) -> (r: Result<(), GraphError>)
        requires
            old(self)@.wf(),
            old(self)@.phase == GraphPhase::Capturing ==> old(self)@.profiles.contains(profile),
        ensures
            r is Ok <==> old(self)@.admits(GovernorOp::EndCapture),
            r is Err ==> r->Err_0.is_illegal(old(self)@.phase, "end_capture"@, "A1.2"@),
            final(self)@ == old(self)@.step(GovernorOp::EndCapture),
            final(self)@.wf(),
    {
        if self.phase != GraphPhase::Capturing {
            return Err(
                GraphError::IllegalTransition {
                    from: self.phase,
                    op: "end_capture",
                    law: "A1.2",
                },
            );
        }
        self.live_graphs = self.live_graphs + 1;
        self.phase = GraphPhase::Live;
        Ok(())
    }

    /// Which profiles fit into `free_bytes`, for a cost per profile: the largest
    /// profiles are kept first. When not one fits, the engine runs eagerly.
    pub fn preflight<F: Fn(&GraphProfile) -> u64>(
        &self,
        free_bytes: u64,
        per_profile_bytes: F,
    ) -> (r: Result<Vec<GraphProfile>, GraphError>)
        requires
            self@.profiles.len() > 0,
            forall|i: int|
                0 <= i < self@.profiles.len() ==> call_requires(
                    per_profile_bytes,
                    (&#[trigger] self@.profiles[i],),
                ),
        ensures
            exists|costs: Seq<u64>| #[trigger]
                costs_of(per_profile_bytes, self@.profiles, costs) && preflight_answer(
                    self@.profiles,
                    costs,
                    free_bytes,
                    r,
                ),
    {
        let mut costs: Vec<u64> = Vec::new();
        let n: usize = self.profiles.len();
        let mut i: usize = 0;
        while i < n
            invariant
                i <= n,
                n == self.profiles@.len(),
                costs@.len() == i,
                forall|j: int|
                    0 <= j < self@.profiles.len() ==> call_requires(
                        per_profile_bytes,
                        (&#[trigger] self@.profiles[j],),
                    ),
                forall|j: int|
                    0 <= j < i ==> call_ensures(
                        per_profile_bytes,
                        (&self.profiles@[j],),
                        #[trigger] costs@[j],
                    ),
            decreases n - i,
        {
            assert(self.profiles@[i as int] == self@.profiles[i as int]);
            let cost: u64 = per_profile_bytes(&self.profiles[i]);
            costs.push(cost);
            i += 1;
        }
        assert(costs_of(per_profile_bytes, self@.profiles, costs@));
        self.preflight_costs(free_bytes, &costs)
    }

    /// [`GraphGovernor::preflight`] once the costs are known, one per profile.
    pub fn preflight_costs(&self, free_bytes: u64, costs: &Vec<u64>) -> (r: Result<
        Vec<GraphProfile>,
        GraphError,
    >)
        requires
            self@.profiles.len() > 0,
            costs@.len() == self@.profiles.len(),
        ensures
            preflight_answer(self@.profiles, costs@, free_bytes, r),
    {
        let n: usize = self.profiles.len();
        let mut kept: Vec<usize> = Vec::new();
        let mut budget: u64 = free_bytes;
        let mut i: usize = n;
        let ghost all = kept_indices(costs@, free_bytes as int);
        proof {
            lemma_kept_in_range(costs@, free_bytes as int);
        }
        assert(costs@.take(n as int) =~= costs@);
        while i > 0
            invariant
                i <= n,
                n == self.profiles@.len(),
                n == costs@.len(),
                all == kept_indices(costs@, free_bytes as int),
                kept_indices(costs@.take(i as int), budget as int).len() + kept@.len() == all.len(),
                kept_indices(costs@.take(i as int), budget as int) == all.take(
                    all.len() - kept@.len(),
                ),
                forall|j: int|
                    0 <= j < kept@.len() ==> #[trigger] kept@[j] == all[all.len() - 1 - j],
            decreases i,
        {
            let ghost before = costs@.take(i as int);
            i -= 1;
            assert(before.drop_last() =~= costs@.take(i as int));
            assert(before.last() == costs@[i as int]);
            let cost: u64 = costs[i];
            if cost <= budget {
                let ghost rest = kept_indices(costs@.take(i as int), budget - cost);
                assert(kept_indices(before, budget as int) == rest.push(i as int));
                assert(rest =~= rest.push(i as int).drop_last());
                assert(all[all.len() - 1 - kept@.len()] == rest.push(i as int).last());
                budget = budget - cost;
                kept.push(i);
                assert(rest =~= all.take(all.len() - kept@.len()));
            }
        }
        assert(costs@.take(0) =~= Seq::empty());
        if kept.len() == 0 {
            let mut needed: u64 = costs[0];
            let mut j: usize = 1;
            while j < n
                invariant
                    1 <= j <= n,
                    n == costs@.len(),
                    costs@.contains(needed),
                    forall|x: int| 0 <= x < j ==> needed <= #[trigger] costs@[x],
                decreases n - j,
            {
                if costs[j] < needed {
                    needed = costs[j];
                }
                j += 1;
            }
            Err(GraphError::DegradedToEager { free_bytes, needed })
        } else {
            let mut list: Vec<GraphProfile> = Vec::new();
            let m: usize = kept.len();
            let mut j: usize = 0;
            while j < m
                invariant
                    j <= m,
                    m == kept@.len(),
                    m == all.len(),
                    n == self.profiles@.len(),
                    n == costs@.len(),
                    forall|x: int| 0 <= x < all.len() ==> 0 <= #[trigger] all[x] < n,
                    forall|x: int|
                        0 <= x < kept@.len() ==> #[trigger] kept@[x] == all[all.len() - 1 - x],
                    list@.len() == j,
                    forall|x: int| 0 <= x < j ==> #[trigger] list@[x] == self.profiles@[all[x]],
                decreases m - j,
            {
                let at: usize = kept[m - 1 - j];
                assert(at == all[j as int]);
                list.push(self.profiles[at].clone());
                j += 1;
            }
            assert(list@ =~= pick(self.profiles@, all));
            Ok(list)
        }
    }

    /// Destroys every graph: the only way from `Live` back to `Idle`.
    pub fn destroy_all(&mut self) -> (r: Result<GraphPhase, GraphError>)
        ensures
            r is Ok <==> old(self)@.admits(GovernorOp::DestroyAll),
            r matches Ok(p) ==> p == GraphPhase::Idle,
            r is Err ==> r->Err_0.is_illegal(
                GraphPhase::Capturing,
                "destroy_all"@,
                "A1.2: 捕获中禁止销毁"@,
            ),
            final(self)@ == old(self)@.step(GovernorOp::DestroyAll),
            old(self)@.wf() ==> final(self)@.wf(),
    {
        match self.phase {
            GraphPhase::Live | GraphPhase::Idle => {
                self.live_graphs = 0;
                self.phase = GraphPhase::Idle;
                Ok(self.phase)
            },
            GraphPhase::Capturing => Err(
                GraphError::IllegalTransition {
                    from: self.phase,
                    op: "destroy_all",
                    law: "A1.2: 捕获中禁止销毁",
                },
            ),
        }
    }
}

/// The kept indices are ascending positions of `costs`.
pub proof fn lemma_kept_in_range(costs: Seq<u64>, budget: int)
    ensures
        kept_indices(costs, budget).len() <= costs.len(),
        forall|x: int|
            0 <= x < kept_indices(costs, budget).len() ==> 0 <= #[trigger] kept_indices(
                costs,
                budget,
            )[x] < costs.len(),
        forall|x: int, y: int|
            0 <= x < y < kept_indices(costs, budget).len() ==> #[trigger] kept_indices(
                costs,
                budget,
            )[x] < #[trigger] kept_indices(costs, budget)[y],
    decreases costs.len(),
{
    if costs.len() > 0 {
        lemma_kept_in_range(costs.drop_last(), budget - costs.last());
        lemma_kept_in_range(costs.drop_last(), budget);
    }
}

proof fn lemma_cost_sum_prefix(costs: Seq<u64>, j: int)
    requires
        0 <= j <= costs.len(),
    ensures
        0 <= cost_sum(costs.take(j)) <= cost_sum(costs),
    decreases costs.len(),
{
    if costs.len() == 0 {
        assert(costs.take(j) =~= costs);
    } else if j == costs.len() {
        assert(costs.take(j) =~= costs);
        lemma_cost_sum_prefix(costs.drop_last(), j - 1);
        assert(costs.drop_last().take(j - 1) =~= costs.drop_last());
    } else {
        lemma_cost_sum_prefix(costs.drop_last(), j);
        assert(costs.drop_last().take(j) =~= costs.take(j));
    }
}

/// Every run keeps the profiles and the budget, and counts a graph in phase
/// `Live` only.
pub proof fn law_runs_stay_well_formed(s: GovernorState, ops: Seq<GovernorOp>)
    requires
        s.wf(),
    ensures
        s.run(ops).wf(),
        s.run(ops).profiles == s.profiles,
        s.run(ops).allowance == s.allowance,
    decreases ops.len(),
{
    if ops.len() > 0 {
        law_runs_stay_well_formed(s, ops.drop_last());
    }
}

/// While a graph is alive no capture is admitted, and only `DestroyAll` ends
/// that: any run without it stays in phase `Live` and refuses `BeginCapture`.
pub proof fn law_live_until_destroyed(s: GovernorState, ops: Seq<GovernorOp>)
    requires
        s.phase == GraphPhase::Live,
        forall|i: int| 0 <= i < ops.len() ==> ops[i] != GovernorOp::DestroyAll,
    ensures
        s.run(ops) == s,
        !s.run(ops).admits(GovernorOp::BeginCapture),
    decreases ops.len(),
{
    if ops.len() > 0 {
        law_live_until_destroyed(s, ops.drop_last());
    }
}

/// Destroying all graphs reopens the window for a capture.
pub proof fn law_destroy_reopens(s: GovernorState)
    requires
        s.phase != GraphPhase::Capturing,
    ensures
        s.step(GovernorOp::DestroyAll).admits(GovernorOp::BeginCapture),
        s.step(GovernorOp::DestroyAll).live_graphs == 0,
{
}

/// What a preflight keeps never costs more than the free bytes.
pub proof fn law_kept_fits(costs: Seq<u64>, budget: int)
    requires
        budget >= 0,
    ensures
        picked_sum(costs, kept_indices(costs, budget)) <= budget,
    decreases costs.len(),
{
    if costs.len() > 0 {
        let rest = costs.drop_last();
        let left = if costs.last() <= budget {
            budget - costs.last()
        } else {
            budget
        };
        law_kept_fits(rest, left);
        let inner = kept_indices(rest, left);
        lemma_kept_in_range(rest, left);
        lemma_picked_sum_prefix(costs, inner);
        if costs.last() <= budget {
            assert(inner.push(costs.len() - 1).drop_last() =~= inner);
        }
    }
}

proof fn lemma_picked_sum_prefix(costs: Seq<u64>, indices: Seq<int>)
    requires
        costs.len() > 0,
        forall|x: int| 0 <= x < indices.len() ==> 0 <= #[trigger] indices[x] < costs.len() - 1,
    ensures
        picked_sum(costs.drop_last(), indices) == picked_sum(costs, indices),
    decreases indices.len(),
{
    if indices.len() > 0 {
        assert forall|x: int| 0 <= x < indices.drop_last().len() implies 0
            <= #[trigger] indices.drop_last()[x] < costs.len() - 1 by {
            assert(indices.drop_last()[x] == indices[x]);
        }
        lemma_picked_sum_prefix(costs, indices.drop_last());
        assert(indices.last() == indices[indices.len() - 1]);
    }
}

/// A preflight degrades exactly when every single profile costs more than the
/// free bytes.
pub proof fn law_degrades_iff_nothing_fits(costs: Seq<u64>, budget: int)
    ensures
        kept_indices(costs, budget).len() == 0 <==> forall|i: int|
            0 <= i < costs.len() ==> #[trigger] costs[i] > budget,
    decreases costs.len(),
{
    if costs.len() > 0 {
        law_degrades_iff_nothing_fits(costs.drop_last(), budget);
        if costs.last() > budget {
            assert forall|i: int|
                (forall|j: int|
                    0 <= j < costs.drop_last().len() ==> #[trigger] costs.drop_last()[j] > budget)
                    && 0 <= i < costs.len() implies #[trigger] costs[i] > budget by {
                if i < costs.len() - 1 {
                    assert(costs.drop_last()[i] == costs[i]);
                }
            }
            if forall|i: int| 0 <= i < costs.len() ==> #[trigger] costs[i] > budget {
                assert forall|j: int| 0 <= j < costs.drop_last().len() implies
                    #[trigger] costs.drop_last()[j] > budget by {
                    assert(costs[j] > budget);
                }
            }
        } else {
            assert(costs[costs.len() - 1] <= budget);
        }
    }
}

/// A degradation names more than there is: the cheapest profile costs more than the
/// free bytes, so with as many bytes as it names one profile would be kept.
pub proof fn law_degradation_names_what_is_missing(costs: Seq<u64>, free_bytes: u64, needed: u64)
    requires
        kept_indices(costs, free_bytes as int).len() == 0,
        is_least(costs, needed),
    ensures
        needed > free_bytes,
        kept_indices(costs, needed as int).len() > 0,
{
    law_degrades_iff_nothing_fits(costs, free_bytes as int);
    law_degrades_iff_nothing_fits(costs, needed as int);
}

/// When all profiles fit together, a preflight keeps them all.
pub proof fn law_all_kept_when_all_fit(costs: Seq<u64>, budget: int)
    requires
        cost_sum(costs) <= budget,
    ensures
        kept_indices(costs, budget) == Seq::new(costs.len(), |i: int| i),
    decreases costs.len(),
{
    if costs.len() > 0 {
        lemma_cost_sum_prefix(costs, costs.len() - 1);
        assert(costs.take(costs.len() - 1) =~= costs.drop_last());
        law_all_kept_when_all_fit(costs.drop_last(), budget - costs.last());
    }
    assert(kept_indices(costs, budget) =~= Seq::new(costs.len(), |i: int| i));
}

} // verus!
