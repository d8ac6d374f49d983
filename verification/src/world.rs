//! The world where the simulated agents live, and the perception window one
//! agent sees it through.
//!
//! A step computes, for every agent against the frozen pre-step roster, a
//! perception window, a decision and a movement, and only then commits the
//! new roster, the tag arbitration and the step counter.  Every per-agent
//! computation is a pure function of the pre-step world and this step's
//! random draws, so the parallel execution mode computes exactly the same
//! step as the sequential one; tag arbitration keeps the request of the last
//! agent, in identifier order, whose target was validated as reachable.

use crate::agent::lemma_viewing_angle_range;
use crate::agent::spec_perform_movement;
use crate::agent::spec_is_reachable;
use crate::agent::spec_is_visible;
use crate::agent::spec_relate;
use crate::agent::Agent;
use crate::agent::AgentRelationShip;
use crate::behavior::lemma_find_id_entry;
use crate::behavior::spec_contains_id;
use crate::behavior::AnyBehavior;
use crate::behavior::Behavior;
use crate::behavior::StepDraws;
use crate::id::Id;
use crate::rng::draw_coin;
use crate::rng::draw_turn_step;
use crate::rng::rng_below;
use crate::types::Vector;
use crate::types::HALF_TURN;
use rayon::iter::IndexedParallelIterator;
use rayon::iter::IntoParallelRefIterator;
use rayon::iter::ParallelIterator;
use vstd::prelude::*;

verus! {

/// A view of the given world, restricted to the perspective of one single
/// agent for one single step.  Both perception sets are computed once, when
/// the view is built, so repeated reads within the same step return the
/// identical result.
pub struct WorldView {
    /// Who is looking.
    pub viewed_by: Id,
    /// The snapshot of the viewing agent.
    pub agent: Agent,
    /// The agent that is currently "it".
    pub it: Id,
    /// The agent that was "it" previously.
    pub previous_it: Id,
    /// Every other agent the viewing agent sees, in identifier order.
    pub visible: Vec<(Id, AgentRelationShip)>,
    /// The visible agents that are also within tag range, in identifier
    /// order.
    pub reachable: Vec<(Id, AgentRelationShip)>,
}

/// The visible-agents sequence of the viewer with index `viewer_idx`,
/// restricted to the other agents with index below `n`: each one, paired
/// with its relationship, that is not the viewer itself and is visible.
pub open spec fn spec_visible_upto(
    agents: Seq<Agent>,
    viewer: Agent,
    viewer_idx: int,
    n: int,
) -> Seq<(Id, AgentRelationShip)>
    decreases n,
{
    if n <= 0 {
        Seq::empty()
    } else {
        let prefix = spec_visible_upto(agents, viewer, viewer_idx, n - 1);
        let other = n - 1;
        let relationship = spec_relate(viewer, agents[other]);
        if other != viewer_idx && spec_is_visible(relationship) {
            prefix.push((Id(other as u32), relationship))
        } else {
            prefix
        }
    }
}

/// The full visible-agents sequence of the agent with index `i`.
pub open spec fn spec_visible_seq(agents: Seq<Agent>, i: int) -> Seq<(Id, AgentRelationShip)> {
    spec_visible_upto(agents, agents[i], i, agents.len() as int)
}

/// The reachable entries among the first `n` entries of a visible-agents
/// sequence.
pub open spec fn spec_filter_reachable_upto(s: Seq<(Id, AgentRelationShip)>, n: int) -> Seq<
    (Id, AgentRelationShip),
>
    decreases n,
{
    if n <= 0 {
        Seq::empty()
    } else {
        let prefix = spec_filter_reachable_upto(s, n - 1);
        if spec_is_reachable(s[n - 1].1) {
            prefix.push(s[n - 1])
        } else {
            prefix
        }
    }
}

/// The full reachable-agents sequence of the agent with index `i`: the
/// visible sequence filtered by reach.
pub open spec fn spec_reachable_seq(agents: Seq<Agent>, i: int) -> Seq<(Id, AgentRelationShip)> {
    spec_filter_reachable_upto(spec_visible_seq(agents, i), spec_visible_seq(agents, i).len() as int)
}

impl WorldView {
    /// What every behavior may rely on: the viewing agent is well-formed and
    /// every recorded direction is a canonical signed angle.
    pub open spec fn wf(self) -> bool {
        &&& self.agent.wf()
        &&& forall|k: int|
            0 <= k < self.visible@.len() ==> -HALF_TURN <= (#[trigger] self.visible@[k]).1.direction
                <= HALF_TURN
        &&& forall|k: int|
            0 <= k < self.reachable@.len() ==> -HALF_TURN <= (
            #[trigger] self.reachable@[k]).1.direction <= HALF_TURN
    }

    /// [`Id`] of the viewing agent.
    pub fn our_id(&self) -> (r: Id)
        ensures
            r == self.viewed_by,
    {
        self.viewed_by
    }

    /// [`Agent`] of the viewing agent.
    pub fn our_agent(&self) -> (r: &Agent)
        ensures
            *r == self.agent,
    {
        &self.agent
    }

    /// [`Id`] of the agent that is "it".
    pub fn current_it(&self) -> (r: Id)
        ensures
            r == self.it,
    {
        self.it
    }

    /// [`Id`] of the agent that was "it" previously.
    pub fn previous_it(&self) -> (r: Id)
        ensures
            r == self.previous_it,
    {
        self.previous_it
    }

    /// The agents that are visible from the perspective of the viewing
    /// agent, in identifier order.  The data is collected when the view is
    /// built, so every read within the same step sees the same sequence.
    pub fn visible_agents(&self) -> (r: &Vec<(Id, AgentRelationShip)>)
        ensures
            r@ == self.visible@,
    {
        &self.visible
    }

    /// The agents that are reachable from the perspective of the viewing
    /// agent: exactly the visible ones within tag range, in identifier
    /// order.
    pub fn reachable_agents(&self) -> (r: &Vec<(Id, AgentRelationShip)>)
        ensures
            r@ == self.reachable@,
    {
        &self.reachable
    }
}

/// The world where the simulated agents live and where all the simulation
/// happens.
pub struct World {
    /// Which iteration step the world is in.
    pub iteration: usize,
    /// The agents, indexed by their [`Id`].
    pub agents: Vec<Agent>,
    /// One decision strategy per agent, under the same index.
    pub behaviors: Vec<AnyBehavior>,
    /// The extents of the arena.
    pub bounds: Vector,
    /// The agent that is "it".
    pub it: Id,
    /// The agent that was "it" previously.
    pub previous_it: Id,
    /// Whether a step fans the per-agent work out across a worker pool.
    pub simulate_in_parallel: bool,
}

impl World {
    /// The world's invariant: valid bounds, one behavior per agent, a
    /// non-empty roster whose indices fit the identifier width, valid "it"
    /// roles, and every agent well-formed and inside the arena.
    pub open spec fn wf(self) -> bool {
        &&& self.bounds.spec_valid_bounds()
        &&& self.agents@.len() == self.behaviors@.len()
        &&& 0 < self.agents@.len() <= u32::MAX
        &&& self.it.idx() < self.agents@.len()
        &&& self.previous_it.idx() < self.agents@.len()
        &&& forall|k: int|
            0 <= k < self.agents@.len() ==> (#[trigger] self.agents@[k]).wf() && self.agents@[k].inside(
                self.bounds,
            )
    }

    /// Builds the perception window of one agent against the current
    /// roster.
    pub fn world_view(&self, id: Id) -> (r: WorldView)
        requires
            self.wf(),
            id.idx() < self.agents@.len(),
        ensures
            r.viewed_by == id,
            r.agent == self.agents@[id.idx()],
            r.it == self.it,
            r.previous_it == self.previous_it,
            r.visible@ == spec_visible_seq(self.agents@, id.idx()),
            r.reachable@ == spec_reachable_seq(self.agents@, id.idx()),
            r.wf(),
    {
        let my_idx = id.as_usize();
        let me = self.agents[my_idx];
        let n = self.agents.len();

        let mut visible: Vec<(Id, AgentRelationShip)> = Vec::new();
        let mut other: usize = 0;
        while other < n
            invariant
                other <= n,
                n == self.agents@.len(),
                self.wf(),
                my_idx == id.idx(),
                my_idx < n,
                me == self.agents@[my_idx as int],
                visible@ == spec_visible_upto(self.agents@, me, my_idx as int, other as int),
                forall|k: int|
                    0 <= k < visible@.len() ==> -HALF_TURN <= (#[trigger] visible@[k]).1.direction
                        <= HALF_TURN,
            decreases n - other,
        {
            if other != my_idx {
                let relationship = me.relate_to(&self.agents[other]);
                if relationship.is_visible() {
                    proof {
                        lemma_viewing_angle_range(me, self.agents@[other as int]);
                    }
                    visible.push((Id(other as u32), relationship));
                }
            }
            other += 1;
        }

        let visible_count = visible.len();
        let mut reachable: Vec<(Id, AgentRelationShip)> = Vec::new();
        let mut k: usize = 0;
        while k < visible_count
            invariant
                k <= visible_count,
                visible_count == visible@.len(),
                reachable@ == spec_filter_reachable_upto(visible@, k as int),
                forall|j: int|
                    0 <= j < visible@.len() ==> -HALF_TURN <= (#[trigger] visible@[j]).1.direction
                        <= HALF_TURN,
                forall|j: int|
                    0 <= j < reachable@.len() ==> -HALF_TURN <= (
                    #[trigger] reachable@[j]).1.direction <= HALF_TURN,
            decreases visible_count - k,
        {
            let entry = visible[k];
            if entry.1.is_reachable() {
                reachable.push(entry);
            }
            k += 1;
        }

        WorldView { viewed_by: id, agent: me, it: self.it, previous_it: self.previous_it, visible, reachable }
    }
}

/// What one entry of a visible-agents sequence looks like: another agent's
/// index below `n`, never the viewer's own, paired with the viewer's
/// relationship to that agent, which is visible.
pub open spec fn visible_entry_ok(
    agents: Seq<Agent>,
    viewer: Agent,
    viewer_idx: int,
    n: int,
    e: (Id, AgentRelationShip),
) -> bool {
    &&& 0 <= e.0.idx() < n
    &&& e.0.idx() != viewer_idx
    &&& e.1 == spec_relate(viewer, agents[e.0.idx()])
    &&& spec_is_visible(e.1)
}

/// Every entry of a visible-agents sequence is a well-formed entry.
pub proof fn lemma_visible_upto_entries(agents: Seq<Agent>, viewer: Agent, viewer_idx: int, n: int)
    requires
        0 <= n <= agents.len() <= u32::MAX,
    ensures
        forall|k: int|
            0 <= k < spec_visible_upto(agents, viewer, viewer_idx, n).len() ==> visible_entry_ok(
                agents,
                viewer,
                viewer_idx,
                n,
                #[trigger] spec_visible_upto(agents, viewer, viewer_idx, n)[k],
            ),
    decreases n,
{
    if n > 0 {
        lemma_visible_upto_entries(agents, viewer, viewer_idx, n - 1);
        let prefix = spec_visible_upto(agents, viewer, viewer_idx, n - 1);
        let whole = spec_visible_upto(agents, viewer, viewer_idx, n);
        let other = n - 1;
        let relationship = spec_relate(viewer, agents[other]);
        if other != viewer_idx && spec_is_visible(relationship) {
            assert(whole == prefix.push((Id(other as u32), relationship)));
            assert forall|k: int| 0 <= k < whole.len() implies visible_entry_ok(
                agents,
                viewer,
                viewer_idx,
                n,
                whole[k],
            ) by {
                if k < prefix.len() {
                    assert(whole[k] == prefix[k]);
                    assert(visible_entry_ok(agents, viewer, viewer_idx, n - 1, prefix[k]));
                } else {
                    assert(whole[k] == (Id(other as u32), relationship));
                }
            }
        } else {
            assert(whole == prefix);
        }
    }
}

/// Every entry of a filtered sequence is an entry of the original sequence,
/// and is reachable.
pub proof fn lemma_filter_reachable_entries(s: Seq<(Id, AgentRelationShip)>, n: int)
    requires
        0 <= n <= s.len(),
    ensures
        forall|k: int|
            0 <= k < spec_filter_reachable_upto(s, n).len() ==> s.contains(
                #[trigger] spec_filter_reachable_upto(s, n)[k],
            ) && spec_is_reachable(spec_filter_reachable_upto(s, n)[k].1),
    decreases n,
{
    if n > 0 {
        lemma_filter_reachable_entries(s, n - 1);
        let prefix = spec_filter_reachable_upto(s, n - 1);
        let whole = spec_filter_reachable_upto(s, n);
        if spec_is_reachable(s[n - 1].1) {
            assert(whole == prefix.push(s[n - 1]));
            assert forall|k: int| 0 <= k < whole.len() implies s.contains(whole[k])
                && spec_is_reachable(whole[k].1) by {
                if k < prefix.len() {
                    assert(whole[k] == prefix[k]);
                } else {
                    assert(whole[k] == s[n - 1]);
                    assert(0 <= n - 1 < s.len() && s[n - 1] == s[n - 1]);
                }
            }
        } else {
            assert(whole == prefix);
        }
    }
}

/// A tag target that is reachable for agent `i` names a real agent other
/// than `i` itself.
pub proof fn lemma_reachable_entry_bounds(agents: Seq<Agent>, i: int, target: Id)
    requires
        0 <= i < agents.len() <= u32::MAX,
        spec_contains_id(spec_reachable_seq(agents, i), target),
    ensures
        0 <= target.idx() < agents.len(),
        target.idx() != i,
{
    let vis = spec_visible_seq(agents, i);
    let reach = spec_reachable_seq(agents, i);
    let rel = crate::behavior::spec_find_id(reach, target, 0)->0;
    lemma_find_id_entry(reach, target, 0);
    let k = choose|k: int| 0 <= k < reach.len() && reach[k] == (target, rel);
    lemma_filter_reachable_entries(vis, vis.len() as int);
    assert(vis.contains(reach[k]));
    let j = choose|j: int| 0 <= j < vis.len() && vis[j] == (target, rel);
    lemma_visible_upto_entries(agents, agents[i], i, agents.len() as int);
    assert(visible_entry_ok(agents, agents[i], i, agents.len() as int, vis[j]));
}

/// The perception window never contains the viewing agent itself, and the
/// reachable set is a subset of the visible set.
pub proof fn lemma_perception(agents: Seq<Agent>, i: int)
    requires
        0 <= i < agents.len() <= u32::MAX,
    ensures
        forall|k: int|
            0 <= k < spec_visible_seq(agents, i).len() ==> (#[trigger] spec_visible_seq(agents, i)[k]).0.idx()
                != i,
        forall|k: int|
            0 <= k < spec_reachable_seq(agents, i).len() ==> spec_visible_seq(agents, i).contains(
                #[trigger] spec_reachable_seq(agents, i)[k],
            ),
{
    lemma_visible_upto_entries(agents, agents[i], i, agents.len() as int);
    lemma_filter_reachable_entries(
        spec_visible_seq(agents, i),
        spec_visible_seq(agents, i).len() as int,
    );
}

/// The random draws of a whole step, one entry per agent, all in range.
pub open spec fn wf_draws(draws: Seq<StepDraws>) -> bool {
    forall|k: int| 0 <= k < draws.len() ==> (#[trigger] draws[k]).wf()
}

/// What one step does for the agent with index `i` of world `w`, given that
/// agent's random draws: the new agent snapshot, the successor state of its
/// behavior, and its validated tag request.  A tag request is accepted only
/// if the named agent is in the requester's reachable set — the engine never
/// trusts the behavior's own bookkeeping.
pub open spec fn spec_step_agent(w: World, i: int, draws: StepDraws) -> (
    Agent,
    AnyBehavior,
    Option<Id>,
) {
    let visible = spec_visible_seq(w.agents@, i);
    let reachable = spec_reachable_seq(w.agents@, i);
    let me = w.agents@[i];
    let stepped = w.behaviors@[i].spec_step(
        Id(i as u32),
        me,
        w.it,
        w.previous_it,
        visible,
        reachable,
        draws,
    );
    let operation = stepped.0;
    let accepted = match operation.tag {
        Some(tagged_id) => if spec_contains_id(reachable, tagged_id) {
            Some(tagged_id)
        } else {
            None
        },
        None => None,
    };
    (
        spec_perform_movement(me, w.bounds, operation.velocity as int, operation.direction as int),
        stepped.1,
        accepted,
    )
}

/// The pending next "it" after the first `i` agents have been processed: the
/// validated tag request of the last requester in identifier order, if any.
pub open spec fn spec_pending(w: World, draws: Seq<StepDraws>, i: int) -> Option<Id>
    decreases i,
{
    if i <= 0 {
        None
    } else {
        match spec_step_agent(w, i - 1, draws[i - 1]).2 {
            Some(tagged_id) => Some(tagged_id),
            None => spec_pending(w, draws, i - 1),
        }
    }
}

/// How one simulation step relates the world before it to the world after
/// it, given the random draws of the step: every agent and behavior is
/// replaced by its per-agent step result against the frozen pre-step roster,
/// the "it" role advances exactly when some validated tag request is
/// pending, and the iteration counter increases by one.  The relation does
/// not depend on the execution mode.
pub open spec fn world_steps(pre: World, draws: Seq<StepDraws>, post: World) -> bool {
    let n = pre.agents@.len() as int;
    &&& draws.len() == n
    &&& post.bounds == pre.bounds
    &&& post.simulate_in_parallel == pre.simulate_in_parallel
    &&& post.iteration == pre.iteration + 1
    &&& post.agents@.len() == n
    &&& post.behaviors@.len() == n
    &&& forall|i: int|
        0 <= i < n ==> #[trigger] post.agents@[i] == spec_step_agent(pre, i, draws[i]).0
    &&& forall|i: int|
        0 <= i < n ==> #[trigger] post.behaviors@[i] == spec_step_agent(pre, i, draws[i]).1
    &&& match spec_pending(pre, draws, n) {
        Some(next_it) => post.it == next_it && post.previous_it == pre.it,
        None => post.it == pre.it && post.previous_it == pre.previous_it,
    }
}

/// The result of one agent's step: its new snapshot, its behavior's
/// successor state, and its validated tag request.
#[derive(Clone, Copy)]
struct AgentStep {
    agent: Agent,
    behavior: AnyBehavior,
    tag: Option<Id>,
}

/// The step result recorded for agent `i` is exactly what
/// [`spec_step_agent`] names, with the bookkeeping facts the commit needs.
spec fn agent_step_matches(w: World, i: int, draws: StepDraws, s: AgentStep) -> bool {
    &&& s.agent == spec_step_agent(w, i, draws).0
    &&& s.behavior == spec_step_agent(w, i, draws).1
    &&& s.tag == spec_step_agent(w, i, draws).2
    &&& s.agent.wf()
    &&& s.agent.inside(w.bounds)
    &&& (s.tag matches Some(t) ==> 0 <= t.idx() < w.agents@.len())
}

impl World {
    /// Simulates one single agent against the frozen pre-step roster:
    /// builds its perception window, asks its behavior for an operation,
    /// validates the tag request against the reachable set, and computes the
    /// movement.
    fn simulate_agent(&self, agent_index: usize, draws: StepDraws) -> (r: AgentStep)
        requires
            self.wf(),
            agent_index < self.agents@.len(),
            draws.wf(),
        ensures
            agent_step_matches(*self, agent_index as int, draws, r),
    {
        let id = Id(agent_index as u32);
        let world_view = self.world_view(id);
        let mut behavior = self.behaviors[agent_index];
        let operation = behavior.perform_step(&world_view, draws);

        // If the agent wants to tag someone, check if it is allowed and if
        // so, keep the candidate next "it"
        let accepted: Option<Id> = match operation.tag {
            Some(tagged_id) => {
                if crate::behavior::find_id(&world_view.reachable, tagged_id).is_some() {
                    proof {
                        lemma_reachable_entry_bounds(self.agents@, agent_index as int, tagged_id);
                    }
                    Some(tagged_id)
                } else {
                    None
                }
            },
            None => None,
        };

        let agent = world_view.agent.perform_movement(
            self.bounds,
            operation.velocity,
            operation.direction,
        );
        AgentStep { agent, behavior, tag: accepted }
    }

    /// Computes every agent's step on the calling thread, in identifier
    /// order.
    fn compute_steps_sequential(&self, draws: &Vec<StepDraws>) -> (r: Vec<AgentStep>)
        requires
            self.wf(),
            draws@.len() == self.agents@.len(),
            wf_draws(draws@),
        ensures
            r@.len() == self.agents@.len(),
            forall|k: int|
                0 <= k < r@.len() ==> agent_step_matches(*self, k, draws@[k], #[trigger] r@[k]),
    {
        let n = self.agents.len();
        let mut results: Vec<AgentStep> = Vec::new();
        let mut i: usize = 0;
        while i < n
            invariant
                i <= n,
                n == self.agents@.len(),
                self.wf(),
                draws@.len() == n,
                wf_draws(draws@),
                results@.len() == i,
                forall|k: int|
                    0 <= k < i ==> agent_step_matches(*self, k, draws@[k], #[trigger] results@[k]),
            decreases n - i,
        {
            results.push(self.simulate_agent(i, draws[i]));
            i += 1;
        }
        results
    }

    /// Relies on rayon's indexed parallel iterators: `par_iter` over the
    /// draws, `enumerate`, `map` and `collect` produce one entry per input
    /// in the input's order, and the mapped closure only calls the verified
    /// `simulate_agent` on the frozen pre-step world.
    #[verifier::external_body]
    fn compute_steps_parallel(&self, draws: &Vec<StepDraws>) -> (r: Vec<AgentStep>)
        requires
            self.wf(),
            draws@.len() == self.agents@.len(),
            wf_draws(draws@),
        ensures
            r@.len() == self.agents@.len(),
            forall|k: int|
                0 <= k < r@.len() ==> agent_step_matches(*self, k, draws@[k], #[trigger] r@[k]),
    {
        draws
            .par_iter()
            .enumerate()
            .map(|(agent_index, step_draws)| self.simulate_agent(agent_index, *step_draws))
            .collect()
    }

    /// Runs one single step of the simulation with the given per-agent
    /// random draws: exactly the step relation [`world_steps`] names, so the
    /// outcome is the same in both execution modes.
    #[verifier::rlimit(60)]
    pub fn simulate_step_with_draws(&mut self, draws: &Vec<StepDraws>)
        requires
            old(self).wf(),
            draws@.len() == old(self).agents@.len(),
            wf_draws(draws@),
            old(self).iteration < usize::MAX,
        ensures
            world_steps(*old(self), draws@, *final(self)),
            final(self).wf(),
    {
        let ghost w0 = *self;
        let results = if self.simulate_in_parallel {
            self.compute_steps_parallel(draws)
        } else {
            self.compute_steps_sequential(draws)
        };

        let n = self.agents.len();
        let mut new_agents: Vec<Agent> = Vec::new();
        let mut new_behaviors: Vec<AnyBehavior> = Vec::new();
        let mut pending: Option<Id> = None;
        let mut i: usize = 0;
        while i < n
            invariant
                i <= n,
                n == w0.agents@.len(),
                results@.len() == n,
                draws@.len() == n,
                forall|k: int|
                    0 <= k < n ==> agent_step_matches(w0, k, draws@[k], #[trigger] results@[k]),
                new_agents@.len() == i,
                new_behaviors@.len() == i,
                forall|k: int|
                    0 <= k < i ==> #[trigger] new_agents@[k] == spec_step_agent(
                        w0,
                        k,
                        draws@[k],
                    ).0,
                forall|k: int|
                    0 <= k < i ==> #[trigger] new_behaviors@[k] == spec_step_agent(
                        w0,
                        k,
                        draws@[k],
                    ).1,
                forall|k: int|
                    0 <= k < i ==> (#[trigger] new_agents@[k]).wf() && new_agents@[k].inside(
                        w0.bounds,
                    ),
                pending == spec_pending(w0, draws@, i as int),
                pending matches Some(t) ==> 0 <= t.idx() < n,
            decreases n - i,
        {
            let step = results[i];
            new_agents.push(step.agent);
            new_behaviors.push(step.behavior);
            if let Some(tagged_id) = step.tag {
                pending = Some(tagged_id);
            }
            i += 1;
        }

        self.agents = new_agents;
        self.behaviors = new_behaviors;
        if let Some(next_it) = pending {
            self.previous_it = self.it;
            self.it = next_it;
        }
        self.iteration = self.iteration + 1;
    }

    /// Runs one single step of the simulation, drawing each agent's
    /// randomness from the thread's generator first and then advancing by
    /// the deterministic step relation.
    pub fn simulate_step(&mut self)
        requires
            old(self).wf(),
            old(self).iteration < usize::MAX,
        ensures
            final(self).wf(),
            final(self).iteration == old(self).iteration + 1,
            final(self).agents@.len() == old(self).agents@.len(),
            exists|ds: Seq<StepDraws>|
                #[trigger] world_steps(*old(self), ds, *final(self)) && wf_draws(ds),
    {
        let n = self.agents.len();
        let mut draws: Vec<StepDraws> = Vec::new();
        let mut i: usize = 0;
        while i < n
            invariant
                i <= n,
                draws@.len() == i,
                wf_draws(draws@),
            decreases n - i,
        {
            draws.push(StepDraws { turn: draw_turn_step(), coin: draw_coin() });
            i += 1;
        }
        self.simulate_step_with_draws(&draws);
    }

    /// Which iteration step the world is in.
    pub fn iteration(&self) -> (r: usize)
        ensures
            r == self.iteration,
    {
        self.iteration
    }

    /// Snapshots the world as it is right now.
    pub fn snapshot(&self) -> (r: WorldSnapshot)
        ensures
            r.agents@ == self.agents@,
            r.iteration == self.iteration,
            r.it == self.it,
            r.previous_it == self.previous_it,
    {
        let n = self.agents.len();
        let mut agents: Vec<Agent> = Vec::new();
        let mut i: usize = 0;
        while i < n
            invariant
                i <= n,
                n == self.agents@.len(),
                agents@.len() == i,
                forall|k: int| 0 <= k < i ==> #[trigger] agents@[k] == self.agents@[k],
            decreases n - i,
        {
            agents.push(self.agents[i]);
            i += 1;
        }
        proof {
            assert(agents@ =~= self.agents@);
        }
        WorldSnapshot { agents, iteration: self.iteration, it: self.it, previous_it: self.previous_it }
    }

    /// Randomly generates a world: `agent_count` agents with random
    /// positions and headings, one behavior instance per agent built from
    /// the template, and a uniformly random initial "it".
    pub fn random(
        bounds: Vector,
        agent_count: usize,
        behavior_template: AnyBehavior,
        simulate_in_parallel: bool,
        random_generator: &mut rand::rngs::SmallRng,
    ) -> (r: Result<World, CreationError>)
        requires
            bounds.spec_valid_bounds(),
        ensures
            agent_count == 0 ==> (r matches Err(e) && e == CreationError::NoAgents),
            agent_count > u32::MAX ==> (r matches Err(e) && e == CreationError::TooManyAgents),
            r is Ok <==> 0 < agent_count <= u32::MAX,
            r matches Ok(w) ==> {
                &&& w.wf()
                &&& w.agents@.len() == agent_count
                &&& w.iteration == 0
                &&& w.bounds == bounds
                &&& w.simulate_in_parallel == simulate_in_parallel
                &&& w.previous_it == w.it
                &&& forall|k: int|
                    0 <= k < agent_count ==> #[trigger] w.behaviors@[k] == behavior_template
            },
    {
        if agent_count == 0 {
            return Err(CreationError::NoAgents);
        }
        if agent_count > u32::MAX as usize {
            return Err(CreationError::TooManyAgents);
        }

        let mut agents: Vec<Agent> = Vec::new();
        let mut i: usize = 0;
        while i < agent_count
            invariant
                i <= agent_count,
                bounds.spec_valid_bounds(),
                agents@.len() == i,
                forall|k: int|
                    0 <= k < i ==> (#[trigger] agents@[k]).wf() && agents@[k].inside(bounds),
            decreases agent_count - i,
        {
            agents.push(Agent::random(bounds, random_generator));
            i += 1;
        }

        let mut behaviors: Vec<AnyBehavior> = Vec::new();
        let mut j: usize = 0;
        while j < agent_count
            invariant
                j <= agent_count,
                behaviors@.len() == j,
                forall|k: int| 0 <= k < j ==> #[trigger] behaviors@[k] == behavior_template,
            decreases agent_count - j,
        {
            behaviors.push(behavior_template);
            j += 1;
        }

        let it = Id(rng_below(random_generator, agent_count as u64) as u32);
        Ok(
            World {
                iteration: 0,
                agents,
                behaviors,
                bounds,
                it,
                previous_it: it,
                simulate_in_parallel,
            },
        )
    }

    /// Builds a world from explicitly given agents and behaviors; the same
    /// count validation as in [`World::random`], plus a check that the
    /// initial "it" names one of the agents.
    pub fn new(
        bounds: Vector,
        agents: Vec<Agent>,
        behaviors: Vec<AnyBehavior>,
        it: Id,
        simulate_in_parallel: bool,
    ) -> (r: Result<World, CreationError>)
        requires
            bounds.spec_valid_bounds(),
            agents@.len() == behaviors@.len(),
            forall|k: int|
                0 <= k < agents@.len() ==> (#[trigger] agents@[k]).wf() && agents@[k].inside(
                    bounds,
                ),
        ensures
            agents@.len() == 0 ==> (r matches Err(e) && e == CreationError::NoAgents),
            agents@.len() > u32::MAX ==> (r matches Err(e) && e == CreationError::TooManyAgents),
            0 < agents@.len() <= u32::MAX && it.idx() >= agents@.len() ==> (r matches Err(e) && e
                == CreationError::InvalidIt),
            r is Ok <==> (0 < agents@.len() <= u32::MAX && it.idx() < agents@.len()),
            r matches Ok(w) ==> w == (World {
                iteration: 0,
                agents,
                behaviors,
                bounds,
                it,
                previous_it: it,
                simulate_in_parallel,
            }) && w.wf(),
    {
        if agents.len() == 0 {
            return Err(CreationError::NoAgents);
        }
        if agents.len() > u32::MAX as usize {
            return Err(CreationError::TooManyAgents);
        }
        if it.as_usize() >= agents.len() {
            return Err(CreationError::InvalidIt);
        }
        Ok(
            World {
                iteration: 0,
                agents,
                behaviors,
                bounds,
                it,
                previous_it: it,
                simulate_in_parallel,
            },
        )
    }
}

/// A snapshot of a single iteration of the simulation, safe to retain
/// independently of the world's subsequent mutation.
pub struct WorldSnapshot {
    pub agents: Vec<Agent>,
    pub iteration: usize,
    pub it: Id,
    pub previous_it: Id,
}

/// The engine revalidates every tag request: a step's accepted tag always
/// names an agent that was in the requester's reachable set at the moment of
/// the call — so a request naming an unreachable agent is dropped and has no
/// effect on the "it" roles.
pub proof fn lemma_step_agent_validates_tags(w: World, i: int, draws: StepDraws)
    requires
        0 <= i < w.agents@.len() <= u32::MAX,
    ensures
        spec_step_agent(w, i, draws).2 matches Some(t) ==> spec_contains_id(
            spec_reachable_seq(w.agents@, i),
            t,
        ) && 0 <= t.idx() < w.agents@.len() && t.idx() != i,
{
    if spec_step_agent(w, i, draws).2 is Some {
        let target = spec_step_agent(w, i, draws).2->0;
        lemma_reachable_entry_bounds(w.agents@, i, target);
    }
}

proof fn lemma_pending_none(w: World, draws: Seq<StepDraws>, i: int)
    requires
        0 <= i,
        forall|k: int| 0 <= k < i ==> (#[trigger] spec_step_agent(w, k, draws[k]).2) is None,
    ensures
        spec_pending(w, draws, i) is None,
    decreases i,
{
    if i > 0 {
        lemma_pending_none(w, draws, i - 1);
    }
}

/// A step in which no agent's tag request was validated leaves the "it"
/// roles unchanged.
pub proof fn lemma_no_valid_tag_keeps_roles(pre: World, draws: Seq<StepDraws>, post: World)
    requires
        world_steps(pre, draws, post),
        forall|i: int|
            0 <= i < pre.agents@.len() ==> (#[trigger] spec_step_agent(pre, i, draws[i]).2)
                is None,
    ensures
        post.it == pre.it,
        post.previous_it == pre.previous_it,
{
    lemma_pending_none(pre, draws, pre.agents@.len() as int);
}

/// A run of several steps: the step relation applied once per entry of the
/// draw list.
pub open spec fn world_runs(pre: World, draw_list: Seq<Seq<StepDraws>>, post: World) -> bool
    decreases draw_list.len(),
{
    if draw_list.len() <= 0 {
        post == pre
    } else {
        exists|mid: World|
            #[trigger] world_steps(pre, draw_list[0], mid) && world_runs(
                mid,
                draw_list.drop_first(),
                post,
            )
    }
}

/// After exactly `k` steps the iteration counter has grown by exactly `k`,
/// and the roster still holds exactly the original number of agents.
pub proof fn lemma_run_counts(pre: World, draw_list: Seq<Seq<StepDraws>>, post: World)
    requires
        world_runs(pre, draw_list, post),
    ensures
        post.iteration == pre.iteration + draw_list.len(),
        post.agents@.len() == pre.agents@.len(),
    decreases draw_list.len(),
{
    if draw_list.len() > 0 {
        let mid = choose|mid: World|
            #[trigger] world_steps(pre, draw_list[0], mid) && world_runs(
                mid,
                draw_list.drop_first(),
                post,
            );
        lemma_run_counts(mid, draw_list.drop_first(), post);
    }
}

/// Everything of two worlds that the step relation can see — all but the
/// execution-mode flag.
pub open spec fn same_simulation_state(a: World, b: World) -> bool {
    &&& a.iteration == b.iteration
    &&& a.agents@ == b.agents@
    &&& a.behaviors@ == b.behaviors@
    &&& a.bounds == b.bounds
    &&& a.it == b.it
    &&& a.previous_it == b.previous_it
}

proof fn lemma_pending_same(a: World, b: World, draws: Seq<StepDraws>, i: int)
    requires
        same_simulation_state(a, b),
        0 <= i,
    ensures
        spec_pending(a, draws, i) == spec_pending(b, draws, i),
    decreases i,
{
    if i > 0 {
        lemma_pending_same(a, b, draws, i - 1);
        assert(spec_step_agent(a, i - 1, draws[i - 1]) == spec_step_agent(b, i - 1, draws[i - 1]));
    }
}

/// Sequential and parallel execution run the very same step relation: two
/// worlds that agree on everything but the execution-mode flag and that take
/// one step with the same random draws agree again on everything but the
/// flag — roster, behaviors and "it" transitions included.
pub proof fn lemma_execution_mode_immaterial(
    pre_a: World,
    pre_b: World,
    draws: Seq<StepDraws>,
    post_a: World,
    post_b: World,
)
    requires
        same_simulation_state(pre_a, pre_b),
        world_steps(pre_a, draws, post_a),
        world_steps(pre_b, draws, post_b),
    ensures
        same_simulation_state(post_a, post_b),
{
    let n = pre_a.agents@.len() as int;
    assert forall|i: int| 0 <= i < n implies spec_step_agent(pre_a, i, draws[i])
        == spec_step_agent(pre_b, i, draws[i]) by {}
    assert forall|i: int| 0 <= i < n implies post_a.agents@[i] == post_b.agents@[i] by {
        assert(post_a.agents@[i] == spec_step_agent(pre_a, i, draws[i]).0);
        assert(post_b.agents@[i] == spec_step_agent(pre_b, i, draws[i]).0);
    }
    assert forall|i: int| 0 <= i < n implies post_a.behaviors@[i] == post_b.behaviors@[i] by {
        assert(post_a.behaviors@[i] == spec_step_agent(pre_a, i, draws[i]).1);
        assert(post_b.behaviors@[i] == spec_step_agent(pre_b, i, draws[i]).1);
    }
    assert(post_a.agents@ =~= post_b.agents@);
    assert(post_a.behaviors@ =~= post_b.behaviors@);
    lemma_pending_same(pre_a, pre_b, draws, n);
}

/// Why a world could not be constructed.
#[derive(Clone, Copy, Debug, PartialEq, Eq, Structural)]
pub enum CreationError {
    /// No agents were requested, so there is nobody to be "it".
    NoAgents,
    /// More agents were requested than identifiers exist.
    TooManyAgents,
    /// The requested initial "it" does not name an agent.
    InvalidIt,
}

} // verus!
