//! Decision strategies: how one agent turns its perception of the world into
//! a movement for this step.
//!
//! There is exactly one behavior instance per agent, and a behavior may hold
//! private state across steps.  A step is a pure function of the behavior's
//! state, the perception window and the random draws made for this agent and
//! step, which is what makes the engine's parallel mode interchangeable with
//! its sequential mode.

use crate::agent::AgentRelationShip;
use crate::agent::MAXIMUM_VELOCITY;
use crate::id::Id;
use crate::types::HALF_TURN;
use crate::world::WorldView;
use vstd::prelude::*;

pub mod chasing;
pub mod default;
pub mod runaway;

verus! {

/// The random turn bias added to most movements, per unit drawn, in
/// milli-degrees (10 degrees).
pub const TURN_STEP_ANGLE: i64 = 10_000;

/// The fixed turn an "it" agent makes to scan for others when nobody is
/// visible, in milli-degrees (20 degrees).
pub const SCAN_ANGLE: i64 = 20_000;

/// Operation to be performed by an agent in a simulation step.
#[derive(Clone, Copy, Debug)]
pub struct Operation {
    /// Direction to move in, in milli-degrees.
    pub direction: i64,
    /// Velocity to move with, in milli-units per step.  This is clamped to
    /// the maximum allowed velocity by the engine.
    pub velocity: i64,
    /// Which [`Id`] to tag.  This is ignored by the engine unless the tagged
    /// agent is reachable by the agent performing the operation.
    pub tag: Option<Id>,
}

/// The random draws made for one agent for one simulation step.
#[derive(Clone, Copy, Debug)]
pub struct StepDraws {
    /// Turn bias drawn from `-1..=2`, in units of [`TURN_STEP_ANGLE`];
    /// skewed toward one sign so agents do not get stuck at walls.
    pub turn: i64,
    /// A coin flip, used by strategies that pick a side once and remember it.
    pub coin: bool,
}

impl StepDraws {
    /// The turn bias stays in the range it is drawn from.
    pub open spec fn wf(self) -> bool {
        -1 <= self.turn <= 2
    }
}

/// This trait needs to be implemented to give an agent a behavior.  The
/// [`WorldView`] is the agent's window into the world upon which it makes its
/// decision, and the [`Operation`] for the step is returned.
///
/// Every implementation is deterministic: `spec_step` names the exact
/// operation and successor state that `perform_step` produces from the
/// perception window and this step's random draws.
pub trait Behavior: Sized {
    /// The operation and successor state this behavior produces.
    spec fn spec_step(
        self,
        viewed_by: Id,
        agent: crate::agent::Agent,
        it: Id,
        previous_it: Id,
        visible: Seq<(Id, AgentRelationShip)>,
        reachable: Seq<(Id, AgentRelationShip)>,
        draws: StepDraws,
    ) -> (Operation, Self);

    /// Performs one step of this behavior.
    fn perform_step(&mut self, world_view: &WorldView, draws: StepDraws) -> (op: Operation)
        requires
            world_view.wf(),
            draws.wf(),
        ensures
            (op, *final(self)) == (*old(self)).spec_step(
                world_view.viewed_by,
                world_view.agent,
                world_view.it,
                world_view.previous_it,
                world_view.visible@,
                world_view.reachable@,
                draws,
            ),
    ;
}

/// The first identifier in the sequence, from position `i` on, that is not
/// the previous "it".
pub open spec fn spec_first_taggable(s: Seq<(Id, AgentRelationShip)>, previous_it: Id, i: int) -> Option<
    Id,
>
    decreases s.len() - i,
{
    if i < 0 || i >= s.len() {
        None
    } else if s[i].0 != previous_it {
        Some(s[i].0)
    } else {
        spec_first_taggable(s, previous_it, i + 1)
    }
}

/// What an "it" agent does when somebody is in reach: tag the first reachable
/// agent other than the previous "it" and run away in the given direction.
pub open spec fn spec_catch_reachable(
    reachable: Seq<(Id, AgentRelationShip)>,
    previous_it: Id,
    runaway_direction: i64,
) -> Option<Operation> {
    match spec_first_taggable(reachable, previous_it, 0) {
        Some(taggable_id) => Some(
            Operation {
                direction: runaway_direction,
                velocity: MAXIMUM_VELOCITY,
                tag: Some(taggable_id),
            },
        ),
        None => None,
    }
}

/// The entry, from position `i` on, that has the smallest distance among
/// those not naming the previous "it", with ties resolved in favour of the
/// earlier entry; folded over an accumulator exactly as the search runs.
pub open spec fn spec_nearest_from(
    s: Seq<(Id, AgentRelationShip)>,
    previous_it: Id,
    i: int,
    best: Option<(Id, AgentRelationShip)>,
) -> Option<(Id, AgentRelationShip)>
    decreases s.len() - i,
{
    if i < 0 || i >= s.len() {
        best
    } else {
        let cur = s[i];
        let next = if cur.0 == previous_it {
            best
        } else {
            match best {
                None => Some(cur),
                Some(b) => if cur.1.distance < b.1.distance {
                    Some(cur)
                } else {
                    best
                },
            }
        };
        spec_nearest_from(s, previous_it, i + 1, next)
    }
}

/// What an "it" agent does when nobody is in reach: head for the nearest
/// visible agent other than the previous "it", remembering who was chosen.
pub open spec fn spec_chase_nearest(
    visible: Seq<(Id, AgentRelationShip)>,
    previous_it: Id,
    heading: i64,
) -> Option<(Operation, Id)> {
    match spec_nearest_from(visible, previous_it, 0, None) {
        None => None,
        Some((nearest_id, nearest)) => Some(
            (
                Operation {
                    direction: (heading + nearest.direction) as i64,
                    velocity: MAXIMUM_VELOCITY,
                    tag: None,
                },
                nearest_id,
            ),
        ),
    }
}

/// The relationship recorded for the given identifier, if the sequence holds
/// one, searching from position `i` on.
pub open spec fn spec_find_id(s: Seq<(Id, AgentRelationShip)>, target: Id, i: int) -> Option<
    AgentRelationShip,
>
    decreases s.len() - i,
{
    if i < 0 || i >= s.len() {
        None
    } else if s[i].0 == target {
        Some(s[i].1)
    } else {
        spec_find_id(s, target, i + 1)
    }
}

/// Whether the sequence holds an entry for the given identifier.
pub open spec fn spec_contains_id(s: Seq<(Id, AgentRelationShip)>, target: Id) -> bool {
    spec_find_id(s, target, 0) is Some
}

/// A found entry really is an entry of the sequence, under the identifier it
/// was looked up by.
pub proof fn lemma_find_id_entry(s: Seq<(Id, AgentRelationShip)>, target: Id, i: int)
    requires
        0 <= i,
    ensures
        spec_find_id(s, target, i) matches Some(rel) ==> exists|k: int|
            i <= k < s.len() && s[k] == (target, rel),
    decreases s.len() - i,
{
    if i < s.len() {
        if s[i].0 == target {
            assert(s[i] == (target, s[i].1));
        } else {
            lemma_find_id_entry(s, target, i + 1);
        }
    }
}

/// Tag the first reachable agent other than the previous "it", if any, and
/// run away in the given direction.
pub(crate) fn catch_reachable(world_view: &WorldView, runaway_direction: i64) -> (r: Option<
    Operation,
>)
    ensures
        r == spec_catch_reachable(world_view.reachable@, world_view.previous_it, runaway_direction),
{
    let previous_it = world_view.previous_it;
    let n = world_view.reachable.len();
    let mut i: usize = 0;
    while i < n
        invariant
            i <= n,
            n == world_view.reachable@.len(),
            previous_it == world_view.previous_it,
            spec_first_taggable(world_view.reachable@, previous_it, 0) == spec_first_taggable(
                world_view.reachable@,
                previous_it,
                i as int,
            ),
        decreases n - i,
    {
        let entry = world_view.reachable[i];
        if entry.0 != previous_it {
            proof {
                assert(spec_first_taggable(world_view.reachable@, previous_it, i as int) == Some(
                    entry.0,
                ));
            }
            return Some(
                Operation {
                    direction: runaway_direction,
                    velocity: MAXIMUM_VELOCITY,
                    tag: Some(entry.0),
                },
            );
        }
        i += 1;
    }
    None
}

/// Head for the nearest visible agent other than the previous "it", if any;
/// ties are resolved in favour of the earlier entry, that is in identifier
/// order.
pub(crate) fn chase_nearest(world_view: &WorldView) -> (r: Option<(Operation, Id)>)
    requires
        world_view.wf(),
    ensures
        r == spec_chase_nearest(
            world_view.visible@,
            world_view.previous_it,
            world_view.agent.heading,
        ),
{
    let heading = world_view.agent.heading;
    let previous_it = world_view.previous_it;
    let n = world_view.visible.len();
    let mut best: Option<(Id, AgentRelationShip)> = None;
    let mut i: usize = 0;
    while i < n
        invariant
            i <= n,
            n == world_view.visible@.len(),
            world_view.wf(),
            spec_nearest_from(world_view.visible@, previous_it, 0, None) == spec_nearest_from(
                world_view.visible@,
                previous_it,
                i as int,
                best,
            ),
            best matches Some(b) ==> -HALF_TURN <= b.1.direction <= HALF_TURN,
        decreases n - i,
    {
        let cur = world_view.visible[i];
        if cur.0 != previous_it {
            best = match best {
                None => Some(cur),
                Some(b) => if cur.1.distance < b.1.distance {
                    Some(cur)
                } else {
                    Some(b)
                },
            };
        }
        i += 1;
    }
    match best {
        None => None,
        Some((nearest_id, nearest)) => Some(
            (
                Operation {
                    direction: heading + nearest.direction,
                    velocity: MAXIMUM_VELOCITY,
                    tag: None,
                },
                nearest_id,
            ),
        ),
    }
}

/// Look up the relationship to the agent with the given identifier.
pub(crate) fn find_id(s: &Vec<(Id, AgentRelationShip)>, target: Id) -> (r: Option<
    AgentRelationShip,
>)
    ensures
        r == spec_find_id(s@, target, 0),
{
    let n = s.len();
    let mut i: usize = 0;
    while i < n
        invariant
            i <= n,
            n == s@.len(),
            spec_find_id(s@, target, 0) == spec_find_id(s@, target, i as int),
        decreases n - i,
    {
        let entry = s[i];
        if entry.0 == target {
            return Some(entry.1);
        }
        i += 1;
    }
    None
}

/// The closed union of the decision strategies the engine ships with.  The
/// engine stores one instance per agent and dispatches every step through
/// [`Behavior`], so each agent's strategy keeps its own private state.
#[derive(Clone, Copy, Debug)]
pub enum AnyBehavior {
    Default(crate::behavior::default::DefaultBehavior),
    Chasing(crate::behavior::chasing::ChasingBehavior),
    Runaway(crate::behavior::runaway::RunawayBehavior),
}

impl Behavior for AnyBehavior {
    open spec fn spec_step(
        self,
        viewed_by: Id,
        agent: crate::agent::Agent,
        it: Id,
        previous_it: Id,
        visible: Seq<(Id, AgentRelationShip)>,
        reachable: Seq<(Id, AgentRelationShip)>,
        draws: StepDraws,
    ) -> (Operation, Self) {
        match self {
            AnyBehavior::Default(inner) => {
                let stepped = inner.spec_step(
                    viewed_by,
                    agent,
                    it,
                    previous_it,
                    visible,
                    reachable,
                    draws,
                );
                (stepped.0, AnyBehavior::Default(stepped.1))
            },
            AnyBehavior::Chasing(inner) => {
                let stepped = inner.spec_step(
                    viewed_by,
                    agent,
                    it,
                    previous_it,
                    visible,
                    reachable,
                    draws,
                );
                (stepped.0, AnyBehavior::Chasing(stepped.1))
            },
            AnyBehavior::Runaway(inner) => {
                let stepped = inner.spec_step(
                    viewed_by,
                    agent,
                    it,
                    previous_it,
                    visible,
                    reachable,
                    draws,
                );
                (stepped.0, AnyBehavior::Runaway(stepped.1))
            },
        }
    }

    fn perform_step(&mut self, world_view: &WorldView, draws: StepDraws) -> (op: Operation) {
        match *self {
            AnyBehavior::Default(inner) => {
                let mut stepped = inner;
                let op = stepped.perform_step(world_view, draws);
                *self = AnyBehavior::Default(stepped);
                op
            },
            AnyBehavior::Chasing(inner) => {
                let mut stepped = inner;
                let op = stepped.perform_step(world_view, draws);
                *self = AnyBehavior::Chasing(stepped);
                op
            },
            AnyBehavior::Runaway(inner) => {
                let mut stepped = inner;
                let op = stepped.perform_step(world_view, draws);
                *self = AnyBehavior::Runaway(stepped);
                op
            },
        }
    }
}

} // verus!
