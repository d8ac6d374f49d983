//! A strategy that flees from "it".

use crate::agent::Agent;
use crate::agent::AgentRelationShip;
use crate::agent::MAXIMUM_VELOCITY;
use crate::behavior::catch_reachable;
use crate::behavior::chase_nearest;
use crate::behavior::find_id;
use crate::behavior::lemma_find_id_entry;
use crate::behavior::spec_catch_reachable;
use crate::behavior::spec_chase_nearest;
use crate::behavior::spec_find_id;
use crate::behavior::Behavior;
use crate::behavior::Operation;
use crate::behavior::StepDraws;
use crate::behavior::SCAN_ANGLE;
use crate::behavior::TURN_STEP_ANGLE;
use crate::id::Id;
use crate::types::HALF_TURN;
use crate::types::QUARTER_TURN;
use crate::world::WorldView;
use vstd::prelude::*;

verus! {

/// Which side a fleeing agent turns to, chosen once by coin flip and then
/// remembered.
#[derive(Clone, Copy, Debug, PartialEq, Eq, Structural)]
pub enum RunawayDirection {
    Left,
    Right,
}

impl RunawayDirection {
    /// The side chosen by a coin flip.
    pub open spec fn spec_from_coin(coin: bool) -> RunawayDirection {
        if coin {
            RunawayDirection::Left
        } else {
            RunawayDirection::Right
        }
    }

    /// The turn away from the bearing toward "it": a quarter turn to the
    /// chosen side.
    pub open spec fn spec_angle(self) -> int {
        match self {
            RunawayDirection::Left => QUARTER_TURN as int,
            RunawayDirection::Right => -QUARTER_TURN,
        }
    }

    fn angle(&self) -> (r: i64)
        ensures
            r == self.spec_angle(),
    {
        match self {
            RunawayDirection::Left => QUARTER_TURN,
            RunawayDirection::Right => -QUARTER_TURN,
        }
    }
}

/// Almost the same as [`DefaultBehavior`], just that it tries to run away
/// from "it" whenever "it" is visible.
///
/// [`DefaultBehavior`]: crate::behavior::default::DefaultBehavior
#[derive(Clone, Copy, Debug)]
pub struct RunawayBehavior {
    pub runaway_direction: Option<RunawayDirection>,
}

/// The fleeing move: nothing if we are the previous "it"; otherwise the side
/// to flee to is fixed (kept if already chosen, else taken from the coin
/// draw), and if "it" is visible the agent orients perpendicular to the
/// bearing toward "it" at full speed.
pub open spec fn spec_run_away(
    behavior: RunawayBehavior,
    viewed_by: Id,
    agent: Agent,
    it: Id,
    previous_it: Id,
    visible: Seq<(Id, AgentRelationShip)>,
    draws: StepDraws,
) -> (Option<Operation>, RunawayBehavior) {
    if viewed_by == previous_it {
        (None, behavior)
    } else {
        let direction = match behavior.runaway_direction {
            Some(direction) => direction,
            None => RunawayDirection::spec_from_coin(draws.coin),
        };
        let updated = RunawayBehavior { runaway_direction: Some(direction) };
        match spec_find_id(visible, it, 0) {
            Some(it_relationship) => (
                Some(
                    Operation {
                        direction: (agent.heading + it_relationship.direction
                            + direction.spec_angle()) as i64,
                        velocity: MAXIMUM_VELOCITY,
                        tag: None,
                    },
                ),
                updated,
            ),
            None => (None, updated),
        }
    }
}

impl Behavior for RunawayBehavior {
    open spec fn spec_step(
        self,
        viewed_by: Id,
        agent: Agent,
        it: Id,
        previous_it: Id,
        visible: Seq<(Id, AgentRelationShip)>,
        reachable: Seq<(Id, AgentRelationShip)>,
        draws: StepDraws,
    ) -> (Operation, Self) {
        let random_angle = draws.turn * TURN_STEP_ANGLE;
        if viewed_by != it {
            let (fleeing, updated) = spec_run_away(
                self,
                viewed_by,
                agent,
                it,
                previous_it,
                visible,
                draws,
            );
            match fleeing {
                Some(operation) => (operation, updated),
                None => (
                    Operation {
                        direction: (agent.heading + random_angle) as i64,
                        velocity: MAXIMUM_VELOCITY,
                        tag: None,
                    },
                    updated,
                ),
            }
        } else {
            match spec_catch_reachable(
                reachable,
                previous_it,
                (agent.heading + random_angle) as i64,
            ) {
                Some(operation) => (operation, self),
                None => match spec_chase_nearest(visible, previous_it, agent.heading) {
                    Some((operation, _)) => (operation, self),
                    None => (
                        Operation {
                            direction: (agent.heading + SCAN_ANGLE) as i64,
                            velocity: 0,
                            tag: None,
                        },
                        self,
                    ),
                },
            }
        }
    }

    fn perform_step(&mut self, world_view: &WorldView, draws: StepDraws) -> (op: Operation) {
        let our_agent = world_view.agent;

        // more likely to go right
        let random_angle = draws.turn * TURN_STEP_ANGLE;

        if world_view.viewed_by != world_view.it {
            // run away if we see "it"
            if let Some(operation) = self.run_away(world_view, draws) {
                return operation;
            }

            // we're not "it", run in a random direction with full speed
            return Operation {
                direction: our_agent.heading + random_angle,
                velocity: MAXIMUM_VELOCITY,
                tag: None,
            };
        }

        // We're it! See if we can catch somebody
        if let Some(operation) = catch_reachable(world_view, our_agent.heading + random_angle) {
            return operation;
        }

        // Nobody is reachable, see who's nearest
        if let Some((operation, _)) = chase_nearest(world_view) {
            return operation;
        }

        // Can't see anybody, turn around, maybe we see someone
        Operation { direction: our_agent.heading + SCAN_ANGLE, velocity: 0, tag: None }
    }
}

impl RunawayBehavior {
    fn run_away(&mut self, world_view: &WorldView, draws: StepDraws) -> (r: Option<Operation>)
        requires
            world_view.wf(),
        ensures
            (r, *final(self)) == spec_run_away(
                *old(self),
                world_view.viewed_by,
                world_view.agent,
                world_view.it,
                world_view.previous_it,
                world_view.visible@,
                draws,
            ),
    {
        if world_view.viewed_by == world_view.previous_it {
            return None;
        }

        let direction = match self.runaway_direction {
            Some(direction) => direction,
            None => if draws.coin {
                RunawayDirection::Left
            } else {
                RunawayDirection::Right
            },
        };
        self.runaway_direction = Some(direction);
        let runaway_angle = direction.angle();
        let it = world_view.it;
        // is "it" visible?
        match find_id(&world_view.visible, it) {
            Some(it_relationship) => {
                proof {
                    lemma_find_id_entry(world_view.visible@, it, 0);
                    let k = choose|k: int|
                        0 <= k < world_view.visible@.len() && world_view.visible@[k] == (
                        it,
                        it_relationship,
                        );
                    assert(-HALF_TURN <= world_view.visible@[k].1.direction <= HALF_TURN);
                }
                Some(
                    Operation {
                        direction: world_view.agent.heading + it_relationship.direction
                            + runaway_angle,
                        velocity: MAXIMUM_VELOCITY,
                        tag: None,
                    },
                )
            },
            None => None,
        }
    }
}

} // verus!
