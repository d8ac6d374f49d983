//! The initial, stateless decision strategy.

use crate::agent::Agent;
use crate::agent::AgentRelationShip;
use crate::behavior::catch_reachable;
use crate::behavior::chase_nearest;
use crate::behavior::spec_catch_reachable;
use crate::behavior::spec_chase_nearest;
use crate::behavior::Behavior;
use crate::behavior::Operation;
use crate::behavior::StepDraws;
use crate::behavior::SCAN_ANGLE;
use crate::behavior::TURN_STEP_ANGLE;
use crate::agent::MAXIMUM_VELOCITY;
use crate::id::Id;
use crate::world::WorldView;
use vstd::prelude::*;

verus! {

/// The default "stupid" behavior.  If the agent is not "it", it runs around
/// randomly with a tendency to go right (so as to not get stuck at the
/// edges).  If the agent is "it", it tags whoever is reachable, else walks
/// towards the nearest visible agent, else turns in place to scan.
///
/// Since this behavior holds no state, it is quite erratic.
#[derive(Clone, Copy, Debug)]
pub struct DefaultBehavior;

impl Behavior for DefaultBehavior {
    open spec fn spec_step(
        self,
        viewed_by: Id,
        agent: Agent,
        it: Id,
        previous_it: Id,
        visible: Seq<(Id, AgentRelationShip)>,
        reachable: Seq<(Id, AgentRelationShip)>,
        draws: StepDraws,
    ) -> (Operation, Self) {
        let random_angle = draws.turn * TURN_STEP_ANGLE;
        if viewed_by != it {
            (
                Operation {
                    direction: (agent.heading + random_angle) as i64,
                    velocity: MAXIMUM_VELOCITY,
                    tag: None,
                },
                self,
            )
        } else {
            match spec_catch_reachable(
                reachable,
                previous_it,
                (agent.heading + random_angle) as i64,
            ) {
                Some(operation) => (operation, self),
                None => match spec_chase_nearest(visible, previous_it, agent.heading) {
                    Some((operation, _)) => (operation, self),
                    None => (
                        Operation {
                            direction: (agent.heading + SCAN_ANGLE) as i64,
                            velocity: 0,
                            tag: None,
                        },
                        self,
                    ),
                },
            }
        }
    }

    fn perform_step(&mut self, world_view: &WorldView, draws: StepDraws) -> (op: Operation) {
        let our_agent = world_view.agent;

        // more likely to go right
        let random_angle = draws.turn * TURN_STEP_ANGLE;

        if world_view.viewed_by != world_view.it {
            // we're not "it", run in a random direction with full speed
            return Operation {
                direction: our_agent.heading + random_angle,
                velocity: MAXIMUM_VELOCITY,
                tag: None,
            };
        }

        // We're it! See if we can catch somebody
        if let Some(operation) = catch_reachable(world_view, our_agent.heading + random_angle) {
            return operation;
        }

        // Nobody is reachable, see who's nearest
        if let Some((operation, _)) = chase_nearest(world_view) {
            return operation;
        }

        // Can't see anybody, turn around, maybe we see someone
        Operation { direction: our_agent.heading + SCAN_ANGLE, velocity: 0, tag: None }
    }
}

} // verus!
