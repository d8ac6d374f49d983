//! A strategy that remembers which agent it is chasing.

use crate::agent::Agent;
use crate::agent::AgentRelationShip;
use crate::agent::MAXIMUM_VELOCITY;
use crate::behavior::catch_reachable;
use crate::behavior::chase_nearest;
use crate::behavior::default::DefaultBehavior;
use crate::behavior::find_id;
use crate::behavior::spec_catch_reachable;
use crate::behavior::spec_chase_nearest;
use crate::behavior::spec_find_id;
use crate::behavior::Behavior;
use crate::behavior::Operation;
use crate::behavior::StepDraws;
use crate::behavior::TURN_STEP_ANGLE;
use crate::id::Id;
use crate::world::WorldView;
use vstd::prelude::*;

verus! {

/// Almost the same as [`DefaultBehavior`], just that it remembers which agent
/// it was chasing and continues chasing that one as long as it stays visible;
/// the remembered target is cleared upon successfully tagging.
#[derive(Clone, Copy, Debug)]
pub struct ChasingBehavior {
    pub chasing: Option<Id>,
}

/// Keep heading for the remembered agent, if it is still visible.
pub open spec fn spec_chase_id(
    visible: Seq<(Id, AgentRelationShip)>,
    chased: Id,
    heading: i64,
) -> Option<Operation> {
    match spec_find_id(visible, chased, 0) {
        Some(chased_relationship) => Some(
            Operation {
                direction: (heading + chased_relationship.direction) as i64,
                velocity: MAXIMUM_VELOCITY,
                tag: None,
            },
        ),
        None => None,
    }
}

fn chase_id(world_view: &WorldView, chased: Id) -> (r: Option<Operation>)
    requires
        world_view.wf(),
    ensures
        r == spec_chase_id(world_view.visible@, chased, world_view.agent.heading),
{
    let heading = world_view.agent.heading;
    match find_id(&world_view.visible, chased) {
        Some(chased_relationship) => {
            proof {
                crate::behavior::lemma_find_id_entry(world_view.visible@, chased, 0);
                let k = choose|k: int|
                    0 <= k < world_view.visible@.len() && world_view.visible@[k] == (
                    chased,
                    chased_relationship,
                    );
                assert(-crate::types::HALF_TURN <= world_view.visible@[k].1.direction
                    <= crate::types::HALF_TURN);
            }
            Some(
                Operation {
                    direction: heading + chased_relationship.direction,
                    velocity: MAXIMUM_VELOCITY,
                    tag: None,
                },
            )
        },
        None => None,
    }
}

impl Behavior for ChasingBehavior {
    open spec fn spec_step(
        self,
        viewed_by: Id,
        agent: Agent,
        it: Id,
        previous_it: Id,
        visible: Seq<(Id, AgentRelationShip)>,
        reachable: Seq<(Id, AgentRelationShip)>,
        draws: StepDraws,
    ) -> (Operation, Self) {
        let random_angle = draws.turn * TURN_STEP_ANGLE;
        if it != viewed_by {
            let (operation, _) = DefaultBehavior.spec_step(
                viewed_by,
                agent,
                it,
                previous_it,
                visible,
                reachable,
                draws,
            );
            (operation, self)
        } else {
            match spec_catch_reachable(
                reachable,
                previous_it,
                (agent.heading + random_angle) as i64,
            ) {
                // the tag succeeds, so stop chasing
                Some(operation) => (operation, ChasingBehavior { chasing: None }),
                None => {
                    let kept = match self.chasing {
                        Some(chased_id) => spec_chase_id(visible, chased_id, agent.heading),
                        None => None,
                    };
                    match kept {
                        Some(operation) => (operation, self),
                        None => match spec_chase_nearest(visible, previous_it, agent.heading) {
                            Some((operation, nearest_id)) => (
                                operation,
                                ChasingBehavior { chasing: Some(nearest_id) },
                            ),
                            None => (
                                Operation {
                                    direction: (agent.heading + random_angle) as i64,
                                    velocity: 0,
                                    tag: None,
                                },
                                self,
                            ),
                        },
                    }
                },
            }
        }
    }

    fn perform_step(&mut self, world_view: &WorldView, draws: StepDraws) -> (op: Operation) {
        // more likely to go right
        let random_angle = draws.turn * TURN_STEP_ANGLE;

        let it = world_view.it;
        let our_id = world_view.viewed_by;
        let our_agent = world_view.agent;
        if it != our_id {
            let mut delegate = DefaultBehavior;
            return delegate.perform_step(world_view, draws);
        }

        // we're "it", is somebody near enough to tag?
        if let Some(operation) = catch_reachable(world_view, our_agent.heading + random_angle) {
            // the tag succeeds, so stop chasing
            self.chasing = None;
            return operation;
        }

        // Are we chasing someone and is that person visible? If so, keep chasing!
        if let Some(chased_id) = self.chasing {
            if let Some(operation) = chase_id(world_view, chased_id) {
                return operation;
            }
        }

        // Nobody is reachable or being chased, see who's nearest
        if let Some((operation, nearest_id)) = chase_nearest(world_view) {
            self.chasing = Some(nearest_id);
            return operation;
        }

        // Can't see anybody, turn around, maybe we see someone
        Operation { direction: our_agent.heading + random_angle, velocity: 0, tag: None }
    }
}

} // verus!
