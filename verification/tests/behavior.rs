use tag::agent::Agent;
use tag::agent::AgentRelationShip;
use tag::agent::MAXIMUM_VELOCITY;
use tag::behavior::chasing::ChasingBehavior;
use tag::behavior::default::DefaultBehavior;
use tag::behavior::runaway::RunawayBehavior;
use tag::behavior::runaway::RunawayDirection;
use tag::behavior::Behavior;
use tag::behavior::StepDraws;
use tag::id::Id;
use tag::types::Vector;
use tag::world::WorldView;

fn agent_at(x: i64, y: i64, heading: i64) -> Agent {
    Agent {
        position: Vector::new(x, y),
        heading,
    }
}

fn view(
    our_id: u32,
    agent: Agent,
    it: u32,
    previous_it: u32,
    visible: Vec<(Id, AgentRelationShip)>,
    reachable: Vec<(Id, AgentRelationShip)>,
) -> WorldView {
    WorldView {
        viewed_by: Id(our_id),
        agent,
        it: Id(it),
        previous_it: Id(previous_it),
        visible,
        reachable,
    }
}

fn relationship(distance: i64, direction: i64) -> AgentRelationShip {
    AgentRelationShip {
        distance,
        direction,
    }
}

#[test]
fn default_not_it_runs_with_random_bias_at_full_speed() {
    let me = agent_at(0, 0, 30_000);
    let world_view = view(1, me, 0, 0, vec![], vec![]);
    let mut behavior = DefaultBehavior;
    let draws = StepDraws { turn: 2, coin: false };
    let operation = behavior.perform_step(&world_view, draws);
    assert_eq!(30_000 + 20_000, operation.direction);
    assert_eq!(MAXIMUM_VELOCITY, operation.velocity);
    assert_eq!(None, operation.tag);
}

#[test]
fn default_it_tags_the_first_reachable_agent_that_is_not_the_previous_it() {
    let me = agent_at(0, 0, 0);
    let reachable = vec![
        (Id(1), relationship(4_000, 10_000)),
        (Id(2), relationship(6_000, -20_000)),
    ];
    let visible = reachable.clone();
    // agent 1 was "it" before, so agent 2 gets tagged
    let world_view = view(0, me, 0, 1, visible, reachable);
    let mut behavior = DefaultBehavior;
    let draws = StepDraws { turn: -1, coin: false };
    let operation = behavior.perform_step(&world_view, draws);
    assert_eq!(Some(Id(2)), operation.tag);
    assert_eq!(-10_000, operation.direction);
    assert_eq!(MAXIMUM_VELOCITY, operation.velocity);
}

#[test]
fn default_it_chases_the_nearest_visible_agent() {
    let me = agent_at(0, 0, 90_000);
    let visible = vec![
        (Id(1), relationship(30_000, 50_000)),
        (Id(2), relationship(20_000, -40_000)),
        (Id(3), relationship(20_000, 70_000)),
    ];
    let world_view = view(0, me, 0, 0, visible, vec![]);
    let mut behavior = DefaultBehavior;
    let draws = StepDraws { turn: 0, coin: false };
    let operation = behavior.perform_step(&world_view, draws);
    // nearest is agent 2; the tie with agent 3 goes to the earlier entry
    assert_eq!(90_000 - 40_000, operation.direction);
    assert_eq!(MAXIMUM_VELOCITY, operation.velocity);
    assert_eq!(None, operation.tag);
}

#[test]
fn default_it_scans_in_place_when_nobody_is_visible() {
    let me = agent_at(0, 0, 100_000);
    let world_view = view(0, me, 0, 0, vec![], vec![]);
    let mut behavior = DefaultBehavior;
    let draws = StepDraws { turn: 1, coin: true };
    let operation = behavior.perform_step(&world_view, draws);
    assert_eq!(100_000 + 20_000, operation.direction);
    assert_eq!(0, operation.velocity);
    assert_eq!(None, operation.tag);
}

#[test]
fn chasing_remembers_its_target_and_keeps_following_it() {
    let me = agent_at(0, 0, 0);
    let visible_first = vec![
        (Id(1), relationship(30_000, 10_000)),
        (Id(2), relationship(20_000, 60_000)),
    ];
    let world_view = view(0, me, 0, 0, visible_first, vec![]);
    let mut behavior = ChasingBehavior { chasing: None };
    let draws = StepDraws { turn: 0, coin: false };
    let operation = behavior.perform_step(&world_view, draws);
    // picks the nearest, agent 2, and remembers it
    assert_eq!(60_000, operation.direction);
    assert_eq!(Some(Id(2)), behavior.chasing);

    // next step agent 1 is nearer, but agent 2 is still visible and stays
    // the target
    let visible_second = vec![
        (Id(1), relationship(15_000, -30_000)),
        (Id(2), relationship(25_000, 45_000)),
    ];
    let world_view = view(0, me, 0, 0, visible_second, vec![]);
    let operation = behavior.perform_step(&world_view, draws);
    assert_eq!(45_000, operation.direction);
    assert_eq!(Some(Id(2)), behavior.chasing);

    // once the target is out of sight, the nearest is selected afresh
    let visible_third = vec![(Id(1), relationship(15_000, -30_000))];
    let world_view = view(0, me, 0, 0, visible_third, vec![]);
    let operation = behavior.perform_step(&world_view, draws);
    assert_eq!(-30_000, operation.direction);
    assert_eq!(Some(Id(1)), behavior.chasing);
}

#[test]
fn chasing_clears_its_target_upon_tagging() {
    let me = agent_at(0, 0, 0);
    let reachable = vec![(Id(1), relationship(5_000, 0))];
    let world_view = view(0, me, 0, 0, reachable.clone(), reachable);
    let mut behavior = ChasingBehavior {
        chasing: Some(Id(1)),
    };
    let draws = StepDraws { turn: 0, coin: false };
    let operation = behavior.perform_step(&world_view, draws);
    assert_eq!(Some(Id(1)), operation.tag);
    assert_eq!(None, behavior.chasing);
}

#[test]
fn chasing_delegates_to_the_default_behavior_when_not_it() {
    let me = agent_at(0, 0, 50_000);
    let world_view = view(1, me, 0, 0, vec![], vec![]);
    let mut behavior = ChasingBehavior { chasing: None };
    let draws = StepDraws { turn: 1, coin: false };
    let operation = behavior.perform_step(&world_view, draws);
    assert_eq!(50_000 + 10_000, operation.direction);
    assert_eq!(MAXIMUM_VELOCITY, operation.velocity);
    assert_eq!(None, operation.tag);
    assert_eq!(None, behavior.chasing);
}

#[test]
fn runaway_flees_perpendicular_to_the_bearing_toward_it() {
    let me = agent_at(0, 0, 20_000);
    let visible = vec![(Id(0), relationship(30_000, 15_000))];
    let world_view = view(1, me, 0, 0, visible, vec![]);
    let mut behavior = RunawayBehavior {
        runaway_direction: None,
    };
    let draws = StepDraws { turn: 0, coin: true };
    let operation = behavior.perform_step(&world_view, draws);
    // the coin picked the left side: a quarter turn off the bearing
    assert_eq!(20_000 + 15_000 + 90_000, operation.direction);
    assert_eq!(MAXIMUM_VELOCITY, operation.velocity);
    assert_eq!(None, operation.tag);
    assert_eq!(Some(RunawayDirection::Left), behavior.runaway_direction);

    // the side is remembered: a different coin no longer changes it
    let visible = vec![(Id(0), relationship(30_000, -25_000))];
    let world_view = view(1, me, 0, 0, visible, vec![]);
    let draws = StepDraws { turn: 0, coin: false };
    let operation = behavior.perform_step(&world_view, draws);
    assert_eq!(20_000 - 25_000 + 90_000, operation.direction);
    assert_eq!(Some(RunawayDirection::Left), behavior.runaway_direction);
}

#[test]
fn runaway_does_not_flee_as_the_previous_it() {
    let me = agent_at(0, 0, 10_000);
    let visible = vec![(Id(0), relationship(30_000, 0))];
    // this agent was "it" before, so it must not flee
    let world_view = view(1, me, 0, 1, visible, vec![]);
    let mut behavior = RunawayBehavior {
        runaway_direction: None,
    };
    let draws = StepDraws { turn: 2, coin: true };
    let operation = behavior.perform_step(&world_view, draws);
    assert_eq!(10_000 + 20_000, operation.direction);
    assert_eq!(MAXIMUM_VELOCITY, operation.velocity);
    assert_eq!(None, behavior.runaway_direction);
}
