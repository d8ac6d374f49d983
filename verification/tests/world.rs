use rand::rngs::SmallRng;
use rand::SeedableRng;
use tag::agent::Agent;
use tag::agent::RANGE;
use tag::behavior::default::DefaultBehavior;
use tag::behavior::AnyBehavior;
use tag::behavior::StepDraws;
use tag::id::Id;
use tag::types::Vector;
use tag::world::CreationError;
use tag::world::World;

fn agent_at(x: i64, y: i64, heading: i64) -> Agent {
    Agent {
        position: Vector::new(x, y),
        heading,
    }
}

fn default_behaviors(count: usize) -> Vec<AnyBehavior> {
    let mut behaviors = Vec::new();
    for _ in 0..count {
        behaviors.push(AnyBehavior::Default(DefaultBehavior));
    }
    behaviors
}

fn neutral_draws(count: usize) -> Vec<StepDraws> {
    let mut draws = Vec::new();
    for _ in 0..count {
        draws.push(StepDraws {
            turn: 0,
            coin: false,
        });
    }
    draws
}

#[test]
fn construction_rejects_zero_agents() {
    let bounds = Vector::new(100_000, 100_000);
    let mut rng = SmallRng::seed_from_u64(1);
    let result = World::random(bounds, 0, AnyBehavior::Default(DefaultBehavior), false, &mut rng);
    assert!(matches!(result, Err(CreationError::NoAgents)));
}

#[test]
fn construction_rejects_more_agents_than_ids() {
    let bounds = Vector::new(100_000, 100_000);
    let mut rng = SmallRng::seed_from_u64(1);
    let result = World::random(
        bounds,
        (u32::MAX as usize) + 1,
        AnyBehavior::Default(DefaultBehavior),
        false,
        &mut rng,
    );
    assert!(matches!(result, Err(CreationError::TooManyAgents)));
}

#[test]
fn construction_rejects_an_it_that_names_no_agent() {
    let bounds = Vector::new(100_000, 100_000);
    let agents = vec![agent_at(0, 0, 0), agent_at(5_000, 0, 0)];
    let result = World::new(bounds, agents, default_behaviors(2), Id(2), false);
    assert!(matches!(result, Err(CreationError::InvalidIt)));
}

#[test]
fn random_worlds_start_inside_the_arena() {
    let bounds = Vector::new(10_000, 7_000);
    let mut rng = SmallRng::seed_from_u64(42);
    let world = World::random(bounds, 50, AnyBehavior::Default(DefaultBehavior), false, &mut rng)
        .unwrap_or_else(|_| panic!("world construction failed"));
    assert_eq!(0, world.iteration());
    assert_eq!(world.it, world.previous_it);
    assert!((world.it.0 as usize) < 50);
    let snapshot = world.snapshot();
    assert_eq!(50, snapshot.agents.len());
    for agent in snapshot.agents.iter() {
        assert!(0 <= agent.position.x && agent.position.x < bounds.x);
        assert!(0 <= agent.position.y && agent.position.y < bounds.y);
        assert!(0 <= agent.heading && agent.heading < 360_000);
    }
}

#[test]
fn perception_excludes_the_viewer_and_reachable_is_a_subset_of_visible() {
    let bounds = Vector::new(100_000, 100_000);
    // everybody close together and in everybody's field of view
    let agents = vec![
        agent_at(10_000, 10_000, 0),
        agent_at(12_000, 10_500, 90_000),
        agent_at(11_000, 9_500, 180_000),
        agent_at(90_000, 90_000, 0),
    ];
    let world = World::new(bounds, agents, default_behaviors(4), Id(0), false)
        .unwrap_or_else(|_| panic!("world construction failed"));
    for index in 0..4u32 {
        let view = world.world_view(Id(index));
        for entry in view.visible_agents().iter() {
            assert_ne!(Id(index), entry.0);
        }
        for entry in view.reachable_agents().iter() {
            assert!(entry.1.distance <= RANGE);
            assert!(view.visible_agents().iter().any(|other| other.0 == entry.0
                && other.1.distance == entry.1.distance
                && other.1.direction == entry.1.direction));
        }
    }
}

#[test]
fn a_reachable_agent_is_tagged_and_becomes_it() {
    let bounds = Vector::new(100_000, 100_000);
    // agent 0 is "it" at the origin heading right; agent 1 is straight ahead
    // within range and within the field of view
    let agents = vec![agent_at(0, 0, 0), agent_at(5_000, 0, 0)];
    let mut world = World::new(bounds, agents, default_behaviors(2), Id(0), false)
        .unwrap_or_else(|_| panic!("world construction failed"));
    world.simulate_step_with_draws(&neutral_draws(2));
    assert_eq!(Id(1), world.it);
    assert_eq!(Id(0), world.previous_it);
    assert_eq!(1, world.iteration());
}

#[test]
fn no_reachable_agent_means_no_tag() {
    let bounds = Vector::new(100_000, 100_000);
    // agent 1 is visible but far beyond tag range, so the roles must not
    // change
    let agents = vec![agent_at(0, 0, 0), agent_at(50_000, 0, 0)];
    let mut world = World::new(bounds, agents, default_behaviors(2), Id(0), false)
        .unwrap_or_else(|_| panic!("world construction failed"));
    world.simulate_step_with_draws(&neutral_draws(2));
    assert_eq!(Id(0), world.it);
    assert_eq!(Id(0), world.previous_it);
}

#[test]
fn iteration_counts_the_steps_and_the_roster_keeps_its_size() {
    let bounds = Vector::new(50_000, 50_000);
    let mut rng = SmallRng::seed_from_u64(7);
    let mut world = World::random(bounds, 4, AnyBehavior::Default(DefaultBehavior), false, &mut rng)
        .unwrap_or_else(|_| panic!("world construction failed"));
    for expected in 1..=5usize {
        world.simulate_step();
        assert_eq!(expected, world.iteration());
        assert_eq!(4, world.snapshot().agents.len());
    }
}

#[test]
fn sequential_and_parallel_steps_agree_on_the_same_draws() {
    let bounds = Vector::new(100_000, 100_000);
    let agents = vec![
        agent_at(0, 0, 0),
        agent_at(5_000, 0, 0),
        agent_at(9_000, 1_000, 45_000),
        agent_at(80_000, 80_000, 200_000),
    ];
    let mut sequential = World::new(bounds, agents.clone(), default_behaviors(4), Id(0), false)
        .unwrap_or_else(|_| panic!("world construction failed"));
    let mut parallel = World::new(bounds, agents, default_behaviors(4), Id(0), true)
        .unwrap_or_else(|_| panic!("world construction failed"));

    let mut draws = Vec::new();
    draws.push(StepDraws { turn: 1, coin: true });
    draws.push(StepDraws { turn: -1, coin: false });
    draws.push(StepDraws { turn: 2, coin: true });
    draws.push(StepDraws { turn: 0, coin: false });

    for _ in 0..3 {
        sequential.simulate_step_with_draws(&draws);
        parallel.simulate_step_with_draws(&draws);
    }

    let left = sequential.snapshot();
    let right = parallel.snapshot();
    assert_eq!(left.iteration, right.iteration);
    assert_eq!(left.it, right.it);
    assert_eq!(left.previous_it, right.previous_it);
    assert_eq!(left.agents.len(), right.agents.len());
    for (a, b) in left.agents.iter().zip(right.agents.iter()) {
        assert_eq!(a.position, b.position);
        assert_eq!(a.heading, b.heading);
    }
}

#[test]
fn every_strategy_drives_a_world_in_both_execution_modes() {
    let bounds = Vector::new(30_000, 30_000);
    let templates = [
        AnyBehavior::Default(DefaultBehavior),
        AnyBehavior::Chasing(tag::behavior::chasing::ChasingBehavior { chasing: None }),
        AnyBehavior::Runaway(tag::behavior::runaway::RunawayBehavior {
            runaway_direction: None,
        }),
    ];
    for &template in templates.iter() {
        for &parallel in [false, true].iter() {
            let mut rng = SmallRng::seed_from_u64(99);
            let mut world = World::random(bounds, 8, template, parallel, &mut rng)
                .unwrap_or_else(|_| panic!("world construction failed"));
            for _ in 0..10 {
                world.simulate_step();
            }
            assert_eq!(10, world.iteration());
            let snapshot = world.snapshot();
            assert_eq!(8, snapshot.agents.len());
            assert!((snapshot.it.0 as usize) < 8);
            assert!((snapshot.previous_it.0 as usize) < 8);
            for agent in snapshot.agents.iter() {
                assert!(0 <= agent.position.x && agent.position.x <= bounds.x);
                assert!(0 <= agent.position.y && agent.position.y <= bounds.y);
                assert!(0 <= agent.heading && agent.heading < 360_000);
            }
        }
    }
}

#[test]
fn snapshots_are_independent_copies() {
    let bounds = Vector::new(100_000, 100_000);
    let agents = vec![agent_at(0, 0, 0), agent_at(50_000, 0, 0)];
    let mut world = World::new(bounds, agents, default_behaviors(2), Id(0), false)
        .unwrap_or_else(|_| panic!("world construction failed"));
    let before = world.snapshot();
    world.simulate_step_with_draws(&neutral_draws(2));
    let after = world.snapshot();
    assert_eq!(0, before.iteration);
    assert_eq!(1, after.iteration);
    // the earlier snapshot still shows the original positions
    assert_eq!(Vector::new(0, 0), before.agents[0].position);
    assert_ne!(before.agents[0].position, after.agents[0].position);
}
