use tag::agent::Agent;
use tag::agent::AgentRelationShip;
use tag::agent::FIELD_OF_VIEW_ANGLE;
use tag::trig::rotate_by_angle;
use tag::types::degrees_to_angle;
use tag::types::Vector;

/// Rounds a milli-degree angle to whole degrees.
fn round_to_degrees(milli_degrees: i64) -> i64 {
    ((milli_degrees as f64) / 1000.0).round() as i64
}

/// Rounds a milli-unit coordinate to whole units.
fn round_to_units(milli_units: i64) -> i64 {
    ((milli_units as f64) / 1000.0).round() as i64
}

#[test]
fn should_calculate_distance_between_agents() {
    let a = Agent {
        position: Vector::new(1_000, 2_000),
        heading: 0,
    };

    let b = Agent {
        position: Vector::new(2_000, 3_000),
        heading: 0,
    };

    // the square root of two, in milli-units, rounded down
    assert_eq!(1_414, a.distance(&b));
}

#[test]
fn should_calculate_angle_at_which_one_agent_views_another_one() {
    let looking_agent = Agent {
        position: Vector::new(10_000, 10_000),
        heading: degrees_to_angle(45),
    };

    let seen_agent = Agent {
        position: Vector::new(9_000, 11_000),
        heading: 0,
    };

    assert_eq!(90, round_to_degrees(looking_agent.viewing_angle(&seen_agent)));
    assert_eq!(0, round_to_degrees(looking_agent.viewing_angle(&looking_agent)));
}

#[test]
fn should_check_if_another_agent_is_seen() {
    let center = Vector::new(10_000, 10_000);
    // about a tenth of a radian, in milli-degrees
    let epsilon = 5_730;
    let unit_x = Vector::new(1_000, 0);

    let looking_agent = Agent {
        position: center,
        heading: degrees_to_angle(45),
    };
    assert!(looking_agent.can_see(&looking_agent));

    let offset_left = rotate_by_angle(unit_x, looking_agent.heading + (FIELD_OF_VIEW_ANGLE / 2) + epsilon);
    let out_of_view_left = Agent {
        position: Vector::new(center.x + offset_left.x, center.y + offset_left.y),
        heading: 0,
    };
    assert!(!looking_agent.can_see(&out_of_view_left));

    let offset_right = rotate_by_angle(unit_x, looking_agent.heading - (FIELD_OF_VIEW_ANGLE / 2) - epsilon);
    let out_of_view_right = Agent {
        position: Vector::new(center.x + offset_right.x, center.y + offset_right.y),
        heading: 0,
    };
    assert!(!looking_agent.can_see(&out_of_view_right));

    let offset_ahead = rotate_by_angle(unit_x, looking_agent.heading);
    let in_view = Agent {
        position: Vector::new(center.x + offset_ahead.x, center.y + offset_ahead.y),
        heading: 0,
    };
    assert!(looking_agent.can_see(&in_view));

    let offset_edge = rotate_by_angle(unit_x, looking_agent.heading + (FIELD_OF_VIEW_ANGLE / 2) - epsilon);
    let just_in_view = Agent {
        position: Vector::new(center.x + offset_edge.x, center.y + offset_edge.y),
        heading: 0,
    };
    assert!(looking_agent.can_see(&just_in_view));
}

#[test]
fn should_move_around() {
    let bounds = Vector::new(100_000, 3_000);

    let mut agent = Agent {
        position: Vector::new(0, 0),
        heading: 0,
    };
    // move right by one
    agent = agent.perform_movement(bounds, 1_000, 0);
    assert_eq!(degrees_to_angle(0), agent.heading);
    assert_eq!(Vector::new(1_000, 0), agent.position);

    // move up by 3 (hit wall)
    agent = agent.perform_movement(bounds, 3_000, degrees_to_angle(90));
    assert_eq!(degrees_to_angle(90), agent.heading);
    assert_eq!(1, round_to_units(agent.position.x));
    assert_eq!(3, round_to_units(agent.position.y));

    // move right by 12 (too fast, should only move 5), turn left
    agent = agent.perform_movement(bounds, 12_000, 0);
    assert_eq!(degrees_to_angle(0), agent.heading);
    assert_eq!(6, round_to_units(agent.position.x));
    assert_eq!(3, round_to_units(agent.position.y));

    // move left by 9
    agent = agent.perform_movement(bounds, 4_000, degrees_to_angle(-180));
    // checks the normalization as well
    assert_eq!(degrees_to_angle(180), agent.heading);
    assert_eq!(2, round_to_units(agent.position.x));
    assert_eq!(3, round_to_units(agent.position.y));
}

#[test]
fn distance_is_symmetric_and_zero_on_self() {
    let a = Agent {
        position: Vector::new(123, 45_678),
        heading: 90_000,
    };
    let b = Agent {
        position: Vector::new(98_765, 4_321),
        heading: 0,
    };
    assert_eq!(a.distance(&b), b.distance(&a));
    assert_eq!(0, a.distance(&a));
    assert_eq!(0, b.distance(&b));
}

#[test]
fn identical_positions_always_view_at_angle_zero() {
    let a = Agent {
        position: Vector::new(777, 999),
        heading: 123_456,
    };
    let b = Agent {
        position: Vector::new(777, 999),
        heading: 311_000,
    };
    assert_eq!(0, a.viewing_angle(&b));
    assert_eq!(0, b.viewing_angle(&a));
}

#[test]
fn viewing_angle_stays_in_the_signed_canonical_range() {
    let headings = [0, 45_000, 123_456, 180_000, 270_000, 359_999];
    let positions = [
        Vector::new(0, 0),
        Vector::new(1_000, 0),
        Vector::new(0, 1_000),
        Vector::new(999_999_999, 999_999_999),
        Vector::new(500_000, 1),
    ];
    for &heading in headings.iter() {
        for &position in positions.iter() {
            let viewer = Agent {
                position: Vector::new(500_000, 500_000),
                heading,
            };
            let other = Agent { position, heading: 0 };
            let angle = viewer.viewing_angle(&other);
            assert!(-180_000 < angle && angle <= 180_000);
        }
    }
}

#[test]
fn visibility_is_exactly_the_field_of_view_test_on_the_angle() {
    let viewer = Agent {
        position: Vector::new(10_000, 10_000),
        heading: 0,
    };
    let others = [
        Vector::new(20_000, 10_000),
        Vector::new(10_000, 20_000),
        Vector::new(0, 10_000),
        Vector::new(3_000, 2_500),
        Vector::new(10_000, 3_000),
    ];
    for &position in others.iter() {
        let other = Agent { position, heading: 0 };
        let angle = viewer.viewing_angle(&other);
        assert_eq!(
            viewer.can_see(&other),
            -(FIELD_OF_VIEW_ANGLE / 2) <= angle && angle <= FIELD_OF_VIEW_ANGLE / 2
        );
    }
}

#[test]
fn relationship_boundaries_are_inclusive() {
    let at_edge = AgentRelationShip {
        distance: 10_000,
        direction: 100_000,
    };
    assert!(at_edge.is_reachable());
    assert!(at_edge.is_visible());

    let at_negative_edge = AgentRelationShip {
        distance: 0,
        direction: -100_000,
    };
    assert!(at_negative_edge.is_visible());

    let beyond = AgentRelationShip {
        distance: 10_001,
        direction: 100_001,
    };
    assert!(!beyond.is_reachable());
    assert!(!beyond.is_visible());

    let beyond_negative = AgentRelationShip {
        distance: 0,
        direction: -100_001,
    };
    assert!(!beyond_negative.is_visible());
}

#[test]
fn velocity_above_the_maximum_is_capped() {
    let bounds = Vector::new(100_000, 100_000);
    let agent = Agent {
        position: Vector::new(0, 0),
        heading: 0,
    };
    // moving 12 units with a cap of 5 advances exactly 5 units
    let moved = agent.perform_movement(bounds, 12_000, 0);
    assert_eq!(Vector::new(5_000, 0), moved.position);
    // a negative velocity does not move at all
    let still = agent.perform_movement(bounds, -3_000, 0);
    assert_eq!(Vector::new(0, 0), still.position);
}

#[test]
fn movement_never_leaves_the_arena() {
    let bounds = Vector::new(4_000, 4_000);
    let corner = Agent {
        position: Vector::new(0, 0),
        heading: 0,
    };
    // heading straight into the lower-left corner clips both axes at zero
    let clipped = corner.perform_movement(bounds, 5_000, 225_000);
    assert_eq!(Vector::new(0, 0), clipped.position);

    // heading diagonally out of the upper-right corner clips at the bounds
    let far = Agent {
        position: Vector::new(3_900, 3_900),
        heading: 0,
    };
    let stopped = far.perform_movement(bounds, 5_000, 45_000);
    assert_eq!(Vector::new(4_000, 4_000), stopped.position);

    // a diagonal wall contact clips each axis independently
    let wide = Vector::new(10_000, 4_000);
    let along = Agent {
        position: Vector::new(2_000, 3_900),
        heading: 0,
    };
    let slid = along.perform_movement(wide, 5_000, 45_000);
    assert_eq!(4_000, slid.position.y);
    assert!(slid.position.x > 2_000 && slid.position.x < 10_000);
}
