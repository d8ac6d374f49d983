//! The state of one agent in the world, and the geometric queries that relate
//! agents to one another.
//!
//! An [`Agent`] is a strict value type that represents a snapshot: once an
//! agent moves, a new value is constructed.

use crate::rng::rng_below;
use crate::trig::atan2_milli;
use crate::trig::isqrt;
use crate::trig::lemma_isqrt_is;
use crate::trig::rotate_by_angle;
use crate::trig::spec_atan2;
use crate::trig::spec_isqrt;
use crate::trig::spec_rotate;
use crate::types::normalize_angle;
use crate::types::normalize_signed_angle;
use crate::types::spec_abs;
use crate::types::spec_normalize_angle;
use crate::types::spec_normalize_signed_angle;
use crate::types::Vector;
use crate::types::FULL_TURN;
use crate::types::HALF_TURN;
use crate::types::MAX_COORD;
use vstd::prelude::*;

verus! {

/// The total field of view of an agent, in milli-degrees (200 degrees).
pub const FIELD_OF_VIEW_ANGLE: i64 = 200_000;

/// Half the field of view: another agent is visible when the magnitude of its
/// viewing angle stays within this bound.
pub const FOV_HALF_ANGLE: i64 = 100_000;

/// How far an agent is allowed to move in one time step, in milli-units
/// (5 units).
pub const MAXIMUM_VELOCITY: i64 = 5_000;

/// How far an agent can reach when tagging, in milli-units (10 units).
pub const RANGE: i64 = 10_000;

/// Low level type that represents the state of an agent in the world and
/// combines the calculations that relate different agents to one another.
#[derive(Clone, Copy, Debug, PartialEq, Eq, Structural)]
pub struct Agent {
    pub position: Vector,
    pub heading: i64,
}

/// The squared Euclidean distance between two points of the milli-unit grid.
pub open spec fn spec_dist2(a: Vector, b: Vector) -> int {
    (a.x - b.x) * (a.x - b.x) + (a.y - b.y) * (a.y - b.y)
}

/// The distance between two agents: the integer square root of the squared
/// distance of their positions, in milli-units.
pub open spec fn spec_distance(a: Agent, b: Agent) -> int {
    spec_isqrt(spec_dist2(a.position, b.position))
}

/// The signed angle, in `(-HALF_TURN, HALF_TURN]`, between `a`'s heading and
/// the bearing from `a` to `b`; identical positions count as angle `0`.
pub open spec fn spec_viewing_angle(a: Agent, b: Agent) -> int {
    if a.position == b.position {
        0
    } else {
        spec_normalize_signed_angle(
            spec_atan2(b.position.y - a.position.y, b.position.x - a.position.x) - a.heading,
        )
    }
}

/// Visibility: the magnitude of the viewing angle stays within half the field
/// of view.
pub open spec fn spec_can_see(a: Agent, b: Agent) -> bool {
    spec_abs(spec_viewing_angle(a, b)) <= FOV_HALF_ANGLE
}

/// Reachability: the distance stays within tag range.
pub open spec fn spec_can_reach(a: Agent, b: Agent) -> bool {
    spec_distance(a, b) <= RANGE
}

/// How `b` appears from the perspective of `a`.
pub open spec fn spec_relate(a: Agent, b: Agent) -> AgentRelationShip {
    AgentRelationShip {
        distance: spec_distance(a, b) as i64,
        direction: spec_viewing_angle(a, b) as i64,
    }
}

/// A value clamped into an interval.
pub open spec fn spec_clamp(v: int, lo: int, hi: int) -> int {
    if v < lo {
        lo
    } else if v > hi {
        hi
    } else {
        v
    }
}

/// The agent that results from one movement: velocity clamped into
/// `[0, MAXIMUM_VELOCITY]`, heading set to the canonical representative of
/// the requested direction, the movement vector applied, and each axis of the
/// resulting position clamped into `[0, bound]` independently.
pub open spec fn spec_perform_movement(
    a: Agent,
    bounds: Vector,
    velocity: int,
    direction: int,
) -> Agent {
    let heading = spec_normalize_angle(direction);
    let v = if velocity < 0 {
        0
    } else if velocity > MAXIMUM_VELOCITY {
        MAXIMUM_VELOCITY as int
    } else {
        velocity
    };
    let movement = spec_rotate(Vector { x: v as i64, y: 0 }, heading);
    Agent {
        position: Vector {
            x: spec_clamp(a.position.x + movement.0, 0, bounds.x as int) as i64,
            y: spec_clamp(a.position.y + movement.1, 0, bounds.y as int) as i64,
        },
        heading: heading as i64,
    }
}

impl Agent {
    /// A well-formed agent: position on the representable grid and heading in
    /// canonical form.
    pub open spec fn wf(self) -> bool {
        &&& 0 <= self.position.x <= MAX_COORD
        &&& 0 <= self.position.y <= MAX_COORD
        &&& 0 <= self.heading < FULL_TURN
    }

    /// Inside the given arena.
    pub open spec fn inside(self, bounds: Vector) -> bool {
        0 <= self.position.x <= bounds.x && 0 <= self.position.y <= bounds.y
    }

    /// An agent with a position drawn uniformly inside the bounds and a
    /// heading drawn uniformly over the full turn.
    pub fn random(bounds: Vector, random_generator: &mut rand::rngs::SmallRng) -> (r: Agent)
        requires
            bounds.spec_valid_bounds(),
        ensures
            r.wf(),
            r.inside(bounds),
    {
        let x: i64 = if bounds.x == 0 {
            0
        } else {
            rng_below(random_generator, bounds.x as u64) as i64
        };
        let y: i64 = if bounds.y == 0 {
            0
        } else {
            rng_below(random_generator, bounds.y as u64) as i64
        };
        let heading = rng_below(random_generator, FULL_TURN as u64) as i64;
        Agent { position: Vector { x, y }, heading }
    }

    /// Calculate the relationship to another agent.
    pub fn relate_to(&self, other: &Agent) -> (r: AgentRelationShip)
        requires
            self.wf(),
            other.wf(),
        ensures
            r == spec_relate(*self, *other),
    {
        AgentRelationShip { distance: self.distance(other), direction: self.viewing_angle(other) }
    }

    /// How far away another agent is, in milli-units.
    pub fn distance(&self, other: &Agent) -> (r: i64)
        requires
            self.wf(),
            other.wf(),
        ensures
            r == spec_distance(*self, *other),
            0 <= r <= 1_500_000_000,
    {
        let dx = self.position.x - other.position.x;
        let dy = self.position.y - other.position.y;
        proof {
            lemma_dist2_in_range(self.position, other.position);
        }
        let d2 = dx * dx + dy * dy;
        let root = isqrt(d2 as u64);
        proof {
            assert(root <= 1_500_000_000) by (nonlinear_arith)
                requires
                    (root as int) * (root as int) <= 2_000_000_000_000_000_000,
                    root >= 0,
            ;
        }
        root as i64
    }

    /// Can the other agent be reached?
    pub fn can_reach(&self, other: &Agent) -> (r: bool)
        requires
            self.wf(),
            other.wf(),
        ensures
            r == spec_can_reach(*self, *other),
    {
        self.distance(other) <= RANGE
    }

    /// At what angle this agent sees the other one, relative to its current
    /// heading.  The result is the canonical signed angle in
    /// `(-HALF_TURN, HALF_TURN]`; identical positions are defined to be a
    /// viewing angle of `0`.
    pub fn viewing_angle(&self, other: &Agent) -> (r: i64)
        requires
            self.wf(),
            other.wf(),
        ensures
            r == spec_viewing_angle(*self, *other),
            -HALF_TURN < r <= HALF_TURN,
            self.position == other.position ==> r == 0,
    {
        if self.position == other.position {
            return 0;
        }
        let dx = other.position.x - self.position.x;
        let dy = other.position.y - self.position.y;
        let bearing = atan2_milli(dy, dx);
        normalize_signed_angle(bearing - self.heading)
    }

    /// Does this agent see the other one?
    pub fn can_see(&self, other: &Agent) -> (r: bool)
        requires
            self.wf(),
            other.wf(),
        ensures
            r == spec_can_see(*self, *other),
    {
        let angle = self.viewing_angle(other);
        -FOV_HALF_ANGLE <= angle && angle <= FOV_HALF_ANGLE
    }

    /// Moves with the given velocity in the given direction; an agent that
    /// would cross a wall stops at the wall on that axis.
    pub fn perform_movement(&self, bounds: Vector, velocity: i64, direction: i64) -> (r: Agent)
        requires
            self.wf(),
            bounds.spec_valid_bounds(),
        ensures
            r == spec_perform_movement(*self, bounds, velocity as int, direction as int),
            r.wf(),
            r.inside(bounds),
    {
        let heading = normalize_angle(direction);
        let v = if velocity < 0 {
            0
        } else if velocity > MAXIMUM_VELOCITY {
            MAXIMUM_VELOCITY
        } else {
            velocity
        };
        let movement = rotate_by_angle(Vector { x: v, y: 0 }, heading);
        let x = clamp(self.position.x + movement.x, 0, bounds.x);
        let y = clamp(self.position.y + movement.y, 0, bounds.y);
        Agent { position: Vector { x, y }, heading }
    }
}

/// Clamps a value into the interval `[lo, hi]`.
fn clamp(v: i64, lo: i64, hi: i64) -> (r: i64)
    requires
        lo <= hi,
    ensures
        r == spec_clamp(v as int, lo as int, hi as int),
{
    if v < lo {
        lo
    } else if v > hi {
        hi
    } else {
        v
    }
}

/// The squared distance of two grid points is non-negative and small enough
/// for every machine representation used here.
proof fn lemma_dist2_in_range(a: Vector, b: Vector)
    requires
        0 <= a.x <= MAX_COORD,
        0 <= a.y <= MAX_COORD,
        0 <= b.x <= MAX_COORD,
        0 <= b.y <= MAX_COORD,
    ensures
        0 <= spec_dist2(a, b) <= 2_000_000_000_000_000_000,
        0 <= (a.x - b.x) * (a.x - b.x) <= 1_000_000_000_000_000_000,
        0 <= (a.y - b.y) * (a.y - b.y) <= 1_000_000_000_000_000_000,
{
    assert(0 <= (a.x - b.x) * (a.x - b.x) <= 1_000_000_000_000_000_000) by (nonlinear_arith)
        requires
            -1_000_000_000 <= a.x - b.x <= 1_000_000_000,
    ;
    assert(0 <= (a.y - b.y) * (a.y - b.y) <= 1_000_000_000_000_000_000) by (nonlinear_arith)
        requires
            -1_000_000_000 <= a.y - b.y <= 1_000_000_000,
    ;
}

/// Movement always lands inside the arena, with a canonical heading: the
/// clamping in [`spec_perform_movement`] alone guarantees it, whatever the
/// requested velocity and direction were.
pub proof fn lemma_perform_movement_wf(a: Agent, bounds: Vector, velocity: int, direction: int)
    requires
        bounds.spec_valid_bounds(),
    ensures
        spec_perform_movement(a, bounds, velocity, direction).wf(),
        spec_perform_movement(a, bounds, velocity, direction).inside(bounds),
{
    crate::types::lemma_normalize_ranges(direction);
}

/// The viewing angle always lies in the canonical signed range.
pub proof fn lemma_viewing_angle_range(a: Agent, b: Agent)
    ensures
        -HALF_TURN < spec_viewing_angle(a, b) <= HALF_TURN,
        spec_relate(a, b).direction == spec_viewing_angle(a, b),
{
    if a.position == b.position {
    } else {
        crate::types::lemma_normalize_ranges(
            spec_atan2(b.position.y - a.position.y, b.position.x - a.position.x) - a.heading,
        );
    }
}

/// Distance is symmetric, and the distance of an agent to itself is zero.
pub proof fn lemma_distance_symmetric(a: Agent, b: Agent)
    ensures
        spec_distance(a, b) == spec_distance(b, a),
        spec_distance(a, a) == 0,
{
    assert(spec_dist2(a.position, b.position) == spec_dist2(b.position, a.position))
        by (nonlinear_arith);
    assert(spec_dist2(a.position, a.position) == 0) by (nonlinear_arith);
    lemma_isqrt_is(0, 0);
}

/// Summarizes the relationship of an agent to another one.
#[derive(Clone, Copy, Debug, PartialEq, Eq, Structural)]
pub struct AgentRelationShip {
    /// Our distance to the other agent, in milli-units.
    pub distance: i64,
    /// The angle of the other agent from our heading, in milli-degrees.
    pub direction: i64,
}

/// Reachability of a relationship: within tag range.
pub open spec fn spec_is_reachable(rel: AgentRelationShip) -> bool {
    rel.distance <= RANGE
}

/// Visibility of a relationship: the direction's magnitude stays within half
/// the field of view.
pub open spec fn spec_is_visible(rel: AgentRelationShip) -> bool {
    -FOV_HALF_ANGLE <= rel.direction <= FOV_HALF_ANGLE
}

impl AgentRelationShip {
    /// Can the other agent be reached by us?
    pub fn is_reachable(&self) -> (r: bool)
        ensures
            r == spec_is_reachable(*self),
    {
        self.distance <= RANGE
    }

    /// Can the other agent be seen by us?
    pub fn is_visible(&self) -> (r: bool)
        ensures
            r == spec_is_visible(*self),
    {
        -FOV_HALF_ANGLE <= self.direction && self.direction <= FOV_HALF_ANGLE
    }
}

} // verus!
