//! A simulation of a game of tag.
//!
//! A population of agents moves in a bounded two-dimensional arena; one agent
//! is "it" and tries to tag another agent by approaching within range, and a
//! tagged agent becomes the new "it" on the next step.  All geometry is done
//! in exact fixed-point arithmetic: positions live on a milli-unit grid and
//! angles are measured in milli-degrees, so every step of the simulation is a
//! deterministic function of its inputs and the random draws made for it.

pub mod agent;
pub mod behavior;
pub mod id;
pub mod rng;
pub mod trig;
pub mod types;
pub mod world;

use vstd::prelude::*;

verus! {

} // verus!
