//! Identifiers of agents.

use vstd::prelude::*;

verus! {

/// Identifier of an agent.  An [`Id`] doubles as a dense index into the array
/// of agents of the world that issued it: every valid [`Id`] is below the
/// number of agents, and the agent set of a world never grows or shrinks
/// after construction.
#[derive(Clone, Copy, Debug, PartialEq, Eq, Structural)]
pub struct Id(pub u32);

impl Id {
    /// The index this identifier stands for.
    pub open spec fn idx(self) -> int {
        self.0 as int
    }

    /// Wraps a raw index as an identifier.
    pub fn from_u32(value: u32) -> (r: Id)
        ensures
            r == Id(value),
    {
        Id(value)
    }

    /// Wraps a machine-sized index as an identifier; indices above `u32::MAX`
    /// are not representable and are rejected.
    pub fn try_from_usize(value: usize) -> (r: Result<Id, &'static str>)
        ensures
            value <= u32::MAX ==> (r matches Ok(id) && id.idx() == value),
            value > u32::MAX ==> r is Err,
    {
        if value <= u32::MAX as usize {
            Ok(Id(value as u32))
        } else {
            Err("Ids larger than u32::MAX are not supported")
        }
    }

    /// The raw index this identifier wraps.
    pub fn as_u32(&self) -> (r: u32)
        ensures
            r == self.0,
    {
        self.0
    }

    /// The index this identifier stands for, as a machine-sized integer.
    pub fn as_usize(&self) -> (r: usize)
        ensures
            r == self.idx(),
    {
        self.0 as usize
    }
}

} // verus!
