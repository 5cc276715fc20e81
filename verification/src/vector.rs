//! Three-component vectors: the stored kind, the force kind, and the
//! mathematical model both are read through.

use vstd::prelude::*;
use crate::units::LIMIT;

verus! {

/// A vector of three mathematical integers: the model of `Vector` and of
/// `Force`.
pub struct Triple {
    pub x: int,
    pub y: int,
    pub z: int,
}

impl Triple {
    /// The vector whose components are all zero.
    pub open spec fn zero() -> Triple {
        Triple { x: 0, y: 0, z: 0 }
    }

    /// Component-wise sum.
    pub open spec fn plus(self, other: Triple) -> Triple {
        Triple { x: self.x + other.x, y: self.y + other.y, z: self.z + other.z }
    }

    /// Component-wise difference.
    pub open spec fn minus(self, other: Triple) -> Triple {
        Triple { x: self.x - other.x, y: self.y - other.y, z: self.z - other.z }
    }

    /// The vector of the same length that points the other way.
    pub open spec fn negated(self) -> Triple {
        Triple { x: -self.x, y: -self.y, z: -self.z }
    }

    /// The square of the vector's length.
    pub open spec fn norm_squared(self) -> int {
        self.x * self.x + self.y * self.y + self.z * self.z
    }

    /// Every component lies in `[-bound, bound]`.
    pub open spec fn within(self, bound: int) -> bool {
        &&& -bound <= self.x <= bound
        &&& -bound <= self.y <= bound
        &&& -bound <= self.z <= bound
    }
}

/// A position, velocity or acceleration, in ticks, ticks per second or
/// ticks per second squared. The third axis is carried along but by
/// convention left at zero.
#[derive(Clone, Copy, Debug, PartialEq, Eq, Structural)]
pub struct Vector {
    pub x: i64,
    pub y: i64,
    pub z: i64,
}

impl View for Vector {
    type V = Triple;

    open spec fn view(&self) -> Triple {
        Triple { x: self.x as int, y: self.y as int, z: self.z as int }
    }
}

impl Vector {
    /// The vector with the given components.
    pub fn new(x: i64, y: i64, z: i64) -> (v: Vector)
        ensures
            v == (Vector { x, y, z }),
    {
        Vector { x, y, z }
    }

    /// The vector whose components are all zero.
    pub fn zero() -> (v: Vector)
        ensures
            v@ == Triple::zero(),
    {
        Vector { x: 0, y: 0, z: 0 }
    }

    /// Whether every component lies in `[-LIMIT, LIMIT]`.
    pub fn in_range(&self) -> (ok: bool)
        ensures
            ok == self@.within(LIMIT as int),
    {
        -LIMIT <= self.x && self.x <= LIMIT && -LIMIT <= self.y && self.y <= LIMIT && -LIMIT
            <= self.z && self.z <= LIMIT
    }
}

/// A force, in mass units times ticks per second squared.
#[derive(Clone, Copy, Debug, PartialEq, Eq, Structural)]
pub struct Force {
    pub x: i128,
    pub y: i128,
    pub z: i128,
}

impl View for Force {
    type V = Triple;

    open spec fn view(&self) -> Triple {
        Triple { x: self.x as int, y: self.y as int, z: self.z as int }
    }
}

impl Force {
    /// The force with the given components.
    pub fn new(x: i128, y: i128, z: i128) -> (f: Force)
        ensures
            f == (Force { x, y, z }),
    {
        Force { x, y, z }
    }

    /// The force that pushes nowhere.
    pub fn zero() -> (f: Force)
        ensures
            f@ == Triple::zero(),
    {
        Force { x: 0, y: 0, z: 0 }
    }
}

} // verus!
