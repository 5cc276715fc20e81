//! Fixed-point n-body gravity with propulsion and course projection.
//!
//! A small set of massive bodies (planets, ships, missiles) moves under
//! mutual gravitational attraction and, for those that carry an engine,
//! under their own thrust. The crate advances such a set by one step of
//! time, and it projects the course the bodies will follow over the coming
//! seconds without touching the set itself.
//!
//! The parts, leaves first:
//!
//! - [`ships`]: from a throttle setting and a heading to a thrust force.
//! - [`gravity`]: the force between two bodies, and the force on every
//!   body of a set. Each pair is evaluated once; what one body feels the
//!   other feels reversed.
//! - [`physics`]: one step of motion. The acceleration is the total force
//!   over the mass, the velocity advances by the new acceleration, and the
//!   position by the new velocity. Every force is found from the positions
//!   before the step.
//! - [`projection`]: the same step, repeated on a copy of the set. Points
//!   come out step by step, and within a step body by body.
//! - [`markers`]: the pool of markers that shows a projected course, kept
//!   at one marker to the point, in the order of the points.
//!
//! Every quantity is an integer; [`units`] says in what it is counted.
//! Quotients are rounded toward zero. A position, velocity or acceleration
//! that would leave `[-LIMIT, LIMIT]` is held at the nearer end. Two bodies
//! closer than `SOFTENING` attract as if they were `SOFTENING` apart, and
//! two bodies at the same place do not attract each other at all. A body
//! on which no force acts has no acceleration.
//!
//! Bodies are checked when they are made: [`body::Body::new`] refuses a
//! mass that is not positive, and anything out of range. What the functions
//! of this crate require of a body holds of every body that `new` returns,
//! and every function that returns bodies returns them valid.

pub mod units;
pub mod vector;
pub mod ships;
pub mod body;
pub mod gravity;
pub mod physics;
pub mod markers;
pub mod projection;
