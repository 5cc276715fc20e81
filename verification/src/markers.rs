//! The pool of markers that shows a projected course: one marker to a
//! point, in the order the points come.

use vstd::prelude::*;
use crate::vector::{Triple, Vector};

verus! {

/// A marker of the pool. A marker holds a position and nothing else, so
/// any marker can stand in for any other.
#[derive(Clone, Copy, Debug, PartialEq, Eq, Structural)]
pub struct ProjectionDot {
    pub position: Vector,
}

impl Default for ProjectionDot {
    fn default() -> (dot: ProjectionDot)
        ensures
            dot.position@ == Triple::zero(),
    {
        ProjectionDot { position: Vector::zero() }
    }
}

/// What had to be done to a pool to fit it to a course.
#[derive(Clone, Copy, Debug, PartialEq, Eq, Structural)]
pub enum PoolChange {
    /// The pool already had the right size.
    Unchanged,
    /// This many markers were created.
    Created(usize),
    /// This many markers were destroyed.
    Destroyed(usize),
}

/// The change that fits a pool of `available` markers to `needed` points:
/// the surplus is destroyed, or the shortfall created.
pub open spec fn pool_change(available: usize, needed: usize) -> PoolChange {
    if available > needed {
        PoolChange::Destroyed((available - needed) as usize)
    } else if available < needed {
        PoolChange::Created((needed - available) as usize)
    } else {
        PoolChange::Unchanged
    }
}

/// The markers of a pool fitted to `points`: as many as there are points,
/// the marker at each index on the point at that index.
pub open spec fn markers_on(points: Seq<Vector>) -> Seq<ProjectionDot> {
    points.map_values(|p: Vector| ProjectionDot { position: p })
}

/// Tells how a pool of `available` markers has to change to hold `needed`.
pub fn plan_pool_change(available: usize, needed: usize) -> (change: PoolChange)
    ensures
        change == pool_change(available, needed),
{
    if available > needed {
        PoolChange::Destroyed(available - needed)
    } else if available < needed {
        PoolChange::Created(needed - available)
    } else {
        PoolChange::Unchanged
    }
}

/// Fits the pool to `points`: destroys the markers that are too many or
/// creates the ones that are missing, then puts the marker at each index
/// on the point at that index. Returns what was done to the pool's size.
pub fn reconcile_markers(dots: &mut Vec<ProjectionDot>, points: &Vec<Vector>) -> (change:
    PoolChange)
    ensures
        final(dots)@ == markers_on(points@),
        final(dots).len() == points.len(),
        change == pool_change(old(dots).len(), points.len()),
{
    let needed = points.len();
    let change = plan_pool_change(dots.len(), needed);
    match change {
        PoolChange::Destroyed(_) => {
            dots.truncate(needed);
        },
        PoolChange::Created(_) => {
            while dots.len() < needed
                invariant
                    dots.len() <= needed,
                decreases needed - dots.len(),
            {
                dots.push(ProjectionDot { position: Vector::zero() });
            }
        },
        PoolChange::Unchanged => {},
    }
    let mut i: usize = 0;
    while i < needed
        invariant
            i <= needed,
            needed == points.len(),
            dots.len() == needed,
            forall|a: int| 0 <= a < i ==> (#[trigger] dots[a]).position == points[a],
        decreases needed - i,
    {
        dots.set(i, ProjectionDot { position: points[i] });
        i += 1;
    }
    assert(dots@ =~= markers_on(points@));
    change
}

} // verus!
