//! The termination rule of the recursive color computation.
//!
//! Each evaluation of the color of a ray intersects the ray with the scene
//! and, on a hit, asks the surface's material to scatter it. What happened is
//! a [`SurfaceEvent`]; together with the current depth it decides the next
//! [`PathStep`]. The arithmetic on colors (background gradient, attenuation
//! products) is done by the caller.

use vstd::prelude::*;

verus! {

/// Depth at which a path is cut off: a scatter at this depth or deeper
/// contributes black instead of being followed.
pub const MAX_DEPTH: u32 = 50;

/// What the scene did with the ray traced at the current depth.
#[derive(Clone, Copy, Debug, PartialEq, Eq, Structural)]
pub enum SurfaceEvent {
    /// The ray hit no object in the admissible parameter window.
    Miss,
    /// The ray hit an object whose material absorbed it.
    Absorbed,
    /// The ray hit an object whose material produced a scattered ray.
    Scattered,
}

/// What the color computation does after one evaluation.
#[derive(Clone, Copy, Debug, PartialEq, Eq, Structural)]
pub enum PathStep {
    /// The ray escaped: its color is the background gradient.
    Background,
    /// The path ends with no light: the ray was absorbed, or the depth cap
    /// was reached.
    Black,
    /// The color is the attenuation times the color of the scattered ray,
    /// which is evaluated at `depth`.
    Bounce { depth: u32 },
}

/// The step taken at `depth` after `event`.
pub open spec fn step_of(depth: u32, event: SurfaceEvent) -> PathStep {
    match event {
        SurfaceEvent::Miss => PathStep::Background,
        SurfaceEvent::Absorbed => PathStep::Black,
        SurfaceEvent::Scattered => {
            if depth < MAX_DEPTH {
                PathStep::Bounce { depth: (depth + 1) as u32 }
            } else {
                PathStep::Black
            }
        },
    }
}

/// Decides what follows an evaluation at `depth` that met `event`.
///
/// A miss gives the background, an absorption gives black, and a scatter is
/// followed one level deeper only while `depth < MAX_DEPTH`.
pub fn next_step(depth: u32, event: SurfaceEvent) -> (r: PathStep)
    ensures
        r == step_of(depth, event),
{
    match event {
        SurfaceEvent::Miss => PathStep::Background,
        SurfaceEvent::Absorbed => PathStep::Black,
        SurfaceEvent::Scattered => {
            if depth < MAX_DEPTH {
                PathStep::Bounce { depth: depth + 1 }
            } else {
                PathStep::Black
            }
        },
    }
}

/// Evaluations left to a path at `depth` before the cap forces it to end.
pub open spec fn evaluations_left(depth: u32) -> nat {
    if depth < MAX_DEPTH {
        (MAX_DEPTH - depth + 1) as nat
    } else {
        1
    }
}

/// The end of a path whose evaluations start at `depth` and meet `events`
/// in order: the final step and the number of evaluations made, or `None`
/// when the events run out while the path is still bouncing.
pub open spec fn path_end(depth: u32, events: Seq<SurfaceEvent>) -> Option<(PathStep, nat)>
    decreases events.len(),
{
    if events.len() == 0 {
        None
    } else {
        match step_of(depth, events[0]) {
            PathStep::Bounce { depth: next } => match path_end(next, events.drop_first()) {
                Some((last, n)) => Some((last, n + 1)),
                None => None,
            },
            last => Some((last, 1)),
        }
    }
}

/// Once the depth has reached the cap, no event leads to another bounce;
/// a scatter there contributes black.
pub proof fn lemma_no_bounce_past_cap(depth: u32, event: SurfaceEvent)
    requires
        depth >= MAX_DEPTH,
    ensures
        !(step_of(depth, event) is Bounce),
        event == SurfaceEvent::Scattered ==> step_of(depth, event) == PathStep::Black,
{
}

/// Every path ends: given at least `evaluations_left(depth)` events, whatever
/// they are, the path has ended after at most that many evaluations, on a
/// step that is not a bounce.
pub proof fn lemma_path_ends_within_cap(depth: u32, events: Seq<SurfaceEvent>)
    requires
        events.len() >= evaluations_left(depth),
    ensures
        path_end(depth, events) matches Some((last, n)) && !(last is Bounce) && 1 <= n
            <= evaluations_left(depth),
    decreases events.len(),
{
    match step_of(depth, events[0]) {
        PathStep::Bounce { depth: next } => {
            lemma_path_ends_within_cap(next, events.drop_first());
        },
        _ => {},
    }
}

/// A ray caught between perfect mirrors scatters at every evaluation: such a
/// path is followed until the depth cap and then ends in black, after
/// exactly `evaluations_left(depth)` evaluations, however many further
/// scatters would be possible.
pub proof fn lemma_endless_scatter_ends_black(depth: u32, events: Seq<SurfaceEvent>)
    requires
        events.len() >= evaluations_left(depth),
        forall|i: int| 0 <= i < events.len() ==> events[i] == SurfaceEvent::Scattered,
    ensures
        path_end(depth, events) == Some((PathStep::Black, evaluations_left(depth))),
    decreases events.len(),
{
    if depth < MAX_DEPTH {
        let rest = events.drop_first();
        assert forall|i: int| 0 <= i < rest.len() implies rest[i] == SurfaceEvent::Scattered by {
            assert(rest[i] == events[i + 1]);
        }
        lemma_endless_scatter_ends_black((depth + 1) as u32, rest);
    }
}

} // verus!
