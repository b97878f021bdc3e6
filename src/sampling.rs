//! The bounded retry rule of the rejection samplers.
//!
//! Points in the unit disk (lens jitter) and in the unit ball (diffuse and
//! fuzzy scattering) are drawn by rejection: a point is drawn uniformly in
//! the enclosing square or cube and kept when it lies inside the shape.
//! Each draw lands inside with probability at least one half, so the loop
//! ends almost surely; the number of draws is still bounded, and running
//! out is reported as exhaustion, an internal error rather than bad input.

use vstd::prelude::*;

verus! {

/// Largest number of draws a rejection sampler makes.
pub const MAX_DRAWS: u32 = 1000;

/// What a rejection sampler does after a draw.
#[derive(Clone, Copy, Debug, PartialEq, Eq, Structural)]
pub enum DrawVerdict {
    /// The point lies inside the shape: it is the sample.
    Accept,
    /// The point is rejected; `rejected` draws have been rejected so far.
    Retry { rejected: u32 },
    /// The point is rejected and no draw is left.
    Exhausted,
}

/// The verdict on a draw that follows `rejected` rejected draws.
pub open spec fn verdict_of(rejected: u32, inside: bool) -> DrawVerdict {
    if inside {
        DrawVerdict::Accept
    } else if rejected + 1 >= MAX_DRAWS {
        DrawVerdict::Exhausted
    } else {
        DrawVerdict::Retry { rejected: (rejected + 1) as u32 }
    }
}

/// Judges a draw that follows `rejected` rejected draws; `inside` tells
/// whether the drawn point lies inside the shape. A rejected draw is
/// retried only while fewer than `MAX_DRAWS` draws have been made.
pub fn judge_draw(rejected: u32, inside: bool) -> (r: DrawVerdict)
    ensures
        r == verdict_of(rejected, inside),
{
    if inside {
        DrawVerdict::Accept
    } else if rejected >= MAX_DRAWS - 1 {
        DrawVerdict::Exhausted
    } else {
        DrawVerdict::Retry { rejected: rejected + 1 }
    }
}

/// The end of a sampler run that starts after `rejected` rejected draws and
/// whose draws land inside as `inside` says, in order: the final verdict and
/// the number of draws made, or `None` when `inside` runs out first.
pub open spec fn run_end(rejected: u32, inside: Seq<bool>) -> Option<(DrawVerdict, nat)>
    decreases inside.len(),
{
    if inside.len() == 0 {
        None
    } else {
        match verdict_of(rejected, inside[0]) {
            DrawVerdict::Retry { rejected: next } => match run_end(next, inside.drop_first()) {
                Some((last, n)) => Some((last, n + 1)),
                None => None,
            },
            last => Some((last, 1)),
        }
    }
}

/// A run that starts after `rejected` rejected draws makes at most
/// `MAX_DRAWS - rejected` draws. It accepts the first point that lands
/// inside within that budget, and is exhausted exactly when none does.
pub proof fn lemma_run_is_bounded(rejected: u32, inside: Seq<bool>)
    requires
        rejected < MAX_DRAWS,
        inside.len() >= MAX_DRAWS - rejected,
    ensures
        run_end(rejected, inside) matches Some((last, n)) && 1 <= n <= MAX_DRAWS - rejected && (
        last == DrawVerdict::Accept || last == DrawVerdict::Exhausted) && (last
            == DrawVerdict::Accept <==> inside[n - 1]) && (forall|i: int|
            0 <= i < n - 1 ==> !inside[i]) && (last == DrawVerdict::Exhausted ==> n
            == MAX_DRAWS - rejected),
    decreases inside.len(),
{
    if !inside[0] && rejected + 1 < MAX_DRAWS {
        let rest = inside.drop_first();
        lemma_run_is_bounded((rejected + 1) as u32, rest);
        let (_, n) = run_end((rejected + 1) as u32, rest).unwrap();
        assert forall|i: int| 0 <= i < n implies !inside[i] || i == n as int by {
            if i > 0 {
                assert(inside[i] == rest[i - 1]);
            }
        }
        assert(inside[n as int] == rest[n - 1]);
    }
}

} // verus!
