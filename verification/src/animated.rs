//! Animation timing: what a tick of the clock does to a running animation.
//! The interpolated values themselves are floating point and are computed
//! by the caller.

use vstd::prelude::*;

verus! {

pub enum AnimationRepeat {
    Once,
    Count(u32),
    Forever,
}

pub enum Easing {
    Linear,
    CubicIn,
    CubicOut,
}

pub enum AnimationKey {
    Percent(u32),
    Duration(u64),
}

/// Where an animation is, without its progress value.
#[derive(Debug, Clone, Copy, PartialEq, Eq, Structural)]
pub enum AnimationPhase {
    Idle,
    Running,
    Done,
}

/// What a tick does to an animation.
#[derive(Debug, Clone, Copy, PartialEq, Eq, Structural)]
pub enum Tick {
    /// nothing changes (idle, done, or still within the delay)
    Unchanged,
    /// the animation was never started: it becomes idle
    Reset,
    /// duration and delay have passed: the value jumps to the target
    Finish,
    /// the animation has run for `elapsed_ns` nanoseconds past its delay
    Progress { elapsed_ns: u128 },
}

/// The tick of an animation in `phase`, started (or not) `elapsed_ns`
/// nanoseconds ago, lasting `duration_ns` after a delay of `delay_ns`.
pub open spec fn spec_tick(phase: AnimationPhase, started: bool, elapsed_ns: u128, duration_ns: u128, delay_ns: u128) -> Tick {
    if phase == AnimationPhase::Idle || phase == AnimationPhase::Done {
        Tick::Unchanged
    } else if !started {
        Tick::Reset
    } else if elapsed_ns >= duration_ns + delay_ns {
        Tick::Finish
    } else if elapsed_ns < delay_ns {
        Tick::Unchanged
    } else {
        Tick::Progress { elapsed_ns: (elapsed_ns - delay_ns) as u128 }
    }
}

/// What a tick of the clock does to an animation (the decisions of
/// `Animated::update`).
pub fn animation_tick(phase: AnimationPhase, started: bool, elapsed_ns: u128, duration_ns: u128, delay_ns: u128) -> (r: Tick)
    requires
        duration_ns + delay_ns <= u128::MAX,
    ensures
        r == spec_tick(phase, started, elapsed_ns, duration_ns, delay_ns),
{
    if phase == AnimationPhase::Idle || phase == AnimationPhase::Done {
        return Tick::Unchanged;
    }
    if !started {
        return Tick::Reset;
    }
    if elapsed_ns >= duration_ns + delay_ns {
        return Tick::Finish;
    }
    if elapsed_ns < delay_ns {
        return Tick::Unchanged;
    }
    Tick::Progress { elapsed_ns: elapsed_ns - delay_ns }
}

/// A running animation never reports progress past its end: the time run
/// past the delay is below the duration, so the progress fraction stays
/// below 1 (the caller asserts `progress <= 1`).
pub proof fn law_progress_below_one(phase: AnimationPhase, started: bool, elapsed_ns: u128, duration_ns: u128, delay_ns: u128)
    requires
        duration_ns + delay_ns <= u128::MAX,
    ensures
        spec_tick(phase, started, elapsed_ns, duration_ns, delay_ns) matches Tick::Progress { elapsed_ns: e }
            ==> e < duration_ns && duration_ns > 0,
{
}

/// An idle or finished animation is left as it is by every tick.
pub proof fn law_settled_stays(phase: AnimationPhase, started: bool, elapsed_ns: u128, duration_ns: u128, delay_ns: u128)
    requires
        phase != AnimationPhase::Running,
    ensures
        spec_tick(phase, started, elapsed_ns, duration_ns, delay_ns) == Tick::Unchanged,
{
}

} // verus!
