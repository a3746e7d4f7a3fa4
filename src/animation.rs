//! The per-entity sprite animation state machine.
use bevy::time::{Timer, TimerMode};
use std::time::Duration;
use vstd::prelude::*;

verus! {

/// Period of the mob sprite animation, in nanoseconds (a tenth of a second).
pub const ANIMATION_PERIOD_NS: u64 = 100_000_000;

/// The contiguous range `first..=last` of atlas frames an animation cycles through.
#[derive(Clone, Copy, Debug, PartialEq, Eq, Structural)]
pub struct AnimationIndices {
    pub first: usize,
    pub last: usize,
}

/// A repeating timer: `elapsed_ns` is the time accumulated in the current period.
#[derive(Clone, Copy, Debug, PartialEq, Eq, Structural)]
pub struct AnimationTimer {
    pub period_ns: u64,
    pub elapsed_ns: u64,
}

/// Frame that follows `index`: one step forward, wrapping from `last` back to `first`.
pub open spec fn next_frame(indices: AnimationIndices, index: usize) -> usize {
    if index == indices.last {
        indices.first
    } else {
        (index + 1) as usize
    }
}

/// Whether ticking `timer` by `delta_ns` completes at least one period.
pub open spec fn fires(timer: AnimationTimer, delta_ns: u64) -> bool {
    timer.elapsed_ns + delta_ns >= timer.period_ns
}

/// Whether one tick of `delta_ns` stays within what the timer can count in one go.
pub open spec fn tick_fits(timer: AnimationTimer, delta_ns: u64) -> bool {
    (timer.elapsed_ns + delta_ns) / (timer.period_ns as int) <= u32::MAX
}

/// Relies on bevy's repeating `Timer` (`Timer::new`, `set_elapsed`, `tick`,
/// `elapsed`, `just_finished`): a tick adds `delta` to the elapsed time; once
/// that reaches the period it counts the whole periods completed, which makes
/// `just_finished` true, and keeps the remainder as the new elapsed time. The
/// count is held in a `u32`, hence the bound on it.
#[verifier::external_body]
fn repeating_timer_tick(period_ns: u64, elapsed_ns: u64, delta_ns: u64) -> (r: (u64, bool))
    requires
        0 < period_ns,
        elapsed_ns < period_ns,
        (elapsed_ns + delta_ns) / (period_ns as int) <= u32::MAX,
    ensures
        r.0 == (elapsed_ns + delta_ns) % (period_ns as int),
        r.1 == (elapsed_ns + delta_ns >= period_ns),
{
    let mut timer = Timer::new(Duration::from_nanos(period_ns), TimerMode::Repeating);
    timer.set_elapsed(Duration::from_nanos(elapsed_ns));
    timer.tick(Duration::from_nanos(delta_ns));
    (timer.elapsed().as_nanos() as u64, timer.just_finished())
}

impl AnimationIndices {
    /// Whether the range is non-empty.
    pub open spec fn wf(self) -> bool {
        self.first <= self.last
    }

    /// Whether `index` lies in `first..=last`.
    pub open spec fn contains(self, index: usize) -> bool {
        self.first <= index <= self.last
    }

    /// The frame after `index`, wrapping from `last` to `first`.
    pub fn next(&self, index: usize) -> (r: usize)
        requires
            self.contains(index),
        ensures
            r == next_frame(*self, index),
            self.contains(r),
    {
        if index == self.last {
            self.first
        } else {
            index + 1
        }
    }
}

impl AnimationTimer {
    pub open spec fn wf(self) -> bool {
        0 < self.period_ns && self.elapsed_ns < self.period_ns
    }

    /// A repeating timer of the given period, at the start of a period.
    pub fn repeating(period_ns: u64) -> (r: AnimationTimer)
        requires
            0 < period_ns,
        ensures
            r.wf(),
            r.period_ns == period_ns,
            r.elapsed_ns == 0,
    {
        AnimationTimer { period_ns, elapsed_ns: 0 }
    }

    /// Advances the timer by `delta_ns`; returns whether a period completed
    /// (at most one signal per tick, however many periods went by).
    pub fn tick(&mut self, delta_ns: u64) -> (fired: bool)
        requires
            old(self).wf(),
            tick_fits(*old(self), delta_ns),
        ensures
            final(self).wf(),
            final(self).period_ns == old(self).period_ns,
            final(self).elapsed_ns == (old(self).elapsed_ns + delta_ns) % (old(self).period_ns as int),
            fired == fires(*old(self), delta_ns),
    {
        let (elapsed_ns, fired) = repeating_timer_tick(self.period_ns, self.elapsed_ns, delta_ns);
        self.elapsed_ns = elapsed_ns;
        fired
    }
}

/// The animation a sprite carries: its frame range, its timer and the frame shown.
#[derive(Clone, Copy, Debug, PartialEq, Eq, Structural)]
pub struct AnimationState {
    pub indices: AnimationIndices,
    pub timer: AnimationTimer,
    pub index: usize,
}

/// The state after one tick of `delta_ns`: the timer advances, and the frame
/// steps once if a period completed.
pub open spec fn ticked(s: AnimationState, delta_ns: u64) -> AnimationState {
    AnimationState {
        indices: s.indices,
        timer: AnimationTimer {
            period_ns: s.timer.period_ns,
            elapsed_ns: ((s.timer.elapsed_ns + delta_ns) % (s.timer.period_ns as int)) as u64,
        },
        index: if fires(s.timer, delta_ns) {
            next_frame(s.indices, s.index)
        } else {
            s.index
        },
    }
}

impl AnimationState {
    /// An animation over `first..=last` at its first frame, with a fresh timer.
    pub open spec fn fresh(first: usize, last: usize, period_ns: u64) -> AnimationState {
        AnimationState {
            indices: AnimationIndices { first, last },
            timer: AnimationTimer { period_ns, elapsed_ns: 0 },
            index: first,
        }
    }

    pub open spec fn wf(self) -> bool {
        self.indices.wf() && self.timer.wf() && self.indices.contains(self.index)
    }

    /// An animation over `first..=last` at its first frame, with a fresh timer.
    pub fn new(first: usize, last: usize, period_ns: u64) -> (r: AnimationState)
        requires
            first <= last,
            0 < period_ns,
        ensures
            r.wf(),
            r == AnimationState::fresh(first, last, period_ns),
    {
        AnimationState {
            indices: AnimationIndices { first, last },
            timer: AnimationTimer::repeating(period_ns),
            index: first,
        }
    }

    /// One animation tick of `delta_ns`.
    pub fn tick(&mut self, delta_ns: u64)
        requires
            old(self).wf(),
            tick_fits(old(self).timer, delta_ns),
        ensures
            final(self).wf(),
            *final(self) == ticked(*old(self), delta_ns),
    {
        let fired = self.timer.tick(delta_ns);
        if fired {
            self.index = self.indices.next(self.index);
        }
    }
}

/// From the last frame, a tick that completes a period shows the first frame
/// again; a tick that completes no period leaves the frame as it was.
pub proof fn lemma_animation_wraps(s: AnimationState, delta_ns: u64)
    requires
        s.wf(),
    ensures
        s.index == s.indices.last && fires(s.timer, delta_ns) ==> ticked(s, delta_ns).index
            == s.indices.first,
        !fires(s.timer, delta_ns) ==> ticked(s, delta_ns).index == s.index,
        ticked(s, delta_ns).wf(),
{
    assert((s.timer.elapsed_ns + delta_ns) % (s.timer.period_ns as int) < s.timer.period_ns);
}

} // verus!
