//! Time-driven animations.
//!
//! An animation maps the time that has passed since its start to a position
//! on its curve. The position is kept exact, as a fraction of whole
//! nanoseconds; turning it into a value between the animation's end points is
//! the caller's part.

use vstd::prelude::*;
use crate::time::{MonotonicTime, TimeSpan};

verus! {

/// The law of motion of an animation.
#[derive(Clone, Copy, Debug, PartialEq, Eq, Structural)]
pub enum AnimationCurve {
    /// An easing function on the normalised progress.
    Simple,
    /// A cubic Bezier curve on the normalised progress.
    Cubic,
    /// A spring, with the time it takes to settle.
    Spring { settling: TimeSpan },
}

impl AnimationCurve {
    /// The settling time of a spring is well formed.
    pub open spec fn wf(self) -> bool {
        self matches AnimationCurve::Spring { settling } ==> settling.wf()
    }

    /// Whether the value is well formed.
    pub fn is_wf(&self) -> (b: bool)
        ensures
            b == self.wf(),
    {
        match self {
            AnimationCurve::Spring { settling } => settling.is_wf(),
            _ => true,
        }
    }

    /// The duration an animation on this curve runs for, when it was asked
    /// to run for `requested`: a spring runs until it settles.
    pub open spec fn effective_duration(self, requested: TimeSpan) -> TimeSpan {
        match self {
            AnimationCurve::Spring { settling } => settling,
            _ => requested,
        }
    }
}

/// Where an animation stands on its curve.
#[derive(Clone, Copy, Debug, PartialEq, Eq, Structural)]
pub enum CurvePosition {
    /// The fraction `elapsed / total` of the duration that has passed. It
    /// lies between zero and one, and `total` is not zero.
    Progress { elapsed: u128, total: u128 },
    /// The nanoseconds that have passed since the start, without bound.
    Elapsed { nanos: u128 },
}

/// The mathematical content of an [`Animation`].
pub struct AnimationView {
    pub curve: AnimationCurve,
    pub started_at: MonotonicTime,
    pub current_time: MonotonicTime,
    pub duration: TimeSpan,
}

impl AnimationView {
    /// The curve, both times and the duration are well formed.
    pub open spec fn wf(self) -> bool {
        &&& self.curve.wf()
        &&& self.started_at.wf()
        &&& self.current_time.wf()
        &&& self.duration.wf()
    }

    /// Nanoseconds from the start until the current time.
    pub open spec fn elapsed_nanos(self) -> nat {
        self.started_at.nanos_until(self.current_time)
    }

    /// The whole duration has passed.
    pub open spec fn finished(self) -> bool {
        self.elapsed_nanos() >= self.duration.total_nanos()
    }

    /// The position on the curve at the current time.
    ///
    /// On a spring it is the time that has passed. On the other curves it is
    /// the passed fraction of the duration, clamped to one.
    pub open spec fn position(self) -> CurvePosition {
        match self.curve {
            AnimationCurve::Spring { .. } => CurvePosition::Elapsed { nanos: self.elapsed_nanos() as u128 },
            _ => if self.finished() {
                CurvePosition::Progress { elapsed: 1, total: 1 }
            } else {
                CurvePosition::Progress {
                    elapsed: self.elapsed_nanos() as u128,
                    total: self.duration.total_nanos() as u128,
                }
            },
        }
    }

    /// The animation at another current time.
    pub open spec fn at(self, time: MonotonicTime) -> AnimationView {
        AnimationView { current_time: time, ..self }
    }
}

/// A time-driven interpolation along a curve.
#[derive(Clone, Copy, Debug)]
pub struct Animation {
    curve: AnimationCurve,
    started_at: MonotonicTime,
    current_time: MonotonicTime,
    duration: TimeSpan,
}

impl View for Animation {
    type V = AnimationView;

    closed spec fn view(&self) -> AnimationView {
        AnimationView {
            curve: self.curve,
            started_at: self.started_at,
            current_time: self.current_time,
            duration: self.duration,
        }
    }
}

impl Animation {
    /// An animation on `curve` that starts now and runs for the curve's
    /// effective duration.
    pub fn new(curve: AnimationCurve, duration: TimeSpan) -> (a: Animation)
        requires
            curve.wf(),
            duration.wf(),
        ensures
            a@.wf(),
            a@.curve == curve,
            a@.duration == curve.effective_duration(duration),
            a@.current_time == a@.started_at,
    {
        Animation::starting_at(curve, duration, MonotonicTime::now())
    }

    /// An animation on `curve` that starts at `now` and runs for the curve's
    /// effective duration.
    pub fn starting_at(curve: AnimationCurve, duration: TimeSpan, now: MonotonicTime) -> (a: Animation)
        requires
            curve.wf(),
            duration.wf(),
            now.wf(),
        ensures
            a@ == (AnimationView {
                curve,
                started_at: now,
                current_time: now,
                duration: curve.effective_duration(duration),
            }),
            a@.wf(),
    {
        // A spring knows how long it takes to settle: whatever was asked for
        // is ignored.
        let duration = match curve {
            AnimationCurve::Spring { settling } => settling,
            _ => duration,
        };
        Animation { curve, started_at: now, current_time: now, duration }
    }

    /// Sets the current time of the animation.
    pub fn set_current_time(&mut self, new_current_time: MonotonicTime)
        requires
            old(self)@.wf(),
            new_current_time.wf(),
        ensures
            final(self)@ == old(self)@.at(new_current_time),
            final(self)@.wf(),
    {
        self.current_time = new_current_time;
    }

    /// The curve the animation moves along.
    pub fn curve(&self) -> (c: AnimationCurve)
        ensures
            c == self@.curve,
    {
        self.curve
    }

    /// The duration the animation runs for.
    pub fn duration(&self) -> (d: TimeSpan)
        ensures
            d == self@.duration,
    {
        self.duration
    }

    /// The time from the start until the current time.
    pub fn elapsed(&self) -> (d: TimeSpan)
        requires
            self@.wf(),
        ensures
            d.wf(),
            d.total_nanos() == self@.elapsed_nanos(),
    {
        self.started_at.elapsed(self.current_time)
    }

    /// Whether the whole duration has passed at the current time.
    pub fn is_finished(&self) -> (b: bool)
        requires
            self@.wf(),
        ensures
            b == self@.finished(),
    {
        self.elapsed().as_nanos() >= self.duration.as_nanos()
    }

    /// The position on the curve at the current time.
    pub fn position(&self) -> (p: CurvePosition)
        requires
            self@.wf(),
        ensures
            p == self@.position(),
            p matches CurvePosition::Progress { elapsed, total } ==> elapsed <= total && total > 0,
    {
        let elapsed = self.elapsed().as_nanos();
        match self.curve {
            AnimationCurve::Spring { .. } => CurvePosition::Elapsed { nanos: elapsed },
            _ => {
                let total = self.duration.as_nanos();
                if elapsed >= total {
                    CurvePosition::Progress { elapsed: 1, total: 1 }
                } else {
                    CurvePosition::Progress { elapsed, total }
                }
            },
        }
    }
}

/// An animation is finished exactly when the time since its start has
/// reached its duration, whatever its curve.
pub proof fn lemma_finished_iff_duration_elapsed(a: AnimationView, time: MonotonicTime)
    requires
        a.wf(),
        time.wf(),
    ensures
        a.at(time).finished() <==> a.started_at.nanos_until(time) >= a.duration.total_nanos(),
{
}

/// On a curve that is no spring, an animation stands at progress zero when
/// no time has passed and its duration is not zero, and at progress exactly
/// one when its duration has passed.
pub proof fn lemma_progress_at_ends(a: AnimationView, time: MonotonicTime)
    requires
        a.wf(),
        time.wf(),
        !(a.curve is Spring),
    ensures
        a.started_at.nanos_until(time) == 0 && a.duration.total_nanos() > 0 ==> a.at(time).position()
            == (CurvePosition::Progress { elapsed: 0, total: a.duration.total_nanos() as u128 }),
        a.started_at.nanos_until(time) >= a.duration.total_nanos() ==> a.at(time).position() == (
        CurvePosition::Progress { elapsed: 1, total: 1 }),
{
}

/// A spring animation runs for the spring's settling time, whatever duration
/// it was asked to run for.
pub proof fn lemma_spring_duration(settling: TimeSpan, requested: TimeSpan)
    ensures
        (AnimationCurve::Spring { settling }).effective_duration(requested) == settling,
{
}

} // verus!
