use fht_compositor::animation::{Animation, AnimationCurve, CurvePosition};
use fht_compositor::time::{MonotonicTime, TimeSpan};

#[test]
fn elapsed_is_the_difference_or_zero() {
    let a = MonotonicTime::new(5, 900_000_000);
    let b = MonotonicTime::new(7, 100_000_000);
    let d = a.elapsed(b);
    assert_eq!((d.secs, d.nanos), (1, 200_000_000));
    let back = b.elapsed(a);
    assert_eq!((back.secs, back.nanos), (0, 0));
    let same = a.elapsed(a);
    assert_eq!((same.secs, same.nanos), (0, 0));
    let within = MonotonicTime::new(5, 100).elapsed(MonotonicTime::new(5, 350));
    assert_eq!((within.secs, within.nanos), (0, 250));
}

#[test]
fn span_in_nanoseconds() {
    assert_eq!(TimeSpan::new(2, 5).as_nanos(), 2_000_000_005);
    assert_eq!(TimeSpan::new(u64::MAX, 999_999_999).as_nanos(), 18_446_744_073_709_551_615_999_999_999);
}

#[test]
fn readings_of_the_clock_are_brought_into_range() {
    assert_eq!(MonotonicTime::from_timespec(12, 34), MonotonicTime::new(12, 34));
    assert_eq!(MonotonicTime::from_timespec(-1, 34), MonotonicTime::new(0, 34));
    assert_eq!(MonotonicTime::from_timespec(12, -5), MonotonicTime::new(12, 0));
    assert_eq!(MonotonicTime::from_timespec(12, 2_000_000_000), MonotonicTime::new(12, 999_999_999));
    assert!(MonotonicTime::from_timespec(i64::MAX, 0).is_wf());
    assert!(TimeSpan::new(0, 5).is_wf());
    assert!(!TimeSpan { secs: 0, nanos: 1_000_000_000 }.is_wf());
    assert!(!MonotonicTime { secs: u64::MAX, nanos: 0 }.is_wf());
    assert!(AnimationCurve::Spring { settling: TimeSpan::new(1, 0) }.is_wf());
    assert!(!AnimationCurve::Spring { settling: TimeSpan { secs: 1, nanos: u32::MAX } }.is_wf());
}

#[test]
fn the_monotonic_clock_does_not_go_back() {
    let first = MonotonicTime::now();
    let second = MonotonicTime::now();
    assert!(first.is_wf());
    assert!(second.is_wf());
    assert!((second.secs, second.nanos) >= (first.secs, first.nanos));
    assert!((first.secs, first.nanos) > (0, 0));
}

#[test]
fn a_new_animation_starts_now_and_unfinished() {
    let before = MonotonicTime::now();
    let a = Animation::new(AnimationCurve::Simple, TimeSpan::new(10, 0));
    assert!(!a.is_finished());
    assert_eq!(a.duration(), TimeSpan::new(10, 0));
    assert_eq!(a.curve(), AnimationCurve::Simple);
    assert_eq!(a.elapsed(), TimeSpan::new(0, 0));
    let mut later = a;
    later.set_current_time(MonotonicTime::new(before.secs + 11, 0));
    assert!(later.is_finished());
}

#[test]
fn finished_exactly_from_the_duration_on() {
    let start = MonotonicTime::new(100, 500_000_000);
    for curve in [
        AnimationCurve::Simple,
        AnimationCurve::Cubic,
        AnimationCurve::Spring { settling: TimeSpan::new(2, 0) },
    ] {
        let mut a = Animation::starting_at(curve, TimeSpan::new(2, 0), start);
        assert!(!a.is_finished());
        a.set_current_time(MonotonicTime::new(102, 499_999_999));
        assert!(!a.is_finished());
        a.set_current_time(MonotonicTime::new(102, 500_000_000));
        assert!(a.is_finished());
        a.set_current_time(MonotonicTime::new(5000, 0));
        assert!(a.is_finished());
        a.set_current_time(MonotonicTime::new(1, 0));
        assert!(!a.is_finished());
        assert_eq!(a.elapsed(), TimeSpan::new(0, 0));
    }
}

#[test]
fn a_spring_runs_for_its_settling_time() {
    let settling = TimeSpan::new(0, 750_000_000);
    let curve = AnimationCurve::Spring { settling };
    let start = MonotonicTime::new(1, 0);
    let mut a = Animation::starting_at(curve, TimeSpan::new(30, 0), start);
    assert_eq!(a.duration(), settling);
    a.set_current_time(MonotonicTime::new(1, 750_000_000));
    assert!(a.is_finished());
    let other = Animation::starting_at(curve, TimeSpan::new(0, 1), start);
    assert_eq!(other.duration(), settling);
    let eased = Animation::starting_at(AnimationCurve::Cubic, TimeSpan::new(30, 0), start);
    assert_eq!(eased.duration(), TimeSpan::new(30, 0));
}

#[test]
fn progress_runs_from_zero_to_exactly_one() {
    let start = MonotonicTime::new(10, 0);
    let mut a = Animation::starting_at(AnimationCurve::Simple, TimeSpan::new(4, 0), start);
    assert_eq!(a.position(), CurvePosition::Progress { elapsed: 0, total: 4_000_000_000 });
    a.set_current_time(MonotonicTime::new(11, 0));
    assert_eq!(a.position(), CurvePosition::Progress { elapsed: 1_000_000_000, total: 4_000_000_000 });
    a.set_current_time(MonotonicTime::new(14, 0));
    assert_eq!(a.position(), CurvePosition::Progress { elapsed: 1, total: 1 });
    a.set_current_time(MonotonicTime::new(99, 0));
    assert_eq!(a.position(), CurvePosition::Progress { elapsed: 1, total: 1 });
    a.set_current_time(MonotonicTime::new(9, 0));
    assert_eq!(a.position(), CurvePosition::Progress { elapsed: 0, total: 4_000_000_000 });
}

#[test]
fn a_spring_is_not_clamped() {
    let curve = AnimationCurve::Spring { settling: TimeSpan::new(1, 0) };
    let mut a = Animation::starting_at(curve, TimeSpan::new(1, 0), MonotonicTime::new(10, 0));
    assert_eq!(a.position(), CurvePosition::Elapsed { nanos: 0 });
    a.set_current_time(MonotonicTime::new(13, 5));
    assert_eq!(a.position(), CurvePosition::Elapsed { nanos: 3_000_000_005 });
}

#[test]
fn an_animation_without_duration_is_complete_at_once() {
    let a = Animation::starting_at(AnimationCurve::Cubic, TimeSpan::new(0, 0), MonotonicTime::new(10, 0));
    assert!(a.is_finished());
    assert_eq!(a.position(), CurvePosition::Progress { elapsed: 1, total: 1 });
}
