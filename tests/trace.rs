use blackhole::trace::{classify, trace_pixels, trace_ray, Action, Probe, RayTracer, TraceResult};
use std::cell::Cell;

const R_S: f64 = 1.269e10;
const ESCAPE_R: f64 = 1e30;

fn clear() -> Probe {
    Probe { inside_horizon: false, beyond_escape: false, in_disk: false, in_object: false }
}

/// A purely radial ray: (r, dr) advanced by a fixed affine step.
fn radial_probe(s: &(f64, f64)) -> Probe {
    Probe { inside_horizon: s.0 <= R_S, beyond_escape: s.0 > ESCAPE_R, in_disk: false, in_object: false }
}

#[test]
fn classify_clear_state_continues() {
    assert_eq!(classify(clear(), 0, 10), None);
    assert_eq!(classify(clear(), 9, 10), None);
}

#[test]
fn classify_budget_exhausted() {
    assert_eq!(classify(clear(), 10, 10), Some(TraceResult::MaxSteps));
    assert_eq!(classify(clear(), 0, 0), Some(TraceResult::MaxSteps));
}

#[test]
fn classify_each_predicate() {
    let p = Probe { inside_horizon: true, ..clear() };
    assert_eq!(classify(p, 3, 10), Some(TraceResult::HitBlackHole));
    let p = Probe { beyond_escape: true, ..clear() };
    assert_eq!(classify(p, 3, 10), Some(TraceResult::Escaped));
    let p = Probe { in_disk: true, ..clear() };
    assert_eq!(classify(p, 3, 10), Some(TraceResult::HitDisk));
    let p = Probe { in_object: true, ..clear() };
    assert_eq!(classify(p, 3, 10), Some(TraceResult::HitObject));
}

#[test]
fn classify_order_of_checks() {
    let p = Probe { in_disk: true, in_object: true, ..clear() };
    assert_eq!(classify(p, 1, 10), Some(TraceResult::HitDisk));
    let p = Probe { beyond_escape: true, in_disk: true, ..clear() };
    assert_eq!(classify(p, 1, 10), Some(TraceResult::Escaped));
    // The budget is checked after the last step, before the horizon.
    let p = Probe { inside_horizon: true, ..clear() };
    assert_eq!(classify(p, 10, 10), Some(TraceResult::MaxSteps));
    // Escape before any step beats an empty budget.
    let p = Probe { beyond_escape: true, ..clear() };
    assert_eq!(classify(p, 0, 0), Some(TraceResult::Escaped));
}

#[test]
fn tracer_counts_steps_and_stays_terminal() {
    let mut t = RayTracer::new(2);
    assert_eq!(t.observe(clear()), Action::Integrate);
    assert_eq!(t.steps, 1);
    assert_eq!(t.observe(clear()), Action::Integrate);
    assert_eq!(t.steps, 2);
    assert_eq!(t.observe(clear()), Action::Finish(TraceResult::MaxSteps));
    assert_eq!(t.outcome, Some(TraceResult::MaxSteps));
    let p = Probe { beyond_escape: true, ..clear() };
    assert_eq!(t.observe(p), Action::Finish(TraceResult::MaxSteps));
    assert_eq!(t.steps, 2);
}

#[test]
fn tracer_stops_inside_horizon() {
    let mut t = RayTracer::new(5);
    assert_eq!(t.observe(clear()), Action::Integrate);
    let p = Probe { inside_horizon: true, ..clear() };
    assert_eq!(t.observe(p), Action::Finish(TraceResult::HitBlackHole));
    assert_eq!(t.steps, 1);
}

#[test]
fn outward_radial_ray_escapes() {
    let steps = Cell::new(0usize);
    let r = trace_ray(
        (3.0 * R_S, 1.0),
        1000,
        |s: (f64, f64)| {
            steps.set(steps.get() + 1);
            (s.0 * 1e3, s.1)
        },
        radial_probe,
    );
    assert_eq!(r, TraceResult::Escaped);
    assert!(steps.get() <= 1000);
}

#[test]
fn infalling_radial_ray_hits_black_hole() {
    let steps = Cell::new(0usize);
    let r = trace_ray(
        (10.0 * R_S, -R_S),
        100,
        |s: (f64, f64)| {
            steps.set(steps.get() + 1);
            (s.0 + s.1, s.1)
        },
        radial_probe,
    );
    assert_eq!(r, TraceResult::HitBlackHole);
    assert_eq!(steps.get(), 9);
}

#[test]
fn ray_beyond_escape_radius_is_not_integrated() {
    let steps = Cell::new(0usize);
    let r = trace_ray(
        (2.0 * ESCAPE_R, -1.0),
        100,
        |s: (f64, f64)| {
            steps.set(steps.get() + 1);
            s
        },
        radial_probe,
    );
    assert_eq!(r, TraceResult::Escaped);
    assert_eq!(steps.get(), 0);
}

#[test]
fn step_budget_runs_out() {
    let steps = Cell::new(0usize);
    let r = trace_ray(
        (5.0 * R_S, 0.0),
        7,
        |s: (f64, f64)| {
            steps.set(steps.get() + 1);
            (s.0 + s.1, s.1)
        },
        radial_probe,
    );
    assert_eq!(r, TraceResult::MaxSteps);
    assert_eq!(steps.get(), 7);
}

#[test]
fn zero_budget_integrates_nothing() {
    let r = trace_ray(
        (0.5 * R_S, 0.0),
        0,
        |s: (f64, f64)| -> (f64, f64) { panic!("no step expected: {:?}", s) },
        radial_probe,
    );
    assert_eq!(r, TraceResult::MaxSteps);
}

#[test]
fn ray_starting_inside_horizon_is_captured() {
    let r = trace_ray(
        (0.5 * R_S, 1.0),
        10,
        |s: (f64, f64)| -> (f64, f64) { panic!("no step expected: {:?}", s) },
        radial_probe,
    );
    assert_eq!(r, TraceResult::HitBlackHole);
}

#[test]
fn disk_and_object_hits_end_the_trace() {
    // Integer positions along a line; the disk spans 20..30, the object 40..45.
    let disk = |x: &i64| Probe { in_disk: (20..30).contains(x), ..clear() };
    assert_eq!(trace_ray(0i64, 100, |x: i64| x + 7, disk), TraceResult::HitDisk);
    let object = |x: &i64| Probe { in_object: (40..45).contains(x), ..clear() };
    assert_eq!(trace_ray(0i64, 100, |x: i64| x + 7, object), TraceResult::HitObject);
    let both = |x: &i64| Probe { in_disk: *x >= 21, in_object: *x >= 21, ..clear() };
    assert_eq!(trace_ray(0i64, 100, |x: i64| x + 7, both), TraceResult::HitDisk);
}

#[test]
fn pixels_are_laid_out_row_by_row() {
    // Pixel (x, y) starts at radius 10 * x + y; rays at radius >= 20 escape at once,
    // the others fall by 1 per step into a horizon at radius 1.
    let ray_at = |x: usize, y: usize| (10 * x + y) as i64;
    let probe = |r: &i64| Probe { inside_horizon: *r <= 1, beyond_escape: *r >= 20, ..clear() };
    let out = trace_pixels(3, 2, 5, ray_at, |r: i64| r - 1, probe);
    let expected = vec![
        TraceResult::HitBlackHole,
        TraceResult::MaxSteps,
        TraceResult::Escaped,
        TraceResult::HitBlackHole,
        TraceResult::MaxSteps,
        TraceResult::Escaped,
    ];
    assert_eq!(out, expected);
}

#[test]
fn empty_raster_traces_nothing() {
    let out = trace_pixels(0, 4, 5, |x: usize, y: usize| x + y, |s: usize| s, |_s: &usize| clear());
    assert!(out.is_empty());
}
