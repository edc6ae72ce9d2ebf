use vstd::prelude::*;

verus! {

/// Terminal classification of a traced ray.
#[derive(Debug, Clone, Copy, PartialEq, Eq, Structural)]
pub enum TraceResult {
    /// The ray reached `r <= r_s`.
    HitBlackHole,
    /// The ray entered the accretion disk's annulus.
    HitDisk,
    /// The ray entered the orbiting body's sphere.
    HitObject,
    /// The ray went beyond the escape radius.
    Escaped,
    /// The step budget ran out first.
    MaxSteps,
}

/// The answers to the tracer's termination predicates on one ray state,
/// evaluated by the integrator on its floating-point state.
#[derive(Debug, Clone, Copy, PartialEq, Eq, Structural)]
pub struct Probe {
    /// `r <= r_s`.
    pub inside_horizon: bool,
    /// `r > ESCAPE_R`.
    pub beyond_escape: bool,
    /// The Cartesian position lies in the disk annulus.
    pub in_disk: bool,
    /// The Cartesian position lies in the orbiting body's sphere.
    pub in_object: bool,
}

/// How a ray state observed after `steps` integration steps ends the trace, if it does.
///
/// The checks come in the order in which one tracing round meets them:
/// escape, disk, object, the step budget, then the horizon test that opens the
/// next round. The escape test also applies before the first step, so a ray
/// that starts beyond the escape radius stops without being integrated.
pub open spec fn verdict(p: Probe, steps: nat, max_steps: nat) -> Option<TraceResult> {
    if p.beyond_escape {
        Some(TraceResult::Escaped)
    } else if p.in_disk {
        Some(TraceResult::HitDisk)
    } else if p.in_object {
        Some(TraceResult::HitObject)
    } else if steps >= max_steps {
        Some(TraceResult::MaxSteps)
    } else if p.inside_horizon {
        Some(TraceResult::HitBlackHole)
    } else {
        None
    }
}

/// Decides whether the ray state seen after `steps` steps ends the trace.
pub fn classify(p: Probe, steps: usize, max_steps: usize) -> (r: Option<TraceResult>)
    ensures
        r == verdict(p, steps as nat, max_steps as nat),
{
    if p.beyond_escape {
        Some(TraceResult::Escaped)
    } else if p.in_disk {
        Some(TraceResult::HitDisk)
    } else if p.in_object {
        Some(TraceResult::HitObject)
    } else if steps >= max_steps {
        Some(TraceResult::MaxSteps)
    } else if p.inside_horizon {
        Some(TraceResult::HitBlackHole)
    } else {
        None
    }
}

/// What the integrator does next for a ray in flight.
#[derive(Debug, Clone, Copy, PartialEq, Eq, Structural)]
pub enum Action {
    /// Advance the ray by one affine-parameter step, then probe the new state.
    Integrate,
    /// Stop: the trace ended with this classification.
    Finish(TraceResult),
}

/// The tracer's state machine: `Tracing` while `outcome` is `None`, then one of
/// the terminal outcomes.
#[derive(Debug, Clone, Copy, PartialEq, Eq, Structural)]
pub struct RayTracer {
    /// The step budget.
    pub max_steps: usize,
    /// Integration steps performed so far.
    pub steps: usize,
    /// The terminal outcome, once reached.
    pub outcome: Option<TraceResult>,
}

impl RayTracer {
    /// A tracer in its initial `Tracing` state, before any step.
    pub fn new(max_steps: usize) -> (t: RayTracer)
        ensures
            t.max_steps == max_steps,
            t.steps == 0,
            t.outcome is None,
    {
        RayTracer { max_steps, steps: 0, outcome: None }
    }

    /// Takes the probe of the current ray state (the initial one, or the one
    /// after the latest step) and says what comes next. A terminal state stays
    /// terminal and ignores further probes.
    pub fn observe(&mut self, p: Probe) -> (a: Action)
        ensures
            final(self).max_steps == old(self).max_steps,
            match old(self).outcome {
                Some(done) => a == Action::Finish(done) && *final(self) == *old(self),
                None => match verdict(p, old(self).steps as nat, old(self).max_steps as nat) {
                    Some(res) => {
                        &&& a == Action::Finish(res)
                        &&& final(self).outcome == Some(res)
                        &&& final(self).steps == old(self).steps
                    },
                    None => {
                        &&& a == Action::Integrate
                        &&& final(self).outcome is None
                        &&& final(self).steps == old(self).steps + 1
                        &&& final(self).steps <= final(self).max_steps
                    },
                },
            },
    {
        if let Some(done) = self.outcome {
            return Action::Finish(done);
        }
        match classify(p, self.steps, self.max_steps) {
            Some(res) => {
                self.outcome = Some(res);
                Action::Finish(res)
            },
            None => {
                self.steps = self.steps + 1;
                Action::Integrate
            },
        }
    }
}

/// The probes `ps` of a ray's successive states (`ps[k]` after `k` steps) form
/// a finished trace: no state before the last one ends it, and the last one does.
pub open spec fn settles(ps: Seq<Probe>, max_steps: nat) -> bool {
    &&& ps.len() >= 1
    &&& forall|k: int| 0 <= k < ps.len() - 1 ==> verdict(#[trigger] ps[k], k as nat, max_steps) is None
    &&& verdict(ps.last(), (ps.len() - 1) as nat, max_steps) is Some
}

/// The classification of a finished trace.
pub open spec fn run_result(ps: Seq<Probe>, max_steps: nat) -> TraceResult {
    verdict(ps.last(), (ps.len() - 1) as nat, max_steps)->Some_0
}

/// `states` are the ray states reached from `start` by repeated `step` calls,
/// and `probes` the probe of each.
pub open spec fn is_trace<S, F: Fn(S) -> S, P: Fn(&S) -> Probe>(
    start: S,
    step: F,
    probe: P,
    states: Seq<S>,
    probes: Seq<Probe>,
) -> bool {
    &&& states.len() == probes.len()
    &&& states.len() >= 1
    &&& states[0] == start
    &&& forall|k: int| 0 <= k < states.len() - 1 ==> step.ensures((#[trigger] states[k],), states[k + 1])
    &&& forall|k: int| 0 <= k < states.len() ==> probe.ensures((&#[trigger] states[k],), probes[k])
}

/// Some finished trace of the states reached from `start` is classified `r`.
pub open spec fn traces_to<S, F: Fn(S) -> S, P: Fn(&S) -> Probe>(
    start: S,
    step: F,
    probe: P,
    max_steps: nat,
    r: TraceResult,
) -> bool {
    exists|states: Seq<S>, probes: Seq<Probe>|
        {
            &&& #[trigger] is_trace(start, step, probe, states, probes)
            &&& settles(probes, max_steps)
            &&& r == run_result(probes, max_steps)
        }
}

/// Traces one ray from `start`: probes the current state, stops when the
/// tracer says so, and otherwise advances the state with `step`.
///
/// The result is the classification of the finished trace of the states
/// actually reached (which takes at most `max_steps` steps, see
/// `lemma_trace_bounded`).
pub fn trace_ray<S, F: Fn(S) -> S, P: Fn(&S) -> Probe>(
    start: S,
    max_steps: usize,
    step: F,
    probe: P,
) -> (r: TraceResult)
    requires
        forall|s: S| #[trigger] step.requires((s,)),
        forall|s: &S| #[trigger] probe.requires((s,)),
    ensures
        traces_to(start, step, probe, max_steps as nat, r),
{
    let mut tracer = RayTracer::new(max_steps);
    let mut state = start;
    let ghost mut states: Seq<S> = seq![state];
    let ghost mut probes: Seq<Probe> = Seq::empty();
    loop
        invariant
            forall|s: S| #[trigger] step.requires((s,)),
            forall|s: &S| #[trigger] probe.requires((s,)),
            tracer.max_steps == max_steps,
            tracer.outcome is None,
            tracer.steps <= max_steps,
            tracer.steps == probes.len(),
            states.len() == probes.len() + 1,
            states[0] == start,
            states.last() == state,
            forall|k: int| 0 <= k < probes.len() ==> (#[trigger] verdict(probes[k], k as nat, max_steps as nat)) is None,
            forall|k: int| 0 <= k < states.len() - 1 ==> step.ensures((#[trigger] states[k],), states[k + 1]),
            forall|k: int| 0 <= k < probes.len() ==> probe.ensures((&#[trigger] states[k],), probes[k]),
        decreases max_steps - tracer.steps,
    {
        let p = probe(&state);
        let ghost old_probes = probes;
        proof {
            probes = probes.push(p);
        }
        match tracer.observe(p) {
            Action::Finish(res) => {
                assert forall|k: int| 0 <= k < probes.len() - 1 implies (#[trigger] verdict(
                    probes[k],
                    k as nat,
                    max_steps as nat,
                )) is None by {
                    assert(probes[k] == old_probes[k]);
                }
                assert(settles(probes, max_steps as nat));
                assert(is_trace(start, step, probe, states, probes));
                return res;
            },
            Action::Integrate => {
                state = step(state);
                proof {
                    states = states.push(state);
                }
            },
        }
    }
}

/// Slot `i` of a `width`-wide raster holds `r`, the classification of a
/// finished trace from a ray that `ray_at` gives for pixel `(i % width, i / width)`.
pub open spec fn pixel_traced<S, R: Fn(usize, usize) -> S, F: Fn(S) -> S, P: Fn(&S) -> Probe>(
    ray_at: R,
    step: F,
    probe: P,
    max_steps: nat,
    width: nat,
    i: int,
    r: TraceResult,
) -> bool {
    exists|start: S|
        {
            &&& #[trigger] ray_at.ensures(((i % width as int) as usize, (i / width as int) as usize), start)
            &&& traces_to(start, step, probe, max_steps, r)
        }
}

/// Traces one ray per pixel of a `width` × `height` raster, row by row: slot
/// `i` of the result holds the classification of the ray that `ray_at` gives
/// for pixel `(i % width, i / width)`.
pub fn trace_pixels<S, R: Fn(usize, usize) -> S, F: Fn(S) -> S + Copy, P: Fn(&S) -> Probe + Copy>(
    width: usize,
    height: usize,
    max_steps: usize,
    ray_at: R,
    step: F,
    probe: P,
) -> (out: Vec<TraceResult>)
    requires
        width * height <= usize::MAX,
        forall|x: usize, y: usize| x < width && y < height ==> #[trigger] ray_at.requires((x, y)),
        forall|s: S| #[trigger] step.requires((s,)),
        forall|s: &S| #[trigger] probe.requires((s,)),
    ensures
        out.len() == width * height,
        forall|i: int|
            0 <= i < out.len() ==> pixel_traced(ray_at, step, probe, max_steps as nat, width as nat, i, #[trigger] out[i]),
{
    let total = width * height;
    let mut out: Vec<TraceResult> = Vec::new();
    let mut i: usize = 0;
    while i < total
        invariant
            total == width * height,
            i <= total,
            out.len() == i,
            forall|x: usize, y: usize| x < width && y < height ==> #[trigger] ray_at.requires((x, y)),
            forall|s: S| #[trigger] step.requires((s,)),
            forall|s: &S| #[trigger] probe.requires((s,)),
            forall|k: int|
                0 <= k < out.len() ==> pixel_traced(ray_at, step, probe, max_steps as nat, width as nat, k, #[trigger] out[k]),
        decreases total - i,
    {
        proof {
            assert(0 < width) by (nonlinear_arith)
                requires i < total, total == width * height;
            assert(i / width < height) by (nonlinear_arith)
                requires i < total, total == width * height, 0 < width;
        }
        let x = i % width;
        let y = i / width;
        let start = ray_at(x, y);
        let ghost first = start;
        let r = trace_ray(start, max_steps, step, probe);
        assert(pixel_traced(ray_at, step, probe, max_steps as nat, width as nat, i as int, r)) by {
            assert(ray_at.ensures(((i as int % width as int) as usize, (i as int / width as int) as usize), first));
        }
        let ghost old_out = out@;
        out.push(r);
        assert forall|k: int| 0 <= k < out.len() implies pixel_traced(ray_at, step, probe, max_steps as nat, width as nat, k, #[trigger] out[k]) by {
            if k < i {
                assert(out[k] == old_out[k]);
            }
        }
        i = i + 1;
    }
    out
}

} // verus!
