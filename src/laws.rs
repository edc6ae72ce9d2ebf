//! Properties of finished traces, stated over the probes of the states a ray
//! passes through.
use vstd::prelude::*;
use crate::trace::{Probe, TraceResult, verdict, settles, run_result};

verus! {

/// No termination predicate holds of the state.
pub open spec fn is_clear(p: Probe) -> bool {
    !p.inside_horizon && !p.beyond_escape && !p.in_disk && !p.in_object
}

/// The finished trace `ps` is the beginning of the ray's path `path`, where
/// `path[k]` is the probe of the state after `k` steps.
pub open spec fn follows(ps: Seq<Probe>, path: Seq<Probe>) -> bool {
    ps.len() <= path.len() && ps == path.subrange(0, ps.len() as int)
}

/// A finished trace performs at most `max_steps` integration steps.
pub proof fn lemma_trace_bounded(ps: Seq<Probe>, max_steps: nat)
    requires
        settles(ps, max_steps),
    ensures
        ps.len() <= max_steps + 1,
{
    if ps.len() > max_steps + 1 {
        assert(verdict(ps[max_steps as int], max_steps, max_steps) is Some);
    }
}

/// A trace stops at the first state of the ray's path that ends it, and is
/// classified by that state.
pub proof fn lemma_stops_at_first_flag(path: Seq<Probe>, ps: Seq<Probe>, max_steps: nat, k: nat)
    requires
        settles(ps, max_steps),
        follows(ps, path),
        k < path.len(),
        forall|j: int| 0 <= j < k ==> (#[trigger] verdict(path[j], j as nat, max_steps)) is None,
        verdict(path[k as int], k, max_steps) is Some,
    ensures
        ps.len() == k + 1,
        run_result(ps, max_steps) == verdict(path[k as int], k, max_steps)->Some_0,
{
    if ps.len() > k + 1 {
        assert(ps[k as int] == path[k as int]);
        assert(verdict(ps[k as int], k, max_steps) is None);
    }
    if ps.len() < k + 1 {
        let j = ps.len() - 1;
        assert(ps[j] == path[j]);
        assert(verdict(path[j], j as nat, max_steps) is None);
    }
    assert(ps.last() == path[k as int]);
}

/// A ray that starts beyond the escape radius is classified `Escaped` before
/// any integration step.
pub proof fn lemma_escape_at_start(ps: Seq<Probe>, max_steps: nat)
    requires
        settles(ps, max_steps),
        ps[0].beyond_escape,
    ensures
        ps.len() == 1,
        run_result(ps, max_steps) == TraceResult::Escaped,
{
    if ps.len() > 1 {
        assert(verdict(ps[0], 0, max_steps) is None);
    }
}

/// A trace is classified `HitBlackHole` only at a state with `r <= r_s`, reached
/// within the step budget; so a ray whose states all stay outside the horizon
/// is never classified `HitBlackHole`.
pub proof fn lemma_black_hole_needs_horizon(ps: Seq<Probe>, max_steps: nat)
    requires
        settles(ps, max_steps),
    ensures
        run_result(ps, max_steps) == TraceResult::HitBlackHole ==> ps.last().inside_horizon
            && ps.len() <= max_steps,
        (forall|k: int| 0 <= k < ps.len() ==> !(#[trigger] ps[k]).inside_horizon)
            ==> run_result(ps, max_steps) != TraceResult::HitBlackHole,
{
    assert(ps.last() == ps[ps.len() - 1]);
}

/// A ray whose path leaves the escape radius after `k <= max_steps` steps, with
/// no predicate holding before, is classified `Escaped` after exactly `k` steps.
pub proof fn lemma_escape_reached(path: Seq<Probe>, ps: Seq<Probe>, max_steps: nat, k: nat)
    requires
        settles(ps, max_steps),
        follows(ps, path),
        k < path.len(),
        k <= max_steps,
        forall|j: int| 0 <= j < k ==> is_clear(#[trigger] path[j]),
        path[k as int].beyond_escape,
    ensures
        ps.len() == k + 1,
        run_result(ps, max_steps) == TraceResult::Escaped,
{
    assert forall|j: int| 0 <= j < k implies (#[trigger] verdict(path[j], j as nat, max_steps)) is None by {
        assert(is_clear(path[j]));
    }
    lemma_stops_at_first_flag(path, ps, max_steps, k);
}

/// A ray whose path falls to `r <= r_s` after `k < max_steps` steps, meeting no
/// other predicate on the way, is classified `HitBlackHole` after exactly `k` steps.
pub proof fn lemma_horizon_reached(path: Seq<Probe>, ps: Seq<Probe>, max_steps: nat, k: nat)
    requires
        settles(ps, max_steps),
        follows(ps, path),
        k < path.len(),
        k < max_steps,
        forall|j: int| 0 <= j < k ==> is_clear(#[trigger] path[j]),
        path[k as int].inside_horizon,
        !path[k as int].beyond_escape,
        !path[k as int].in_disk,
        !path[k as int].in_object,
    ensures
        ps.len() == k + 1,
        run_result(ps, max_steps) == TraceResult::HitBlackHole,
{
    assert forall|j: int| 0 <= j < k implies (#[trigger] verdict(path[j], j as nat, max_steps)) is None by {
        assert(is_clear(path[j]));
    }
    lemma_stops_at_first_flag(path, ps, max_steps, k);
}

} // verus!
