use vstd::prelude::*;

use crate::candidate::{Candidate, Provenance, RouteError};
use crate::snapshot::{ControlPlaneSnapshot, UtilizationSample};

verus! {

/// The weights of the alias ranking. A sample's load score is
/// `utilization_weight * utilization_ppm + rate_limit_weight * rate_limit_ppm
///  - headroom_weight * scale_allowance_milli` (a missing allowance counts as 0);
/// lower is better, and equal scores go to the smaller `active_instance_count`.
#[derive(Clone, Copy, Debug)]
pub struct LoadPolicy {
    pub utilization_weight: u32,
    pub rate_limit_weight: u32,
    pub headroom_weight: u32,
}

impl LoadPolicy {
    /// Utilization and rate limiting count alike; each whole unit of scale
    /// allowance offsets one percent of load.
    pub fn standard() -> (r: Self)
        ensures
            r.utilization_weight == 1,
            r.rate_limit_weight == 1,
            r.headroom_weight == 10,
    {
        LoadPolicy { utilization_weight: 1, rate_limit_weight: 1, headroom_weight: 10 }
    }
}

/// The scale allowance in thousandths, 0 where none was reported.
pub open spec fn allowance_of(s: UtilizationSample) -> int {
    match s.scale_allowance_milli {
        Some(a) => a as int,
        None => 0,
    }
}

/// The load score of a sample under a policy.
pub open spec fn score(p: LoadPolicy, s: UtilizationSample) -> int {
    p.utilization_weight * s.utilization_ppm + p.rate_limit_weight * s.rate_limit_ppm
        - p.headroom_weight * allowance_of(s)
}

/// `a` ranks strictly ahead of `b`.
pub open spec fn ranks_before(p: LoadPolicy, a: UtilizationSample, b: UtilizationSample) -> bool {
    score(p, a) < score(p, b) || (score(p, a) == score(p, b) && a.active_instance_count
        < b.active_instance_count)
}

/// `a` ranks no later than `b`.
pub open spec fn ranks_no_later(p: LoadPolicy, a: UtilizationSample, b: UtilizationSample) -> bool {
    !ranks_before(p, b, a)
}

/// Some sample is scalable.
pub open spec fn any_scalable(s: Seq<UtilizationSample>) -> bool {
    exists|i: int| 0 <= i < s.len() && #[trigger] s[i].scalable
}

/// Row `i` is the alias's pick: a scalable row that ranks no later than any
/// scalable row, and strictly ahead of every scalable row listed before it.
pub open spec fn is_best(p: LoadPolicy, s: Seq<UtilizationSample>, i: int) -> bool {
    &&& 0 <= i < s.len()
    &&& s[i].scalable
    &&& forall|j: int| 0 <= j < s.len() && #[trigger] s[j].scalable ==> ranks_no_later(p, s[i], s[j])
    &&& forall|j: int| 0 <= j < i && #[trigger] s[j].scalable ==> ranks_before(p, s[i], s[j])
}

/// The row the alias resolves to, where some row is scalable.
pub open spec fn best_index(p: LoadPolicy, s: Seq<UtilizationSample>) -> int {
    choose|i: int| is_best(p, s, i)
}

/// Alias resolution is deterministic: against one snapshot and one policy,
/// at most one row can be the pick, so every resolution picks the same one.
pub proof fn lemma_resolution_deterministic(
    p: LoadPolicy,
    s: Seq<UtilizationSample>,
    i: int,
    j: int,
)
    requires
        is_best(p, s, i),
        is_best(p, s, j),
    ensures
        i == j,
{
    if i < j {
        assert(s[i].scalable);
        assert(ranks_before(p, s[j], s[i]));
        assert(ranks_no_later(p, s[i], s[j]));
    } else if j < i {
        assert(s[j].scalable);
        assert(ranks_before(p, s[i], s[j]));
        assert(ranks_no_later(p, s[j], s[i]));
    }
}

proof fn lemma_mul_fits(x: u32, y: u32)
    ensures
        (x as int) * (y as int) <= u64::MAX,
{
    assert((x as int) * (y as int) <= (u32::MAX as int) * (u32::MAX as int)) by (nonlinear_arith);
}

/// The load score of one sample.
pub fn load_score(p: &LoadPolicy, s: &UtilizationSample) -> (r: i128)
    ensures
        r == score(*p, *s),
{
    proof {
        lemma_mul_fits(p.utilization_weight, s.utilization_ppm);
        lemma_mul_fits(p.rate_limit_weight, s.rate_limit_ppm);
    }
    let load = (p.utilization_weight as u64) * (s.utilization_ppm as u64);
    let limited = (p.rate_limit_weight as u64) * (s.rate_limit_ppm as u64);
    let allowance: u32 = match s.scale_allowance_milli {
        Some(a) => a,
        None => 0,
    };
    proof {
        lemma_mul_fits(p.headroom_weight, allowance);
    }
    let headroom = (p.headroom_weight as u64) * (allowance as u64);
    load as i128 + limited as i128 - headroom as i128
}

/// Finds the row the alias resolves to: `Some` exactly when a row is scalable.
pub fn best_scalable(p: &LoadPolicy, samples: &Vec<UtilizationSample>) -> (r: Option<usize>)
    ensures
        r is Some <==> any_scalable(samples@),
        r matches Some(i) ==> is_best(*p, samples@, i as int) && i == best_index(*p, samples@),
{
    let mut best: Option<usize> = None;
    let mut best_score: i128 = 0;
    let mut i: usize = 0;
    while i < samples.len()
        invariant
            i <= samples.len(),
            best is None ==> forall|j: int| 0 <= j < i ==> !(#[trigger] samples@[j].scalable),
            best matches Some(b) ==> {
                &&& b < i
                &&& best_score == score(*p, samples@[b as int])
                &&& samples@[b as int].scalable
                &&& forall|j: int| 0 <= j < i && #[trigger] samples@[j].scalable
                    ==> ranks_no_later(*p, samples@[b as int], samples@[j])
                &&& forall|j: int| 0 <= j < b && #[trigger] samples@[j].scalable
                    ==> ranks_before(*p, samples@[b as int], samples@[j])
            },
        decreases samples.len() - i,
    {
        let s = &samples[i];
        if s.scalable {
            let sc = load_score(p, s);
            match best {
                None => {
                    best = Some(i);
                    best_score = sc;
                },
                Some(b) => {
                    let cur = &samples[b];
                    if sc < best_score || (sc == best_score && s.active_instance_count
                        < cur.active_instance_count) {
                        best = Some(i);
                        best_score = sc;
                    }
                },
            }
        }
        i = i + 1;
    }
    match best {
        Some(b) => {
            proof {
                assert(is_best(*p, samples@, b as int));
                lemma_resolution_deterministic(*p, samples@, b as int, best_index(*p, samples@));
            }
            Some(b)
        },
        None => None,
    }
}

/// Resolves the alias against a snapshot: the best-ranked scalable row, as a
/// single alias candidate, or `NoEligibleCandidate` when no row is scalable.
pub fn resolve_alias(p: &LoadPolicy, snap: &ControlPlaneSnapshot) -> (r: Result<Candidate, RouteError>)
    ensures
        r is Ok <==> any_scalable(snap.utilization@),
        r matches Ok(c) ==> {
            &&& c.model@ == snap.utilization@[best_index(*p, snap.utilization@)].name@
            &&& c.provenance == Provenance::Alias
        },
        r matches Err(e) ==> e == RouteError::NoEligibleCandidate,
{
    match best_scalable(p, &snap.utilization) {
        Some(i) => Ok(Candidate { model: snap.utilization[i].name.clone(), provenance: Provenance::Alias }),
        None => Err(RouteError::NoEligibleCandidate),
    }
}

} // verus!
