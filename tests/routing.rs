use chutes_autopilot::alias::{best_scalable, load_score, resolve_alias, LoadPolicy};
use chutes_autopilot::cache::ControlPlaneCache;
use chutes_autopilot::candidate::{
    build_candidates, is_failover, preference_list, Candidate, Provenance, RouteError,
};
use chutes_autopilot::executor::{Action, Event, FailoverExecutor, Outcome, Phase};
use chutes_autopilot::snapshot::{ControlPlaneSnapshot, UtilizationSample};

const ALIAS: &str = "chutesai/AutoPilot";

fn sample(name: &str, count: u64, util: f64, scalable: bool, allowance: Option<f64>) -> UtilizationSample {
    UtilizationSample {
        name: name.to_string(),
        active_instance_count: count,
        utilization_ppm: (util * 1_000_000.0).round() as u32,
        rate_limit_ppm: 0,
        scalable,
        scale_allowance_milli: allowance.map(|a| (a * 1000.0).round() as u32),
    }
}

fn fleet() -> ControlPlaneSnapshot {
    ControlPlaneSnapshot {
        models: ["alpha-TEE", "beta-TEE", "slow-TEE", "fast-TEE", "stall-TEE", "direct-nontee"]
            .iter()
            .map(|s| s.to_string())
            .collect(),
        utilization: vec![
            sample("alpha-TEE", 8, 0.1, true, Some(4.0)),
            sample("beta-TEE", 4, 0.2, false, None),
            sample("slow-TEE", 6, 0.15, false, None),
            sample("fast-TEE", 2, 0.05, false, None),
            sample("stall-TEE", 3, 0.05, false, None),
        ],
        fetched_at_ms: 1,
    }
}

fn build(model: &str) -> Result<Vec<Candidate>, RouteError> {
    build_candidates(model, ALIAS, &LoadPolicy::standard(), &fleet())
}

fn models(v: &[Candidate]) -> Vec<String> {
    v.iter().map(|c| c.model.clone()).collect()
}

fn strings(v: &[&str]) -> Vec<String> {
    v.iter().map(|s| s.to_string()).collect()
}

fn assert_dispatch(a: &Action, want: &str, want_timed: bool) {
    match a {
        Action::Dispatch { model, timed } => {
            assert_eq!(model, want);
            assert_eq!(*timed, want_timed);
        }
        other => panic!("expected a dispatch of {want}, got {other:?}"),
    }
}

fn assert_commit(a: &Action, want_status: u16, want_selected: Option<&str>) {
    match a {
        Action::Commit { status, selected } => {
            assert_eq!(*status, want_status);
            assert_eq!(selected.as_deref(), want_selected);
        }
        other => panic!("expected a commit, got {other:?}"),
    }
}

#[test]
fn direct_passthrough_mirrors_status_without_marker() {
    let cands = build("direct-nontee").unwrap();
    assert_eq!(models(&cands), strings(&["direct-nontee"]));
    assert_eq!(cands[0].provenance, Provenance::Direct);
    let (mut ex, first) = FailoverExecutor::start(cands);
    assert_dispatch(&first, "direct-nontee", false);
    assert!(matches!(ex.on_event(Event::HeaderTimeout), Action::Ignore));
    let a = ex.on_event(Event::Headers { status: 201 });
    assert_commit(&a, 201, None);
    assert_eq!(ex.selected(), None);
    assert_eq!(ex.attempted_models(), strings(&["direct-nontee"]));
    assert_eq!(ex.outcomes(), vec![Outcome::Success]);
    assert_eq!(ex.phase(), Phase::Committed { status: 201 });
}

#[test]
fn direct_transport_error_is_not_retried() {
    let cands = build("direct-nontee").unwrap();
    let (mut ex, _) = FailoverExecutor::start(cands);
    assert!(matches!(ex.on_event(Event::TransportError), Action::Fail));
    assert_eq!(ex.phase(), Phase::Exhausted);
    assert_eq!(ex.outcomes(), vec![Outcome::TransportError]);
    assert_eq!(ex.selected(), None);
}

#[test]
fn alias_selects_single_scalable_candidate_first_try() {
    let cands = build(ALIAS).unwrap();
    assert_eq!(models(&cands), strings(&["alpha-TEE"]));
    assert_eq!(cands[0].provenance, Provenance::Alias);
    let (mut ex, first) = FailoverExecutor::start(cands);
    assert_dispatch(&first, "alpha-TEE", true);
    assert!(matches!(ex.on_event(Event::Headers { status: 200 }), Action::ArmFirstByteTimer));
    let a = ex.on_event(Event::FirstByte);
    assert_commit(&a, 200, Some("alpha-TEE"));
    assert_eq!(ex.selected().as_deref(), Some("alpha-TEE"));
    assert_eq!(ex.attempted_models(), strings(&["alpha-TEE"]));
}

#[test]
fn header_timeout_fails_over_to_next_preference() {
    let cands = build("slow-TEE,fast-TEE").unwrap();
    assert_eq!(models(&cands), strings(&["slow-TEE", "fast-TEE"]));
    assert!(cands.iter().all(|c| c.provenance == Provenance::ExplicitPreference));
    let (mut ex, first) = FailoverExecutor::start(cands);
    assert_dispatch(&first, "slow-TEE", true);
    let a = ex.on_event(Event::HeaderTimeout);
    assert_dispatch(&a, "fast-TEE", true);
    assert!(matches!(ex.on_event(Event::Headers { status: 200 }), Action::ArmFirstByteTimer));
    assert_commit(&ex.on_event(Event::FirstByte), 200, Some("fast-TEE"));
    // The slow candidate's late response cannot reach the client any more.
    assert!(matches!(ex.on_event(Event::Headers { status: 200 }), Action::Ignore));
    assert!(matches!(ex.on_event(Event::FirstByte), Action::Ignore));
    assert_eq!(ex.selected().as_deref(), Some("fast-TEE"));
    assert_eq!(ex.attempted_models(), strings(&["slow-TEE", "fast-TEE"]));
    assert_eq!(ex.outcomes(), vec![Outcome::HeaderTimeout, Outcome::Success]);
    assert_eq!(ex.phase(), Phase::Committed { status: 200 });
}

#[test]
fn first_body_byte_timeout_fails_over_to_next_preference() {
    let cands = build("stall-TEE,fast-TEE").unwrap();
    let (mut ex, first) = FailoverExecutor::start(cands);
    assert_dispatch(&first, "stall-TEE", true);
    assert!(matches!(ex.on_event(Event::Headers { status: 200 }), Action::ArmFirstByteTimer));
    assert_dispatch(&ex.on_event(Event::FirstByteTimeout), "fast-TEE", true);
    assert!(matches!(ex.on_event(Event::Headers { status: 200 }), Action::ArmFirstByteTimer));
    assert_commit(&ex.on_event(Event::FirstByte), 200, Some("fast-TEE"));
    assert_eq!(ex.selected().as_deref(), Some("fast-TEE"));
    assert_eq!(ex.attempted_models(), strings(&["stall-TEE", "fast-TEE"]));
    assert_eq!(ex.outcomes(), vec![Outcome::FirstByteTimeout, Outcome::Success]);
}

#[test]
fn every_candidate_failing_ends_in_one_terminal_failure() {
    let cands = build("a, b ,c").unwrap();
    let (mut ex, first) = FailoverExecutor::start(cands);
    assert_dispatch(&first, "a", true);
    assert_dispatch(&ex.on_event(Event::HeaderTimeout), "b", true);
    assert!(matches!(ex.on_event(Event::Headers { status: 200 }), Action::ArmFirstByteTimer));
    assert_dispatch(&ex.on_event(Event::FirstByteTimeout), "c", true);
    assert!(matches!(ex.on_event(Event::TransportError), Action::Fail));
    assert_eq!(ex.phase(), Phase::Exhausted);
    assert_eq!(ex.selected(), None);
    assert_eq!(ex.attempted_models(), strings(&["a", "b", "c"]));
    assert_eq!(
        ex.outcomes(),
        vec![Outcome::HeaderTimeout, Outcome::FirstByteTimeout, Outcome::TransportError]
    );
    assert!(matches!(ex.on_event(Event::FirstByte), Action::Ignore));
    assert_eq!(ex.attempted_models().len(), 3);
}

#[test]
fn events_out_of_phase_are_ignored() {
    let cands = build("x,y").unwrap();
    let (mut ex, _) = FailoverExecutor::start(cands);
    assert!(matches!(ex.on_event(Event::FirstByte), Action::Ignore));
    assert!(matches!(ex.on_event(Event::FirstByteTimeout), Action::Ignore));
    assert_eq!(ex.phase(), Phase::AwaitingHeaders);
    assert!(matches!(ex.on_event(Event::Headers { status: 503 }), Action::ArmFirstByteTimer));
    assert!(matches!(ex.on_event(Event::HeaderTimeout), Action::Ignore));
    assert_eq!(ex.phase(), Phase::AwaitingFirstByte { status: 503 });
    assert_commit(&ex.on_event(Event::FirstByte), 503, Some("x"));
}

#[test]
fn builder_trims_and_drops_empty_segments() {
    let cands = build(" a , ,\u{a0}b\t,").unwrap();
    assert_eq!(models(&cands), strings(&["a", "b"]));
    assert!(cands.iter().all(|c| c.provenance == Provenance::ExplicitPreference));
}

#[test]
fn builder_rejects_list_with_no_names() {
    assert_eq!(build(" , ,").unwrap_err(), RouteError::InvalidModel);
    assert_eq!(build(",").unwrap_err(), RouteError::InvalidModel);
}

#[test]
fn builder_keeps_direct_name_verbatim() {
    let cands = build(" spaced name ").unwrap();
    assert_eq!(models(&cands), strings(&[" spaced name "]));
    assert_eq!(cands[0].provenance, Provenance::Direct);
    let cands = build("").unwrap();
    assert_eq!(models(&cands), strings(&[""]));
}

#[test]
fn alias_without_scalable_rows_is_unavailable() {
    let mut snap = fleet();
    snap.utilization.retain(|s| !s.scalable);
    let r = build_candidates(ALIAS, ALIAS, &LoadPolicy::standard(), &snap);
    assert_eq!(r.unwrap_err(), RouteError::NoEligibleCandidate);
    let empty = ControlPlaneSnapshot::empty();
    let r = resolve_alias(&LoadPolicy::standard(), &empty);
    assert_eq!(r.unwrap_err(), RouteError::NoEligibleCandidate);
}

#[test]
fn alias_resolution_is_deterministic() {
    let mut snap = fleet();
    snap.utilization.push(sample("gamma-TEE", 1, 0.06, true, Some(0.0)));
    snap.utilization.push(sample("delta-TEE", 5, 0.06, true, None));
    let p = LoadPolicy::standard();
    let first = resolve_alias(&p, &snap).unwrap();
    for _ in 0..5 {
        let again = resolve_alias(&p, &snap).unwrap();
        assert_eq!(again.model, first.model);
        assert_eq!(again.provenance, Provenance::Alias);
    }
    // alpha: 100000 - 40000 = 60000; gamma and delta: 60000 each.
    // Equal scores go to the fewest active instances.
    assert_eq!(first.model, "gamma-TEE");
}

#[test]
fn load_score_exact_values() {
    let p = LoadPolicy::standard();
    assert_eq!(load_score(&p, &sample("alpha-TEE", 8, 0.1, true, Some(4.0))), 60_000);
    assert_eq!(load_score(&p, &sample("idle", 1, 0.0, true, Some(2.5))), -25_000);
    let mut s = sample("limited", 1, 0.5, true, None);
    s.rate_limit_ppm = 250_000;
    assert_eq!(load_score(&p, &s), 750_000);
    let weighted = LoadPolicy { utilization_weight: 3, rate_limit_weight: 2, headroom_weight: 0 };
    assert_eq!(load_score(&weighted, &s), 2_000_000);
}

#[test]
fn alias_ties_prefer_fewer_instances_then_listed_order() {
    let rows = vec![
        sample("b", 4, 0.2, true, None),
        sample("a", 2, 0.2, true, None),
        sample("c", 2, 0.2, true, None),
        sample("low-but-fixed", 1, 0.0, false, None),
    ];
    assert_eq!(best_scalable(&LoadPolicy::standard(), &rows), Some(1));
    assert_eq!(best_scalable(&LoadPolicy::standard(), &rows[3..].to_vec()), None);
}

#[test]
fn preference_list_splits_and_trims() {
    assert_eq!(preference_list("a,b"), strings(&["a", "b"]));
    assert_eq!(preference_list("  solo  "), strings(&["solo"]));
    assert_eq!(preference_list("\u{3000}x\u{2003},\n"), strings(&["x"]));
    assert_eq!(preference_list(""), Vec::<String>::new());
}

#[test]
fn provenance_failover_flag() {
    assert!(is_failover(Provenance::Alias));
    assert!(is_failover(Provenance::ExplicitPreference));
    assert!(!is_failover(Provenance::Direct));
}

#[test]
fn failed_fetch_keeps_prior_snapshot_and_readiness() {
    let mut cache = ControlPlaneCache::new();
    assert!(!cache.is_ready());
    cache.apply_models(None, 5);
    cache.apply_utilization(None, 5);
    assert!(!cache.is_ready());
    cache.apply_models(Some(strings(&["alpha-TEE", "fast-TEE"])), 10);
    assert!(!cache.is_ready());
    cache.apply_utilization(Some(fleet().utilization), 20);
    assert!(cache.is_ready());
    cache.apply_models(None, 30);
    cache.apply_utilization(None, 40);
    assert!(cache.is_ready());
    let snap = cache.snapshot();
    assert_eq!(snap.models, strings(&["alpha-TEE", "fast-TEE"]));
    assert_eq!(snap.utilization.len(), 5);
    assert_eq!(snap.utilization[0].name, "alpha-TEE");
    assert_eq!(snap.fetched_at_ms, 20);
}

#[test]
fn successful_fetch_replaces_its_half_whole() {
    let mut cache = ControlPlaneCache::new();
    cache.apply_utilization(Some(fleet().utilization), 1);
    cache.apply_models(Some(strings(&["one"])), 2);
    cache.apply_models(Some(strings(&["two", "three"])), 3);
    let snap = cache.snapshot();
    assert_eq!(snap.models, strings(&["two", "three"]));
    assert_eq!(snap.utilization.len(), 5);
    assert_eq!(snap.fetched_at_ms, 3);
}
