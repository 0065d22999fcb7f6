use vstd::prelude::*;

use crate::snapshot::{ControlPlaneSnapshot, UtilizationSample};

verus! {

/// The cache as a mathematical state.
pub struct CacheView {
    pub models: Seq<Seq<char>>,
    pub utilization: Seq<UtilizationSample>,
    pub fetched_at_ms: u64,
    /// A catalog fetch has succeeded at least once.
    pub models_loaded: bool,
    /// A utilization fetch has succeeded at least once.
    pub utilization_loaded: bool,
}

/// The end of one refresh tick: `None` is a fetch that failed or timed out.
pub enum RefreshView {
    Models(Option<Seq<Seq<char>>>, u64),
    Utilization(Option<Seq<UtilizationSample>>, u64),
}

/// The cache before any fetch.
pub open spec fn empty_cache() -> CacheView {
    CacheView {
        models: Seq::empty(),
        utilization: Seq::empty(),
        fetched_at_ms: 0,
        models_loaded: false,
        utilization_loaded: false,
    }
}

/// Ready once both halves have been fetched successfully.
pub open spec fn ready(s: CacheView) -> bool {
    s.models_loaded && s.utilization_loaded
}

/// The state after one refresh tick: a success replaces its half whole;
/// a failure leaves everything as it was.
pub open spec fn refresh(s: CacheView, r: RefreshView) -> CacheView {
    match r {
        RefreshView::Models(Some(m), now) => CacheView {
            models: m,
            fetched_at_ms: now,
            models_loaded: true,
            ..s
        },
        RefreshView::Utilization(Some(u), now) => CacheView {
            utilization: u,
            fetched_at_ms: now,
            utilization_loaded: true,
            ..s
        },
        _ => s,
    }
}

/// The state after a sequence of refresh ticks.
pub open spec fn refresh_all(s: CacheView, rs: Seq<RefreshView>) -> CacheView
    decreases rs.len(),
{
    if rs.len() == 0 {
        s
    } else {
        refresh_all(refresh(s, rs[0]), rs.drop_first())
    }
}

/// The tick's fetch failed or timed out.
pub open spec fn is_failed(r: RefreshView) -> bool {
    match r {
        RefreshView::Models(None, _) => true,
        RefreshView::Utilization(None, _) => true,
        _ => false,
    }
}

/// The tick fetched the catalog successfully.
pub open spec fn loads_models(r: RefreshView) -> bool {
    r matches RefreshView::Models(Some(_), _)
}

/// The tick fetched the utilization rows successfully.
pub open spec fn loads_utilization(r: RefreshView) -> bool {
    r matches RefreshView::Utilization(Some(_), _)
}

/// Failed fetches leave the snapshot, and readiness, exactly as they were.
pub proof fn lemma_failures_keep_snapshot(s: CacheView, rs: Seq<RefreshView>)
    requires
        forall|i: int| 0 <= i < rs.len() ==> is_failed(#[trigger] rs[i]),
    ensures
        refresh_all(s, rs) == s,
    decreases rs.len(),
{
    if rs.len() > 0 {
        assert(is_failed(rs[0]));
        assert forall|i: int| 0 <= i < rs.drop_first().len() implies is_failed(
            #[trigger] rs.drop_first()[i],
        ) by {
            assert(rs.drop_first()[i] == rs[i + 1]);
        }
        lemma_failures_keep_snapshot(s, rs.drop_first());
    }
}

/// Readiness after a sequence of ticks: a half is loaded exactly when it was
/// loaded before or some tick fetched it successfully. So the cache becomes
/// ready only after a success of both halves, and once ready it stays ready
/// whatever fails later.
pub proof fn lemma_readiness(s: CacheView, rs: Seq<RefreshView>)
    ensures
        refresh_all(s, rs).models_loaded <==> (s.models_loaded || exists|i: int|
            0 <= i < rs.len() && loads_models(#[trigger] rs[i])),
        refresh_all(s, rs).utilization_loaded <==> (s.utilization_loaded || exists|i: int|
            0 <= i < rs.len() && loads_utilization(#[trigger] rs[i])),
        ready(s) ==> ready(refresh_all(s, rs)),
    decreases rs.len(),
{
    if rs.len() > 0 {
        let t = refresh(s, rs[0]);
        let rest = rs.drop_first();
        lemma_readiness(t, rest);
        if exists|i: int| 0 <= i < rest.len() && loads_models(#[trigger] rest[i]) {
            let i = choose|i: int| 0 <= i < rest.len() && loads_models(#[trigger] rest[i]);
            assert(rs[i + 1] == rest[i]);
        }
        if exists|i: int| 0 <= i < rs.len() && loads_models(#[trigger] rs[i]) {
            let i = choose|i: int| 0 <= i < rs.len() && loads_models(#[trigger] rs[i]);
            if i > 0 {
                assert(rest[i - 1] == rs[i]);
            }
        }
        if exists|i: int| 0 <= i < rest.len() && loads_utilization(#[trigger] rest[i]) {
            let i = choose|i: int| 0 <= i < rest.len() && loads_utilization(#[trigger] rest[i]);
            assert(rs[i + 1] == rest[i]);
        }
        if exists|i: int| 0 <= i < rs.len() && loads_utilization(#[trigger] rs[i]) {
            let i = choose|i: int| 0 <= i < rs.len() && loads_utilization(#[trigger] rs[i]);
            if i > 0 {
                assert(rest[i - 1] == rs[i]);
            }
        }
    }
}

/// The latest control-plane state. It is only ever changed by replacing
/// one half of the snapshot whole; a shell shares it by swapping a pointer to
/// a fresh copy, so readers never see a half-written snapshot.
#[derive(Clone, Debug)]
pub struct ControlPlaneCache {
    snapshot: ControlPlaneSnapshot,
    models_loaded: bool,
    utilization_loaded: bool,
}

impl View for ControlPlaneCache {
    type V = CacheView;

    closed spec fn view(&self) -> CacheView {
        CacheView {
            models: self.snapshot.models@.map_values(|m: String| m@),
            utilization: self.snapshot.utilization@,
            fetched_at_ms: self.snapshot.fetched_at_ms,
            models_loaded: self.models_loaded,
            utilization_loaded: self.utilization_loaded,
        }
    }
}

impl ControlPlaneCache {
    /// A cache that has fetched nothing and is not ready.
    pub fn new() -> (r: Self)
        ensures
            r@ == empty_cache(),
    {
        let c = ControlPlaneCache {
            snapshot: ControlPlaneSnapshot::empty(),
            models_loaded: false,
            utilization_loaded: false,
        };
        assert(c@.models =~= Seq::empty());
        assert(c@.utilization =~= Seq::empty());
        c
    }

    /// Ends a catalog tick: `Some` holds the ids fetched, `None` a failure.
    pub fn apply_models(&mut self, fetched: Option<Vec<String>>, now_ms: u64)
        ensures
            final(self)@ == refresh(
                old(self)@,
                RefreshView::Models(
                    match fetched {
                        Some(v) => Some(v@.map_values(|m: String| m@)),
                        None => None,
                    },
                    now_ms,
                ),
            ),
    {
        match fetched {
            Some(v) => {
                self.snapshot.models = v;
                self.snapshot.fetched_at_ms = now_ms;
                self.models_loaded = true;
            },
            None => {},
        }
    }

    /// Ends a utilization tick: `Some` holds the rows fetched, `None` a failure.
    pub fn apply_utilization(&mut self, fetched: Option<Vec<UtilizationSample>>, now_ms: u64)
        ensures
            final(self)@ == refresh(
                old(self)@,
                RefreshView::Utilization(
                    match fetched {
                        Some(v) => Some(v@),
                        None => None,
                    },
                    now_ms,
                ),
            ),
    {
        match fetched {
            Some(v) => {
                self.snapshot.utilization = v;
                self.snapshot.fetched_at_ms = now_ms;
                self.utilization_loaded = true;
            },
            None => {},
        }
    }

    /// Whether both halves have been fetched successfully.
    pub fn is_ready(&self) -> (r: bool)
        ensures
            r == ready(self@),
    {
        self.models_loaded && self.utilization_loaded
    }

    /// The current snapshot.
    pub fn snapshot(&self) -> (r: &ControlPlaneSnapshot)
        ensures
            r.models@.map_values(|m: String| m@) == self@.models,
            r.utilization@ == self@.utilization,
            r.fetched_at_ms == self@.fetched_at_ms,
    {
        &self.snapshot
    }
}

} // verus!
