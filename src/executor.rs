use vstd::prelude::*;

use crate::candidate::{is_failover, models_of, valid_candidates, Candidate, Provenance};

verus! {

/// How one upstream attempt ended.
#[derive(Clone, Copy, Debug, PartialEq, Eq, Structural)]
pub enum Outcome {
    /// A first body byte arrived: the attempt was committed.
    Success,
    /// No response headers within the header timeout.
    HeaderTimeout,
    /// Headers arrived, but no body byte within the first-byte timeout.
    FirstByteTimeout,
    /// The transfer failed before any body byte.
    TransportError,
}

/// One entry of the attempt ledger.
#[derive(Clone, Debug)]
pub struct AttemptRecord {
    pub model: String,
    pub outcome: Outcome,
}

/// Where the current attempt stands.
#[derive(Clone, Copy, Debug, PartialEq, Eq, Structural)]
pub enum Phase {
    /// Dispatched; waiting for response headers.
    AwaitingHeaders,
    /// Headers arrived with this status; waiting for the first body byte.
    AwaitingFirstByte { status: u16 },
    /// The attempt is final; its status is fixed and its body streams on.
    Committed { status: u16 },
    /// Every candidate failed; nothing was sent to the client.
    Exhausted,
}

/// What the driver of an upstream attempt observed.
#[derive(Clone, Copy, Debug, PartialEq, Eq, Structural)]
pub enum Event {
    Headers { status: u16 },
    HeaderTimeout,
    FirstByte,
    FirstByteTimeout,
    TransportError,
}

/// What the driver must do next.
#[derive(Clone, Debug)]
pub enum Action {
    /// Cancel any transfer in flight and send the request to `model`;
    /// `timed` says whether the header timeout applies.
    Dispatch { model: String, timed: bool },
    /// Headers are in: wait for the first body byte under its timeout.
    ArmFirstByteTimer,
    /// Fix the response status (and the selection marker, if any) and
    /// stream the body of the current attempt to the client.
    Commit { status: u16, selected: Option<String> },
    /// Cancel the transfer in flight and answer with one terminal failure.
    Fail,
    /// Nothing to do: the event does not apply in this phase.
    Ignore,
}

/// An action as a mathematical value.
pub enum ActionView {
    Dispatch { model: Seq<char>, timed: bool },
    ArmFirstByteTimer,
    Commit { status: u16, selected: Option<Seq<char>> },
    Fail,
    Ignore,
}

/// An optional string as an optional character sequence.
pub open spec fn opt_view(o: Option<String>) -> Option<Seq<char>> {
    match o {
        Some(s) => Some(s@),
        None => None,
    }
}

impl View for Action {
    type V = ActionView;

    open spec fn view(&self) -> ActionView {
        match self {
            Action::Dispatch { model, timed } => ActionView::Dispatch { model: model@, timed: *timed },
            Action::ArmFirstByteTimer => ActionView::ArmFirstByteTimer,
            Action::Commit { status, selected } => ActionView::Commit {
                status: *status,
                selected: opt_view(*selected),
            },
            Action::Fail => ActionView::Fail,
            Action::Ignore => ActionView::Ignore,
        }
    }
}

/// The executor as a mathematical state.
pub struct ExecView {
    /// The candidates' model names, in order.
    pub models: Seq<Seq<char>>,
    /// Whether the list fails over (alias or preference) or is passed through.
    pub failover: bool,
    /// The index of the current attempt.
    pub current: nat,
    pub phase: Phase,
    /// The ledger: one (model, outcome) pair per finished attempt.
    pub attempts: Seq<(Seq<char>, Outcome)>,
    /// The selection marker.
    pub selected: Option<Seq<char>>,
}

/// The state right after the first dispatch.
pub open spec fn initial(models: Seq<Seq<char>>, failover: bool) -> ExecView {
    ExecView {
        models,
        failover,
        current: 0,
        phase: Phase::AwaitingHeaders,
        attempts: Seq::empty(),
        selected: None,
    }
}

/// The current attempt failed with `o`: record it and move on, or give up.
pub open spec fn advance(s: ExecView, o: Outcome) -> ExecView {
    ExecView {
        current: s.current + 1,
        phase: if s.failover && s.current + 1 < s.models.len() {
            Phase::AwaitingHeaders
        } else {
            Phase::Exhausted
        },
        attempts: s.attempts.push((s.models[s.current as int], o)),
        ..s
    }
}

/// The current attempt is final with `status`.
pub open spec fn commit(s: ExecView, status: u16) -> ExecView {
    ExecView {
        phase: Phase::Committed { status },
        attempts: s.attempts.push((s.models[s.current as int], Outcome::Success)),
        selected: if s.failover {
            Some(s.models[s.current as int])
        } else {
            None
        },
        ..s
    }
}

/// The event ends the current attempt without a commit.
pub open spec fn is_failure(e: Event, phase: Phase, failover: bool) -> bool {
    match (phase, e) {
        (Phase::AwaitingHeaders, Event::HeaderTimeout) => failover,
        (Phase::AwaitingHeaders, Event::TransportError) => true,
        (Phase::AwaitingFirstByte { .. }, Event::FirstByteTimeout) => true,
        (Phase::AwaitingFirstByte { .. }, Event::TransportError) => true,
        _ => false,
    }
}

/// The ledger outcome that a failing event records.
pub open spec fn outcome_of(e: Event) -> Outcome {
    match e {
        Event::HeaderTimeout => Outcome::HeaderTimeout,
        Event::FirstByteTimeout => Outcome::FirstByteTimeout,
        _ => Outcome::TransportError,
    }
}

/// The state after one event.
pub open spec fn next_state(s: ExecView, e: Event) -> ExecView {
    if is_failure(e, s.phase, s.failover) {
        advance(s, outcome_of(e))
    } else {
        match (s.phase, e) {
            (Phase::AwaitingHeaders, Event::Headers { status }) => if s.failover {
                ExecView { phase: Phase::AwaitingFirstByte { status }, ..s }
            } else {
                commit(s, status)
            },
            (Phase::AwaitingFirstByte { status }, Event::FirstByte) => commit(s, status),
            _ => s,
        }
    }
}

/// The action that goes with one event.
pub open spec fn next_action(s: ExecView, e: Event) -> ActionView {
    if is_failure(e, s.phase, s.failover) {
        let t = advance(s, outcome_of(e));
        if t.phase == Phase::AwaitingHeaders {
            ActionView::Dispatch { model: s.models[t.current as int], timed: true }
        } else {
            ActionView::Fail
        }
    } else {
        match (s.phase, e) {
            (Phase::AwaitingHeaders, Event::Headers { status }) => if s.failover {
                ActionView::ArmFirstByteTimer
            } else {
                ActionView::Commit { status, selected: None }
            },
            (Phase::AwaitingFirstByte { status }, Event::FirstByte) => ActionView::Commit {
                status,
                selected: commit(s, status).selected,
            },
            _ => ActionView::Ignore,
        }
    }
}

/// The state after a sequence of events.
pub open spec fn run(s: ExecView, evs: Seq<Event>) -> ExecView
    decreases evs.len(),
{
    if evs.len() == 0 {
        s
    } else {
        run(next_state(s, evs[0]), evs.drop_first())
    }
}

/// The executor's consistency: the ledger pairs the candidates in order,
/// failures before the current attempt, and the marker is set exactly on a
/// committed failover attempt.
pub open spec fn wf(s: ExecView) -> bool {
    &&& s.models.len() > 0
    &&& s.current <= s.models.len()
    &&& forall|k: int| 0 <= k < s.attempts.len() ==> (#[trigger] s.attempts[k]).0 == s.models[k]
    &&& forall|k: int| 0 <= k < s.current ==> (#[trigger] s.attempts[k]).1 != Outcome::Success
    &&& match s.phase {
        Phase::Committed { .. } => {
            &&& s.current < s.models.len()
            &&& s.attempts.len() == s.current + 1
            &&& s.attempts[s.current as int].1 == Outcome::Success
            &&& s.selected == if s.failover {
                Some(s.models[s.current as int])
            } else {
                None
            }
        },
        Phase::Exhausted => {
            &&& s.attempts.len() == s.current
            &&& s.current > 0
            &&& s.failover ==> s.current == s.models.len()
            &&& s.selected is None
        },
        _ => {
            &&& s.current < s.models.len()
            &&& s.attempts.len() == s.current
            &&& s.selected is None
            &&& !s.failover ==> s.phase == Phase::AwaitingHeaders
        },
    }
}

/// One event keeps the executor consistent.
pub proof fn lemma_next_state_wf(s: ExecView, e: Event)
    requires
        wf(s),
    ensures
        wf(next_state(s, e)),
        next_state(s, e).models == s.models,
        next_state(s, e).failover == s.failover,
{
    let t = next_state(s, e);
    if is_failure(e, s.phase, s.failover) {
        assert forall|k: int| 0 <= k < t.attempts.len() implies (#[trigger] t.attempts[k]).0
            == t.models[k] by {
            if k < s.attempts.len() {
                assert(t.attempts[k] == s.attempts[k]);
            }
        }
        assert forall|k: int| 0 <= k < t.current implies (#[trigger] t.attempts[k]).1
            != Outcome::Success by {
            if k < s.current {
                assert(t.attempts[k] == s.attempts[k]);
            }
        }
    } else {
        match (s.phase, e) {
            (Phase::AwaitingHeaders, Event::Headers { status }) => {
                if !s.failover {
                    assert forall|k: int| 0 <= k < t.attempts.len() implies (
                    #[trigger] t.attempts[k]).0 == t.models[k] by {
                        if k < s.attempts.len() {
                            assert(t.attempts[k] == s.attempts[k]);
                        }
                    }
                    assert forall|k: int| 0 <= k < t.current implies (
                    #[trigger] t.attempts[k]).1 != Outcome::Success by {
                        assert(t.attempts[k] == s.attempts[k]);
                    }
                }
            },
            (Phase::AwaitingFirstByte { status }, Event::FirstByte) => {
                assert forall|k: int| 0 <= k < t.attempts.len() implies (
                #[trigger] t.attempts[k]).0 == t.models[k] by {
                    if k < s.attempts.len() {
                        assert(t.attempts[k] == s.attempts[k]);
                    }
                }
                assert forall|k: int| 0 <= k < t.current implies (#[trigger] t.attempts[k]).1
                    != Outcome::Success by {
                    assert(t.attempts[k] == s.attempts[k]);
                }
            },
            _ => {},
        }
    }
}

/// The events by which an attempt fails with `o`; a first-byte timeout
/// comes after headers with `status`.
pub open spec fn failure_events(o: Outcome, status: u16) -> Seq<Event> {
    match o {
        Outcome::HeaderTimeout => seq![Event::HeaderTimeout],
        Outcome::FirstByteTimeout => seq![Event::Headers { status }, Event::FirstByteTimeout],
        _ => seq![Event::TransportError],
    }
}

/// The events by which the first `k` attempts fail, one after the other.
pub open spec fn failures_upto(fails: Seq<Outcome>, statuses: Seq<u16>, k: nat) -> Seq<Event>
    decreases k,
{
    if k == 0 {
        Seq::empty()
    } else {
        failures_upto(fails, statuses, (k - 1) as nat) + failure_events(
            fails[k - 1],
            statuses[k - 1],
        )
    }
}

/// A failover list after its first `k` attempts failed.
pub open spec fn failed_prefix(models: Seq<Seq<char>>, fails: Seq<Outcome>, k: nat) -> ExecView {
    ExecView {
        models,
        failover: true,
        current: k,
        phase: if k < models.len() {
            Phase::AwaitingHeaders
        } else {
            Phase::Exhausted
        },
        attempts: Seq::new(k, |i: int| (models[i], fails[i])),
        selected: None,
    }
}

/// Running two event sequences one after the other is running their concatenation.
pub proof fn lemma_run_append(s: ExecView, a: Seq<Event>, b: Seq<Event>)
    ensures
        run(s, a + b) == run(run(s, a), b),
    decreases a.len(),
{
    if a.len() == 0 {
        assert(a + b =~= b);
    } else {
        assert((a + b)[0] == a[0]);
        assert((a + b).drop_first() =~= a.drop_first() + b);
        lemma_run_append(next_state(s, a[0]), a.drop_first(), b);
    }
}

/// Any event sequence keeps the executor consistent.
pub proof fn lemma_run_wf(s: ExecView, evs: Seq<Event>)
    requires
        wf(s),
    ensures
        wf(run(s, evs)),
    decreases evs.len(),
{
    if evs.len() > 0 {
        lemma_next_state_wf(s, evs[0]);
        lemma_run_wf(next_state(s, evs[0]), evs.drop_first());
    }
}

proof fn lemma_failed_prefix(models: Seq<Seq<char>>, fails: Seq<Outcome>, statuses: Seq<u16>, k: nat)
    requires
        models.len() > 0,
        fails.len() == models.len(),
        statuses.len() == models.len(),
        forall|i: int| 0 <= i < fails.len() ==> #[trigger] fails[i] != Outcome::Success,
        k <= models.len(),
    ensures
        run(initial(models, true), failures_upto(fails, statuses, k)) == failed_prefix(models, fails, k),
    decreases k,
{
    reveal_with_fuel(run, 3);
    if k == 0 {
        assert(failed_prefix(models, fails, 0).attempts =~= Seq::empty());
        assert(failures_upto(fails, statuses, 0) =~= Seq::empty());
    } else {
        let j = (k - 1) as nat;
        lemma_failed_prefix(models, fails, statuses, j);
        let prev = failed_prefix(models, fails, j);
        lemma_run_append(
            initial(models, true),
            failures_upto(fails, statuses, j),
            failure_events(fails[j as int], statuses[j as int]),
        );
        let t = run(prev, failure_events(fails[j as int], statuses[j as int]));
        let expect = failed_prefix(models, fails, k);
        assert(expect.attempts =~= prev.attempts.push((models[j as int], fails[j as int])));
        assert(t.attempts =~= expect.attempts);
        assert(t == expect);
    }
}

/// When every attempt of a failover list fails, by timeout or transport
/// error, the request ends in one terminal failure with no marker, and the
/// ledger is the candidate list itself: in order, each entry once, none
/// missing, each paired with how it failed.
pub proof fn lemma_all_failed_exhausts(models: Seq<Seq<char>>, fails: Seq<Outcome>, statuses: Seq<u16>)
    requires
        models.len() > 0,
        fails.len() == models.len(),
        statuses.len() == models.len(),
        forall|i: int| 0 <= i < fails.len() ==> #[trigger] fails[i] != Outcome::Success,
    ensures
        ({
            let end = run(initial(models, true), failures_upto(fails, statuses, models.len()));
            &&& end.phase == Phase::Exhausted
            &&& end.selected is None
            &&& end.attempts.map_values(|a: (Seq<char>, Outcome)| a.0) == models
            &&& end.attempts.map_values(|a: (Seq<char>, Outcome)| a.1) == fails
        }),
{
    lemma_failed_prefix(models, fails, statuses, models.len());
    let end = failed_prefix(models, fails, models.len());
    assert(end.attempts.map_values(|a: (Seq<char>, Outcome)| a.0) =~= models);
    assert(end.attempts.map_values(|a: (Seq<char>, Outcome)| a.1) =~= fails);
}

/// What a passed-through list can look like: no marker, one attempt at most.
pub open spec fn direct_shape(s: ExecView) -> bool {
    &&& !s.failover
    &&& s.selected is None
    &&& s.attempts.len() <= 1
    &&& !(s.phase is AwaitingFirstByte)
    &&& s.phase == Phase::AwaitingHeaders ==> s.attempts.len() == 0 && s.current == 0
}

proof fn lemma_direct_shape_run(s: ExecView, evs: Seq<Event>)
    requires
        direct_shape(s),
    ensures
        direct_shape(run(s, evs)),
    decreases evs.len(),
{
    if evs.len() > 0 {
        lemma_direct_shape_run(next_state(s, evs[0]), evs.drop_first());
    }
}

/// A direct list is passed through: whatever happens, the marker is never
/// set and at most one attempt is made; the response headers' status is
/// committed as it came.
pub proof fn lemma_direct_passthrough(models: Seq<Seq<char>>, evs: Seq<Event>, status: u16)
    requires
        models.len() > 0,
    ensures
        run(initial(models, false), evs).selected is None,
        run(initial(models, false), evs).attempts.len() <= 1,
        next_action(initial(models, false), Event::Headers { status }) == (ActionView::Commit {
            status,
            selected: None,
        }),
{
    lemma_direct_shape_run(initial(models, false), evs);
}

/// Commit is irrevocable: no later event changes a committed state.
pub proof fn lemma_commit_is_final(s: ExecView, evs: Seq<Event>)
    requires
        s.phase is Committed,
    ensures
        run(s, evs) == s,
    decreases evs.len(),
{
    if evs.len() > 0 {
        lemma_commit_is_final(next_state(s, evs[0]), evs.drop_first());
    }
}

/// Whatever events arrive, at most one attempt succeeds, and it is the last
/// one dispatched: every earlier candidate failed before the next was sent,
/// so no other candidate's body can reach the client. The marker, when set,
/// names exactly that candidate.
pub proof fn lemma_single_commit(models: Seq<Seq<char>>, failover: bool, evs: Seq<Event>)
    requires
        models.len() > 0,
    ensures
        ({
            let s = run(initial(models, failover), evs);
            &&& forall|k: int| 0 <= k < s.attempts.len() - 1 ==> (#[trigger] s.attempts[k]).1
                != Outcome::Success
            &&& (s.phase is Committed <==> (s.attempts.len() > 0 && s.attempts.last().1
                == Outcome::Success))
            &&& s.selected matches Some(m) ==> s.phase is Committed && m == s.attempts.last().0
        }),
{
    lemma_run_wf(initial(models, failover), evs);
    let s = run(initial(models, failover), evs);
    if s.attempts.len() > 0 && !(s.phase is Committed) {
        assert(s.attempts.last() == s.attempts[s.current - 1]);
    }
}

/// The failover state machine of one request. It never runs more than one
/// attempt at a time, and once it commits, nothing it does changes the
/// status, the marker or the ledger again.
pub struct FailoverExecutor {
    candidates: Vec<Candidate>,
    failover: bool,
    current: usize,
    phase: Phase,
    attempts: Vec<AttemptRecord>,
    selected: Option<String>,
}

/// The ledger as (model, outcome) pairs.
pub open spec fn ledger_view(a: Seq<AttemptRecord>) -> Seq<(Seq<char>, Outcome)> {
    a.map_values(|r: AttemptRecord| (r.model@, r.outcome))
}

impl View for FailoverExecutor {
    type V = ExecView;

    closed spec fn view(&self) -> ExecView {
        ExecView {
            models: models_of(self.candidates@),
            failover: self.failover,
            current: self.current as nat,
            phase: self.phase,
            attempts: ledger_view(self.attempts@),
            selected: opt_view(self.selected),
        }
    }
}

impl FailoverExecutor {
    /// The executor is consistent.
    pub closed spec fn inv(&self) -> bool {
        wf(self@)
    }

    /// Takes a candidate list and dispatches its first candidate.
    pub fn start(candidates: Vec<Candidate>) -> (r: (FailoverExecutor, Action))
        requires
            valid_candidates(candidates@),
        ensures
            r.0.inv(),
            r.0@ == initial(models_of(candidates@), candidates@[0].provenance != Provenance::Direct),
            r.1@ == (ActionView::Dispatch {
                model: candidates@[0].model@,
                timed: candidates@[0].provenance != Provenance::Direct,
            }),
    {
        let failover = is_failover(candidates[0].provenance);
        let first = candidates[0].model.clone();
        let ex = FailoverExecutor {
            candidates,
            failover,
            current: 0,
            phase: Phase::AwaitingHeaders,
            attempts: Vec::new(),
            selected: None,
        };
        assert(ledger_view(ex.attempts@) =~= Seq::empty());
        (ex, Action::Dispatch { model: first, timed: failover })
    }

    fn fail_over(&mut self, o: Outcome) -> (a: Action)
        requires
            old(self).inv(),
            old(self).phase == Phase::AwaitingHeaders || old(self).phase is AwaitingFirstByte,
            o != Outcome::Success,
        ensures
            final(self)@ == advance(old(self)@, o),
            a@ == if final(self)@.phase == Phase::AwaitingHeaders {
                ActionView::Dispatch { model: old(self)@.models[final(self)@.current as int], timed: true }
            } else {
                ActionView::Fail
            },
    {
        let ghost s = self@;
        assert(s.models.len() == self.candidates@.len());
        let model = self.candidates[self.current].model.clone();
        self.attempts.push(AttemptRecord { model, outcome: o });
        assert(self.current < self.candidates.len());
        self.current = self.current + 1;
        proof {
            assert(ledger_view(self.attempts@) =~= s.attempts.push((s.models[s.current as int], o)));
        }
        if self.failover && self.current < self.candidates.len() {
            self.phase = Phase::AwaitingHeaders;
            assert(self@ == advance(s, o));
            Action::Dispatch { model: self.candidates[self.current].model.clone(), timed: true }
        } else {
            self.phase = Phase::Exhausted;
            assert(self@ == advance(s, o));
            Action::Fail
        }
    }

    fn commit_current(&mut self, status: u16) -> (a: Action)
        requires
            old(self).inv(),
            old(self).phase == Phase::AwaitingHeaders || old(self).phase is AwaitingFirstByte,
        ensures
            final(self)@ == commit(old(self)@, status),
            a@ == (ActionView::Commit { status, selected: commit(old(self)@, status).selected }),
    {
        let ghost s = self@;
        assert(s.models.len() == self.candidates@.len());
        let model = self.candidates[self.current].model.clone();
        self.attempts.push(AttemptRecord { model, outcome: Outcome::Success });
        self.phase = Phase::Committed { status };
        proof {
            assert(ledger_view(self.attempts@) =~= s.attempts.push(
                (s.models[s.current as int], Outcome::Success),
            ));
        }
        if self.failover {
            let marker = self.candidates[self.current].model.clone();
            self.selected = Some(marker.clone());
            assert(self@ == commit(s, status));
            Action::Commit { status, selected: Some(marker) }
        } else {
            assert(self@ == commit(s, status));
            Action::Commit { status, selected: None }
        }
    }

    /// Feeds one observation of the current attempt to the executor.
    pub fn on_event(&mut self, e: Event) -> (a: Action)
        requires
            old(self).inv(),
        ensures
            final(self).inv(),
            final(self)@ == next_state(old(self)@, e),
            a@ == next_action(old(self)@, e),
    {
        proof {
            lemma_next_state_wf(self@, e);
        }
        match self.phase {
            Phase::AwaitingHeaders => match e {
                Event::Headers { status } => {
                    if self.failover {
                        self.phase = Phase::AwaitingFirstByte { status };
                        Action::ArmFirstByteTimer
                    } else {
                        self.commit_current(status)
                    }
                },
                Event::HeaderTimeout => {
                    if self.failover {
                        self.fail_over(Outcome::HeaderTimeout)
                    } else {
                        Action::Ignore
                    }
                },
                Event::TransportError => self.fail_over(Outcome::TransportError),
                _ => Action::Ignore,
            },
            Phase::AwaitingFirstByte { status } => match e {
                Event::FirstByte => self.commit_current(status),
                Event::FirstByteTimeout => self.fail_over(Outcome::FirstByteTimeout),
                Event::TransportError => self.fail_over(Outcome::TransportError),
                _ => Action::Ignore,
            },
            _ => Action::Ignore,
        }
    }

    /// The current phase.
    pub fn phase(&self) -> (r: Phase)
        ensures
            r == self@.phase,
    {
        self.phase
    }

    /// The selection marker: the committed candidate of a failover list.
    pub fn selected(&self) -> (r: Option<String>)
        ensures
            opt_view(r) == self@.selected,
    {
        match &self.selected {
            Some(s) => Some(s.clone()),
            None => None,
        }
    }

    /// The models of the ledger, in dispatch order.
    pub fn attempted_models(&self) -> (r: Vec<String>)
        requires
            self.inv(),
        ensures
            r@.map_values(|m: String| m@) == self@.attempts.map_values(|a: (Seq<char>, Outcome)| a.0),
    {
        let mut out: Vec<String> = Vec::new();
        let mut i: usize = 0;
        while i < self.attempts.len()
            invariant
                i <= self.attempts.len(),
                out@.len() == i,
                forall|k: int| 0 <= k < i ==> #[trigger] out@[k]@ == self.attempts@[k].model@,
            decreases self.attempts.len() - i,
        {
            out.push(self.attempts[i].model.clone());
            i = i + 1;
        }
        assert(out@.map_values(|m: String| m@) =~= self@.attempts.map_values(
            |a: (Seq<char>, Outcome)| a.0,
        ));
        out
    }

    /// The outcomes of the ledger, in dispatch order.
    pub fn outcomes(&self) -> (r: Vec<Outcome>)
        ensures
            r@ == self@.attempts.map_values(|a: (Seq<char>, Outcome)| a.1),
    {
        let mut out: Vec<Outcome> = Vec::new();
        let mut i: usize = 0;
        while i < self.attempts.len()
            invariant
                i <= self.attempts.len(),
                out@.len() == i,
                forall|k: int| 0 <= k < i ==> #[trigger] out@[k] == self.attempts@[k].outcome,
            decreases self.attempts.len() - i,
        {
            out.push(self.attempts[i].outcome);
            i = i + 1;
        }
        assert(out@ =~= self@.attempts.map_values(|a: (Seq<char>, Outcome)| a.1));
        out
    }
}

} // verus!
