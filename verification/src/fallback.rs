//! Fallback across providers: the candidates are tried in order, those
//! whose circuit is open are skipped, a failure is recorded in the health
//! store, a retryable failure moves on to the next candidate, and the first
//! success ends the run. When no candidate succeeds, the run's error lists
//! every provider that was tried and how each one failed.
//!
//! [`FallbackRun`] holds the decisions, one step at a time; the work of
//! each attempt is done by the caller. [`with_provider_fallback`] runs the
//! whole loop with an operation that performs one attempt.

use vstd::prelude::*;
use crate::errors::{
    GatewayError, GatewayErrorView, ProviderFailure, ProviderFailureView, failure_views,
    gateway_error,
};
use crate::health::{HealthStore, HealthStoreView};
use crate::text::views;

verus! {

/// What one step of a run does.
#[derive(Debug)]
pub enum FallbackStep {
    /// The named provider is available and is to be tried now.
    Attempt(String),
    /// The next candidate's circuit is open; it is passed over.
    Skipped,
    /// No candidate is left, or a failure that cannot be retried ended the run.
    Exhausted,
}

/// A run of fallback across candidate providers.
pub struct FallbackRun {
    candidates: Vec<String>,
    next: usize,
    tried: Vec<String>,
    failures: Vec<ProviderFailure>,
    last_error: Option<GatewayError>,
    stopped: bool,
    picked: Ghost<Seq<int>>,
    errors: Ghost<Seq<GatewayError>>,
}

/// The mathematical value of a [`FallbackRun`].
pub struct FallbackRunView {
    /// The providers to try, in order.
    pub candidates: Seq<String>,
    /// The place of the next candidate to consider.
    pub next: int,
    /// The providers tried so far, in order.
    pub tried: Seq<String>,
    /// The place among the candidates of each provider tried.
    pub picked: Seq<int>,
    /// The error of each failed attempt, in order.
    pub errors: Seq<GatewayError>,
    /// Whether a failure that cannot be retried ended the run.
    pub stopped: bool,
}

/// The failure records of a sequence of errors.
pub open spec fn failures_of(errors: Seq<GatewayError>) -> Seq<ProviderFailureView> {
    errors.map_values(|e: GatewayError| e@.as_failure())
}

/// The error of a run that ends without success when no provider was tried.
pub open spec fn nothing_tried_error() -> GatewayErrorView {
    gateway_error("no providers could satisfy the request"@)
}

/// The error with which a run ends: the last failure, or the error for a
/// run in which nothing was tried, with the run's context attached.
pub open spec fn run_error(tried: Seq<String>, errors: Seq<GatewayError>) -> GatewayErrorView {
    let base = if errors.len() > 0 {
        errors.last()@
    } else {
        nothing_tried_error()
    };
    base.with_context(views(tried), failures_of(errors))
}

/// `picked` places `tried` among `candidates`, in order, below `bound`.
pub open spec fn picks(candidates: Seq<String>, tried: Seq<String>, picked: Seq<int>, bound: int) -> bool {
    &&& picked.len() == tried.len()
    &&& forall|i: int|
        0 <= i < picked.len() ==> 0 <= #[trigger] picked[i] < bound && bound <= candidates.len()
            && candidates[picked[i]] == tried[i]
    &&& forall|i: int, j: int| 0 <= i < j < picked.len() ==> picked[i] < picked[j]
}

/// `sub` is `whole` with some elements left out.
pub open spec fn is_subsequence(sub: Seq<String>, whole: Seq<String>) -> bool {
    exists|picked: Seq<int>| #[trigger] picks(whole, sub, picked, whole.len() as int)
}

impl FallbackRunView {
    /// The run is consistent: every tried provider is one of the candidates
    /// considered, in order; one error per finished attempt; every error but
    /// the last can be retried; and the run is stopped exactly when the last
    /// error cannot be retried.
    pub open spec fn wf(self) -> bool {
        &&& 0 <= self.next <= self.candidates.len()
        &&& picks(self.candidates, self.tried, self.picked, self.next)
        &&& self.errors.len() <= self.tried.len() <= self.errors.len() + 1
        &&& forall|i: int| 0 <= i < self.errors.len() - 1 ==> (#[trigger] self.errors[i]).retryable
        &&& self.stopped == (self.errors.len() > 0 && !self.errors.last().retryable)
        &&& self.tried.len() == self.errors.len() + 1 ==> !self.stopped
    }

    /// An attempt has been handed out and its outcome is not recorded yet.
    pub open spec fn in_attempt(self) -> bool {
        self.tried.len() == self.errors.len() + 1
    }

    /// Whether another step may hand out an attempt.
    pub open spec fn open(self) -> bool {
        !self.stopped && self.next < self.candidates.len()
    }
}

/// The run and the store after one step at `now`, and what the step does.
pub open spec fn step_result(r: FallbackRunView, h: HealthStoreView, now: u128) -> (FallbackRunView, HealthStoreView, Option<Option<String>>) {
    if !r.open() {
        (r, h, None)
    } else {
        let name = r.candidates[r.next];
        if h.available(name@, now) {
            (
                FallbackRunView {
                    next: r.next + 1,
                    tried: r.tried.push(name),
                    picked: r.picked.push(r.next),
                    ..r
                },
                h.checked(name@, now),
                Some(Some(name)),
            )
        } else {
            (FallbackRunView { next: r.next + 1, ..r }, h.checked(name@, now), Some(None))
        }
    }
}

/// The meaning of a step in the terms of [`step_result`]: `None` for an
/// exhausted run, `Some(None)` for a skipped candidate, and `Some(Some(n))`
/// for an attempt of the provider named `n`.
pub open spec fn step_meaning(s: FallbackStep) -> Option<Option<String>> {
    match s {
        FallbackStep::Attempt(name) => Some(Some(name)),
        FallbackStep::Skipped => Some(None),
        FallbackStep::Exhausted => None,
    }
}

impl View for FallbackRun {
    type V = FallbackRunView;

    closed spec fn view(&self) -> FallbackRunView {
        FallbackRunView {
            candidates: self.candidates@,
            next: self.next as int,
            tried: self.tried@,
            picked: self.picked@,
            errors: self.errors@,
            stopped: self.stopped,
        }
    }
}

impl FallbackRun {
    /// The fields agree with the view.
    pub closed spec fn wf(&self) -> bool {
        &&& self@.wf()
        &&& failure_views(self.failures@) == failures_of(self.errors@)
        &&& self.last_error == (if self.errors@.len() > 0 {
            Some(self.errors@.last())
        } else {
            None
        })
    }

    /// A run over `candidates` in which nothing has been tried.
    pub fn new(candidates: Vec<String>) -> (run: Self)
        ensures
            run.wf(),
            run@.candidates == candidates@,
            run@.next == 0,
            run@.tried.len() == 0,
            run@.errors.len() == 0,
            !run@.stopped,
    {
        let run = FallbackRun {
            candidates,
            next: 0,
            tried: Vec::new(),
            failures: Vec::new(),
            last_error: None,
            stopped: false,
            picked: Ghost(Seq::empty()),
            errors: Ghost(Seq::empty()),
        };
        assert(failure_views(run.failures@) =~= failures_of(run.errors@));
        run
    }

    /// The number of candidates not yet considered.
    pub open spec fn remaining(&self) -> int {
        self@.candidates.len() - self@.next
    }

    /// One step at time `now`: the next candidate is considered, and it is
    /// handed out as an attempt if it is available.
    pub fn step_at(&mut self, health: &mut HealthStore, now: u128) -> (s: FallbackStep)
        requires
            old(self).wf(),
            !old(self)@.in_attempt(),
        ensures
            final(self).wf(),
            (final(self)@, final(health)@, step_meaning(s)) == step_result(old(self)@, old(health)@, now),
    {
        if self.stopped || self.next >= self.candidates.len() {
            return FallbackStep::Exhausted;
        }
        let name = self.candidates[self.next].clone();
        let i = self.next;
        self.next = self.next + 1;
        if health.is_available_at(name.as_str(), now) {
            let ghost old_tried = self.tried@;
            self.tried.push(name.clone());
            proof {
                self.picked@ = self.picked@.push(i as int);
                assert forall|a: int| 0 <= a < self.picked@.len() implies 0 <= #[trigger] self.picked@[a]
                    < self.next && self.next <= self.candidates@.len() && self.candidates@[self.picked@[a]]
                    == self.tried@[a] by {
                    if a < old_tried.len() {
                        assert(self.tried@[a] == old_tried[a]);
                    }
                }
            }
            FallbackStep::Attempt(name)
        } else {
            FallbackStep::Skipped
        }
    }

    /// Records that the attempt handed out last failed at time `now` with
    /// `error`: the store notes the failure of that provider, and a failure
    /// that cannot be retried ends the run.
    pub fn record_failure_at(&mut self, health: &mut HealthStore, error: GatewayError, now: u128)
        requires
            old(self).wf(),
            old(self)@.in_attempt(),
        ensures
            final(self).wf(),
            !final(self)@.in_attempt(),
            final(self)@ == (FallbackRunView {
                errors: old(self)@.errors.push(error),
                stopped: !error.retryable,
                ..old(self)@
            }),
            final(health)@ == old(health)@.failed(old(self)@.tried.last()@, error.message, now),
    {
        let last = self.tried.len() - 1;
        health.record_failure_at(self.tried[last].as_str(), error.message.clone(), now);
        let ghost old_failures = self.failures@;
        self.failures.push(error.as_provider_failure());
        self.stopped = !error.retryable;
        proof {
            self.errors@ = self.errors@.push(error);
            assert(self.errors@.drop_last() =~= old(self).errors@);
            assert(failure_views(old_failures) == failures_of(old(self).errors@));
            assert(failure_views(self.failures@) =~= failure_views(old_failures).push(error@.as_failure()));
            assert(failures_of(self.errors@) =~= failures_of(old(self).errors@).push(error@.as_failure()));
        }
        self.last_error = Some(error);
    }

    /// The providers tried, in order, ending with the one whose attempt
    /// succeeded.
    pub fn into_chain(self) -> (chain: Vec<String>)
        requires
            self.wf(),
        ensures
            chain@ == self@.tried,
    {
        self.tried
    }

    /// The error with which the run ends.
    pub fn into_error(self) -> (e: GatewayError)
        requires
            self.wf(),
        ensures
            e@ == run_error(self@.tried, self@.errors),
    {
        let base = match self.last_error {
            Some(e) => e,
            None => GatewayError::gateway("no providers could satisfy the request"),
        };
        base.with_fallback_context(self.tried, self.failures)
    }
}

/// Where a run of fallback stands: the health store, the attempts made so
/// far with what each gave, and whether a success or a failure that cannot
/// be retried has ended it.
pub struct RunState<T> {
    pub health: HealthStoreView,
    pub calls: Seq<(String, Result<T, GatewayError>)>,
    pub done: bool,
}

/// One step of a run: the candidate `name` is checked at time `check`;
/// when it may be tried, it is tried and gives `out`, and a failure is
/// recorded at time `fail`. A run that has ended stays as it is.
pub open spec fn run_step<T>(
    s: RunState<T>,
    name: String,
    check: u128,
    fail: u128,
    out: Result<T, GatewayError>,
) -> RunState<T> {
    if s.done {
        s
    } else if !s.health.available(name@, check) {
        RunState { health: s.health.checked(name@, check), ..s }
    } else {
        let h = s.health.checked(name@, check);
        match out {
            Ok(_) => RunState { health: h, calls: s.calls.push((name, out)), done: true },
            Err(e) => RunState {
                health: h.failed(name@, e.message, fail),
                calls: s.calls.push((name, out)),
                done: !e.retryable,
            },
        }
    }
}

/// The run from the store `h` over the first `checks.len()` candidates, the
/// `i`-th checked at `checks[i]`, its failure (if any) recorded at
/// `fails[i]`, and its attempt (if it is tried) giving `outs[i]`.
pub open spec fn run_over<T>(
    h: HealthStoreView,
    candidates: Seq<String>,
    checks: Seq<u128>,
    fails: Seq<u128>,
    outs: Seq<Result<T, GatewayError>>,
) -> RunState<T>
    decreases checks.len(),
{
    let n = checks.len();
    if n == 0 || n > candidates.len() || fails.len() != n || outs.len() != n {
        RunState { health: h, calls: Seq::empty(), done: false }
    } else {
        run_step(
            run_over(h, candidates, checks.drop_last(), fails.drop_last(), outs.drop_last()),
            candidates[n - 1],
            checks.last(),
            fails.last(),
            outs.last(),
        )
    }
}

/// The names of the providers tried, in order.
pub open spec fn call_names<T>(calls: Seq<(String, Result<T, GatewayError>)>) -> Seq<String> {
    calls.map_values(|c: (String, Result<T, GatewayError>)| c.0)
}

/// The errors of the attempts, in order.
pub open spec fn call_errors<T>(calls: Seq<(String, Result<T, GatewayError>)>) -> Seq<GatewayError> {
    calls.map_values(|c: (String, Result<T, GatewayError>)| c.1->Err_0)
}

/// What a run that ends in `s` returns: the value of its last attempt with
/// the chain of providers tried when that attempt succeeded; otherwise the
/// run's error (see [`run_error`]).
pub open spec fn run_answers<T>(s: RunState<T>, r: Result<(T, Vec<String>), GatewayError>) -> bool {
    if s.calls.len() > 0 && s.calls.last().1 is Ok {
        r matches Ok((v, chain)) && s.calls.last().1 == Ok::<T, GatewayError>(v) && chain@ == call_names(
            s.calls,
        )
    } else {
        r matches Err(e) && e@ == run_error(call_names(s.calls), call_errors(s.calls))
    }
}

/// Whether a run of fallback across `candidates` that started from the
/// store `h0` may have left the store `h_end` and returned `r`, when
/// `attempt(n, x)` says that `x` is a possible outcome of trying the
/// provider named `n`: the candidates were considered in order, the `i`-th
/// checked at `checks[i]`; each that may be tried was tried, and each
/// failure recorded in the store at `fails[i]`; the run went on until a
/// success, a failure that cannot be retried, or the last candidate.
pub open spec fn ran_by<T>(
    attempt: spec_fn(String, Result<T, GatewayError>) -> bool,
    h0: HealthStoreView,
    candidates: Seq<String>,
    checks: Seq<u128>,
    fails: Seq<u128>,
    outs: Seq<Result<T, GatewayError>>,
    h_end: HealthStoreView,
    r: Result<(T, Vec<String>), GatewayError>,
) -> bool {
    let s = run_over(h0, candidates, checks, fails, outs);
    &&& checks.len() <= candidates.len()
    &&& fails.len() == checks.len()
    &&& outs.len() == checks.len()
    &&& s.done || checks.len() == candidates.len()
    &&& h_end == s.health
    &&& forall|k: int| 0 <= k < s.calls.len() ==> attempt(#[trigger] s.calls[k].0, s.calls[k].1)
    &&& run_answers(s, r)
}

/// Whether the times of a run go forward from `from` to `to`: the `i`-th
/// candidate is checked at `checks[i]`, no earlier than the step before it
/// ended, and its step ends at `fails[i]` (when its failure is recorded, or
/// at its check when there is none), no earlier than its check.
pub open spec fn times_in_order(from: u128, checks: Seq<u128>, fails: Seq<u128>, to: u128) -> bool {
    &&& from <= to
    &&& fails.len() == checks.len()
    &&& forall|i: int| 0 <= i < checks.len() ==> from <= #[trigger] checks[i] <= fails[i] <= to
    &&& forall|i: int| 0 < i < checks.len() ==> fails[i - 1] <= #[trigger] checks[i]
}

/// The outcomes that `operation` may give for each provider name.
pub open spec fn attempt_of<T, F: Fn(&String) -> Result<T, GatewayError>>(operation: F) -> spec_fn(
    String,
    Result<T, GatewayError>,
) -> bool {
    |n: String, x: Result<T, GatewayError>| call_ensures(operation, (&n,), x)
}

/// What holds of a run for one description of the attempts' outcomes holds
/// for every weaker one.
pub proof fn lemma_ran_by_weakens<T>(
    a1: spec_fn(String, Result<T, GatewayError>) -> bool,
    a2: spec_fn(String, Result<T, GatewayError>) -> bool,
    h0: HealthStoreView,
    candidates: Seq<String>,
    checks: Seq<u128>,
    fails: Seq<u128>,
    outs: Seq<Result<T, GatewayError>>,
    h_end: HealthStoreView,
    r: Result<(T, Vec<String>), GatewayError>,
)
    requires
        ran_by(a1, h0, candidates, checks, fails, outs, h_end, r),
        forall|n: String, x: Result<T, GatewayError>| #[trigger] a1(n, x) ==> a2(n, x),
    ensures
        ran_by(a2, h0, candidates, checks, fails, outs, h_end, r),
{
    let s = run_over(h0, candidates, checks, fails, outs);
    assert forall|k: int| 0 <= k < s.calls.len() implies a2(#[trigger] s.calls[k].0, s.calls[k].1) by {
        assert(a1(s.calls[k].0, s.calls[k].1));
    }
}

/// Tries `candidates` in order with `operation` until one succeeds, as the
/// module describes; the health store reads its clock for each availability
/// check and each failure, so that these times go forward from the store's
/// latest time. See [`ran_by`] for what the run does to the store and what
/// it returns.
pub fn with_provider_fallback<T, F: Fn(&String) -> Result<T, GatewayError>>(
    health: &mut HealthStore,
    candidates: Vec<String>,
    operation: F,
) -> (r: Result<(T, Vec<String>), GatewayError>)
    requires
        forall|s: &String| call_requires(operation, (s,)),
    ensures
        exists|checks: Seq<u128>, fails: Seq<u128>, outs: Seq<Result<T, GatewayError>>|
            #[trigger] ran_by(
                attempt_of(operation),
                old(health)@,
                candidates@,
                checks,
                fails,
                outs,
                final(health)@,
                r,
            ) && times_in_order(old(health).clock(), checks, fails, final(health).clock()),
{
    let ghost h0 = health@;
    let ghost clock0 = health.clock();
    let ghost cands = candidates@;
    let ghost mut checks: Seq<u128> = Seq::empty();
    let ghost mut fails: Seq<u128> = Seq::empty();
    let ghost mut outs: Seq<Result<T, GatewayError>> = Seq::empty();
    let ghost mut calls: Seq<(String, Result<T, GatewayError>)> = Seq::empty();
    let mut tried: Vec<String> = Vec::new();
    let mut failures: Vec<ProviderFailure> = Vec::new();
    let mut last_error: Option<GatewayError> = None;
    let mut stop = false;
    let mut i: usize = 0;
    while i < candidates.len() && !stop
        invariant
            i <= candidates.len(),
            cands == candidates@,
            h0 == old(health)@,
            clock0 == old(health).clock(),
            times_in_order(clock0, checks, fails, health.clock()),
            checks.len() == i,
            fails.len() == i,
            outs.len() == i,
            run_over(h0, cands, checks, fails, outs) == (RunState { health: health@, calls, done: stop }),
            forall|s: &String| call_requires(operation, (s,)),
            forall|k: int| 0 <= k < calls.len() ==> call_ensures(operation, (&(#[trigger] calls[k]).0,), calls[k].1),
            forall|k: int| 0 <= k < calls.len() ==> (#[trigger] calls[k]).1 is Err,
            tried@ == call_names(calls),
            failure_views(failures@) == failures_of(call_errors(calls)),
            last_error == (if calls.len() > 0 {
                Some(calls.last().1->Err_0)
            } else {
                None
            }),
        decreases candidates.len() - i,
    {
        let name = candidates[i].clone();
        let now = health.now_ns();
        let ghost before = run_over(h0, cands, checks, fails, outs);
        let ghost h_before = health@;
        let available = health.is_available_at(name.as_str(), now);
        if !available {
            proof {
                let out: Result<T, GatewayError> = vstd::pervasive::arbitrary();
                let c2 = checks.push(now);
                let f2 = fails.push(now);
                let o2 = outs.push(out);
                assert(c2.drop_last() =~= checks);
                assert(f2.drop_last() =~= fails);
                assert(o2.drop_last() =~= outs);
                checks = c2;
                fails = f2;
                outs = o2;
            }
        } else {
            let ghost old_calls = calls;
            tried.push(name.clone());
            match operation(&name) {
                Ok(v) => {
                    proof {
                        let out = Ok::<T, GatewayError>(v);
                        let c2 = checks.push(now);
                        let f2 = fails.push(now);
                        let o2 = outs.push(out);
                        assert(c2.drop_last() =~= checks);
                        assert(f2.drop_last() =~= fails);
                        assert(o2.drop_last() =~= outs);
                        checks = c2;
                        fails = f2;
                        outs = o2;
                        calls = calls.push((name, out));
                        assert(call_names(calls) =~= call_names(old_calls).push(name));
                    }
                    let res = Ok((v, tried));
                    proof {
                        let st = run_over(h0, cands, checks, fails, outs);
                        assert(st.calls == calls);
                        assert(st.calls.last().1 is Ok);
                        assert(run_answers(st, res));
                        assert(ran_by(attempt_of(operation), h0, cands, checks, fails, outs, health@, res));
                        assert(times_in_order(clock0, checks, fails, health.clock()));
                    }
                    return res;
                },
                Err(e) => {
                    let t = health.now_ns();
                    health.record_failure_at(name.as_str(), e.message.clone(), t);
                    let ghost old_failures = failures@;
                    failures.push(e.as_provider_failure());
                    stop = !e.retryable;
                    proof {
                        let out = Err::<T, GatewayError>(e);
                        let c2 = checks.push(now);
                        let f2 = fails.push(t);
                        let o2 = outs.push(out);
                        assert(c2.drop_last() =~= checks);
                        assert(f2.drop_last() =~= fails);
                        assert(o2.drop_last() =~= outs);
                        checks = c2;
                        fails = f2;
                        outs = o2;
                        calls = calls.push((name, out));
                        assert(call_names(calls) =~= call_names(old_calls).push(name));
                        assert(call_errors(calls) =~= call_errors(old_calls).push(e));
                        assert(failures_of(call_errors(calls)) =~= failures_of(call_errors(old_calls)).push(
                            e@.as_failure(),
                        ));
                        assert(failure_views(failures@) =~= failure_views(old_failures).push(e@.as_failure()));
                    }
                    last_error = Some(e);
                },
            }
        }
        i = i + 1;
    }
    let base = match last_error {
        Some(e) => e,
        None => GatewayError::gateway("no providers could satisfy the request"),
    };
    let e = base.with_fallback_context(tried, failures);
    proof {
        assert(ran_by(attempt_of(operation), h0, cands, checks, fails, outs, health@, Err(e)));
        assert(times_in_order(clock0, checks, fails, health.clock()));
    }
    Err(e)
}

/// Only a provider that may be tried is attempted, and candidates are
/// considered in order: a step that hands out an attempt does so for the
/// next candidate, and only when it is available at that time.
pub proof fn lemma_step_attempts_only_available(r: FallbackRunView, h: HealthStoreView, now: u128)
    ensures
        step_result(r, h, now).2 matches Some(Some(name)) ==> h.available(name@, now) && name
            == r.candidates[r.next],
        step_result(r, h, now).2 == Some(None::<String>) ==> !h.available(r.candidates[r.next]@, now),
        step_result(r, h, now).2 is None <==> !r.open(),
{
}

/// A failure that cannot be retried ends the run: after it is recorded, no
/// further step hands out an attempt or passes over a candidate.
pub proof fn lemma_final_failure_ends_run(r: FallbackRunView, error: GatewayError, h: HealthStoreView, now: u128)
    requires
        !error.retryable,
    ensures
        step_result(
            FallbackRunView { errors: r.errors.push(error), stopped: !error.retryable, ..r },
            h,
            now,
        ).2 is None,
{
}

/// The error of a failed run: the last failure, with the run's providers
/// in the order they were tried and every failure attached; it says that
/// fallback was attempted exactly when more than one provider was tried.
/// When nothing was tried, it is the error that no provider could satisfy
/// the request.
pub proof fn lemma_run_error_context(tried: Seq<String>, errors: Seq<GatewayError>)
    ensures
        run_error(tried, errors).fallback_attempted == (tried.len() > 1),
        tried.len() > 0 ==> run_error(tried, errors).attempted_providers == Some(views(tried)),
        errors.len() > 0 ==> run_error(tried, errors).fallback_failures == Some(failures_of(errors)),
        errors.len() > 0 ==> {
            &&& run_error(tried, errors).code == errors.last()@.code
            &&& run_error(tried, errors).message == errors.last()@.message
            &&& run_error(tried, errors).retryable == errors.last()@.retryable
            &&& run_error(tried, errors).provider == errors.last()@.provider
        },
        tried.len() == 0 && errors.len() == 0 ==> run_error(tried, errors) == nothing_tried_error(),
        failures_of(errors).len() == errors.len(),
{
}


/// Over a prefix of the candidates: the run has ended only after an
/// attempt, and it has tried nothing exactly when none of the candidates
/// considered could be tried at its check, the store then being as it was
/// for every provider.
proof fn lemma_nothing_tried_prefix<T>(
    h0: HealthStoreView,
    candidates: Seq<String>,
    checks: Seq<u128>,
    fails: Seq<u128>,
    outs: Seq<Result<T, GatewayError>>,
)
    requires
        checks.len() <= candidates.len(),
        fails.len() == checks.len(),
        outs.len() == checks.len(),
    ensures
        run_over(h0, candidates, checks, fails, outs).done ==> run_over(h0, candidates, checks, fails, outs).calls.len() > 0,
        run_over(h0, candidates, checks, fails, outs).calls.len() == 0 <==> forall|i: int|
            0 <= i < checks.len() ==> !h0.available(#[trigger] candidates[i]@, checks[i]),
        run_over(h0, candidates, checks, fails, outs).calls.len() == 0 ==> forall|q: Seq<char>|
            #[trigger] run_over(h0, candidates, checks, fails, outs).health.entry(q) == h0.entry(q),
    decreases checks.len(),
{
    let n = checks.len();
    if n > 0 {
        let (c, f, o) = (checks.drop_last(), fails.drop_last(), outs.drop_last());
        lemma_nothing_tried_prefix(h0, candidates, c, f, o);
        let prev = run_over(h0, candidates, c, f, o);
        let cur = run_over(h0, candidates, checks, fails, outs);
        let name = candidates[n - 1];
        if prev.calls.len() == 0 {
            assert(prev.health.entry(name@) == h0.entry(name@));
            assert(prev.health.available(name@, checks.last()) == h0.available(name@, checks.last()));
            if !h0.available(name@, checks.last()) {
                assert forall|q: Seq<char>| #[trigger] cur.health.entry(q) == h0.entry(q) by {
                    assert(prev.health.entry(q) == h0.entry(q));
                }
                assert forall|i: int| 0 <= i < checks.len() implies !h0.available(#[trigger] candidates[i]@, checks[i]) by {
                    if i < n - 1 {
                        assert(c[i] == checks[i]);
                    }
                }
            } else {
                assert(cur.calls.len() > 0);
                assert(!(forall|i: int| 0 <= i < checks.len() ==> !h0.available(#[trigger] candidates[i]@, checks[i])))
                    by {
                    assert(h0.available(candidates[n - 1]@, checks[n - 1]));
                }
            }
        } else {
            let j = choose|i: int| 0 <= i < c.len() && h0.available(#[trigger] candidates[i]@, c[i]);
            assert(c[j] == checks[j]);
            assert(cur.calls.len() >= prev.calls.len());
        }
    }
}

/// A run tries nothing, and fails with the error that no provider could
/// satisfy the request, exactly when none of the candidates may be tried at
/// its check in the store the run started from; the store then stands as it
/// was for every provider.
pub proof fn lemma_nothing_tried<T>(
    h0: HealthStoreView,
    candidates: Seq<String>,
    checks: Seq<u128>,
    fails: Seq<u128>,
    outs: Seq<Result<T, GatewayError>>,
)
    requires
        checks.len() == candidates.len(),
        fails.len() == checks.len(),
        outs.len() == checks.len(),
    ensures
        run_over(h0, candidates, checks, fails, outs).calls.len() == 0 <==> forall|i: int|
            0 <= i < candidates.len() ==> !h0.available(#[trigger] candidates[i]@, checks[i]),
        run_over(h0, candidates, checks, fails, outs).calls.len() == 0 ==> {
            &&& run_error(
                call_names(run_over(h0, candidates, checks, fails, outs).calls),
                call_errors(run_over(h0, candidates, checks, fails, outs).calls),
            ) == nothing_tried_error()
            &&& forall|q: Seq<char>| #[trigger] run_over(h0, candidates, checks, fails, outs).health.entry(q) == h0.entry(q)
        },
{
    lemma_nothing_tried_prefix(h0, candidates, checks, fails, outs);
    let s = run_over(h0, candidates, checks, fails, outs);
    if s.calls.len() == 0 {
        assert(call_names(s.calls) =~= Seq::<String>::empty());
        assert(call_errors(s.calls) =~= Seq::<GatewayError>::empty());
    }
}

} // verus!
