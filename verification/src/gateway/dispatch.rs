//! Trying providers until one answers: a race first, where one is in order, then
//! one provider after the other.
use vstd::prelude::*;

use super::response::{
    build_gateway_response, is_no_providers, no_providers, CallSuccess, DispatchError,
    GatewayResponse, HedgedOutcome, LostRace, ProviderFailure,
};
use super::validation::take_indexes;
use crate::settings::ReliabilityConfig;

verus! {

/// A request on its way from provider to provider.
pub struct ReliabilityDispatch {
    /// The providers that may be tried, the best first.
    pub candidates: Vec<usize>,
    /// How many of them have been tried or are being tried.
    pub tried: usize,
    /// What failed so far, in the order of arrival.
    pub failures: Vec<ProviderFailure>,
    /// Whether providers were raced.
    pub hedged: bool,
    /// How many providers were called at once.
    pub hedge_width: usize,
}

/// What is to be done next with a request.
pub enum DispatchStep {
    /// Call this provider.
    Call(ReliabilityDispatch, usize),
    /// Race these providers, all at once.
    RaceParallel(ReliabilityDispatch, Vec<usize>),
    /// Race these two providers, the first with a head start.
    RaceLegacy(ReliabilityDispatch, usize, usize),
    /// The request has its answer, or has none.
    Done(Result<GatewayResponse, DispatchError>),
}

/// The state of a dispatch: the candidates, how many were tried, what failed, and
/// whether and how widely providers were raced.
#[verifier::ext_equal]
pub struct DispatchView {
    pub candidates: Seq<usize>,
    pub tried: nat,
    pub failures: Seq<ProviderFailure>,
    pub hedged: bool,
    pub hedge_width: nat,
}

impl View for ReliabilityDispatch {
    type V = DispatchView;

    open spec fn view(&self) -> DispatchView {
        DispatchView {
            candidates: self.candidates@,
            tried: self.tried as nat,
            failures: self.failures@,
            hedged: self.hedged,
            hedge_width: self.hedge_width as nat,
        }
    }
}

/// The providers that may be tried: the first of the ranking, as many as a
/// request may be tried on.
pub open spec fn attempt_candidates(config: ReliabilityConfig, ranked: Seq<usize>) -> Seq<usize> {
    ranked.take(
        if config.attempts_limit() <= ranked.len() {
            config.attempts_limit() as int
        } else {
            ranked.len() as int
        },
    )
}

/// How a request is first tried.
pub enum FirstTry {
    /// One provider after the other.
    Sequential,
    /// A race of this many providers at once.
    Parallel(nat),
    /// A race of two, the first with a head start.
    Legacy,
}

/// How a request is first tried, given the width that was decided on for a race.
/// With adaptive hedging there is a race where the width exceeds one; without it
/// there is one of two where a head start is configured. A race takes two
/// candidates at least.
pub open spec fn first_try(config: ReliabilityConfig, candidates: nat, width: nat) -> FirstTry {
    if config.adaptive_hedging.enabled && candidates >= 2 {
        let clamped = if width < 1 {
            1
        } else if width > candidates {
            candidates
        } else {
            width
        };
        if clamped > 1 {
            FirstTry::Parallel(clamped)
        } else {
            FirstTry::Sequential
        }
    } else if config.hedge_delay_ms > 0 && candidates >= 2 {
        FirstTry::Legacy
    } else {
        FirstTry::Sequential
    }
}

impl DispatchView {
    /// The dispatch before anything was tried.
    pub open spec fn fresh(candidates: Seq<usize>) -> DispatchView {
        DispatchView { candidates, tried: 0, failures: Seq::empty(), hedged: false, hedge_width: 1 }
    }

    /// The dispatch with the next candidate being tried.
    pub open spec fn trying_next(self) -> DispatchView {
        DispatchView { tried: self.tried + 1, ..self }
    }

    /// Whether the step is to try the next candidate, or to give up where there
    /// is none.
    pub open spec fn goes_on(self, step: DispatchStep) -> bool {
        if self.tried < self.candidates.len() {
            &&& step is Call
            &&& step->Call_0.is_valid()
            &&& step->Call_0@ == self.trying_next()
            &&& step->Call_1 == self.candidates[self.tried as int]
        } else {
            &&& step is Done
            &&& step->Done_0 is Err
            &&& step->Done_0->Err_0.failures@ == self.failures
        }
    }

    /// The dispatch after the first candidates failed in a race. It counts as
    /// hedged where calls were under way at the same time.
    pub open spec fn after_lost_race(
        self,
        width: nat,
        raced: bool,
        failures: Seq<ProviderFailure>,
    ) -> DispatchView {
        DispatchView {
            tried: width,
            failures: self.failures + failures,
            hedged: raced,
            hedge_width: if raced {
                width
            } else {
                1
            },
            ..self
        }
    }

    /// The dispatch after a call failed.
    pub open spec fn after_failure(self, failure: ProviderFailure) -> DispatchView {
        DispatchView { failures: self.failures.push(failure), ..self }
    }

    /// Whether the step passes on a provider's answer.
    pub open spec fn answers(self, success: CallSuccess, step: DispatchStep) -> bool {
        &&& step is Done
        &&& step->Done_0 is Ok
        &&& step->Done_0->Ok_0.passes_on(
            success.body,
            success.provider,
            self.failures.len() + 1,
            self.hedged,
            self.hedge_width,
        )
        &&& step->Done_0->Ok_0.unvoted()
    }
}

/// Whether the step passes on the answer that won a race.
pub open spec fn passes_on_winner(outcome: HedgedOutcome, step: DispatchStep) -> bool {
    &&& step is Done
    &&& step->Done_0 is Ok
    &&& step->Done_0->Ok_0.passes_on(
        outcome.success.body,
        outcome.success.provider,
        outcome.attempts as nat,
        outcome.hedged,
        outcome.hedge_width as nat,
    )
    &&& step->Done_0->Ok_0.unvoted()
}

/// Whether a request starts out with this step.
pub open spec fn starts(
    config: ReliabilityConfig,
    candidates: Seq<usize>,
    adaptive_width: nat,
    step: DispatchStep,
) -> bool {
    let fresh = DispatchView::fresh(candidates);
    if candidates.len() == 0 {
        &&& step is Done
        &&& step->Done_0 is Err
        &&& is_no_providers(step->Done_0->Err_0)
    } else {
        match first_try(config, candidates.len(), adaptive_width) {
            FirstTry::Sequential => fresh.goes_on(step),
            FirstTry::Parallel(width) => {
                &&& step is RaceParallel
                &&& step->RaceParallel_0.is_valid()
                &&& step->RaceParallel_0@ == fresh
                &&& step->RaceParallel_1@ == candidates.take(width as int)
            },
            FirstTry::Legacy => {
                &&& step is RaceLegacy
                &&& step->RaceLegacy_0.is_valid()
                &&& step->RaceLegacy_0@ == fresh
                &&& step->RaceLegacy_1 == candidates[0]
                &&& step->RaceLegacy_2 == candidates[1]
            },
        }
    }
}

/// Chooses the providers that a request may be tried on.
pub fn choose_candidates(config: &ReliabilityConfig, ranked: &Vec<usize>) -> (candidates: Vec<usize>)
    ensures
        candidates@ == attempt_candidates(*config, ranked@),
{
    let count: usize = config.normalized_max_failover_attempts().min(ranked.len());
    take_indexes(ranked, count)
}

impl ReliabilityDispatch {
    /// Whether the dispatch is at a point that it can reach.
    pub open spec fn is_valid(&self) -> bool {
        self.tried <= self.candidates@.len() && self.failures@.len() <= self.tried
    }

    /// Begins to try the candidates, given the width that was decided on for a
    /// race. Without candidates the request fails.
    pub fn start(config: &ReliabilityConfig, candidates: Vec<usize>, adaptive_width: usize) -> (step:
        DispatchStep)
        ensures
            starts(*config, candidates@, adaptive_width as nat, step),
    {
        let count: usize = candidates.len();
        if count == 0 {
            return DispatchStep::Done(Err(no_providers()));
        }
        let dispatch = ReliabilityDispatch {
            candidates,
            tried: 0,
            failures: Vec::new(),
            hedged: false,
            hedge_width: 1,
        };
        assert(dispatch@ =~= DispatchView::fresh(candidates@));
        if config.adaptive_hedging.enabled && count >= 2 {
            let width: usize = adaptive_width.max(1).min(count);
            if width > 1 {
                let racers: Vec<usize> = take_indexes(&dispatch.candidates, width);
                return DispatchStep::RaceParallel(dispatch, racers);
            }
        } else if config.hedge_delay_ms > 0 && count >= 2 {
            let primary: usize = dispatch.candidates[0];
            let secondary: usize = dispatch.candidates[1];
            return DispatchStep::RaceLegacy(dispatch, primary, secondary);
        }
        dispatch.go_on()
    }

    /// Tries the next candidate, or gives up where there is none.
    fn go_on(self) -> (step: DispatchStep)
        requires
            self.is_valid(),
        ensures
            self@.goes_on(step),
    {
        let mut dispatch = self;
        if dispatch.tried < dispatch.candidates.len() {
            let next: usize = dispatch.candidates[dispatch.tried];
            dispatch.tried = dispatch.tried + 1;
            assert(dispatch@ =~= self@.trying_next());
            DispatchStep::Call(dispatch, next)
        } else {
            DispatchStep::Done(Err(DispatchError { failures: dispatch.failures }))
        }
    }

    /// Takes in how a race of the first `width` candidates ended: passes on the
    /// answer that won it, or goes on with the other candidates.
    pub fn after_race(
        self,
        width: usize,
        outcome: Result<HedgedOutcome, LostRace>,
    ) -> (step: DispatchStep)
        requires
            self.tried == 0,
            self.failures@.len() == 0,
            width <= self.candidates@.len(),
            outcome matches Err(lost) ==> lost.failures@.len() <= width,
        ensures
            (match outcome {
                Ok(won) => passes_on_winner(won, step),
                Err(lost) => self@.after_lost_race(
                    width as nat,
                    lost.raced,
                    lost.failures@,
                ).goes_on(step),
            }),
    {
        match outcome {
            Ok(won) => DispatchStep::Done(
                Ok(
                    build_gateway_response(
                        won.success,
                        won.attempts,
                        won.hedged,
                        won.hedge_width,
                    ),
                ),
            ),
            Err(lost) => {
                let LostRace { raced, failures } = lost;
                let mut failures = failures;
                let mut dispatch = self;
                dispatch.failures.append(&mut failures);
                dispatch.tried = width;
                dispatch.hedged = raced;
                dispatch.hedge_width = if raced {
                    width
                } else {
                    1
                };
                assert(dispatch@ =~= self@.after_lost_race(
                    width as nat,
                    raced,
                    outcome->Err_0.failures@,
                ));
                dispatch.go_on()
            },
        }
    }

    /// Takes in how the call of a candidate ended: passes on the answer, or goes
    /// on with the next candidate.
    pub fn after_call(self, outcome: Result<CallSuccess, ProviderFailure>) -> (step: DispatchStep)
        requires
            self.is_valid(),
            self.failures@.len() < self.tried,
        ensures
            (match outcome {
                Ok(success) => self@.answers(success, step),
                Err(failure) => self@.after_failure(failure).goes_on(step),
            }),
    {
        match outcome {
            Ok(success) => DispatchStep::Done(
                Ok(
                    build_gateway_response(
                        success,
                        self.failures.len() + 1,
                        self.hedged,
                        self.hedge_width,
                    ),
                ),
            ),
            Err(failure) => {
                let mut dispatch = self;
                dispatch.failures.push(failure);
                assert(dispatch@ =~= self@.after_failure(failure));
                dispatch.go_on()
            },
        }
    }
}

/// The dispatch with a candidate being tried after those before it failed, in
/// this order.
pub open spec fn after_failures(start: DispatchView, failures: Seq<ProviderFailure>) -> DispatchView
    decreases failures.len(),
{
    if failures.len() == 0 {
        start
    } else {
        after_failures(start, failures.drop_last()).after_failure(failures.last()).trying_next()
    }
}

proof fn lemma_after_failures(start: DispatchView, failures: Seq<ProviderFailure>)
    ensures
        after_failures(start, failures).candidates == start.candidates,
        after_failures(start, failures).tried == start.tried + failures.len(),
        after_failures(start, failures).failures == start.failures + failures,
        after_failures(start, failures).hedged == start.hedged,
        after_failures(start, failures).hedge_width == start.hedge_width,
    decreases failures.len(),
{
    if failures.len() == 0 {
        assert(start.failures + failures =~= start.failures);
    } else {
        lemma_after_failures(start, failures.drop_last());
        assert(start.failures + failures =~= (start.failures + failures.drop_last()).push(
            failures.last(),
        ));
    }
}

/// Failover follows the ranking. Where the first candidates failed one after the
/// other and the next one fails too, the candidate after it is called; where
/// there is none, the request fails with all failures in order.
pub proof fn failover_follows_ranking(
    candidates: Seq<usize>,
    failed: Seq<ProviderFailure>,
    failure: ProviderFailure,
    step: DispatchStep,
)
    requires
        failed.len() < candidates.len(),
        after_failures(DispatchView::fresh(candidates).trying_next(), failed).after_failure(
            failure,
        ).goes_on(step),
    ensures
        failed.len() + 1 < candidates.len() ==> step is Call && step->Call_1
            == candidates[failed.len() as int + 1],
        failed.len() + 1 == candidates.len() ==> step is Done && step->Done_0 is Err
            && step->Done_0->Err_0.failures@ == failed.push(failure),
{
    let start = DispatchView::fresh(candidates).trying_next();
    lemma_after_failures(start, failed);
    assert(start.failures + failed =~= failed);
}

/// The attempts that a response reports are the candidates called for it, one
/// after the other: those that failed and the one that answered.
pub proof fn attempts_count_calls(
    candidates: Seq<usize>,
    failed: Seq<ProviderFailure>,
    success: CallSuccess,
    step: DispatchStep,
)
    requires
        after_failures(DispatchView::fresh(candidates).trying_next(), failed).answers(
            success,
            step,
        ),
    ensures
        step->Done_0->Ok_0.attempts == failed.len() + 1,
        step->Done_0->Ok_0.attempts == after_failures(
            DispatchView::fresh(candidates).trying_next(),
            failed,
        ).tried,
        !step->Done_0->Ok_0.hedged,
        step->Done_0->Ok_0.hedge_width == 1,
{
    let start = DispatchView::fresh(candidates).trying_next();
    lemma_after_failures(start, failed);
    assert(start.failures + failed =~= failed);
}

/// No provider is called twice for one request: the one that is called next is
/// none of those that were tried, in a race or one after the other.
pub proof fn no_provider_is_called_twice(state: DispatchView, step: DispatchStep)
    requires
        state.candidates.no_duplicates(),
        state.tried <= state.candidates.len(),
        state.goes_on(step),
        step is Call,
    ensures
        state.candidates.contains(step->Call_1),
        !state.candidates.take(state.tried as int).contains(step->Call_1),
{
    let tried = state.candidates.take(state.tried as int);
    if tried.contains(step->Call_1) {
        let k = choose|k: int| 0 <= k < tried.len() && tried[k] == step->Call_1;
        assert(state.candidates[k] == state.candidates[state.tried as int]);
    }
}

/// A request is tried on no more providers than is configured, and on the best of
/// the ranking.
pub proof fn attempts_are_bounded(config: ReliabilityConfig, ranked: Seq<usize>)
    ensures
        attempt_candidates(config, ranked).len() <= config.attempts_limit(),
        attempt_candidates(config, ranked).len() <= ranked.len(),
        attempt_candidates(config, ranked).is_prefix_of(ranked),
{
}

/// After a lost race an answer of a later candidate reports the race, if calls were
/// under way at the same time, and else reports none; either way it counts the
/// failures among the attempts.
pub proof fn lost_races_are_reported(
    candidates: Seq<usize>,
    width: nat,
    raced: bool,
    lost: Seq<ProviderFailure>,
    failed: Seq<ProviderFailure>,
    success: CallSuccess,
    step: DispatchStep,
)
    requires
        after_failures(
            DispatchView::fresh(candidates).after_lost_race(width, raced, lost).trying_next(),
            failed,
        ).answers(success, step),
    ensures
        step->Done_0->Ok_0.hedged == raced,
        raced ==> step->Done_0->Ok_0.hedge_width == width,
        !raced ==> step->Done_0->Ok_0.hedge_width == 1,
        step->Done_0->Ok_0.attempts == lost.len() + failed.len() + 1,
{
    let start = DispatchView::fresh(candidates).after_lost_race(width, raced, lost).trying_next();
    lemma_after_failures(start, failed);
}

/// A request is tried on as many providers as is configured, on one at least and on
/// no more than are ranked, and on these in the order of the ranking.
pub proof fn candidates_are_the_first_of_the_ranking(
    config: ReliabilityConfig,
    ranked: Seq<usize>,
    index: int,
)
    requires
        0 <= index < ranked.len(),
    ensures
        index < attempt_candidates(config, ranked).len() <==> index == 0 || index
            < config.max_failover_attempts,
        index < attempt_candidates(config, ranked).len() ==> attempt_candidates(
            config,
            ranked,
        )[index] == ranked[index],
{
}

/// How a request starts out. Without candidates it fails; one candidate is called.
/// With more of them and adaptive hedging, as many of the first are raced as was
/// decided on, and the first is called where that is one; without adaptive hedging
/// the first two are raced where a delay is configured, and else the first is
/// called.
pub proof fn requests_start_with_the_best(
    config: ReliabilityConfig,
    candidates: Seq<usize>,
    width: nat,
    step: DispatchStep,
)
    requires
        starts(config, candidates, width, step),
    ensures
        candidates.len() == 0 ==> step is Done && step->Done_0 is Err
            && step->Done_0->Err_0.failures@.len() == 1 && step->Done_0->Err_0.failures@[0].says(
            "gateway"@,
            "no providers configured"@,
        ),
        candidates.len() == 1 ==> step is Call,
        step is Call ==> step->Call_1 == candidates[0] && step->Call_0.tried == 1
            && step->Call_0.failures@.len() == 0 && !step->Call_0.hedged
            && step->Call_0.hedge_width == 1 && step->Call_0.candidates@ == candidates,
        candidates.len() >= 2 && config.adaptive_hedging.enabled && width <= 1 ==> step is Call,
        candidates.len() >= 2 && config.adaptive_hedging.enabled && 2 <= width
            <= candidates.len() ==> step is RaceParallel && step->RaceParallel_1@
            == candidates.take(width as int),
        candidates.len() >= 2 && config.adaptive_hedging.enabled && width > candidates.len()
            ==> step is RaceParallel && step->RaceParallel_1@ == candidates,
        candidates.len() >= 2 && !config.adaptive_hedging.enabled && config.hedge_delay_ms == 0
            ==> step is Call,
        candidates.len() >= 2 && !config.adaptive_hedging.enabled && config.hedge_delay_ms > 0
            ==> step is RaceLegacy && step->RaceLegacy_1 == candidates[0] && step->RaceLegacy_2
            == candidates[1],
        step is RaceParallel ==> step->RaceParallel_0.candidates@ == candidates
            && step->RaceParallel_0.tried == 0 && step->RaceParallel_0.failures@.len() == 0,
        step is RaceLegacy ==> step->RaceLegacy_0.candidates@ == candidates
            && step->RaceLegacy_0.tried == 0 && step->RaceLegacy_0.failures@.len() == 0,
{
    assert(candidates.take(candidates.len() as int) =~= candidates);
    if step is Call {
        assert(step->Call_0@.failures == Seq::<ProviderFailure>::empty());
    }
}

/// After a lost race the first candidate that took no part in it is called; where
/// there is none, the request fails with the failures of the race, in order.
pub proof fn failover_goes_on_behind_a_race(
    candidates: Seq<usize>,
    width: nat,
    raced: bool,
    lost: Seq<ProviderFailure>,
    step: DispatchStep,
)
    requires
        width <= candidates.len(),
        DispatchView::fresh(candidates).after_lost_race(width, raced, lost).goes_on(step),
    ensures
        width < candidates.len() ==> step is Call && step->Call_1 == candidates[width as int]
            && step->Call_0.failures@ == lost && step->Call_0.tried == width + 1,
        width == candidates.len() ==> step is Done && step->Done_0 is Err
            && step->Done_0->Err_0.failures@ == lost,
{
    assert(Seq::<ProviderFailure>::empty() + lost =~= lost);
    if width < candidates.len() {
        assert(step->Call_0@.failures == lost);
        assert(step->Call_0@.tried == width + 1);
    }
}

/// An answer that won a race, or that a single call brought, is passed on as it is:
/// its body and its provider, and no vote was held on it.
pub proof fn answers_are_passed_on_unchanged(
    state: DispatchView,
    success: CallSuccess,
    won: HedgedOutcome,
    step: DispatchStep,
)
    ensures
        state.answers(success, step) ==> {
            &&& step is Done && step->Done_0 is Ok
            &&& step->Done_0->Ok_0.body == success.body
            &&& step->Done_0->Ok_0.provider == success.provider
            &&& step->Done_0->Ok_0.attempts == state.failures.len() + 1
            &&& step->Done_0->Ok_0.hedged == state.hedged
            &&& step->Done_0->Ok_0.hedge_width == state.hedge_width
            &&& !step->Done_0->Ok_0.consensus_checked && !step->Done_0->Ok_0.consensus_validated
        },
        passes_on_winner(won, step) ==> {
            &&& step is Done && step->Done_0 is Ok
            &&& step->Done_0->Ok_0.body == won.success.body
            &&& step->Done_0->Ok_0.provider == won.success.provider
            &&& step->Done_0->Ok_0.attempts == won.attempts
            &&& step->Done_0->Ok_0.hedged == won.hedged
            &&& step->Done_0->Ok_0.hedge_width == won.hedge_width
            &&& !step->Done_0->Ok_0.consensus_checked && !step->Done_0->Ok_0.consensus_validated
        },
{
}

} // verus!
