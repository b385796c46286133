//! Races between providers: two with a head start, or several at once.
use vstd::prelude::*;

use super::response::{CallArrival, CallSuccess, HedgedOutcome, LostRace, ProviderFailure};

verus! {

/// A race of two providers in which the first has a head start. Unless the first
/// answers in time, the second is called too; it is called at once where the
/// first fails.
pub struct LegacyHedge {
    /// Whether the head start ran out with the first call still under way.
    pub raced: bool,
    /// Whether the second provider was called.
    pub secondary_started: bool,
    /// What failed so far, in the order of arrival.
    pub failures: Vec<ProviderFailure>,
}

/// What happens during a race of two.
pub enum LegacyEvent {
    /// The head start ran out.
    DelayElapsed,
    /// A call came to its end.
    Finished(Result<CallSuccess, ProviderFailure>),
}

/// What is to be done next in a race of two.
pub enum LegacyStep {
    /// Call the second provider, and await what is under way.
    StartSecondary(LegacyHedge),
    /// Await what is under way.
    Wait(LegacyHedge),
    /// The race is over.
    Done(Result<HedgedOutcome, LostRace>),
}

impl LegacyHedge {
    /// Whether the race has come as far as it can without having ended.
    pub open spec fn is_running(&self) -> bool {
        &&& self.failures@.len() <= 1
        &&& !self.secondary_started ==> !self.raced && self.failures@.len() == 0
        &&& self.secondary_started ==> self.raced || self.failures@.len() == 1
    }

    /// Whether the race goes on so when this happened. The first answer ends it, and
    /// so does the second failure; the second provider is brought in when the head
    /// start runs out, or when the first fails before that.
    pub open spec fn steps(self, event: LegacyEvent, step: LegacyStep) -> bool {
        match (event, step) {
            (LegacyEvent::DelayElapsed, LegacyStep::StartSecondary(next)) => {
                &&& !self.secondary_started
                &&& next.raced
                &&& next.secondary_started
                &&& next.failures@ == self.failures@
                &&& next.is_running()
            },
            (LegacyEvent::DelayElapsed, LegacyStep::Wait(next)) => {
                self.secondary_started && next == self
            },
            (LegacyEvent::DelayElapsed, LegacyStep::Done(_)) => false,
            (LegacyEvent::Finished(Ok(success)), LegacyStep::Done(Ok(outcome))) => {
                &&& outcome.success == success
                &&& outcome.attempts == if self.secondary_started {
                    2int
                } else {
                    1
                }
                &&& outcome.hedged == self.raced
                &&& outcome.hedge_width == if self.raced {
                    2int
                } else {
                    1
                }
            },
            (LegacyEvent::Finished(Ok(_)), _) => false,
            (LegacyEvent::Finished(Err(failure)), LegacyStep::StartSecondary(next)) => {
                &&& !self.secondary_started
                &&& !next.raced
                &&& next.secondary_started
                &&& next.failures@ == seq![failure]
                &&& next.is_running()
            },
            (LegacyEvent::Finished(Err(failure)), LegacyStep::Wait(next)) => {
                &&& self.secondary_started
                &&& self.failures@.len() == 0
                &&& next.raced
                &&& next.secondary_started
                &&& next.failures@ == seq![failure]
                &&& next.is_running()
            },
            (LegacyEvent::Finished(Err(failure)), LegacyStep::Done(Err(lost))) => {
                &&& self.failures@.len() == 1
                &&& lost.raced == self.raced
                &&& lost.failures@ == seq![self.failures@[0], failure]
            },
            (LegacyEvent::Finished(Err(_)), LegacyStep::Done(Ok(_))) => false,
        }
    }

    /// Starts with the call of the first provider under way.
    pub fn new() -> (hedge: LegacyHedge)
        ensures
            !hedge.raced,
            !hedge.secondary_started,
            hedge.failures@.len() == 0,
            hedge.is_running(),
    {
        LegacyHedge { raced: false, secondary_started: false, failures: Vec::new() }
    }

    /// Takes in what happened. The first answer ends the race, the second
    /// failure too; the first failure of a provider that ran alone brings in the
    /// second provider.
    pub fn step(self, event: LegacyEvent) -> (step: LegacyStep)
        requires
            self.is_running(),
        ensures
            self.steps(event, step),
    {
        let LegacyHedge { raced, secondary_started, failures } = self;
        let mut failures = failures;
        match event {
            LegacyEvent::DelayElapsed => {
                if secondary_started {
                    LegacyStep::Wait(LegacyHedge { raced, secondary_started, failures })
                } else {
                    LegacyStep::StartSecondary(
                        LegacyHedge { raced: true, secondary_started: true, failures },
                    )
                }
            },
            LegacyEvent::Finished(Ok(success)) => LegacyStep::Done(
                Ok(
                    HedgedOutcome {
                        success,
                        attempts: if secondary_started {
                            2
                        } else {
                            1
                        },
                        hedged: raced,
                        hedge_width: if raced {
                            2
                        } else {
                            1
                        },
                    },
                ),
            ),
            LegacyEvent::Finished(Err(failure)) => {
                failures.push(failure);
                if !secondary_started {
                    assert(failures@ =~= seq![failure]);
                    LegacyStep::StartSecondary(
                        LegacyHedge { raced, secondary_started: true, failures },
                    )
                } else if failures.len() < 2 {
                    assert(failures@ =~= seq![failure]);
                    LegacyStep::Wait(LegacyHedge { raced, secondary_started, failures })
                } else {
                    assert(failures@ =~= seq![self.failures@[0], failure]);
                    LegacyStep::Done(Err(LostRace { raced, failures }))
                }
            },
        }
    }
}

/// A race of several providers called at once.
pub struct ParallelHedge {
    /// How many providers were called.
    pub width: usize,
    /// How many calls are under way.
    pub pending: usize,
    /// What failed so far, in the order of arrival.
    pub failures: Vec<ProviderFailure>,
}

/// What is to be done next in a race of several.
pub enum ParallelStep {
    /// Await the calls that are under way.
    Wait(ParallelHedge),
    /// Give up the calls that are under way: this answer won.
    Won(HedgedOutcome),
    /// All calls failed.
    Lost(LostRace),
}

impl ParallelHedge {
    /// Whether some call is under way and the others have failed.
    pub open spec fn is_running(&self) -> bool {
        &&& 0 < self.pending <= self.width
        &&& self.failures@.len() == self.width - self.pending
    }

    /// Whether the race goes on so when one of the calls came to this. The first
    /// answer wins; the race is lost where the last call fails.
    pub open spec fn steps(self, arrival: CallArrival, step: ParallelStep) -> bool {
        match (arrival, step) {
            (CallArrival::Answered(success), ParallelStep::Won(outcome)) => {
                &&& outcome.success == success
                &&& outcome.attempts == self.width
                &&& outcome.hedged
                &&& outcome.hedge_width == self.width
            },
            (CallArrival::Answered(_), _) => false,
            (_, ParallelStep::Won(_)) => false,
            (_, ParallelStep::Wait(next)) => {
                &&& self.pending > 1
                &&& next.width == self.width
                &&& next.pending == self.pending - 1
                &&& next.is_running()
                &&& adds_failure(self.failures@, arrival, next.failures@)
            },
            (_, ParallelStep::Lost(lost)) => {
                &&& self.pending == 1
                &&& lost.raced
                &&& adds_failure(self.failures@, arrival, lost.failures@)
            },
        }
    }

    /// Starts with calls of the given providers under way, if there are any.
    pub fn new(provider_indexes: &Vec<usize>) -> (hedge: Result<ParallelHedge, LostRace>)
        ensures
            (match hedge {
                Ok(h) => {
                    &&& provider_indexes@.len() > 0
                    &&& h.width == provider_indexes@.len()
                    &&& h.pending == h.width
                    &&& h.failures@.len() == 0
                    &&& h.is_running()
                },
                Err(lost) => {
                    &&& provider_indexes@.len() == 0
                    &&& !lost.raced
                    &&& lost.failures@.len() == 1
                    &&& lost.failures@[0].says(
                        "gateway"@,
                        "adaptive hedge received no providers"@,
                    )
                },
            }),
    {
        if provider_indexes.len() == 0 {
            let mut failures: Vec<ProviderFailure> = Vec::new();
            failures.push(ProviderFailure::new("gateway", "adaptive hedge received no providers"));
            return Err(LostRace { raced: false, failures });
        }
        let width: usize = provider_indexes.len();
        Ok(ParallelHedge { width, pending: width, failures: Vec::new() })
    }

    /// Takes in what one of the calls came to.
    pub fn step(self, arrival: CallArrival) -> (step: ParallelStep)
        requires
            self.is_running(),
        ensures
            self.steps(arrival, step),
    {
        let ParallelHedge { width, pending, failures } = self;
        let mut failures = failures;
        match arrival {
            CallArrival::Answered(success) => {
                return ParallelStep::Won(
                    HedgedOutcome { success, attempts: width, hedged: true, hedge_width: width },
                );
            },
            CallArrival::Failed(failure) => {
                failures.push(failure);
            },
            CallArrival::Lost(reason) => {
                failures.push(
                    ProviderFailure::with_detail(
                        "gateway",
                        "hedged task join error: ",
                        reason.as_str(),
                    ),
                );
            },
        }
        assert(failures@.drop_last() =~= self.failures@);
        if pending > 1 {
            ParallelStep::Wait(ParallelHedge { width, pending: pending - 1, failures })
        } else {
            ParallelStep::Lost(LostRace { raced: true, failures })
        }
    }
}

/// Whether the failures after an arrival are those before it and the one that it
/// brought.
pub open spec fn adds_failure(
    before: Seq<ProviderFailure>,
    arrival: CallArrival,
    after: Seq<ProviderFailure>,
) -> bool {
    &&& after.len() == before.len() + 1
    &&& after.drop_last() == before
    &&& match arrival {
        CallArrival::Answered(_) => false,
        CallArrival::Failed(failure) => after.last() == failure,
        CallArrival::Lost(reason) => after.last().says(
            "gateway"@,
            "hedged task join error: "@ + reason@,
        ),
    }
}

/// The first answer wins a race of several, whatever failed before it.
pub proof fn first_answer_wins(hedge: ParallelHedge, success: CallSuccess, step: ParallelStep)
    requires
        hedge.is_running(),
        hedge.steps(CallArrival::Answered(success), step),
    ensures
        step is Won,
        step->Won_0.success == success,
        step->Won_0.hedge_width == hedge.width,
{
}

/// A race of several is lost only where each of the calls failed: there are as
/// many failures as there were calls.
pub proof fn lost_only_by_all(hedge: ParallelHedge, arrival: CallArrival, step: ParallelStep)
    requires
        hedge.is_running(),
        hedge.steps(arrival, step),
        step is Lost,
    ensures
        step->Lost_0.raced,
        step->Lost_0.failures@.len() == hedge.width,
        !(arrival is Answered),
{
}

/// The answer that wins a race of several reports the race: as many attempts as
/// there were calls, and the width of the race.
pub proof fn won_races_are_reported(hedge: ParallelHedge, arrival: CallArrival, step: ParallelStep)
    requires
        hedge.is_running(),
        hedge.steps(arrival, step),
        step is Won,
    ensures
        arrival is Answered,
        step->Won_0.success == arrival->Answered_0,
        step->Won_0.hedged,
        step->Won_0.attempts == hedge.width,
        step->Won_0.hedge_width == hedge.width,
{
}

/// A failure ends a race of several only if no other call is under way; it is kept
/// behind those that came before it.
pub proof fn failures_do_not_end_a_race(
    hedge: ParallelHedge,
    arrival: CallArrival,
    step: ParallelStep,
)
    requires
        hedge.is_running(),
        hedge.steps(arrival, step),
        arrival !is Answered,
    ensures
        hedge.pending > 1 <==> step is Wait,
        hedge.pending == 1 <==> step is Lost,
        step matches ParallelStep::Wait(next) ==> next.width == hedge.width && next.pending + 1
            == hedge.pending && next.failures@.drop_last() == hedge.failures@,
        step matches ParallelStep::Lost(lost) ==> lost.raced && lost.failures@.drop_last()
            == hedge.failures@,
        arrival matches CallArrival::Failed(failure) ==> (match step {
            ParallelStep::Wait(next) => next.failures@.last() == failure,
            ParallelStep::Lost(lost) => lost.failures@.last() == failure,
            ParallelStep::Won(_) => false,
        }),
        arrival matches CallArrival::Lost(reason) ==> (match step {
            ParallelStep::Wait(next) => next.failures@.last().says(
                "gateway"@,
                "hedged task join error: "@ + reason@,
            ),
            ParallelStep::Lost(lost) => lost.failures@.last().says(
                "gateway"@,
                "hedged task join error: "@ + reason@,
            ),
            ParallelStep::Won(_) => false,
        }),
{
}

/// The first answer ends a race of two, whatever came before it. It counts as hedged,
/// with a width of two, exactly where both calls were under way at the same time; and
/// as two attempts where the second provider was called at all.
pub proof fn first_answer_wins_a_race_of_two(
    hedge: LegacyHedge,
    success: CallSuccess,
    step: LegacyStep,
)
    requires
        hedge.is_running(),
        hedge.steps(LegacyEvent::Finished(Ok(success)), step),
    ensures
        step is Done && step->Done_0 is Ok,
        step->Done_0->Ok_0.success == success,
        step->Done_0->Ok_0.hedged == hedge.raced,
        hedge.raced ==> step->Done_0->Ok_0.hedge_width == 2,
        !hedge.raced ==> step->Done_0->Ok_0.hedge_width == 1,
        hedge.secondary_started ==> step->Done_0->Ok_0.attempts == 2,
        !hedge.secondary_started ==> step->Done_0->Ok_0.attempts == 1,
{
}

/// The second provider is called once: when the head start runs out, and then the
/// two race, or when the first fails before that, and then they do not. Later the end
/// of the head start changes nothing.
pub proof fn the_second_is_brought_in_once(
    hedge: LegacyHedge,
    failure: ProviderFailure,
    elapsed: LegacyStep,
    failed: LegacyStep,
)
    requires
        hedge.is_running(),
        hedge.steps(LegacyEvent::DelayElapsed, elapsed),
        hedge.steps(LegacyEvent::Finished(Err(failure)), failed),
    ensures
        !hedge.secondary_started ==> {
            &&& elapsed is StartSecondary && failed is StartSecondary
            &&& elapsed->StartSecondary_0.raced && elapsed->StartSecondary_0.secondary_started
            &&& elapsed->StartSecondary_0.failures@.len() == 0
            &&& !failed->StartSecondary_0.raced && failed->StartSecondary_0.secondary_started
            &&& failed->StartSecondary_0.failures@ == seq![failure]
        },
        hedge.secondary_started ==> elapsed == LegacyStep::Wait(hedge) && !(failed
            is StartSecondary),
{
}

/// A race of two is lost with the second failure, and not before: both failures are
/// told in the order in which they came, and whether the two raced.
pub proof fn two_failures_lose_a_race_of_two(
    hedge: LegacyHedge,
    failure: ProviderFailure,
    step: LegacyStep,
)
    requires
        hedge.is_running(),
        hedge.steps(LegacyEvent::Finished(Err(failure)), step),
        hedge.secondary_started,
    ensures
        hedge.failures@.len() == 0 ==> step is Wait && step->Wait_0.failures@ == seq![failure]
            && step->Wait_0.raced && step->Wait_0.secondary_started,
        hedge.failures@.len() == 1 ==> step is Done && step->Done_0 is Err
            && step->Done_0->Err_0.failures@ == seq![hedge.failures@[0], failure]
            && step->Done_0->Err_0.raced == hedge.raced,
{
}

} // verus!
