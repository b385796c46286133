//! Asking several providers at once and holding a vote on what they answer.
use vstd::prelude::*;
use vstd::string::*;

use super::consensus::{
    all_comparable, are_comparable, decide_by_fingerprints, fastest_of_the_most_agreed_wins,
    fingerprints, fingerprints_of, latencies, majority_decides, method_view, print_views, votes,
    wins, ConsensusCandidate, ConsensusDecision,
};
use super::response::{
    build_gateway_response, is_no_providers, no_providers, CallArrival, CallSuccess, DispatchError,
    GatewayResponse, ProviderFailure,
};
use crate::settings::ConsensusValidationConfig;
use crate::text::{decimal, decimal_text, ratio, ratio_is_two_numbers, ratio_text};
use crate::time::duration_nanos;

verus! {

/// How a request to be validated starts out.
pub enum ValidationPlan {
    /// There is no provider to ask.
    Unserved(DispatchError),
    /// There is one provider only: the request is dispatched as any other.
    Unvalidated,
    /// These providers are asked, all at once.
    Ask(Vec<usize>),
}

/// Whether a request to be validated starts out so.
pub open spec fn is_validation_plan(
    config: ConsensusValidationConfig,
    ranked: Seq<usize>,
    plan: ValidationPlan,
) -> bool {
    match plan {
        ValidationPlan::Unserved(error) => ranked.len() == 0 && is_no_providers(error),
        ValidationPlan::Unvalidated => ranked.len() == 1,
        ValidationPlan::Ask(sample) => {
            &&& ranked.len() >= 2
            &&& sample@ == ranked.take(
                if config.sample_limit() <= ranked.len() {
                    config.sample_limit() as int
                } else {
                    ranked.len() as int
                },
            )
        },
    }
}

/// Chooses the providers to ask: the first few of the ranking.
pub fn plan_validation(config: &ConsensusValidationConfig, ranked: &Vec<usize>) -> (plan:
    ValidationPlan)
    ensures
        is_validation_plan(*config, ranked@, plan),
{
    if ranked.len() == 0 {
        return ValidationPlan::Unserved(no_providers());
    }
    if ranked.len() < 2 {
        return ValidationPlan::Unvalidated;
    }
    let size: usize = config.normalized_sample_size().min(ranked.len());
    ValidationPlan::Ask(take_indexes(ranked, size))
}

/// The first few of a list of provider indexes.
pub fn take_indexes(indexes: &Vec<usize>, count: usize) -> (first: Vec<usize>)
    requires
        count <= indexes@.len(),
    ensures
        first@ == indexes@.take(count as int),
{
    let mut first: Vec<usize> = Vec::new();
    let mut i: usize = 0;
    while i < count
        invariant
            i <= count <= indexes@.len(),
            first@ == indexes@.take(i as int),
        decreases count - i,
    {
        first.push(indexes[i]);
        i = i + 1;
        assert(first@ =~= indexes@.take(i as int));
    }
    first
}

/// An answer as it stands for election.
pub open spec fn candidate_of(success: CallSuccess) -> ConsensusCandidate {
    ConsensusCandidate {
        provider: success.provider,
        body: success.body,
        provider_index: success.provider_index,
        latency: success.latency,
    }
}

/// A vote under way: what came in so far, in the order of arrival.
pub struct ValidationRound {
    pub asked: usize,
    pub successes: Vec<ConsensusCandidate>,
    pub failures: Vec<ProviderFailure>,
}

/// Whether a vote under way stands so when it has taken in an arrival.
pub open spec fn records_arrival(
    before: ValidationRound,
    arrival: CallArrival,
    after: ValidationRound,
) -> bool {
    &&& after.asked == before.asked
    &&& match arrival {
        CallArrival::Answered(success) => {
            &&& after.successes@ == before.successes@.push(candidate_of(success))
            &&& after.failures@ == before.failures@
        },
        CallArrival::Failed(failure) => {
            &&& after.successes@ == before.successes@
            &&& after.failures@ == before.failures@.push(failure)
        },
        CallArrival::Lost(reason) => {
            &&& after.successes@ == before.successes@
            &&& after.failures@.len() == before.failures@.len() + 1
            &&& after.failures@.drop_last() == before.failures@
            &&& after.failures@.last().says(
                "gateway"@,
                "consensus task join error: "@ + reason@,
            )
        },
    }
}

impl ValidationRound {
    /// Starts a vote among a number of providers.
    pub fn new(asked: usize) -> (round: ValidationRound)
        ensures
            round.asked == asked,
            round.successes@.len() == 0,
            round.failures@.len() == 0,
    {
        ValidationRound { asked, successes: Vec::new(), failures: Vec::new() }
    }

    /// Takes in what one of the calls came to.
    pub fn record(&mut self, arrival: CallArrival)
        ensures
            records_arrival(*old(self), arrival, *final(self)),
    {
        match arrival {
            CallArrival::Answered(success) => {
                self.successes.push(
                    ConsensusCandidate {
                        provider: success.provider,
                        body: success.body,
                        provider_index: success.provider_index,
                        latency: success.latency,
                    },
                );
            },
            CallArrival::Failed(failure) => {
                self.failures.push(failure);
            },
            CallArrival::Lost(reason) => {
                self.failures.push(
                    ProviderFailure::with_detail(
                        "gateway",
                        "consensus task join error: ",
                        reason.as_str(),
                    ),
                );
                assert(self.failures@.drop_last() =~= old(self).failures@);
            },
        }
    }
}

/// Whether the request fails with the given failures and one more, on the vote.
pub open spec fn fails_vote(
    result: Result<GatewayResponse, DispatchError>,
    failures: Seq<ProviderFailure>,
    error: Seq<char>,
) -> bool {
    &&& result is Err
    &&& result->Err_0.failures@.len() == failures.len() + 1
    &&& result->Err_0.failures@.drop_last() == failures
    &&& result->Err_0.failures@.last().says("consensus"@, error)
}

/// What is said where too few providers answered.
pub open spec fn too_few_answers(answers: nat) -> Seq<char> {
    "consensus validation requires at least 2 successful providers; got "@ + decimal(answers)
}

/// What is said where the providers disagree.
pub open spec fn no_majority(method: Option<Seq<char>>, agreement: nat, participants: nat) -> Seq<
    char,
> {
    "no majority agreement for "@ + (match method {
        Some(name) => name,
        None => "unknown"@,
    }) + " ("@ + ratio(agreement, participants) + ")"@
}

/// What comes of a vote that a given answer wins: it is passed on if a majority
/// agrees with it, or if the gateway is to fail open.
pub open spec fn elects(
    result: Result<GatewayResponse, DispatchError>,
    fail_open: bool,
    method: Option<Seq<char>>,
    round: ValidationRound,
    prints: Seq<Option<Seq<char>>>,
    winner: int,
) -> bool {
    let successes = round.successes@;
    let agreement = votes(prints, prints[winner]);
    let majority = agreement > successes.len() / 2;
    &&& wins(prints, latencies(successes), winner)
    &&& if majority || fail_open {
        &&& result is Ok
        &&& result->Ok_0.passes_on(
            successes[winner].body,
            successes[winner].provider,
            round.asked as nat,
            false,
            1,
        )
        &&& result->Ok_0.voted(majority, ratio(agreement, successes.len()))
    } else {
        fails_vote(result, round.failures@, no_majority(method, agreement, successes.len()))
    }
}

/// What comes of a vote that some answer wins.
pub open spec fn elects_some(
    result: Result<GatewayResponse, DispatchError>,
    fail_open: bool,
    method: Option<Seq<char>>,
    round: ValidationRound,
    prints: Seq<Option<Seq<char>>>,
) -> bool {
    exists|winner: int| #[trigger] elects(result, fail_open, method, round, prints, winner)
}

/// What comes of a vote with the given fingerprints. A request to which too few
/// providers answered, on which they disagree, or to which an answer cannot be
/// compared, fails, unless the gateway is to fail open: then the best answer there
/// is is passed on, and is validated only where a majority agrees with it.
pub open spec fn vote_outcome(
    result: Result<GatewayResponse, DispatchError>,
    fail_open: bool,
    method: Option<Seq<char>>,
    round: ValidationRound,
    prints: Seq<Option<Seq<char>>>,
) -> bool {
    let successes = round.successes@;
    let failures = round.failures@;
    if successes.len() < 2 {
        if fail_open && successes.len() == 1 {
            &&& result is Ok
            &&& result->Ok_0.passes_on(
                successes[0].body,
                successes[0].provider,
                round.asked as nat,
                false,
                1,
            )
            &&& result->Ok_0.voted(false, ratio(1, round.asked as nat))
        } else {
            fails_vote(result, failures, too_few_answers(successes.len()))
        }
    } else if !fail_open && !all_comparable(prints) {
        fails_vote(
            result,
            failures,
            "failed to parse JSON-RPC payloads for consensus voting"@,
        )
    } else {
        elects_some(result, fail_open, method, round, prints)
    }
}

fn vote_failure(failures: Vec<ProviderFailure>, error: String) -> (result: Result<
    GatewayResponse,
    DispatchError,
>)
    ensures
        fails_vote(result, failures@, error@),
{
    let mut failures = failures;
    let ghost before = failures@;
    failures.push(ProviderFailure { provider: "consensus".to_string(), error });
    assert(failures@.drop_last() =~= before);
    Err(DispatchError { failures })
}

/// Passes on the answer that won the vote.
fn winning_response(decision: ConsensusDecision, asked: usize) -> (response: GatewayResponse)
    ensures
        response.passes_on(
            decision.winner.body,
            decision.winner.provider,
            asked as nat,
            false,
            1,
        ),
        response.voted(
            decision.majority,
            ratio(decision.agreement as nat, decision.participants as nat),
        ),
{
    let agreement: String = ratio_text(decision.agreement, decision.participants);
    let mut response: GatewayResponse = build_gateway_response(
        CallSuccess {
            provider: decision.winner.provider,
            body: decision.winner.body,
            provider_index: decision.winner.provider_index,
            latency: decision.winner.latency,
            rate_limit_headroom: None,
        },
        asked,
        false,
        1,
    );
    response.consensus_checked = true;
    response.consensus_validated = decision.majority;
    response.consensus_agreement = Some(agreement);
    response
}

fn no_majority_text(method: Option<&str>, agreement: usize, participants: usize) -> (text: String)
    ensures
        text@ == no_majority(method_view(method), agreement as nat, participants as nat),
{
    let mut text: String = "no majority agreement for ".to_string();
    text.append(
        match method {
            Some(name) => name,
            None => "unknown",
        },
    );
    text.append(" (");
    text.append(ratio_text(agreement, participants).as_str());
    text.append(")");
    text
}

/// Concludes a vote whose fingerprints are known, as far as the answers have any.
pub fn conclude_by_fingerprints(
    fail_open: bool,
    method: Option<&str>,
    round: ValidationRound,
    prints: Vec<Option<String>>,
) -> (result: Result<GatewayResponse, DispatchError>)
    requires
        prints@.len() == round.successes@.len(),
    ensures
        vote_outcome(result, fail_open, method_view(method), round, print_views(prints@)),
{
    let ValidationRound { asked, successes, failures } = round;
    let mut successes = successes;
    if successes.len() < 2 {
        let answers: usize = successes.len();
        if fail_open {
            if let Some(only) = successes.pop() {
                let decision = ConsensusDecision {
                    winner: only,
                    agreement: answers,
                    participants: asked,
                    majority: false,
                };
                return Ok(winning_response(decision, asked));
            }
        }
        let mut error: String =
            "consensus validation requires at least 2 successful providers; got ".to_string();
        error.append(decimal_text(answers as u128).as_str());
        return vote_failure(failures, error);
    }
    if !fail_open && !are_comparable(&prints) {
        return vote_failure(
            failures,
            "failed to parse JSON-RPC payloads for consensus voting".to_string(),
        );
    }
    let ghost views = print_views(prints@);
    let ghost times = latencies(round.successes@);
    match decide_by_fingerprints(&prints, successes) {
        Some(decision) => {
            let ghost winner = choose|winner: int| #[trigger]
                wins(views, times, winner) && decision.winner == round.successes@[winner]
                    && decision.agreement == votes(views, views[winner]);
            let result: Result<GatewayResponse, DispatchError> = if decision.majority
                || fail_open {
                Ok(winning_response(decision, asked))
            } else {
                vote_failure(
                    failures,
                    no_majority_text(method, decision.agreement, decision.participants),
                )
            };
            assert(elects(result, fail_open, method_view(method), round, views, winner));
            result
        },
        None => vstd::pervasive::unreached(),
    }
}

/// Concludes a vote: compares the answers and passes on the one that won.
pub fn conclude_validation(fail_open: bool, method: Option<&str>, round: ValidationRound) -> (result:
    Result<GatewayResponse, DispatchError>)
    ensures
        vote_outcome(
            result,
            fail_open,
            method_view(method),
            round,
            fingerprints(method_view(method), round.successes@),
        ),
{
    let prints: Vec<Option<String>> = fingerprints_of(method, &round.successes);
    assert(print_views(prints@).len() == round.successes@.len());
    conclude_by_fingerprints(fail_open, method, round, prints)
}

/// A validated response passes on an answer that can be compared, and with which
/// more than half of all answers agree.
pub proof fn validated_means_majority(
    result: Result<GatewayResponse, DispatchError>,
    fail_open: bool,
    method: Option<Seq<char>>,
    round: ValidationRound,
    prints: Seq<Option<Seq<char>>>,
)
    requires
        vote_outcome(result, fail_open, method, round, prints),
        result is Ok,
        result->Ok_0.consensus_validated,
    ensures
        round.successes@.len() >= 2,
        exists|winner: int|
            0 <= winner < prints.len() && result->Ok_0.body == (
            #[trigger] round.successes@[winner]).body && prints[winner] is Some && votes(
                prints,
                prints[winner],
            ) > round.successes@.len() / 2,
{
    let winner = choose|winner: int| #[trigger]
        elects(result, fail_open, method, round, prints, winner);
    assert(elects(result, fail_open, method, round, prints, winner));
    assert(result->Ok_0.body == round.successes@[winner].body);
    if prints[winner] is None {
        lemma_none_agree(prints);
    }
}

/// Where the gateway is not to fail open, a request without a majority fails.
pub proof fn strict_mode_rejects_disagreement(
    result: Result<GatewayResponse, DispatchError>,
    method: Option<Seq<char>>,
    round: ValidationRound,
    prints: Seq<Option<Seq<char>>>,
)
    requires
        vote_outcome(result, false, method, round, prints),
        forall|i: int|
            0 <= i < prints.len() ==> votes(prints, #[trigger] prints[i])
                <= round.successes@.len() / 2,
    ensures
        result is Err,
        result->Err_0.failures@.last().provider@ == "consensus"@,
{
    if round.successes@.len() >= 2 && all_comparable(prints) {
        let winner = choose|winner: int| #[trigger]
            elects(result, false, method, round, prints, winner);
        assert(votes(prints, prints[winner]) <= round.successes@.len() / 2);
    }
}

/// Where the gateway is to fail open, an answer is passed on wherever one came in.
/// It is marked as checked, and as validated exactly where there are several and
/// more than half of them agree with it.
pub proof fn open_mode_passes_on_an_answer(
    result: Result<GatewayResponse, DispatchError>,
    method: Option<Seq<char>>,
    round: ValidationRound,
    prints: Seq<Option<Seq<char>>>,
)
    requires
        prints.len() == round.successes@.len(),
        vote_outcome(result, true, method, round, prints),
        round.successes@.len() > 0,
    ensures
        result is Ok,
        result->Ok_0.consensus_checked,
        exists|winner: int|
            0 <= winner < prints.len() && result->Ok_0.body == (
            #[trigger] round.successes@[winner]).body && (result->Ok_0.consensus_validated <==> (
            round.successes@.len() >= 2 && votes(prints, prints[winner]) > round.successes@.len()
                / 2)),
{
    if round.successes@.len() >= 2 {
        let winner = choose|winner: int| #[trigger]
            elects(result, true, method, round, prints, winner);
        assert(elects(result, true, method, round, prints, winner));
        assert(result->Ok_0.body == round.successes@[winner].body);
    } else {
        assert(result->Ok_0.body == round.successes@[0].body);
    }
}

proof fn lemma_none_agree(prints: Seq<Option<Seq<char>>>)
    ensures
        votes(prints, None) == 0,
    decreases prints.len(),
{
    if prints.len() > 0 {
        lemma_none_agree(prints.drop_last());
    }
}

/// Where at least two providers are ranked, the best two or three of them are asked,
/// as is configured and as far as there are any; one alone is asked without a vote.
pub proof fn the_best_two_or_three_are_asked(
    config: ConsensusValidationConfig,
    ranked: Seq<usize>,
    plan: ValidationPlan,
)
    requires
        is_validation_plan(config, ranked, plan),
    ensures
        plan is Unserved <==> ranked.len() == 0,
        plan is Unvalidated <==> ranked.len() == 1,
        plan is Ask <==> ranked.len() >= 2,
        plan matches ValidationPlan::Unserved(error) ==> error.failures@.len() == 1
            && error.failures@[0].says("gateway"@, "no providers configured"@),
        plan matches ValidationPlan::Ask(sample) ==> {
            &&& sample@.is_prefix_of(ranked)
            &&& 2 <= sample@.len() <= 3
            &&& sample@.len() == 3 <==> config.sample_size >= 3 && ranked.len() >= 3
        },
{
}

/// An answer is taken in with its body, provider and latency, behind those that came
/// before it; a failure is taken in as it is, and neither changes the other list.
pub proof fn arrivals_are_taken_in_in_order(
    before: ValidationRound,
    arrival: CallArrival,
    after: ValidationRound,
)
    requires
        records_arrival(before, arrival, after),
    ensures
        after.asked == before.asked,
        arrival matches CallArrival::Answered(success) ==> {
            let taken = after.successes@.last();
            &&& after.failures@ == before.failures@
            &&& after.successes@.drop_last() == before.successes@
            &&& taken.body == success.body && taken.provider == success.provider
            &&& taken.latency == success.latency && taken.provider_index == success.provider_index
        },
        !(arrival is Answered) ==> after.successes@ == before.successes@
            && after.failures@.drop_last() == before.failures@ && after.failures@.len()
            == before.failures@.len() + 1,
        arrival matches CallArrival::Failed(failure) ==> after.failures@.last() == failure,
        arrival matches CallArrival::Lost(reason) ==> after.failures@.last().says(
            "gateway"@,
            "consensus task join error: "@ + reason@,
        ),
{
    if let CallArrival::Answered(success) = arrival {
        assert(after.successes@.drop_last() =~= before.successes@);
    }
    if let CallArrival::Failed(failure) = arrival {
        assert(after.failures@.drop_last() =~= before.failures@);
    }
}

/// A majority is passed on: where all answers can be compared and more than half of
/// them agree, the fastest of these is the response, validated, with the number of
/// those that agree and of all answers.
pub proof fn a_majority_is_passed_on(
    result: Result<GatewayResponse, DispatchError>,
    fail_open: bool,
    method: Option<Seq<char>>,
    round: ValidationRound,
    prints: Seq<Option<Seq<char>>>,
    print: Seq<char>,
)
    requires
        vote_outcome(result, fail_open, method, round, prints),
        prints.len() == round.successes@.len(),
        round.successes@.len() >= 2,
        forall|i: int| 0 <= i < prints.len() ==> #[trigger] prints[i] is Some,
        2 * votes(prints, Some(print)) > prints.len(),
    ensures
        result is Ok,
        result->Ok_0.consensus_checked,
        result->Ok_0.consensus_validated,
        result->Ok_0.attempts == round.asked,
        !result->Ok_0.hedged,
        result->Ok_0.hedge_width == 1,
        result->Ok_0.consensus_agreement is Some,
        result->Ok_0.consensus_agreement->0@ == ratio(votes(prints, Some(print)), prints.len()),
        exists|winner: int|
            0 <= winner < prints.len() && prints[winner] == Some(print) && result->Ok_0.body == (
            #[trigger] round.successes@[winner]).body && result->Ok_0.provider
                == round.successes@[winner].provider && forall|i: int|
                0 <= i < prints.len() && prints[i] == Some(print) ==> duration_nanos(
                    round.successes@[winner].latency,
                ) <= duration_nanos((#[trigger] round.successes@[i]).latency),
{
    let successes = round.successes@;
    let winner = choose|winner: int| #[trigger]
        elects(result, fail_open, method, round, prints, winner);
    assert(elects(result, fail_open, method, round, prints, winner));
    majority_decides(prints, latencies(successes), Some(print), winner, winner);
    assert(result->Ok_0.body == successes[winner].body);
    assert forall|i: int| 0 <= i < prints.len() && prints[i] == Some(print) implies duration_nanos(
        successes[winner].latency,
    ) <= duration_nanos((#[trigger] successes[i]).latency) by {
        fastest_of_the_most_agreed_wins(prints, latencies(successes), winner, i);
        assert(latencies(successes)[winner] <= latencies(successes)[i]);
    }
}

/// Where the gateway is not to fail open, an answer is passed on only if at least two
/// came in, all can be compared, and more than half agree with it; else the request
/// fails with what failed at the providers and one failure on the vote.
pub proof fn strict_mode_needs_a_majority(
    result: Result<GatewayResponse, DispatchError>,
    method: Option<Seq<char>>,
    round: ValidationRound,
    prints: Seq<Option<Seq<char>>>,
)
    requires
        vote_outcome(result, false, method, round, prints),
        prints.len() == round.successes@.len(),
    ensures
        result is Ok ==> {
            &&& result->Ok_0.consensus_validated
            &&& round.successes@.len() >= 2
            &&& forall|i: int| 0 <= i < prints.len() ==> #[trigger] prints[i] is Some
            &&& exists|winner: int|
                0 <= winner < prints.len() && result->Ok_0.body == (
                #[trigger] round.successes@[winner]).body && 2 * votes(prints, prints[winner])
                    > prints.len()
        },
        result is Err ==> {
            &&& result->Err_0.failures@.len() == round.failures@.len() + 1
            &&& result->Err_0.failures@.drop_last() == round.failures@
            &&& result->Err_0.failures@.last().provider@ == "consensus"@
        },
        round.successes@.len() < 2 ==> result is Err && result->Err_0.failures@.last().error@
            == "consensus validation requires at least 2 successful providers; got "@ + decimal(
            round.successes@.len(),
        ),
        round.successes@.len() >= 2 && (exists|i: int|
            0 <= i < prints.len() && #[trigger] prints[i] is None) ==> result is Err
            && result->Err_0.failures@.last().error@
            == "failed to parse JSON-RPC payloads for consensus voting"@,
{
    if round.successes@.len() >= 2 && all_comparable(prints) {
        let winner = choose|winner: int| #[trigger]
            elects(result, false, method, round, prints, winner);
        assert(elects(result, false, method, round, prints, winner));
        if result is Ok {
            assert(result->Ok_0.body == round.successes@[winner].body);
        }
    }
}

/// A single answer that is passed on because the gateway is to fail open is marked
/// as checked and as not validated, with one of those asked agreeing.
pub proof fn a_single_answer_is_not_validated(
    result: Result<GatewayResponse, DispatchError>,
    method: Option<Seq<char>>,
    round: ValidationRound,
    prints: Seq<Option<Seq<char>>>,
)
    requires
        vote_outcome(result, true, method, round, prints),
        round.successes@.len() == 1,
    ensures
        result is Ok,
        result->Ok_0.body == round.successes@[0].body,
        result->Ok_0.provider == round.successes@[0].provider,
        result->Ok_0.attempts == round.asked,
        !result->Ok_0.hedged,
        result->Ok_0.hedge_width == 1,
        result->Ok_0.consensus_checked,
        !result->Ok_0.consensus_validated,
        result->Ok_0.consensus_agreement is Some,
        result->Ok_0.consensus_agreement->0@ == ratio(1, round.asked as nat),
{
}

/// Where the gateway is to fail open, what is passed on without a majority is one of
/// the answers that most agree with; without any answer the request fails.
pub proof fn open_mode_passes_on_the_best(
    result: Result<GatewayResponse, DispatchError>,
    method: Option<Seq<char>>,
    round: ValidationRound,
    prints: Seq<Option<Seq<char>>>,
)
    requires
        vote_outcome(result, true, method, round, prints),
        prints.len() == round.successes@.len(),
    ensures
        round.successes@.len() == 0 ==> result is Err,
        round.successes@.len() >= 2 ==> {
            &&& result is Ok
            &&& exists|winner: int|
                0 <= winner < prints.len() && result->Ok_0.body == (
                #[trigger] round.successes@[winner]).body && (forall|i: int|
                    0 <= i < prints.len() ==> votes(prints, #[trigger] prints[i]) <= votes(
                        prints,
                        prints[winner],
                    )) && result->Ok_0.consensus_agreement is Some
                    && result->Ok_0.consensus_agreement->0@ == ratio(
                    votes(prints, prints[winner]),
                    prints.len(),
                ) && (result->Ok_0.consensus_validated <==> 2 * votes(prints, prints[winner])
                    > prints.len())
        },
{
    if round.successes@.len() >= 2 {
        let winner = choose|winner: int| #[trigger]
            elects(result, true, method, round, prints, winner);
        assert(elects(result, true, method, round, prints, winner));
        assert(result->Ok_0.body == round.successes@[winner].body);
    }
}

/// Where the gateway is not to fail open and no majority agrees, the request fails,
/// and is told the method, how many agree at most, and how many answered.
pub proof fn disagreement_is_told(
    result: Result<GatewayResponse, DispatchError>,
    method: Option<Seq<char>>,
    round: ValidationRound,
    prints: Seq<Option<Seq<char>>>,
)
    requires
        vote_outcome(result, false, method, round, prints),
        prints.len() == round.successes@.len(),
        round.successes@.len() >= 2,
        forall|i: int| 0 <= i < prints.len() ==> #[trigger] prints[i] is Some,
        forall|i: int|
            0 <= i < prints.len() ==> 2 * votes(prints, #[trigger] prints[i]) <= prints.len(),
    ensures
        result is Err,
        exists|most: int|
            0 <= most < prints.len() && (forall|i: int|
                0 <= i < prints.len() ==> votes(prints, #[trigger] prints[i]) <= votes(
                    prints,
                    #[trigger] prints[most],
                )) && result->Err_0.failures@.last().error@ == "no majority agreement for "@ + (
            match method {
                Some(name) => name,
                None => "unknown"@,
            }) + " ("@ + decimal(votes(prints, prints[most])) + "/"@ + decimal(prints.len()) + ")"@,
{
    let most = choose|winner: int| #[trigger]
        elects(result, false, method, round, prints, winner);
    assert(elects(result, false, method, round, prints, most));
    ratio_is_two_numbers(votes(prints, prints[most]), prints.len());
    let name = match method {
        Some(name) => name,
        None => "unknown"@,
    };
    let agreed = decimal(votes(prints, prints[most]));
    let all = decimal(prints.len());
    let start = "no majority agreement for "@ + name + " ("@;
    assert(start + (agreed + "/"@ + all) + ")"@ =~= start + agreed + "/"@ + all + ")"@);
}

} // verus!
