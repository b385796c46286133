//! The gateway as a whole: what it knows, and what it does with a request.
use std::time::Duration;

use bytes::Bytes;

use vstd::prelude::*;

use super::adaptive::{
    fresh_view, stats_of, AdaptiveHedgingController, AdaptiveView, HedgeDecision, HedgingStatsView,
};
use super::cache::{
    cached, configured_policy, expiry, is_plan, lifetimes_are_counted_in_seconds, puts, CachePlan, CachePolicy, CachePolicyView,
    CacheView, CachedResponse, ResponseCache,
};
use super::call::{
    is_call_result, is_probe_verdict, judge_call, judge_probe, probe_succeeded, CallOutcome,
    ProbeOutcome, ProbeVerdict,
};
use super::coalescing::{CoalescerView, CoalescingRole, CoalescingStatsView, RequestCoalescer};
use super::consensus::{fingerprints, method_view};
use super::cost::{prices_of, strategy_named, CostPolicyView, CostRoutingPolicy};
use super::dispatch::{
    attempt_candidates, candidates_are_the_first_of_the_ranking, choose_candidates,
    passes_on_winner, requests_start_with_the_best, starts, DispatchStep, ReliabilityDispatch,
};
use super::headroom::{is_headroom, RateLimitHeadroom};
use super::hedging::{ParallelHedge, ParallelStep};
use super::method_policy::{
    builtin_policy, builtin_table_lists_these_methods, override_table,
    overrides_replace_flag_by_flag, overrides_take_effect, request_policy, unknown_policy,
    without_override_the_builtin_counts, SolanaMethodPolicy, SolanaMethodPolicyTable,
};
use super::predictive::{
    body_block_number, furthest_block, parse_block_number_from_rpc_body, PredictiveScoringController,
    PredictiveView, ProviderPredictiveState, ProviderPredictiveView,
};
use super::probe::{
    build_block_lag_payload, build_probe_payload, request_tree, requests_have_four_members,
    PayloadError,
};
use super::ranking::{
    best_mirrors, in_service, live_providers_are_kept, mirror_targets, none_is_ranked_twice, price_candidates, priced,
    ranking, ranking_covers_all, retain_live, scored, service_keeps_order,
    shadow_providers_are_excluded, ProviderAssessment, RankCandidate,
};
use super::response::{
    CallArrival, CallSuccess, DispatchError, GatewayResponse, HedgedOutcome, LostRace,
    ProviderFailure,
};
use super::rpc::{body_method, extract_rpc_method};
use super::validation::{
    conclude_validation, is_validation_plan, plan_validation, records_arrival, vote_outcome,
    ValidationPlan, ValidationRound,
};
use crate::health::{HealthView, ProviderHealthSnapshot, ProviderHealthTracker};
use crate::json::{is_simple, json_tree, member, parsed_json, rendered_bytes, JsonTree};
use crate::payload::{as_slice, bytes_contents, request_key, request_key_of};
use crate::settings::{MethodPolicyOverride, ProviderConfig, ReliabilityConfig, Settings};
use crate::text::{decimal, lowercase, same_ignoring_case};
use crate::time::{
    duration_millis, duration_nanos, Clock, Moment, NANOS_PER_MILLI, NANOS_PER_SEC,
};

verus! {

/// A provider, and what is known of its health.
pub struct ProviderRuntime {
    config: ProviderConfig,
    health: ProviderHealthTracker,
}

/// Everything that the gateway knows.
pub struct Gateway {
    providers: Vec<ProviderRuntime>,
    reliability: ReliabilityConfig,
    predictive_scoring: PredictiveScoringController,
    adaptive_hedging: AdaptiveHedgingController,
    cache_policy: CachePolicy,
    cache: Option<ResponseCache>,
    coalescer: RequestCoalescer,
    cost_routing: CostRoutingPolicy,
    method_policy: SolanaMethodPolicyTable,
    probe_payload: Bytes,
    block_lag_probe_payload: Bytes,
    clock: Clock,
}

/// The state of the gateway.
#[verifier::ext_equal]
pub struct GatewayView {
    pub configs: Seq<ProviderConfig>,
    pub health: Seq<HealthView>,
    pub reliability: ReliabilityConfig,
    pub predictive: PredictiveView,
    pub adaptive: AdaptiveView,
    pub cache_policy: CachePolicyView,
    pub cache: Option<CacheView>,
    pub coalescer: CoalescerView,
    pub cost: CostPolicyView,
    pub method_policy: Map<Seq<char>, SolanaMethodPolicy>,
    pub probe_payload: Seq<u8>,
    pub block_lag_payload: Seq<u8>,
}

spec fn configs_of(providers: Seq<ProviderRuntime>) -> Seq<ProviderConfig> {
    providers.map_values(|provider: ProviderRuntime| provider.config)
}

spec fn health_of(providers: Seq<ProviderRuntime>) -> Seq<HealthView> {
    providers.map_values(|provider: ProviderRuntime| provider.health@)
}

impl View for Gateway {
    type V = GatewayView;

    closed spec fn view(&self) -> GatewayView {
        GatewayView {
            configs: configs_of(self.providers@),
            health: health_of(self.providers@),
            reliability: self.reliability,
            predictive: self.predictive_scoring@,
            adaptive: self.adaptive_hedging@,
            cache_policy: self.cache_policy@,
            cache: match self.cache {
                Some(cache) => Some(cache@),
                None => None,
            },
            coalescer: self.coalescer@,
            cost: self.cost_routing@,
            method_policy: self.method_policy@,
            probe_payload: bytes_contents(self.probe_payload),
            block_lag_payload: bytes_contents(self.block_lag_probe_payload),
        }
    }
}

/// The request that probes a provider's health.
pub open spec fn probe_request(reliability: ReliabilityConfig) -> JsonTree {
    request_tree(
        "rpc-gateway-probe"@,
        reliability.probe.method@,
        json_tree(reliability.probe.params),
    )
}

/// The request that asks a provider for its latest block.
pub open spec fn block_lag_request(reliability: ReliabilityConfig) -> JsonTree {
    request_tree(
        "rpc-gateway-block-lag-probe"@,
        reliability.predictive_scoring.block_lag_method@,
        json_tree(reliability.predictive_scoring.block_lag_params),
    )
}

/// Whether a gateway is what a configuration describes, at the time at which it
/// starts.
pub open spec fn is_configured(gateway: GatewayView, settings: Settings, now: Moment) -> bool {
    let reliability = settings.reliability;
    &&& gateway.configs == settings.providers@
    &&& gateway.health == Seq::new(
        settings.providers@.len(),
        |i: int|
            HealthView::fresh(
                reliability.unhealthy_after_failures,
                (reliability.recovery_after_secs * NANOS_PER_SEC) as nat,
            ),
    )
    &&& gateway.reliability == reliability
    &&& gateway.predictive == PredictiveView::fresh(
        reliability.predictive_scoring,
        reliability.shadow_mode,
        settings.providers@,
        now,
    )
    &&& gateway.adaptive == fresh_view(reliability.adaptive_hedging, settings.providers@.len())
    &&& gateway.cache_policy == configured_policy(settings.cache)
    &&& gateway.cache is Some <==> settings.cache.enabled
    &&& gateway.cache matches Some(cache) ==> {
        &&& cache.entries.is_empty()
        &&& cache.capacity == (if settings.cache.max_capacity == 0 {
            1
        } else if settings.cache.max_capacity > usize::MAX {
            usize::MAX as nat
        } else {
            settings.cache.max_capacity as nat
        })
    }
    &&& gateway.coalescer == CoalescerView::fresh(reliability.coalescing.enabled)
    &&& gateway.cost == CostPolicyView {
        enabled: reliability.cost_routing.enabled,
        strategy: strategy_named(reliability.cost_routing.strategy_name()),
        prices: prices_of(settings.providers@),
    }
    &&& gateway.method_policy == override_table(settings.method_policy.overrides@)
    &&& rendered_bytes(probe_request(reliability)) == Some(gateway.probe_payload)
    &&& rendered_bytes(block_lag_request(reliability)) == Some(gateway.block_lag_payload)
}

/// Whether a configuration leads to this gateway, or to this error. Requests
/// whose parameters are simple can be written down, and read back as they are:
/// those of moderate depth whose numbers are all unsigned 64-bit integers, and in
/// which no member stands under the key that is reserved for embedded JSON text.
pub open spec fn is_built(
    settings: Settings,
    now: Moment,
    built: Result<Gateway, PayloadError>,
) -> bool {
    let probe = probe_request(settings.reliability);
    let block_lag = block_lag_request(settings.reliability);
    &&& match built {
        Ok(gateway) => gateway.wf() && is_configured(gateway@, settings, now),
        Err(PayloadError::Probe) => rendered_bytes(probe) is None,
        Err(PayloadError::BlockLagProbe) => rendered_bytes(probe) is Some && rendered_bytes(
            block_lag,
        ) is None,
    }
    &&& is_simple(json_tree(settings.reliability.probe.params), 99) && is_simple(
        json_tree(settings.reliability.predictive_scoring.block_lag_params),
        99,
    ) ==> {
        &&& built is Ok
        &&& parsed_json(built->Ok_0@.probe_payload) == Some(probe)
        &&& parsed_json(built->Ok_0@.block_lag_payload) == Some(block_lag)
    }
}

fn runtimes(
    configs: Vec<ProviderConfig>,
    unhealthy_after_failures: u32,
    recovery_after: Duration,
    clock: Clock,
) -> (providers: Vec<ProviderRuntime>)
    ensures
        configs_of(providers@) == configs@,
        health_of(providers@) == Seq::new(
            configs@.len(),
            |i: int|
                HealthView::fresh(
                    unhealthy_after_failures,
                    duration_nanos(recovery_after),
                ),
        ),
{
    let ghost fresh = HealthView::fresh(
        unhealthy_after_failures,
        duration_nanos(recovery_after),
    );
    let mut providers: Vec<ProviderRuntime> = Vec::new();
    for config in it: configs
        invariant
            it.seq() == configs@,
            fresh == HealthView::fresh(
                unhealthy_after_failures,
                duration_nanos(recovery_after),
            ),
            providers@.len() == it.index(),
            forall|k: int|
                0 <= k < it.index() ==> (#[trigger] providers@[k]).config == configs@[k]
                    && providers@[k].health@ == fresh,
    {
        providers.push(
            ProviderRuntime {
                health: ProviderHealthTracker::with_clock(
                    unhealthy_after_failures,
                    recovery_after,
                    clock,
                ),
                config,
            },
        );
    }
    assert(configs_of(providers@) =~= configs@);
    assert(health_of(providers@) =~= Seq::new(configs@.len(), |i: int| fresh));
    providers
}

impl Gateway {
    /// Whether the gateway is sound.
    pub closed spec fn wf(&self) -> bool {
        &&& self@.is_complete()
        &&& self.cache matches Some(cache) ==> cache.wf()
    }

    /// A gateway as configured, which starts now.
    pub fn from_settings(settings: Settings) -> (built: Result<Gateway, PayloadError>)
        ensures
            exists|now: Moment| #[trigger] is_built(settings, now, built),
    {
        let clock: Clock = Clock::start();
        Self::from_settings_at(settings, clock, clock.now())
    }

    /// A gateway as configured, which reads the given clock and starts at the
    /// given time.
    pub fn from_settings_at(settings: Settings, clock: Clock, now: Moment) -> (built: Result<
        Gateway,
        PayloadError,
    >)
        ensures
            is_built(settings, now, built),
    {
        let Settings { server: _, reliability, cache, method_policy, providers } = settings;
        let predictive_scoring = PredictiveScoringController::with_clock(
            &reliability.predictive_scoring,
            reliability.shadow_mode,
            providers.as_slice(),
            clock,
            now,
        );
        let cost_routing = CostRoutingPolicy::from_config(&reliability.cost_routing, &providers);
        let adaptive_hedging = AdaptiveHedgingController::with_clock(
            reliability.adaptive_hedging,
            providers.len(),
            clock,
        );
        let providers: Vec<ProviderRuntime> = runtimes(
            providers,
            reliability.unhealthy_after_failures,
            reliability.recovery_after(),
            clock,
        );
        let cache_policy = CachePolicy::from_config(&cache);
        let response_cache: Option<ResponseCache> = if cache_policy.enabled() {
            Some(ResponseCache::new(cache.max_capacity))
        } else {
            None
        };
        let coalescer = RequestCoalescer::new(reliability.coalescing.enabled);
        let method_policy = SolanaMethodPolicyTable::from_config(&method_policy);
        let probe_payload: Bytes = match build_probe_payload(&reliability.probe) {
            Ok(payload) => payload,
            Err(error) => {
                return Err(error);
            },
        };
        let block_lag_probe_payload: Bytes = match build_block_lag_payload(
            &reliability.predictive_scoring,
        ) {
            Ok(payload) => payload,
            Err(error) => {
                return Err(error);
            },
        };
        Ok(
            Gateway {
                providers,
                reliability,
                predictive_scoring,
                adaptive_hedging,
                cache_policy,
                cache: response_cache,
                coalescer,
                cost_routing,
                method_policy,
                probe_payload,
                block_lag_probe_payload,
                clock,
            },
        )
    }
}

/// The number and the key under which identical requests join one.
pub struct CoalescingLead {
    pub key: String,
    pub number: u64,
}

/// A request that is to be dispatched.
pub struct RequestPlan {
    pub body: Bytes,
    pub method: Option<String>,
    pub policy: SolanaMethodPolicy,
    pub cache_plan: Option<CachePlan>,
    /// How others join the request, if they may.
    pub leads: Option<CoalescingLead>,
}

/// What is to be done with a request.
pub enum RequestStep {
    /// It is answered.
    Respond(GatewayResponse),
    /// It awaits the result of the request with this number.
    Join(CoalescingLead),
    /// It is dispatched.
    Dispatch(RequestPlan),
}

/// The view of an optional text.
pub open spec fn text_view(text: Option<String>) -> Option<Seq<char>> {
    match text {
        Some(t) => Some(t@),
        None => None,
    }
}

/// The response that passes on what is kept.
pub open spec fn kept_response(kept: CachedResponse, critical: bool) -> GatewayResponse {
    GatewayResponse {
        body: kept.body,
        provider: kept.provider,
        attempts: 0,
        hedged: false,
        hedge_width: 0,
        cache_hit: true,
        cached_at_unix_ms: Some(kept.cached_at_unix_ms),
        coalesced: false,
        consensus_critical: critical,
        consensus_checked: false,
        consensus_validated: false,
        consensus_agreement: None,
    }
}

impl GatewayView {
    /// The classification of a request.
    pub open spec fn policy(self, method: Option<Seq<char>>) -> SolanaMethodPolicy {
        request_policy(self.method_policy, method)
    }

    /// Whether the response to a request may be kept.
    pub open spec fn may_keep(self, method: Option<Seq<char>>) -> bool {
        self.cache_policy.planned_ttl(method, self.policy(method).cacheable_by_default) is Some
    }

    /// What is kept for a request and has not expired.
    pub open spec fn kept(self, method: Option<Seq<char>>, body: Seq<u8>, now: Moment) -> Option<
        CachedResponse,
    > {
        if self.cache is Some && self.may_keep(method) {
            self.cache->0.fresh(request_key(method->0, body), now.unix_ms)
        } else {
            None
        }
    }

    /// The gateway when it has counted a request and looked for what is kept.
    pub open spec fn after_lookup(
        self,
        method: Option<Seq<char>>,
        body: Seq<u8>,
        now: Moment,
    ) -> GatewayView {
        GatewayView {
            adaptive: self.adaptive.after_request(now.monotonic_ns),
            cache: if self.cache is Some && self.may_keep(method) {
                Some(self.cache->0.after_get(request_key(method->0, body), now.unix_ms))
            } else {
                self.cache
            },
            ..self
        }
    }

    /// Whether identical requests may share a result.
    pub open spec fn may_coalesce(self, method: Option<Seq<char>>) -> bool {
        self.coalescer.enabled && self.policy(method).cacheable_by_default && method is Some
    }

    /// Whether a plan is what the gateway makes of a request.
    pub open spec fn plans(
        self,
        body: Bytes,
        method: Option<Seq<char>>,
        plan: RequestPlan,
    ) -> bool {
        &&& plan.body == body
        &&& text_view(plan.method) == method
        &&& plan.policy == self.policy(method)
        &&& is_plan(
            self.cache_policy,
            bytes_contents(body),
            method,
            self.policy(method).cacheable_by_default,
            plan.cache_plan,
        )
    }

    /// Whether the gateway does this with a request, and is left so. What is kept
    /// is passed on; else an identical request under way is joined; else the
    /// request is dispatched.
    pub open spec fn routes(
        self,
        body: Bytes,
        method: Option<Seq<char>>,
        now: Moment,
        after: GatewayView,
        step: RequestStep,
    ) -> bool {
        let contents = bytes_contents(body);
        let looked = self.after_lookup(method, contents, now);
        let key = request_key(method->0, contents);
        match self.kept(method, contents, now) {
            Some(kept) => {
                &&& after == looked
                &&& step == RequestStep::Respond(
                    kept_response(kept, self.policy(method).consensus_critical),
                )
            },
            None => if self.may_coalesce(method) {
                &&& after == GatewayView { coalescer: self.coalescer.after_begin(key), ..looked }
                &&& match self.coalescer.role(key) {
                    CoalescingRole::Follower(number) => {
                        &&& step is Join
                        &&& step->Join_0.key@ == key
                        &&& step->Join_0.number == number
                    },
                    CoalescingRole::Leader(number) => {
                        &&& step is Dispatch
                        &&& self.plans(body, method, step->Dispatch_0)
                        &&& step->Dispatch_0.leads is Some
                        &&& step->Dispatch_0.leads->0.key@ == key
                        &&& step->Dispatch_0.leads->0.number == number
                    },
                    CoalescingRole::Alone => false,
                }
            } else {
                &&& after == looked
                &&& step is Dispatch
                &&& self.plans(body, method, step->Dispatch_0)
                &&& step->Dispatch_0.leads is None
            },
        }
    }
}

impl Gateway {
    /// Takes in a request now.
    pub fn execute_rpc(&mut self, body: Bytes) -> (step: RequestStep)
        requires
            old(self).wf(),
        ensures
            final(self).wf(),
            exists|now: Moment| #[trigger]
                old(self)@.routes(
                    body,
                    body_method(bytes_contents(body)),
                    now,
                    final(self)@,
                    step,
                ),
    {
        let now: Moment = self.clock.now();
        self.execute_rpc_at(body, now)
    }

    /// Takes in a request at the given time.
    pub fn execute_rpc_at(&mut self, body: Bytes, now: Moment) -> (step: RequestStep)
        requires
            old(self).wf(),
        ensures
            final(self).wf(),
            old(self)@.routes(body, body_method(bytes_contents(body)), now, final(self)@, step),
    {
        let method: Option<String> = extract_rpc_method(as_slice(&body));
        self.route_request_at(body, method, now)
    }

    /// Takes in a request for a method at the given time.
    pub fn route_request_at(&mut self, body: Bytes, method: Option<String>, now: Moment) -> (step:
        RequestStep)
        requires
            old(self).wf(),
        ensures
            final(self).wf(),
            old(self)@.routes(body, text_view(method), now, final(self)@, step),
    {
        self.adaptive_hedging.record_request_at(now.monotonic_ns);
        let name: Option<&str> = match &method {
            Some(m) => Some(m.as_str()),
            None => None,
        };
        let policy: SolanaMethodPolicy = self.method_policy.policy_for_opt(name);
        let cache_plan: Option<CachePlan> = self.cache_policy.plan(
            as_slice(&body),
            name,
            policy.cacheable_by_default,
        );
        if let Some(kept) = self.look_up(&cache_plan, now) {
            return RequestStep::Respond(
                GatewayResponse {
                    body: kept.body,
                    provider: kept.provider,
                    attempts: 0,
                    hedged: false,
                    hedge_width: 0,
                    cache_hit: true,
                    cached_at_unix_ms: Some(kept.cached_at_unix_ms),
                    coalesced: false,
                    consensus_critical: policy.consensus_critical,
                    consensus_checked: false,
                    consensus_validated: false,
                    consensus_agreement: None,
                },
            );
        }
        let mut leads: Option<CoalescingLead> = None;
        if self.coalescer.enabled() && policy.cacheable_by_default {
            if let Some(m) = name {
                let key: String = request_key_of(m, as_slice(&body));
                match self.coalescer.run_or_join(key.clone()) {
                    CoalescingRole::Follower(number) => {
                        return RequestStep::Join(CoalescingLead { key, number });
                    },
                    CoalescingRole::Leader(number) => {
                        leads = Some(CoalescingLead { key, number });
                    },
                    CoalescingRole::Alone => {},
                }
            }
        }
        RequestStep::Dispatch(RequestPlan { body, method, policy, cache_plan, leads })
    }

    /// Looks for what is kept under a plan.
    fn look_up(&mut self, plan: &Option<CachePlan>, now: Moment) -> (kept: Option<CachedResponse>)
        requires
            old(self).wf(),
        ensures
            final(self).wf(),
            (match (old(self)@.cache, *plan) {
                (Some(cache), Some(plan)) => {
                    &&& kept == cache.fresh(plan.key@, now.unix_ms)
                    &&& final(self)@ == GatewayView {
                        cache: Some(cache.after_get(plan.key@, now.unix_ms)),
                        ..old(self)@
                    }
                },
                _ => kept is None && final(self)@ == old(self)@,
            }),
    {
        match plan {
            Some(plan) => match self.cache.take() {
                Some(cache) => {
                    let mut cache = cache;
                    let kept: Option<CachedResponse> = cache.get_at(
                        plan.key.as_str(),
                        now.unix_ms,
                    );
                    self.cache = Some(cache);
                    kept
                },
                None => None,
            },
            None => None,
        }
    }
}

/// How a request is dispatched.
#[derive(Debug, Clone, Copy, PartialEq, Eq, Structural)]
pub enum DispatchMode {
    /// Several providers are asked, and must agree.
    Validated,
    /// Providers are tried until one answers.
    Reliable,
}

/// A response when it is known what kind of request it answers.
pub open spec fn classified(
    result: Result<GatewayResponse, DispatchError>,
    critical: bool,
) -> Result<GatewayResponse, DispatchError> {
    match result {
        Ok(response) => Ok(
            GatewayResponse { cache_hit: false, consensus_critical: critical, ..response },
        ),
        Err(error) => Err(error),
    }
}

impl GatewayView {
    /// Whether providers must agree on the answer to a request.
    pub open spec fn must_validate(self, policy: SolanaMethodPolicy) -> bool {
        policy.consensus_critical && self.reliability.consensus_validation.enabled
    }

    /// Whether a response is kept. An answer on which providers must agree is kept
    /// only if they did.
    pub open spec fn keeps_response(
        self,
        plan: RequestPlan,
        result: Result<GatewayResponse, DispatchError>,
    ) -> bool {
        &&& result is Ok
        &&& self.cache is Some
        &&& plan.cache_plan is Some
        &&& self.must_validate(plan.policy) ==> result->Ok_0.consensus_validated
    }

    /// Whether the gateway is left so when a request has its result.
    pub open spec fn completes(
        self,
        plan: RequestPlan,
        result: Result<GatewayResponse, DispatchError>,
        now: Moment,
        after: GatewayView,
    ) -> bool {
        if self.keeps_response(plan, result) {
            &&& after == GatewayView { cache: after.cache, ..self }
            &&& after.cache is Some
            &&& puts(
                self.cache->0,
                plan.cache_plan->0.key@,
                result->Ok_0.body,
                result->Ok_0.provider,
                plan.cache_plan->0.ttl,
                now.unix_ms,
                after.cache->0,
            )
        } else {
            after == self
        }
    }
}

impl Gateway {
    /// Decides how a request is dispatched.
    pub fn execute_uncached_request(&self, plan: &RequestPlan) -> (mode: DispatchMode)
        ensures
            mode == if self@.must_validate(plan.policy) {
                DispatchMode::Validated
            } else {
                DispatchMode::Reliable
            },
    {
        if plan.policy.consensus_critical && self.reliability.consensus_validation.enabled {
            DispatchMode::Validated
        } else {
            DispatchMode::Reliable
        }
    }

    /// Takes in the result of a request now.
    pub fn complete_request(
        &mut self,
        plan: RequestPlan,
        result: Result<GatewayResponse, DispatchError>,
    ) -> (completed: Result<GatewayResponse, DispatchError>)
        requires
            old(self).wf(),
        ensures
            final(self).wf(),
            completed == classified(result, plan.policy.consensus_critical),
            exists|now: Moment| #[trigger] old(self)@.completes(plan, result, now, final(self)@),
    {
        let now: Moment = self.clock.now();
        self.complete_request_at(plan, result, now)
    }

    /// Takes in the result of a request at the given time, and keeps it if it may
    /// be kept.
    pub fn complete_request_at(
        &mut self,
        plan: RequestPlan,
        result: Result<GatewayResponse, DispatchError>,
        now: Moment,
    ) -> (completed: Result<GatewayResponse, DispatchError>)
        requires
            old(self).wf(),
        ensures
            final(self).wf(),
            completed == classified(result, plan.policy.consensus_critical),
            old(self)@.completes(plan, result, now, final(self)@),
    {
        let mut response: GatewayResponse = match result {
            Ok(response) => response,
            Err(error) => {
                return Err(error);
            },
        };
        response.cache_hit = false;
        response.consensus_critical = plan.policy.consensus_critical;
        let allowed: bool = if plan.policy.consensus_critical
            && self.reliability.consensus_validation.enabled {
            response.consensus_validated
        } else {
            true
        };
        if allowed {
            if let Some(cache_plan) = plan.cache_plan {
                if let Some(cache) = self.cache.take() {
                    let mut cache = cache;
                    cache.insert_at(
                        cache_plan.key,
                        response.body.clone(),
                        response.provider.clone(),
                        cache_plan.ttl,
                        now.unix_ms,
                    );
                    self.cache = Some(cache);
                }
            }
        }
        Ok(response)
    }

    /// The request that others joined has its result: none joins it any more.
    pub fn finish_lead(&mut self, lead: &CoalescingLead)
        requires
            old(self).wf(),
        ensures
            final(self).wf(),
            final(self)@ == (GatewayView {
                coalescer: old(self)@.coalescer.after_finish(lead.key@),
                ..old(self)@
            }),
    {
        self.coalescer.finish(lead.key.as_str());
    }

    pub fn hedging_stats(&self) -> (stats: HedgingStatsView)
        ensures
            stats == stats_of(self@.adaptive),
    {
        self.adaptive_hedging.stats_snapshot()
    }

    pub fn coalescing_stats(&self) -> (stats: CoalescingStatsView)
        ensures
            stats.enabled == self@.coalescer.enabled,
            stats.in_flight == self@.coalescer.in_flight.len(),
            stats.leader_count == self@.coalescer.leader_count,
            stats.fanout_count == self@.coalescer.fanout_count,
    {
        self.coalescer.stats()
    }
}

impl PredictiveView {
    /// The controller when all providers have been promoted that are ready.
    pub open spec fn promoting_all(self, now: Moment) -> PredictiveView {
        PredictiveView {
            providers: self.providers.map_values(
                |provider: ProviderPredictiveState|
                    ProviderPredictiveState {
                        shadow: provider.shadow.promoted_if_ready(now),
                        ..provider
                    },
            ),
            ..self
        }
    }
}

proof fn lemma_same_furthest_block(
    providers: Seq<ProviderPredictiveState>,
    others: Seq<ProviderPredictiveState>,
)
    requires
        providers.len() == others.len(),
        forall|i: int|
            0 <= i < providers.len() ==> (#[trigger] providers[i]).latest_block
                == others[i].latest_block,
    ensures
        furthest_block(providers) == furthest_block(others),
    decreases providers.len(),
{
    if providers.len() > 0 {
        let before = providers.drop_last();
        let others_before = others.drop_last();
        assert forall|i: int| 0 <= i < before.len() implies (#[trigger] before[i]).latest_block
            == others_before[i].latest_block by {
            assert(before[i] == providers[i]);
        }
        lemma_same_furthest_block(before, others_before);
        assert(providers[providers.len() - 1].latest_block
            == others[others.len() - 1].latest_block);
    }
}

impl GatewayView {
    /// What is known of a provider at a time.
    pub open spec fn assessment(self, index: int, now: Moment) -> ProviderAssessment {
        let weight = self.configs[index].weight;
        let snapshot = self.health[index].snapshot(weight, now);
        ProviderAssessment {
            index: index as usize,
            snapshot,
            scoring: self.predictive.scoring(index as usize, snapshot, weight, now),
        }
    }

    /// The gateway when it has looked at all providers.
    pub open spec fn after_assessment(self, now: Moment) -> GatewayView {
        GatewayView {
            health: self.health.map_values(|health: HealthView| health.after_snapshot(now)),
            predictive: self.predictive.promoting_all(now),
            ..self
        }
    }

    /// Whether there is as much known of each provider as of any other.
    pub open spec fn is_complete(self) -> bool {
        &&& self.health.len() == self.configs.len()
        &&& self.predictive.providers.len() == self.configs.len()
    }
}

impl Gateway {
    /// Looks at all providers now.
    pub fn assess_providers(&mut self) -> (assessments: Vec<ProviderAssessment>)
        requires
            old(self).wf(),
        ensures
            final(self).wf(),
            exists|now: Moment|
                final(self)@ == #[trigger] old(self)@.after_assessment(now) && assessments@
                    == old(self)@.assessments(now),
    {
        let now: Moment = self.clock.now();
        self.assess_providers_at(now)
    }

    /// Looks at all providers at the given time.
    pub fn assess_providers_at(&mut self, now: Moment) -> (assessments: Vec<ProviderAssessment>)
        requires
            old(self).wf(),
        ensures
            final(self).wf(),
            final(self)@ == old(self)@.after_assessment(now),
            assessments@ == old(self)@.assessments(now),
    {
        let ghost before = self@;
        let ghost after = before.after_assessment(now);
        let mut assessments: Vec<ProviderAssessment> = Vec::new();
        let mut i: usize = 0;
        while i < self.providers.len()
            invariant
                before == old(self)@,
                before.is_complete(),
                after == before.after_assessment(now),
                self.wf(),
                i <= self.providers@.len(),
                self.providers@.len() == before.configs.len(),
                self@ == (GatewayView {
                    health: self@.health,
                    predictive: PredictiveView {
                        providers: self@.predictive.providers,
                        ..before.predictive
                    },
                    ..before
                }),
                self@.health.len() == before.configs.len(),
                self@.predictive.providers.len() == before.configs.len(),
                forall|k: int|
                    0 <= k < before.configs.len() ==> #[trigger] self@.health[k] == if k < i {
                        after.health[k]
                    } else {
                        before.health[k]
                    },
                forall|k: int|
                    0 <= k < before.configs.len() ==> #[trigger] self@.predictive.providers[k]
                        == if k < i {
                        after.predictive.providers[k]
                    } else {
                        before.predictive.providers[k]
                    },
                assessments@ == Seq::new(i as nat, |k: int| before.assessment(k, now)),
            decreases self.providers@.len() - i,
        {
            let ghost this = self@;
            proof {
                lemma_same_furthest_block(this.predictive.providers, before.predictive.providers);
                assert(this.health[i as int] == before.health[i as int]);
                assert(this.predictive.providers[i as int]
                    == before.predictive.providers[i as int]);
            }
            let weight: u32 = self.providers[i].config.weight;
            let snapshot: ProviderHealthSnapshot = self.providers[i].health.snapshot_at(
                weight,
                now,
            );
            let scoring = self.predictive_scoring.score_provider_at(i, &snapshot, weight, now);
            assessments.push(ProviderAssessment { index: i, snapshot, scoring });
            proof {
                assert(self@.configs =~= this.configs);
                assert(self@.health =~= this.health.update(i as int, after.health[i as int]));
                assert(assessments@ =~= Seq::new(
                    (i + 1) as nat,
                    |k: int| before.assessment(k, now),
                ));
            }
            i = i + 1;
        }
        proof {
            assert(self@.health =~= after.health);
            assert(self@.predictive.providers =~= after.predictive.providers);
            assert(self@ =~= after);
        }
        assessments
    }
}

impl GatewayView {
    /// What is known of all providers at a time.
    pub open spec fn assessments(self, now: Moment) -> Seq<ProviderAssessment> {
        Seq::new(self.configs.len(), |i: int| self.assessment(i, now))
    }

    /// The providers that take part in a ranking: those in service, with the
    /// adjustments for their prices.
    pub open spec fn rank_candidates(self, now: Moment) -> Seq<RankCandidate> {
        priced(self.cost, in_service(self.assessments(now)))
    }
}

impl Gateway {
    /// Finds now the providers that take part in a ranking.
    pub fn rank_candidates(&mut self) -> (candidates: Vec<RankCandidate>)
        requires
            old(self).wf(),
        ensures
            final(self).wf(),
            exists|now: Moment|
                final(self)@ == #[trigger] old(self)@.after_assessment(now) && candidates@ == old(
                    self,
                )@.rank_candidates(now),
    {
        let now: Moment = self.clock.now();
        self.rank_candidates_at(now)
    }

    /// Finds at the given time the providers that take part in a ranking.
    pub fn rank_candidates_at(&mut self, now: Moment) -> (candidates: Vec<RankCandidate>)
        requires
            old(self).wf(),
        ensures
            final(self).wf(),
            final(self)@ == old(self)@.after_assessment(now),
            candidates@ == old(self)@.rank_candidates(now),
    {
        let assessments: Vec<ProviderAssessment> = self.assess_providers_at(now);
        price_candidates(&self.cost_routing, &retain_live(&assessments))
    }

    /// Chooses the providers that a request is mirrored to, given the scores of
    /// those that it may be mirrored to.
    pub fn shadow_mirror_candidates(
        &self,
        mirrors: &Vec<ProviderAssessment>,
        scores: &Vec<i64>,
    ) -> (targets: Vec<usize>)
        requires
            scores@.len() == mirrors@.len(),
        ensures
            targets@ == best_mirrors(
                mirrors@,
                scores@,
                self@.predictive.shadow_config.mirror_limit(),
            ),
    {
        mirror_targets(mirrors, scores, self.predictive_scoring.mirror_max_providers())
    }
}

/// What is reported of a provider.
pub struct ProviderHealthView {
    pub name: String,
    pub url: String,
    pub snapshot: ProviderHealthSnapshot,
    pub predictive: ProviderPredictiveView,
}

impl GatewayView {
    /// Whether this is reported of a provider.
    pub open spec fn reports(self, index: int, now: Moment, view: ProviderHealthView) -> bool {
        &&& view.name == self.configs[index].name
        &&& view.url == self.configs[index].url
        &&& view.snapshot == self.assessment(index, now).snapshot
        &&& view.predictive == self.assessment(index, now).scoring.view
    }

    /// Whether requests are to be mirrored to a provider.
    pub open spec fn mirrors(self, index: usize, now: Moment) -> bool {
        self.predictive.mirrors(index, now)
    }

    /// What is known of the providers, up to one of them, that requests are to be
    /// mirrored to.
    pub open spec fn mirror_assessments(self, count: nat, now: Moment) -> Seq<ProviderAssessment>
        decreases count,
    {
        if count == 0 {
            Seq::empty()
        } else {
            let before = self.mirror_assessments((count - 1) as nat, now);
            if self.mirrors((count - 1) as usize, now) {
                before.push(self.assessment(count - 1, now))
            } else {
                before
            }
        }
    }

    /// The gateway when it has looked at the providers that requests are to be
    /// mirrored to.
    pub open spec fn after_mirror_assessment(self, now: Moment) -> GatewayView {
        if self.reliability.shadow_mode.enabled && self.predictive.shadow_config.enabled {
            GatewayView {
                health: self.health.map(
                    |i: int, health: HealthView|
                        if self.mirrors(i as usize, now) {
                            health.after_snapshot(now)
                        } else {
                            health
                        },
                ),
                predictive: self.predictive.promoting_all(now),
                ..self
            }
        } else {
            self
        }
    }
}

impl Gateway {
    /// Reports on all providers now.
    pub fn provider_health(&mut self) -> (views: Vec<ProviderHealthView>)
        requires
            old(self).wf(),
        ensures
            final(self).wf(),
            exists|now: Moment|
                final(self)@ == #[trigger] old(self)@.after_assessment(now) && views@.len()
                    == old(self)@.configs.len() && forall|i: int|
                    0 <= i < views@.len() ==> old(self)@.reports(i, now, #[trigger] views@[i]),
    {
        let now: Moment = self.clock.now();
        self.provider_health_at(now)
    }

    /// Reports on all providers at the given time.
    pub fn provider_health_at(&mut self, now: Moment) -> (views: Vec<ProviderHealthView>)
        requires
            old(self).wf(),
        ensures
            final(self).wf(),
            final(self)@ == old(self)@.after_assessment(now),
            views@.len() == old(self)@.configs.len(),
            forall|i: int|
                0 <= i < views@.len() ==> old(self)@.reports(i, now, #[trigger] views@[i]),
    {
        let assessments: Vec<ProviderAssessment> = self.assess_providers_at(now);
        let mut views: Vec<ProviderHealthView> = Vec::new();
        let mut i: usize = 0;
        while i < assessments.len()
            invariant
                i <= assessments@.len(),
                assessments@.len() == old(self)@.configs.len(),
                self.providers@.len() == old(self)@.configs.len(),
                configs_of(self.providers@) == old(self)@.configs,
                assessments@ == old(self)@.assessments(now),
                views@.len() == i,
                forall|k: int|
                    0 <= k < i ==> old(self)@.reports(k, now, #[trigger] views@[k]),
            decreases assessments@.len() - i,
        {
            assert(configs_of(self.providers@)[i as int] == self.providers@[i as int].config);
            views.push(
                ProviderHealthView {
                    name: self.providers[i].config.name.clone(),
                    url: self.providers[i].config.url.clone(),
                    snapshot: assessments[i].snapshot,
                    predictive: assessments[i].scoring.view,
                },
            );
            i = i + 1;
        }
        views
    }

    /// Looks now at the providers that requests are to be mirrored to.
    pub fn assess_mirrors(&mut self) -> (assessments: Vec<ProviderAssessment>)
        requires
            old(self).wf(),
        ensures
            final(self).wf(),
            exists|now: Moment|
                final(self)@ == #[trigger] old(self)@.after_mirror_assessment(now) && assessments@
                    == (if old(self)@.reliability.shadow_mode.enabled {
                    old(self)@.mirror_assessments(old(self)@.configs.len(), now)
                } else {
                    Seq::empty()
                }),
    {
        let now: Moment = self.clock.now();
        self.assess_mirrors_at(now)
    }

    /// Looks at the given time at the providers that requests are to be mirrored
    /// to.
    pub fn assess_mirrors_at(&mut self, now: Moment) -> (assessments: Vec<ProviderAssessment>)
        requires
            old(self).wf(),
        ensures
            final(self).wf(),
            final(self)@ == old(self)@.after_mirror_assessment(now),
            assessments@ == (if old(self)@.reliability.shadow_mode.enabled {
                old(self)@.mirror_assessments(old(self)@.configs.len(), now)
            } else {
                Seq::empty()
            }),
    {
        let mut assessments: Vec<ProviderAssessment> = Vec::new();
        if !self.reliability.shadow_mode.enabled {
            assert(assessments@ =~= Seq::empty());
            return assessments;
        }
        let ghost before = self@;
        let ghost after = before.after_mirror_assessment(now);
        let mut i: usize = 0;
        while i < self.providers.len()
            invariant
                before == old(self)@,
                before.is_complete(),
                before.reliability.shadow_mode.enabled,
                after == before.after_mirror_assessment(now),
                self.wf(),
                i <= self.providers@.len(),
                self.providers@.len() == before.configs.len(),
                self@ == (GatewayView {
                    health: self@.health,
                    predictive: PredictiveView {
                        providers: self@.predictive.providers,
                        ..before.predictive
                    },
                    ..before
                }),
                self@.health.len() == before.configs.len(),
                self@.predictive.providers.len() == before.configs.len(),
                forall|k: int|
                    0 <= k < before.configs.len() ==> #[trigger] self@.health[k] == if k < i {
                        after.health[k]
                    } else {
                        before.health[k]
                    },
                forall|k: int|
                    0 <= k < before.configs.len() ==> #[trigger] self@.predictive.providers[k]
                        == if k < i {
                        after.predictive.providers[k]
                    } else {
                        before.predictive.providers[k]
                    },
                assessments@ == before.mirror_assessments(i as nat, now),
            decreases self.providers@.len() - i,
        {
            let ghost this = self@;
            proof {
                assert(this.health[i as int] == before.health[i as int]);
                assert(this.predictive.providers[i as int]
                    == before.predictive.providers[i as int]);
            }
            if self.predictive_scoring.should_mirror_provider_at(i, now) {
                let ghost promoted = self@;
                proof {
                    assert(promoted.predictive.providers =~= this.predictive.providers.update(
                        i as int,
                        after.predictive.providers[i as int],
                    ));
                    lemma_same_furthest_block(
                        promoted.predictive.providers,
                        before.predictive.providers,
                    );
                }
                let weight: u32 = self.providers[i].config.weight;
                let snapshot: ProviderHealthSnapshot = self.providers[i].health.snapshot_at(
                    weight,
                    now,
                );
                let scoring = self.predictive_scoring.score_provider_at(
                    i,
                    &snapshot,
                    weight,
                    now,
                );
                assessments.push(ProviderAssessment { index: i, snapshot, scoring });
                proof {
                    lemma_promotion_is_idempotent(before.predictive.providers[i as int], now);
                    assert(scoring == before.assessment(i as int, now).scoring);
                    assert(self@.configs =~= this.configs);
                    assert(self@.health =~= this.health.update(i as int, after.health[i as int]));
                }
            }
            i = i + 1;
        }
        proof {
            assert(self@.health =~= after.health);
            assert(self@.predictive.providers =~= after.predictive.providers);
            assert(self@ =~= after);
        }
        assessments
    }
}

proof fn lemma_promotion_is_idempotent(provider: ProviderPredictiveState, now: Moment)
    ensures
        provider.shadow.promoted_if_ready(now).promoted_if_ready(now)
            == provider.shadow.promoted_if_ready(now),
{
}

impl GatewayView {
    /// How long a call of a provider may take, in milliseconds.
    pub open spec fn call_timeout_ms(self, index: usize) -> nat {
        match self.configs[index as int].timeout_ms {
            Some(millis) => millis as nat,
            None => self.reliability.request_timeout_ms as nat,
        }
    }

    /// The gateway when something else is known of a provider's health.
    pub open spec fn with_health(self, index: usize, health: HealthView) -> GatewayView {
        GatewayView { health: self.health.update(index as int, health), ..self }
    }

    /// The gateway after a call of a provider succeeded or failed.
    pub open spec fn after_call(self, index: usize, success: bool, now: Moment) -> GatewayView {
        let health = self.health[index as int];
        self.with_health(
            index,
            if success {
                health.after_success(now)
            } else {
                health.after_failure(now)
            },
        )
    }

    /// Whether a call that ended so comes to this result.
    pub open spec fn judges(
        self,
        index: usize,
        outcome: CallOutcome,
        result: Result<CallSuccess, ProviderFailure>,
    ) -> bool {
        is_call_result(
            self.configs[index as int].name@,
            index,
            self.call_timeout_ms(index),
            outcome,
            result,
        )
    }

    /// The gateway when it has kept how long a provider took.
    pub open spec fn after_latency(self, success: CallSuccess) -> GatewayView {
        GatewayView {
            adaptive: self.adaptive.after_latency(
                success.provider_index,
                duration_millis(success.latency) as u64,
            ),
            ..self
        }
    }

    /// Whether a method asks for the latest block.
    pub open spec fn asks_for_block(self, method: Option<Seq<char>>) -> bool {
        &&& method is Some
        &&& lowercase(method->0) == lowercase(
            self.reliability.predictive_scoring.block_lag_method@,
        )
    }

    /// The gateway when it has kept what an answer tells of its provider: how
    /// long it took, how much of the rate limit is left, and, where that was asked
    /// for, what the latest block is.
    pub open spec fn after_answer(
        self,
        success: CallSuccess,
        method: Option<Seq<char>>,
        block: Option<u64>,
    ) -> GatewayView {
        let index = success.provider_index;
        let limited = match success.rate_limit_headroom {
            Some(headroom) => self.predictive.after_headroom(index, headroom),
            None => self.predictive,
        };
        GatewayView {
            predictive: if self.asks_for_block(method) && block is Some {
                limited.after_block(index, block->0)
            } else {
                limited
            },
            ..self.after_latency(success)
        }
    }

    /// The gateway after an answer, by what its body holds.
    pub open spec fn after_success(
        self,
        success: CallSuccess,
        method: Option<Seq<char>>,
    ) -> GatewayView {
        self.after_answer(success, method, body_block_number(bytes_contents(success.body)))
    }
}

impl Gateway {
    /// How long a call of a provider may take.
    pub fn call_timeout(&self, provider_index: usize) -> (timeout: Duration)
        requires
            self.wf(),
            provider_index < self@.configs.len(),
        ensures
            duration_nanos(timeout) == self@.call_timeout_ms(provider_index) * NANOS_PER_MILLI,
    {
        assert(configs_of(self.providers@)[provider_index as int]
            == self.providers@[provider_index as int].config);
        self.providers[provider_index].config.timeout_or_default(
            self.reliability.request_timeout(),
        )
    }

    /// Takes in how a call of a provider ended now.
    pub fn conclude_call(&mut self, provider_index: usize, outcome: CallOutcome) -> (result: Result<
        CallSuccess,
        ProviderFailure,
    >)
        requires
            old(self).wf(),
            provider_index < old(self)@.configs.len(),
        ensures
            final(self).wf(),
            old(self)@.judges(provider_index, outcome, result),
            exists|now: Moment|
                final(self)@ == #[trigger] old(self)@.after_call(provider_index, result is Ok, now),
    {
        let now: Moment = self.clock.now();
        self.conclude_call_at(provider_index, outcome, now)
    }

    /// Takes in how a call of a provider ended at the given time: the provider's
    /// health goes by it.
    pub fn conclude_call_at(&mut self, provider_index: usize, outcome: CallOutcome, now: Moment) -> (result:
        Result<CallSuccess, ProviderFailure>)
        requires
            old(self).wf(),
            provider_index < old(self)@.configs.len(),
        ensures
            final(self).wf(),
            old(self)@.judges(provider_index, outcome, result),
            final(self)@ == old(self)@.after_call(provider_index, result is Ok, now),
    {
        let timeout: Duration = self.call_timeout(provider_index);
        assert(configs_of(self.providers@)[provider_index as int]
            == self.providers@[provider_index as int].config);
        let result: Result<CallSuccess, ProviderFailure> = judge_call(
            self.providers[provider_index].config.name.as_str(),
            provider_index,
            timeout,
            outcome,
        );
        if result.is_ok() {
            self.providers[provider_index].health.record_success_at(now);
        } else {
            self.providers[provider_index].health.record_failure_at(now);
        }
        proof {
            assert(self@.configs =~= old(self)@.configs);
            assert(self@.health =~= old(self)@.after_call(
                provider_index,
                result is Ok,
                now,
            ).health);
        }
        result
    }

    /// Keeps what an answer tells of its provider.
    pub fn record_success_telemetry(&mut self, success: &CallSuccess, rpc_method: Option<&str>)
        requires
            old(self).wf(),
        ensures
            final(self).wf(),
            final(self)@ == old(self)@.after_success(*success, method_view(rpc_method)),
    {
        let asked: bool = match rpc_method {
            Some(method) => same_ignoring_case(
                method,
                self.reliability.predictive_scoring.block_lag_method.as_str(),
            ),
            None => false,
        };
        let block: Option<u64> = if asked {
            parse_block_number_from_rpc_body(as_slice(&success.body))
        } else {
            None
        };
        self.record_answer(success, rpc_method, block);
    }

    /// Keeps what an answer tells of its provider, given the block number that it
    /// holds.
    pub fn record_answer(&mut self, success: &CallSuccess, rpc_method: Option<&str>, block: Option<u64>)
        requires
            old(self).wf(),
        ensures
            final(self).wf(),
            final(self)@ == old(self)@.after_answer(*success, method_view(rpc_method), block),
    {
        self.adaptive_hedging.record_provider_latency(success.provider_index, success.latency);
        if let Some(headroom) = success.rate_limit_headroom {
            self.predictive_scoring.record_rate_limit_headroom(success.provider_index, headroom);
        }
        if let Some(method) = rpc_method {
            if same_ignoring_case(
                method,
                self.reliability.predictive_scoring.block_lag_method.as_str(),
            ) {
                if let Some(number) = block {
                    self.predictive_scoring.record_block_height(success.provider_index, number);
                }
            }
        }
    }

    /// Takes in now how a call of a provider ended, and keeps what an answer tells
    /// of it.
    pub fn call_provider(
        &mut self,
        provider_index: usize,
        outcome: CallOutcome,
        rpc_method: Option<&str>,
    ) -> (result: Result<CallSuccess, ProviderFailure>)
        requires
            old(self).wf(),
            provider_index < old(self)@.configs.len(),
        ensures
            final(self).wf(),
            old(self)@.judges(provider_index, outcome, result),
            exists|now: Moment|
                final(self)@ == {
                    let called = #[trigger] old(self)@.after_call(
                        provider_index,
                        result is Ok,
                        now,
                    );
                    match result {
                        Ok(success) => called.after_success(success, method_view(rpc_method)),
                        Err(_) => called,
                    }
                },
    {
        let result: Result<CallSuccess, ProviderFailure> = self.conclude_call(
            provider_index,
            outcome,
        );
        if let Ok(success) = &result {
            self.record_success_telemetry(success, rpc_method);
        }
        result
    }

    /// A provider in shadow mode is observed now.
    pub fn record_shadow_observation(&mut self, provider_index: usize)
        requires
            old(self).wf(),
        ensures
            final(self).wf(),
            exists|now: Moment|
                final(self)@ == (GatewayView {
                    predictive: #[trigger] old(self)@.predictive.after_observation(
                        provider_index,
                        now,
                    ),
                    ..old(self)@
                }),
    {
        self.predictive_scoring.record_shadow_observation(provider_index);
    }
}

impl GatewayView {
    /// The gateway after a probe of a provider that told so much of its rate
    /// limit.
    pub open spec fn probed(
        self,
        index: usize,
        success: bool,
        headroom: Option<RateLimitHeadroom>,
        now: Moment,
    ) -> GatewayView {
        GatewayView {
            predictive: match headroom {
                Some(h) => self.predictive.after_headroom(index, h),
                None => self.predictive,
            },
            ..self.after_call(index, success, now)
        }
    }

    /// Whether the gateway is left so after a probe of a provider. What a healthy
    /// one tells of its rate limit is kept.
    pub open spec fn after_probe(
        self,
        index: usize,
        outcome: ProbeOutcome,
        now: Moment,
        after: GatewayView,
    ) -> bool {
        exists|headroom: Option<RateLimitHeadroom>|
            after == #[trigger] self.probed(index, probe_succeeded(outcome), headroom, now)
                && if probe_succeeded(outcome) {
                is_headroom(outcome->headers@, headroom)
            } else {
                headroom is None
            }
    }

    /// The providers that a request may be tried on.
    pub open spec fn candidates(self, ranked: Seq<usize>) -> Seq<usize> {
        attempt_candidates(self.reliability, ranked)
    }

    /// Whether the width of a race among the candidates is decided on.
    pub open spec fn decides_width(self, candidates: Seq<usize>) -> bool {
        self.reliability.adaptive_hedging.enabled && candidates.len() >= 2
    }

    /// The gateway when a request has been started on the ranked providers.
    pub open spec fn after_start(self, ranked: Seq<usize>, now: u128) -> GatewayView {
        if self.decides_width(self.candidates(ranked)) {
            GatewayView {
                adaptive: self.adaptive.after_decision(self.candidates(ranked), now),
                ..self
            }
        } else {
            self
        }
    }

    /// Whether a request is started with this step on the ranked providers.
    pub open spec fn starts_dispatch(self, ranked: Seq<usize>, now: u128, step: DispatchStep) -> bool {
        let candidates = self.candidates(ranked);
        starts(
            self.reliability,
            candidates,
            if self.decides_width(candidates) {
                self.adaptive.decision(candidates, now).0
            } else {
                1
            },
            step,
        )
    }

    /// The gateway when a race has ended. A request is counted as hedged where
    /// calls were under way at the same time and one of them was answered.
    pub open spec fn after_race(
        self,
        preferred: usize,
        outcome: Result<HedgedOutcome, LostRace>,
    ) -> GatewayView {
        match outcome {
            Ok(won) => if won.hedged {
                GatewayView {
                    adaptive: self.adaptive.after_outcome(preferred, won.success.provider_index),
                    ..self
                }
            } else {
                self
            },
            Err(_) => self,
        }
    }
}

impl Gateway {
    /// Takes in now how a probe of a provider ended.
    pub fn probe_provider(&mut self, provider_index: usize, outcome: ProbeOutcome) -> (verdict:
        ProbeVerdict)
        requires
            old(self).wf(),
            provider_index < old(self)@.configs.len(),
        ensures
            final(self).wf(),
            is_probe_verdict(outcome, verdict),
            exists|now: Moment| #[trigger]
                old(self)@.after_probe(provider_index, outcome, now, final(self)@),
    {
        let now: Moment = self.clock.now();
        self.probe_provider_at(provider_index, outcome, now)
    }

    /// Takes in at the given time how a probe of a provider ended: the provider's
    /// health goes by it, and what a healthy one says of its rate limit is kept.
    pub fn probe_provider_at(&mut self, provider_index: usize, outcome: ProbeOutcome, now: Moment) -> (verdict:
        ProbeVerdict)
        requires
            old(self).wf(),
            provider_index < old(self)@.configs.len(),
        ensures
            final(self).wf(),
            is_probe_verdict(outcome, verdict),
            old(self)@.after_probe(provider_index, outcome, now, final(self)@),
    {
        let verdict: ProbeVerdict = judge_probe(&outcome);
        let mut headroom: Option<RateLimitHeadroom> = None;
        let mut success: bool = false;
        if let ProbeOutcome::Answered { status: _, headers, body: _ } = &outcome {
            if let ProbeVerdict::Healthy = &verdict {
                success = true;
                headroom = self.predictive_scoring.record_rate_limit_headers(
                    provider_index,
                    headers,
                );
            }
        }
        if success {
            self.providers[provider_index].health.record_success_at(now);
        } else {
            self.providers[provider_index].health.record_failure_at(now);
        }
        proof {
            assert(success == probe_succeeded(outcome));
            let called = old(self)@.after_call(provider_index, success, now);
            assert(self@.configs =~= called.configs);
            assert(self@.health =~= called.health);
            assert(self@ =~= old(self)@.probed(provider_index, success, headroom, now));
        }
        verdict
    }

    /// Starts a request now on the ranked providers.
    pub fn dispatch_with_reliability(&mut self, ranked: &Vec<usize>) -> (step: DispatchStep)
        requires
            old(self).wf(),
        ensures
            final(self).wf(),
            exists|now: u128|
                final(self)@ == #[trigger] old(self)@.after_start(ranked@, now)
                    && old(self)@.starts_dispatch(ranked@, now, step),
    {
        let now: Moment = self.clock.now();
        self.dispatch_with_reliability_at(ranked, now.monotonic_ns)
    }

    /// Starts a request at the given time on the ranked providers.
    pub fn dispatch_with_reliability_at(&mut self, ranked: &Vec<usize>, now_ns: u128) -> (step:
        DispatchStep)
        requires
            old(self).wf(),
        ensures
            final(self).wf(),
            final(self)@ == old(self)@.after_start(ranked@, now_ns),
            old(self)@.starts_dispatch(ranked@, now_ns, step),
    {
        let candidates: Vec<usize> = choose_candidates(&self.reliability, ranked);
        let mut width: usize = 1;
        if self.reliability.adaptive_hedging.enabled && candidates.len() >= 2 {
            let decision: HedgeDecision = self.adaptive_hedging.decide_hedge_width_at(
                candidates.as_slice(),
                now_ns,
            );
            width = decision.hedge_width;
        }
        ReliabilityDispatch::start(&self.reliability, candidates, width)
    }

    /// Takes in how a race of the first `width` candidates ended.
    pub fn conclude_race(
        &mut self,
        dispatch: ReliabilityDispatch,
        width: usize,
        outcome: Result<HedgedOutcome, LostRace>,
    ) -> (step: DispatchStep)
        requires
            old(self).wf(),
            dispatch.tried == 0,
            dispatch.failures@.len() == 0,
            0 < width <= dispatch.candidates@.len(),
            outcome matches Err(lost) ==> lost.failures@.len() <= width,
        ensures
            final(self).wf(),
            final(self)@ == old(self)@.after_race(dispatch.candidates@[0], outcome),
            (match outcome {
                Ok(won) => passes_on_winner(won, step),
                Err(lost) => dispatch@.after_lost_race(
                    width as nat,
                    lost.raced,
                    lost.failures@,
                ).goes_on(step),
            }),
    {
        if let Ok(won) = &outcome {
            if won.hedged {
                self.adaptive_hedging.record_hedge_outcome(
                    dispatch.candidates[0],
                    won.success.provider_index,
                );
            }
        }
        dispatch.after_race(width, outcome)
    }

    /// Takes in what one of several calls made at once came to: how long the
    /// winner took is kept.
    pub fn attempt_parallel_hedged(&mut self, hedge: ParallelHedge, arrival: CallArrival) -> (step:
        ParallelStep)
        requires
            old(self).wf(),
            hedge.is_running(),
        ensures
            final(self).wf(),
            hedge.steps(arrival, step),
            final(self)@ == (match arrival {
                CallArrival::Answered(success) => old(self)@.after_latency(success),
                _ => old(self)@,
            }),
    {
        if let CallArrival::Answered(success) = &arrival {
            self.adaptive_hedging.record_provider_latency(success.provider_index, success.latency);
        }
        hedge.step(arrival)
    }

    /// Chooses the providers that are to agree on an answer.
    pub fn dispatch_with_consensus_validation(&self, ranked: &Vec<usize>) -> (plan: ValidationPlan)
        ensures
            is_validation_plan(self@.reliability.consensus_validation, ranked@, plan),
    {
        plan_validation(&self.reliability.consensus_validation, ranked)
    }

    /// Takes in what one of the calls came to that are to agree: what an answer
    /// tells of its provider is kept.
    pub fn record_vote(
        &mut self,
        round: &mut ValidationRound,
        arrival: CallArrival,
        rpc_method: Option<&str>,
    )
        requires
            old(self).wf(),
        ensures
            final(self).wf(),
            final(self)@ == (match arrival {
                CallArrival::Answered(success) => old(self)@.after_success(
                    success,
                    method_view(rpc_method),
                ),
                _ => old(self)@,
            }),
            records_arrival(*old(round), arrival, *final(round)),
    {
        if let CallArrival::Answered(success) = &arrival {
            self.record_success_telemetry(success, rpc_method);
        }
        round.record(arrival);
    }

    /// Concludes whether the providers agree, and passes on what they agree on.
    pub fn conclude_consensus(&self, rpc_method: Option<&str>, round: ValidationRound) -> (result: Result<
        GatewayResponse,
        DispatchError,
    >)
        ensures
            vote_outcome(
                result,
                self@.reliability.consensus_validation.fail_open,
                method_view(rpc_method),
                round,
                fingerprints(method_view(rpc_method), round.successes@),
            ),
    {
        conclude_validation(
            self.reliability.consensus_validation.fail_open,
            rpc_method,
            round,
        )
    }
}

impl Gateway {
    /// How many providers there are.
    pub fn provider_count(&self) -> (count: usize)
        requires
            self.wf(),
        ensures
            count == self@.configs.len(),
    {
        self.providers.len()
    }

    /// How a provider is configured.
    pub fn provider_config(&self, provider_index: usize) -> (config: &ProviderConfig)
        requires
            self.wf(),
            provider_index < self@.configs.len(),
        ensures
            *config == self@.configs[provider_index as int],
    {
        assert(configs_of(self.providers@)[provider_index as int]
            == self.providers@[provider_index as int].config);
        &self.providers[provider_index].config
    }

    /// How requests are dispatched and providers judged.
    pub fn reliability(&self) -> (config: &ReliabilityConfig)
        ensures
            *config == self@.reliability,
    {
        &self.reliability
    }

    /// The request that probes a provider's health.
    pub fn probe_payload(&self) -> (payload: Bytes)
        ensures
            bytes_contents(payload) == self@.probe_payload,
    {
        self.probe_payload.clone()
    }

    /// The request that asks a provider for its latest block.
    pub fn block_lag_probe_payload(&self) -> (payload: Bytes)
        ensures
            bytes_contents(payload) == self@.block_lag_payload,
    {
        self.block_lag_probe_payload.clone()
    }

    /// Whether providers are to be asked for their latest blocks, and how often.
    pub fn block_lag_polling(&self) -> (interval: Option<Duration>)
        ensures
            interval is Some <==> self@.predictive.enabled,
            interval matches Some(i) ==> duration_nanos(i)
                == self@.predictive.poll_interval_secs * NANOS_PER_SEC,
    {
        if self.predictive_scoring.predictive_enabled() {
            Some(self.predictive_scoring.block_lag_poll_interval())
        } else {
            None
        }
    }
}

/// What was answered once is answered from the cache until it expires: the next
/// identical request, its method named in whatever case, gets the same body of
/// the same provider, without any attempt upstream.
pub proof fn kept_answers_are_served(
    before: GatewayView,
    plan: RequestPlan,
    result: Result<GatewayResponse, DispatchError>,
    now: Moment,
    after: GatewayView,
    method: Seq<char>,
    other_method: Seq<char>,
    body: Bytes,
    later: Moment,
    last: GatewayView,
    step: RequestStep,
)
    requires
        before.plans(plan.body, Some(method), plan),
        before.keeps_response(plan, result),
        before.completes(plan, result, now, after),
        lowercase(other_method) == lowercase(method),
        bytes_contents(body) == bytes_contents(plan.body),
        later.unix_ms < expiry(now.unix_ms, plan.cache_plan->0.ttl),
        after.routes(body, Some(other_method), later, last, step),
    ensures
        step is Respond,
        step->Respond_0.body == result->Ok_0.body,
        step->Respond_0.provider == result->Ok_0.provider,
        step->Respond_0.cache_hit,
        step->Respond_0.attempts == 0,
        step->Respond_0.hedge_width == 0,
        step->Respond_0.cached_at_unix_ms == Some(now.unix_ms),
        step->Respond_0.consensus_critical == before.policy(Some(method)).consensus_critical,
{
    assert(request_key(other_method, bytes_contents(body)) == request_key(
        method,
        bytes_contents(plan.body),
    ));
    assert(after.kept(Some(other_method), bytes_contents(body), later) == Some(
        cached(
            result->Ok_0.body,
            result->Ok_0.provider,
            plan.cache_plan->0.ttl,
            now.unix_ms,
        ),
    ));
}

/// An answer on which providers must agree, and did not, is not kept.
pub proof fn unvalidated_answers_are_not_kept(
    before: GatewayView,
    plan: RequestPlan,
    result: Result<GatewayResponse, DispatchError>,
    now: Moment,
    after: GatewayView,
)
    requires
        before.must_validate(plan.policy),
        result is Ok ==> !result->Ok_0.consensus_validated,
        before.completes(plan, result, now, after),
    ensures
        after == before,
{
}

/// While a request is under way that others may join, an identical one that
/// nothing is kept for joins it.
pub proof fn identical_requests_share(
    before: GatewayView,
    body: Bytes,
    method: Option<Seq<char>>,
    now: Moment,
    after: GatewayView,
    step: RequestStep,
    later: Moment,
    last: GatewayView,
    next: RequestStep,
)
    requires
        before.routes(body, method, now, after, step),
        step is Dispatch,
        step->Dispatch_0.leads is Some,
        after.routes(body, method, later, last, next),
        after.kept(method, bytes_contents(body), later) is None,
    ensures
        next is Join,
        next->Join_0.key@ == step->Dispatch_0.leads->0.key@,
        next->Join_0.number == step->Dispatch_0.leads->0.number,
        last.coalescer.in_flight == after.coalescer.in_flight,
{
}

/// A request for a method of which nothing is known is dispatched on its own, and
/// its answer is not kept, unless the configuration lists methods to be cached or
/// names a lifetime for this one.
pub proof fn unknown_methods_are_always_dispatched(
    before: GatewayView,
    body: Bytes,
    method: Seq<char>,
    now: Moment,
    after: GatewayView,
    step: RequestStep,
)
    requires
        before.policy(Some(method)) == unknown_policy(),
        before.cache_policy.cacheable_methods.len() == 0,
        !before.cache_policy.method_ttl_secs.contains_key(lowercase(method)),
        before.routes(body, Some(method), now, after, step),
    ensures
        step is Dispatch,
        step->Dispatch_0.leads is None,
        step->Dispatch_0.cache_plan is None,
        after.cache == before.cache,
        after.coalescer == before.coalescer,
{
}

/// Each provider in service is ranked once, and only configured providers are: a
/// ranking by whatever scores names no provider twice.
pub proof fn providers_are_ranked_once(gateway: GatewayView, now: Moment, scores: Seq<i64>)
    requires
        gateway.configs.len() <= usize::MAX,
    ensures
        ranking(scored(gateway.rank_candidates(now), scores)).no_duplicates(),
        forall|k: int|
            0 <= k < gateway.rank_candidates(now).len() ==> (#[trigger] gateway.rank_candidates(
                now,
            )[k]).assessment.index < gateway.configs.len(),
{
    let all = gateway.assessments(now);
    service_keeps_order(all);
    let kept = in_service(all);
    let entries = scored(gateway.rank_candidates(now), scores);
    assert forall|k: int| 0 <= k < kept.len() implies (#[trigger] kept[k]).index
        < gateway.configs.len() by {
        let i = choose|i: int| 0 <= i < all.len() && all[i] == kept[k];
        assert(all[i].index == i);
    }
    assert forall|i: int, k: int| 0 <= i < k < entries.len() implies (#[trigger] entries[i]).index
        != (#[trigger] entries[k]).index by {
        assert(kept[i].index < kept[k].index);
    }
    lemma_service_is_no_larger(all);
    none_is_ranked_twice(entries);
}

/// A provider that is not in service yet is not ranked, by whatever scores, and be
/// it that no other one is: requests are not routed to it.
pub proof fn unpromoted_providers_are_not_ranked(
    gateway: GatewayView,
    now: Moment,
    scores: Seq<i64>,
    index: usize,
)
    requires
        gateway.configs.len() <= usize::MAX,
        gateway.is_complete(),
        index < gateway.configs.len(),
        !gateway.predictive.providers[index as int].shadow.promoted_if_ready(now).promoted,
    ensures
        !ranking(scored(gateway.rank_candidates(now), scores)).contains(index),
{
    let all = gateway.assessments(now);
    let kept = in_service(all);
    let entries = scored(gateway.rank_candidates(now), scores);
    lemma_service_is_no_larger(all);
    service_keeps_order(all);
    assert forall|k: int| 0 <= k < entries.len() implies (#[trigger] entries[k]).index != index by {
        shadow_providers_are_excluded(all, k);
        let i = choose|i: int| 0 <= i < all.len() && all[i] == kept[k];
        assert(all[i].index == i);
    }
    ranking_covers_all(entries, index);
}

proof fn lemma_service_is_no_larger(assessments: Seq<ProviderAssessment>)
    ensures
        in_service(assessments).len() <= assessments.len(),
{
    assessments.lemma_filter_len(
        |assessment: ProviderAssessment| assessment.scoring.is_live,
    );
}

/// Every answer on which providers agreed is kept where there is a cache and the
/// request has a plan, however the request is classified; and so is every answer to
/// a request that need not be validated, because it is not critical or because
/// validation is off. It is kept under the key of the request, with its body and its
/// provider, from now on and for the seconds that are planned.
pub proof fn answers_that_may_be_trusted_are_kept(
    before: GatewayView,
    plan: RequestPlan,
    response: GatewayResponse,
    now: Moment,
    after: GatewayView,
    method: Seq<char>,
    ttl_secs: nat,
)
    requires
        before.plans(plan.body, Some(method), plan),
        before.completes(plan, Ok(response), now, after),
        before.cache is Some,
        plan.cache_plan is Some,
        response.consensus_validated || !plan.policy.consensus_critical
            || !before.reliability.consensus_validation.enabled,
        before.cache_policy.planned_ttl(Some(method), plan.policy.cacheable_by_default) == Some(
            ttl_secs,
        ),
        now.unix_ms + ttl_secs * 1_000 <= u128::MAX,
    ensures
        ({
            let key = request_key(method, bytes_contents(plan.body));
            let entries = after.cache->0.entries;
            &&& after.cache is Some
            &&& entries.contains_key(key)
            &&& entries[key].body == response.body
            &&& entries[key].provider == response.provider
            &&& entries[key].cached_at_unix_ms == now.unix_ms
            &&& entries[key].expires_at_unix_ms == now.unix_ms + ttl_secs * 1_000
        }),
{
    lifetimes_are_counted_in_seconds(now.unix_ms, plan.cache_plan->0.ttl, ttl_secs);
}

/// Until then the next identical request, its method named in whatever case, is
/// answered with it, without any attempt upstream.
pub proof fn trusted_answers_are_served_again(
    before: GatewayView,
    plan: RequestPlan,
    response: GatewayResponse,
    now: Moment,
    after: GatewayView,
    method: Seq<char>,
    ttl_secs: nat,
    body: Bytes,
    other_method: Seq<char>,
    later: Moment,
    last: GatewayView,
    step: RequestStep,
)
    requires
        before.plans(plan.body, Some(method), plan),
        before.completes(plan, Ok(response), now, after),
        before.cache is Some,
        plan.cache_plan is Some,
        response.consensus_validated || !plan.policy.consensus_critical
            || !before.reliability.consensus_validation.enabled,
        before.cache_policy.planned_ttl(Some(method), plan.policy.cacheable_by_default) == Some(
            ttl_secs,
        ),
        now.unix_ms + ttl_secs * 1_000 <= u128::MAX,
        bytes_contents(body) == bytes_contents(plan.body),
        lowercase(other_method) == lowercase(method),
        later.unix_ms < now.unix_ms + ttl_secs * 1_000,
        after.routes(body, Some(other_method), later, last, step),
    ensures
        step is Respond,
        step->Respond_0.body == response.body,
        step->Respond_0.provider == response.provider,
        step->Respond_0.cache_hit,
        step->Respond_0.cached_at_unix_ms == Some(now.unix_ms),
        step->Respond_0.attempts == 0,
        last.coalescer == after.coalescer,
{
    lifetimes_are_counted_in_seconds(now.unix_ms, plan.cache_plan->0.ttl, ttl_secs);
    kept_answers_are_served(
        before,
        plan,
        Ok(response),
        now,
        after,
        method,
        other_method,
        body,
        later,
        last,
        step,
    );
}

/// Nothing is kept of a request that failed, that has no plan or on whose answer
/// providers must agree and did not, or where there is no cache. Whatever is kept,
/// nothing but the cache changes when a request has its result.
pub proof fn other_answers_are_not_kept(
    before: GatewayView,
    plan: RequestPlan,
    result: Result<GatewayResponse, DispatchError>,
    now: Moment,
    after: GatewayView,
)
    requires
        before.completes(plan, result, now, after),
    ensures
        result is Err ==> after == before,
        before.cache is None ==> after == before,
        plan.cache_plan is None ==> after == before,
        result is Ok && !result->Ok_0.consensus_validated && plan.policy.consensus_critical
            && before.reliability.consensus_validation.enabled ==> after == before,
        after == (GatewayView { cache: after.cache, ..before }),
{
}

/// The result of a request is passed on as it is, an answer with the note that it
/// does not come from the cache and with how its request is classified.
pub proof fn results_are_passed_on(
    result: Result<GatewayResponse, DispatchError>,
    critical: bool,
)
    ensures
        result is Err ==> classified(result, critical) == result,
        result matches Ok(response) ==> {
            let passed = classified(result, critical);
            &&& passed is Ok
            &&& !passed->Ok_0.cache_hit
            &&& passed->Ok_0.consensus_critical == critical
            &&& passed->Ok_0.body == response.body
            &&& passed->Ok_0.provider == response.provider
            &&& passed->Ok_0.attempts == response.attempts
            &&& passed->Ok_0.hedged == response.hedged
            &&& passed->Ok_0.hedge_width == response.hedge_width
            &&& passed->Ok_0.cached_at_unix_ms == response.cached_at_unix_ms
            &&& passed->Ok_0.coalesced == response.coalesced
            &&& passed->Ok_0.consensus_checked == response.consensus_checked
            &&& passed->Ok_0.consensus_validated == response.consensus_validated
            &&& passed->Ok_0.consensus_agreement == response.consensus_agreement
        },
{
}

/// Providers must agree on the answer to a request exactly if the request is
/// critical and validation is on.
pub proof fn critical_requests_are_validated(gateway: GatewayView, policy: SolanaMethodPolicy)
    ensures
        gateway.must_validate(policy) <==> policy.consensus_critical
            && gateway.reliability.consensus_validation.enabled,
{
}

/// A request whose answers are not cacheable by default never joins another one, and
/// none joins it: unless something is kept for it, it is dispatched on its own, and
/// no track is kept of it.
pub proof fn requests_that_are_not_cacheable_are_not_shared(
    before: GatewayView,
    body: Bytes,
    method: Option<Seq<char>>,
    now: Moment,
    after: GatewayView,
    step: RequestStep,
)
    requires
        before.routes(body, method, now, after, step),
        !request_policy(before.method_policy, method).cacheable_by_default,
    ensures
        after.coalescer == before.coalescer,
        step !is Join,
        step is Dispatch ==> step->Dispatch_0.leads is None && step->Dispatch_0.body == body,
        before.cache is None || !before.cache->0.entries.contains_key(
            request_key(method->0, bytes_contents(body)),
        ) ==> step is Dispatch,
{
}

/// Requests that write are never shared: two identical ones are both dispatched,
/// each on its own. These methods are the ones that are built in as not cacheable,
/// named in whatever case, and what is said here of them holds where they are not
/// overridden and no lifetime is configured for them.
pub proof fn writes_are_never_shared(
    before: GatewayView,
    entries: Seq<(String, MethodPolicyOverride)>,
    body: Bytes,
    method: Seq<char>,
    now: Moment,
    after: GatewayView,
    step: RequestStep,
    later: Moment,
    last: GatewayView,
    next: RequestStep,
)
    requires
        before.method_policy == override_table(entries),
        forall|i: int|
            0 <= i < entries.len() ==> lowercase((#[trigger] entries[i]).0@) != lowercase(method),
        lowercase(method) == "sendtransaction"@ || lowercase(method) == "sendrawtransaction"@
            || lowercase(method) == "requestairdrop"@ || lowercase(method)
            == "simulatetransaction"@,
        before.cache_policy.cacheable_methods.len() == 0,
        !before.cache_policy.method_ttl_secs.contains_key(lowercase(method)),
        before.routes(body, Some(method), now, after, step),
        after.routes(body, Some(method), later, last, next),
    ensures
        step is Dispatch && step->Dispatch_0.leads is None,
        step->Dispatch_0.cache_plan is None,
        next is Dispatch && next->Dispatch_0.leads is None,
        last.coalescer == before.coalescer,
        last.cache == before.cache,
{
    without_override_the_builtin_counts(entries, method);
    builtin_table_lists_these_methods(method, lowercase(method));
}

/// While coalescing is on, a request whose answers are cacheable by default, that
/// names its method and that nothing is kept for, joins the one that is under way
/// under its key; and where there is none it leads those that follow.
pub proof fn cacheable_requests_lead_or_join(
    before: GatewayView,
    body: Bytes,
    method: Seq<char>,
    now: Moment,
    after: GatewayView,
    step: RequestStep,
)
    requires
        before.routes(body, Some(method), now, after, step),
        request_policy(before.method_policy, Some(method)).cacheable_by_default,
        before.coalescer.enabled,
    ensures
        ({
            let key = request_key(method, bytes_contents(body));
            let under_way = before.coalescer.in_flight;
            &&& before.cache is None || !before.cache->0.entries.contains_key(key) ==> step
                !is Respond
            &&& step !is Respond && under_way.contains_key(key) ==> {
                &&& step is Join
                &&& step->Join_0.key@ == key
                &&& step->Join_0.number == under_way[key]
                &&& after.coalescer.in_flight == under_way
            }
            &&& step !is Respond && !under_way.contains_key(key) ==> {
                &&& step is Dispatch
                &&& step->Dispatch_0.leads is Some
                &&& step->Dispatch_0.leads->0.key@ == key
                &&& step->Dispatch_0.leads->0.number == before.coalescer.leader_count
                &&& after.coalescer.in_flight == under_way.insert(
                    key,
                    before.coalescer.leader_count,
                )
            }
        }),
{
}

/// Without coalescing, and where no method is named, every request that is not
/// answered is dispatched on its own.
pub proof fn requests_are_not_shared_without_coalescing(
    before: GatewayView,
    body: Bytes,
    method: Option<Seq<char>>,
    now: Moment,
    after: GatewayView,
    step: RequestStep,
)
    requires
        before.routes(body, method, now, after, step),
        !before.coalescer.enabled || method is None,
    ensures
        after.coalescer == before.coalescer,
        step !is Join,
        step is Dispatch ==> step->Dispatch_0.leads is None,
        method is None ==> step is Dispatch,
{
}

/// A request is answered at once exactly if its answers may be kept and one is that
/// has not expired; the response tells what is kept and since when, and that it took
/// no attempt.
pub proof fn only_what_is_kept_is_answered_at_once(
    before: GatewayView,
    body: Bytes,
    method: Seq<char>,
    now: Moment,
    after: GatewayView,
    step: RequestStep,
)
    requires
        before.routes(body, Some(method), now, after, step),
    ensures
        ({
            let key = request_key(method, bytes_contents(body));
            let entries = before.cache->0.entries;
            let policy = request_policy(before.method_policy, Some(method));
            &&& step is Respond <==> before.cache is Some && before.cache_policy.planned_ttl(
                Some(method),
                policy.cacheable_by_default,
            ) is Some && entries.contains_key(key) && now.unix_ms < entries[key].expires_at_unix_ms
            &&& step matches RequestStep::Respond(response) ==> {
                &&& response.body == entries[key].body
                &&& response.provider == entries[key].provider
                &&& response.cached_at_unix_ms == Some(entries[key].cached_at_unix_ms)
                &&& response.cache_hit && response.attempts == 0
                &&& !response.hedged && response.hedge_width == 0
                &&& !response.coalesced
                &&& response.consensus_critical == policy.consensus_critical
                &&& !response.consensus_checked && !response.consensus_validated
                &&& response.consensus_agreement is None
                &&& after.coalescer == before.coalescer
            }
        }),
{
}

/// Whatever becomes of a request, it is counted once among the recent ones, and
/// nothing that is known of providers changes; of what is kept, nothing but what is
/// kept for this request may go, and that only where it has expired.
pub proof fn taking_in_a_request_counts_it(
    before: GatewayView,
    body: Bytes,
    method: Option<Seq<char>>,
    now: Moment,
    after: GatewayView,
    step: RequestStep,
    other: Seq<char>,
)
    requires
        before.routes(body, method, now, after, step),
    ensures
        after.adaptive == before.adaptive.after_request(now.monotonic_ns),
        after == (GatewayView {
            adaptive: after.adaptive,
            cache: after.cache,
            coalescer: after.coalescer,
            ..before
        }),
        after.cache is Some <==> before.cache is Some,
        method is None ==> after.cache == before.cache,
        before.cache is Some ==> {
            let kept = before.cache->0.entries;
            let left = after.cache->0.entries;
            &&& after.cache->0.capacity == before.cache->0.capacity
            &&& left.contains_key(other) ==> kept.contains_key(other) && left[other]
                == kept[other]
            &&& kept.contains_key(other) && (now.unix_ms < kept[other].expires_at_unix_ms || other
                != request_key(method->0, bytes_contents(body))) ==> left.contains_key(other)
        },
{
}

/// A request that is dispatched carries its body and its method as they came, and
/// its classification; its answer is to be kept under its key, for the seconds that
/// are planned, exactly where that is planned.
pub proof fn dispatched_requests_carry_their_plan(
    before: GatewayView,
    body: Bytes,
    method: Option<Seq<char>>,
    now: Moment,
    after: GatewayView,
    step: RequestStep,
)
    requires
        before.routes(body, method, now, after, step),
        step is Dispatch,
    ensures
        ({
            let plan = step->Dispatch_0;
            let policy = request_policy(before.method_policy, method);
            let planned = before.cache_policy.planned_ttl(method, policy.cacheable_by_default);
            &&& plan.body == body
            &&& method is Some <==> plan.method is Some
            &&& method is Some ==> plan.method->0@ == method->0
            &&& plan.policy == policy
            &&& plan.cache_plan is Some <==> planned is Some
            &&& plan.cache_plan matches Some(cache_plan) ==> method is Some && cache_plan.key@
                == request_key(method->0, bytes_contents(body)) && duration_nanos(cache_plan.ttl)
                == planned->0 * 1_000_000_000
        }),
{
}

/// A gateway starts out as it is configured: all providers are healthy and nothing
/// was counted of them, nothing is kept or under way, and the cache, where it is on,
/// has room for as many responses as is configured, and for one at least.
pub proof fn gateways_start_out_as_configured(
    settings: Settings,
    now: Moment,
    built: Result<Gateway, PayloadError>,
    index: usize,
)
    requires
        is_built(settings, now, built),
        built is Ok,
        index < settings.providers@.len(),
    ensures
        ({
            let gateway = built->Ok_0@;
            let health = gateway.health[index as int];
            &&& gateway.configs == settings.providers@
            &&& gateway.reliability == settings.reliability
            &&& gateway.health.len() == settings.providers@.len()
            &&& health.is_healthy(now) && health.consecutive_failures == 0
            &&& health.total_success == 0 && health.total_failures == 0
            &&& health.recovery_ns == settings.reliability.recovery_after_secs * 1_000_000_000
            &&& settings.reliability.unhealthy_after_failures >= 1 ==> health.threshold
                == settings.reliability.unhealthy_after_failures
            &&& gateway.predictive.enabled == settings.reliability.predictive_scoring.enabled
            &&& gateway.predictive.shadow_config == settings.reliability.shadow_mode
            &&& gateway.predictive.providers.len() == settings.providers@.len()
            &&& gateway.adaptive.config == settings.reliability.adaptive_hedging
            &&& gateway.adaptive.samples.len() == settings.providers@.len()
            &&& gateway.adaptive.timestamps.len() == 0
            &&& gateway.adaptive.total_hedged_requests == 0
            &&& gateway.adaptive.hedge_win_count == 0
            &&& gateway.coalescer.enabled == settings.reliability.coalescing.enabled
            &&& gateway.coalescer.in_flight.is_empty()
            &&& gateway.method_policy == override_table(settings.method_policy.overrides@)
            &&& gateway.cache_policy == configured_policy(settings.cache)
            &&& gateway.cost.enabled == settings.reliability.cost_routing.enabled
            &&& gateway.cost.strategy == strategy_named(
                settings.reliability.cost_routing.strategy_name(),
            )
            &&& gateway.cost.price(index) == settings.providers@[index as int].cost_rank
            &&& gateway.cache is Some <==> settings.cache.enabled
            &&& gateway.cache is Some ==> gateway.cache->0.entries.is_empty()
            &&& gateway.cache is Some && 1 <= settings.cache.max_capacity <= usize::MAX
                ==> gateway.cache->0.capacity == settings.cache.max_capacity
            &&& gateway.cache is Some && settings.cache.max_capacity == 0
                ==> gateway.cache->0.capacity == 1
        }),
{
}

/// The request that probes a provider, and the one that asks for its latest block,
/// name the configured methods and hold the configured parameters, each under an
/// identifier of its own.
pub proof fn probes_ask_what_is_configured(reliability: ReliabilityConfig)
    ensures
        ({
            let probe = probe_request(reliability);
            &&& member(probe, "jsonrpc"@) == Some(JsonTree::Text("2.0"@))
            &&& member(probe, "id"@) == Some(JsonTree::Text("rpc-gateway-probe"@))
            &&& member(probe, "method"@) == Some(JsonTree::Text(reliability.probe.method@))
            &&& member(probe, "params"@) == Some(json_tree(reliability.probe.params))
        }),
        ({
            let ask = block_lag_request(reliability);
            let config = reliability.predictive_scoring;
            &&& member(ask, "jsonrpc"@) == Some(JsonTree::Text("2.0"@))
            &&& member(ask, "id"@) == Some(JsonTree::Text("rpc-gateway-block-lag-probe"@))
            &&& member(ask, "method"@) == Some(JsonTree::Text(config.block_lag_method@))
            &&& member(ask, "params"@) == Some(json_tree(config.block_lag_params))
        }),
{
    requests_have_four_members(
        "rpc-gateway-probe"@,
        reliability.probe.method@,
        json_tree(reliability.probe.params),
        "id"@,
    );
    requests_have_four_members(
        "rpc-gateway-block-lag-probe"@,
        reliability.predictive_scoring.block_lag_method@,
        json_tree(reliability.predictive_scoring.block_lag_params),
        "id"@,
    );
}

/// A look at the providers tells of each, under its own index, what is known of its
/// own health and blocks, with its own weight; all that it changes is that providers
/// are promoted that are ready.
pub proof fn each_provider_is_assessed_by_its_own(gateway: GatewayView, now: Moment, index: int)
    requires
        gateway.is_complete(),
        gateway.configs.len() <= usize::MAX,
        0 <= index < gateway.configs.len(),
    ensures
        ({
            let assessment = gateway.assessments(now)[index];
            let weight = gateway.configs[index].weight;
            let after = gateway.after_assessment(now);
            let provider = gateway.predictive.providers[index];
            &&& gateway.assessments(now).len() == gateway.configs.len()
            &&& assessment.index == index
            &&& assessment.snapshot == gateway.health[index].snapshot(weight, now)
            &&& assessment.scoring.rated
            &&& assessment.scoring == gateway.predictive.scoring(
                index as usize,
                assessment.snapshot,
                weight,
                now,
            )
            &&& after.predictive.providers.len() == gateway.configs.len()
            &&& after.predictive.providers[index].latest_block == provider.latest_block
            &&& after.predictive.providers[index].rate_limit_headroom
                == provider.rate_limit_headroom
            &&& after.predictive.providers[index].shadow == provider.shadow.promoted_if_ready(now)
            &&& after.health[index] == gateway.health[index].after_snapshot(now)
            &&& after.health.len() == gateway.health.len()
            &&& after == (GatewayView {
                health: after.health,
                predictive: PredictiveView {
                    providers: after.predictive.providers,
                    ..gateway.predictive
                },
                ..gateway
            })
        }),
{
}

/// Every provider in service is ranked, whatever its health and its score.
pub proof fn providers_in_service_are_ranked(
    gateway: GatewayView,
    now: Moment,
    scores: Seq<i64>,
    index: usize,
)
    requires
        gateway.configs.len() <= usize::MAX,
        gateway.is_complete(),
        index < gateway.configs.len(),
        gateway.predictive.providers[index as int].shadow.promoted_if_ready(now).promoted,
    ensures
        ranking(scored(gateway.rank_candidates(now), scores)).contains(index),
{
    let all = gateway.assessments(now);
    let kept = in_service(all);
    let entries = scored(gateway.rank_candidates(now), scores);
    lemma_service_is_no_larger(all);
    assert(all[index as int].scoring.is_live);
    live_providers_are_kept(all, index as int);
    let k = choose|k: int| 0 <= k < kept.len() && kept[k] == all[index as int];
    assert(entries[k].index == index);
    ranking_covers_all(entries, index);
}

/// A report on a provider tells its name and its address, and what a look at it
/// tells.
pub proof fn reports_name_their_provider(
    gateway: GatewayView,
    index: int,
    now: Moment,
    view: ProviderHealthView,
)
    requires
        gateway.reports(index, now, view),
        0 <= index < gateway.configs.len(),
    ensures
        view.name == gateway.configs[index].name,
        view.url == gateway.configs[index].url,
        view.snapshot == gateway.health[index].snapshot(gateway.configs[index].weight, now),
        view.predictive == gateway.predictive.scoring(
            index as usize,
            view.snapshot,
            gateway.configs[index].weight,
            now,
        ).view,
{
}

/// Requests are mirrored to exactly those providers that are in shadow mode and not
/// promoted yet, and to none where shadow mode is off.
pub proof fn shadows_alone_are_mirrored_to(gateway: GatewayView, index: usize, now: Moment)
    requires
        gateway.is_complete(),
        index < gateway.configs.len(),
        gateway.configs.len() <= usize::MAX,
    ensures
        ({
            let shadow = gateway.predictive.providers[index as int].shadow;
            let mirrored = gateway.mirror_assessments(gateway.configs.len(), now);
            let on = gateway.predictive.shadow_config.enabled;
            &&& gateway.mirrors(index, now) <==> on && shadow.enabled && !shadow.promoted_if_ready(
                now,
            ).promoted
            &&& (exists|k: int| 0 <= k < mirrored.len() && (#[trigger] mirrored[k]).index == index)
                <==> on && shadow.enabled && !shadow.promoted_if_ready(now).promoted
            &&& forall|k: int|
                0 <= k < mirrored.len() ==> (#[trigger] mirrored[k]).index
                    < gateway.configs.len() && mirrored[k] == gateway.assessments(
                    now,
                )[mirrored[k].index as int]
        }),
{
    lemma_mirror_assessments(gateway, gateway.configs.len(), index, now);
}

proof fn lemma_mirror_assessments(gateway: GatewayView, count: nat, index: usize, now: Moment)
    requires
        count <= gateway.configs.len() <= usize::MAX,
    ensures
        ({
            let mirrored = gateway.mirror_assessments(count, now);
            &&& (exists|k: int| 0 <= k < mirrored.len() && (#[trigger] mirrored[k]).index == index)
                <==> index < count && gateway.mirrors(index, now)
            &&& forall|k: int|
                0 <= k < mirrored.len() ==> (#[trigger] mirrored[k]).index < count && mirrored[k]
                    == gateway.assessments(now)[mirrored[k].index as int]
        }),
    decreases count,
{
    if count > 0 {
        let before = gateway.mirror_assessments((count - 1) as nat, now);
        let mirrored = gateway.mirror_assessments(count, now);
        lemma_mirror_assessments(gateway, (count - 1) as nat, index, now);
        assert forall|k: int| 0 <= k < mirrored.len() implies (#[trigger] mirrored[k]).index < count
            && mirrored[k] == gateway.assessments(now)[mirrored[k].index as int] by {
            if k < before.len() {
                assert(mirrored[k] == before[k]);
            }
        }
        if exists|k: int| 0 <= k < before.len() && (#[trigger] before[k]).index == index {
            let k = choose|k: int| 0 <= k < before.len() && (#[trigger] before[k]).index == index;
            assert(mirrored[k] == before[k]);
        }
        if index == count - 1 && gateway.mirrors(index, now) {
            assert(mirrored[before.len() as int].index == index);
        }
        if exists|k: int| 0 <= k < mirrored.len() && (#[trigger] mirrored[k]).index == index {
            let k = choose|k: int|
                0 <= k < mirrored.len() && (#[trigger] mirrored[k]).index == index;
            if k < before.len() {
                assert(before[k] == mirrored[k]);
            }
        }
    }
}

/// Looking for providers to mirror to promotes those that are ready and looks at the
/// health of no others than those mirrored to; it does nothing where shadow mode is
/// off.
pub proof fn mirroring_looks_at_shadows_alone(gateway: GatewayView, index: int, now: Moment)
    requires
        gateway.is_complete(),
        gateway.configs.len() <= usize::MAX,
        0 <= index < gateway.configs.len(),
    ensures
        ({
            let after = gateway.after_mirror_assessment(now);
            let provider = gateway.predictive.providers[index];
            let on = gateway.reliability.shadow_mode.enabled
                && gateway.predictive.shadow_config.enabled;
            let mirrored = provider.shadow.enabled && !provider.shadow.promoted_if_ready(
                now,
            ).promoted;
            &&& !on ==> after == gateway
            &&& on ==> {
                &&& after.predictive.providers[index].shadow == provider.shadow.promoted_if_ready(
                    now,
                )
                &&& after.predictive.providers[index].latest_block == provider.latest_block
                &&& after.predictive.providers[index].rate_limit_headroom
                    == provider.rate_limit_headroom
                &&& mirrored ==> after.health[index] == gateway.health[index].after_snapshot(now)
                &&& !mirrored ==> after.health[index] == gateway.health[index]
                &&& after == (GatewayView {
                    health: after.health,
                    predictive: PredictiveView {
                        providers: after.predictive.providers,
                        ..gateway.predictive
                    },
                    ..gateway
                })
            }
        }),
{
}

/// A call of a provider may take as long as is configured for the provider, and else
/// as long as for all requests.
pub proof fn timeouts_are_the_providers_own(gateway: GatewayView, index: usize)
    requires
        index < gateway.configs.len(),
    ensures
        gateway.configs[index as int].timeout_ms is Some ==> gateway.call_timeout_ms(index)
            == gateway.configs[index as int].timeout_ms->0,
        gateway.configs[index as int].timeout_ms is None ==> gateway.call_timeout_ms(index)
            == gateway.reliability.request_timeout_ms,
{
}

/// A call is judged under the name and the index of the provider that was called: an
/// answer with a status from 200 to 299 is passed on as it came, and a failure names
/// its provider.
pub proof fn calls_are_judged_in_their_providers_name(
    gateway: GatewayView,
    index: usize,
    outcome: CallOutcome,
    result: Result<CallSuccess, ProviderFailure>,
)
    requires
        gateway.judges(index, outcome, result),
        index < gateway.configs.len(),
    ensures
        result is Ok <==> outcome is Answered && 200 <= outcome->status <= 299,
        result matches Ok(success) ==> {
            &&& success.provider@ == gateway.configs[index as int].name@
            &&& success.provider_index == index
            &&& success.body == outcome->body
            &&& success.latency == outcome->latency
        },
        result matches Err(failure) ==> failure.provider@ == gateway.configs[index as int].name@,
        result is Err && outcome is TimedOut ==> {
            let millis = match gateway.configs[index as int].timeout_ms {
                Some(own) => own,
                None => gateway.reliability.request_timeout_ms,
            };
            result->Err_0.error@ == "request timed out after "@ + decimal(millis as nat) + " ms"@
        },
{
}

/// How a call ended counts for the provider that was called, as a success or as a
/// failure, and nothing else changes.
pub proof fn calls_count_for_their_provider(
    gateway: GatewayView,
    index: usize,
    success: bool,
    now: Moment,
    other: int,
)
    requires
        index < gateway.health.len(),
        0 <= other < gateway.health.len(),
    ensures
        ({
            let after = gateway.after_call(index, success, now);
            let health = gateway.health[index as int];
            &&& success ==> after.health[index as int] == health.after_success(now)
            &&& !success ==> after.health[index as int] == health.after_failure(now)
            &&& other != index ==> after.health[other] == gateway.health[other]
            &&& after == (GatewayView { health: after.health, ..gateway })
            &&& after.health.len() == gateway.health.len()
        }),
{
}

/// What an answer tells of its provider is kept: the whole milliseconds that it took,
/// what is left of the rate limit, where it says so, and its latest block, where the
/// request asked for that under the configured method, in whatever case. Nothing
/// else changes.
pub proof fn answers_tell_of_their_provider(
    gateway: GatewayView,
    success: CallSuccess,
    method: Option<Seq<char>>,
    millis: u64,
)
    requires
        success.provider_index < gateway.predictive.providers.len(),
        millis * 1_000_000 <= duration_nanos(success.latency) < (millis + 1) * 1_000_000,
    ensures
        ({
            let after = gateway.after_success(success, method);
            let index = success.provider_index as int;
            let known = gateway.predictive.providers[index];
            let told = after.predictive.providers[index];
            let number = body_block_number(bytes_contents(success.body));
            let asked = method is Some && lowercase(method->0) == lowercase(
                gateway.reliability.predictive_scoring.block_lag_method@,
            );
            &&& after.adaptive == gateway.adaptive.after_latency(success.provider_index, millis)
            &&& success.rate_limit_headroom is Some ==> told.rate_limit_headroom
                == success.rate_limit_headroom
            &&& success.rate_limit_headroom is None ==> told.rate_limit_headroom
                == known.rate_limit_headroom
            &&& asked && number is Some ==> told.latest_block == number
            &&& !asked || number is None ==> told.latest_block == known.latest_block
            &&& told.shadow == known.shadow
            &&& forall|other: int|
                0 <= other < gateway.predictive.providers.len() && other != index ==> (
                #[trigger] after.predictive.providers[other])
                    == gateway.predictive.providers[other]
            &&& after == (GatewayView {
                adaptive: after.adaptive,
                predictive: PredictiveView {
                    providers: after.predictive.providers,
                    ..gateway.predictive
                },
                ..gateway
            })
        }),
{
}

/// A probe counts for the provider's health like a call, by its status alone; what a
/// healthy provider tells of its rate limit is kept, and what another one does is
/// not.
pub proof fn probes_count_for_their_provider(
    gateway: GatewayView,
    index: usize,
    outcome: ProbeOutcome,
    now: Moment,
    after: GatewayView,
)
    requires
        gateway.is_complete(),
        index < gateway.configs.len(),
        gateway.after_probe(index, outcome, now, after),
    ensures
        ({
            let i = index as int;
            let healthy = outcome is Answered && 200 <= outcome->status <= 299;
            &&& healthy ==> after.health == gateway.health.update(
                i,
                gateway.health[i].after_success(now),
            )
            &&& !healthy ==> after.health == gateway.health.update(
                i,
                gateway.health[i].after_failure(now),
            )
            &&& !healthy ==> after.predictive == gateway.predictive
            &&& healthy ==> exists|headroom: Option<RateLimitHeadroom>| #[trigger]
                is_headroom(outcome->headers@, headroom) && (headroom is None
                    ==> after.predictive == gateway.predictive) && (headroom is Some
                    ==> after.predictive.providers[i].rate_limit_headroom == headroom)
            &&& after == (GatewayView {
                health: after.health,
                predictive: after.predictive,
                ..gateway
            })
        }),
{
    let headroom = choose|headroom: Option<RateLimitHeadroom>|
        after == #[trigger] gateway.probed(index, probe_succeeded(outcome), headroom, now)
            && if probe_succeeded(outcome) {
            is_headroom(outcome->headers@, headroom)
        } else {
            headroom is None
        };
    if probe_succeeded(outcome) {
        assert(is_headroom(outcome->headers@, headroom));
    }
}

/// The width of a race is decided on exactly where adaptive hedging is on and there
/// are two candidates at least, among all candidates of the request; else nothing
/// changes when a request is started.
pub proof fn races_are_decided_on_among_the_candidates(
    gateway: GatewayView,
    ranked: Seq<usize>,
    now: u128,
    step: DispatchStep,
)
    requires
        gateway.starts_dispatch(ranked, now, step),
    ensures
        ({
            let candidates = attempt_candidates(gateway.reliability, ranked);
            let after = gateway.after_start(ranked, now);
            let decides = gateway.reliability.adaptive_hedging.enabled && candidates.len() >= 2;
            &&& decides ==> {
                &&& after == (GatewayView {
                    adaptive: gateway.adaptive.after_decision(candidates, now),
                    ..gateway
                })
                &&& starts(
                    gateway.reliability,
                    candidates,
                    gateway.adaptive.decision(candidates, now).0,
                    step,
                )
            }
            &&& !decides ==> after == gateway && step !is RaceParallel
            &&& ranked.len() == 0 ==> step is Done
            &&& step is Call ==> step->Call_1 == ranked[0]
            &&& step is RaceLegacy ==> step->RaceLegacy_1 == ranked[0] && step->RaceLegacy_2
                == ranked[1]
        }),
{
    let candidates = attempt_candidates(gateway.reliability, ranked);
    let width = if gateway.reliability.adaptive_hedging.enabled && candidates.len() >= 2 {
        gateway.adaptive.decision(candidates, now).0
    } else {
        1
    };
    requests_start_with_the_best(gateway.reliability, candidates, width, step);
    if ranked.len() > 0 {
        candidates_are_the_first_of_the_ranking(gateway.reliability, ranked, 0);
    }
}

/// A race counts once, where calls were under way at the same time and one of them
/// was answered, and as won by hedging where that was not the first candidate; a race
/// that was lost, or that came to one call, does not count.
pub proof fn only_real_races_are_counted(
    gateway: GatewayView,
    preferred: usize,
    outcome: Result<HedgedOutcome, LostRace>,
)
    ensures
        ({
            let after = gateway.after_race(preferred, outcome);
            let before = gateway.adaptive;
            let counts = outcome is Ok && outcome->Ok_0.hedged;
            let won = outcome->Ok_0.success.provider_index != preferred;
            &&& !counts ==> after == gateway
            &&& counts && before.total_hedged_requests < u64::MAX
                ==> after.adaptive.total_hedged_requests == before.total_hedged_requests + 1
            &&& counts && won && before.hedge_win_count < u64::MAX
                ==> after.adaptive.hedge_win_count == before.hedge_win_count + 1
            &&& counts && !won ==> after.adaptive.hedge_win_count == before.hedge_win_count
            &&& after == (GatewayView { adaptive: after.adaptive, ..gateway })
            &&& after.adaptive.samples == before.samples
            &&& after.adaptive.timestamps == before.timestamps
        }),
{
}

/// A gateway can be built where the parameters of its own requests are simple, and
/// these then read as requests for the configured methods with these parameters. It
/// holds the two requests as they are written down; where it cannot be built, one of
/// them cannot be.
pub proof fn gateways_are_built_where_probes_are_simple(
    settings: Settings,
    now: Moment,
    built: Result<Gateway, PayloadError>,
)
    requires
        is_built(settings, now, built),
    ensures
        ({
            let probe = settings.reliability.probe;
            let ask = settings.reliability.predictive_scoring;
            is_simple(json_tree(probe.params), 99) && is_simple(json_tree(ask.block_lag_params), 99)
                ==> {
                let probed = parsed_json(built->Ok_0@.probe_payload);
                let asked = parsed_json(built->Ok_0@.block_lag_payload);
                &&& built is Ok && probed is Some && asked is Some
                &&& member(probed->0, "method"@) == Some(JsonTree::Text(probe.method@))
                &&& member(probed->0, "params"@) == Some(json_tree(probe.params))
                &&& member(asked->0, "method"@) == Some(JsonTree::Text(ask.block_lag_method@))
                &&& member(asked->0, "params"@) == Some(json_tree(ask.block_lag_params))
            }
        }),
        built is Ok ==> rendered_bytes(probe_request(settings.reliability)) == Some(
            built->Ok_0@.probe_payload,
        ) && rendered_bytes(block_lag_request(settings.reliability)) == Some(
            built->Ok_0@.block_lag_payload,
        ),
        built == Err::<Gateway, PayloadError>(PayloadError::Probe) ==> rendered_bytes(
            probe_request(settings.reliability),
        ) is None,
        built == Err::<Gateway, PayloadError>(PayloadError::BlockLagProbe) ==> rendered_bytes(
            probe_request(settings.reliability),
        ) is Some && rendered_bytes(block_lag_request(settings.reliability)) is None,
{
    probes_ask_what_is_configured(settings.reliability);
}

/// A request is classified by the last override of its method, named in whatever
/// case, flag by flag, and by what is built in where that says nothing; one that
/// names no method is neither cacheable nor critical.
pub proof fn requests_are_classified_by_the_last_override(
    gateway: GatewayView,
    entries: Seq<(String, MethodPolicyOverride)>,
    index: int,
    method: Seq<char>,
)
    requires
        gateway.method_policy == override_table(entries),
        0 <= index < entries.len(),
        lowercase(entries[index].0@) == lowercase(method),
        forall|i: int|
            index < i < entries.len() ==> lowercase((#[trigger] entries[i]).0@) != lowercase(
                method,
            ),
    ensures
        ({
            let policy = gateway.policy(Some(method));
            let entry = entries[index].1;
            let builtin = builtin_policy(method);
            &&& policy == request_policy(gateway.method_policy, Some(method))
            &&& entry.cacheable_by_default matches Some(flag) ==> policy.cacheable_by_default
                == flag
            &&& entry.cacheable_by_default is None ==> policy.cacheable_by_default
                == builtin.cacheable_by_default
            &&& entry.consensus_critical matches Some(flag) ==> policy.consensus_critical == flag
            &&& entry.consensus_critical is None ==> policy.consensus_critical
                == builtin.consensus_critical
        }),
        !gateway.policy(None).cacheable_by_default && !gateway.policy(None).consensus_critical,
{
    overrides_take_effect(entries, index, method);
    overrides_replace_flag_by_flag(builtin_policy(method), entries[index].1);
}

} // verus!
