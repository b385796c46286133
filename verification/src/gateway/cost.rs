//! How prices weigh in the ranking of providers.
use vstd::prelude::*;

use crate::settings::{CostRoutingConfig, ProviderConfig};
use crate::text::same_text;

verus! {

/// How strongly cheap providers are favoured.
#[derive(Debug, Clone, Copy, PartialEq, Eq, Structural)]
pub enum CostRoutingStrategy {
    Cheapest,
    Balanced,
    LatencyFirst,
}

/// The strategy with the given name, in lower case; all other names mean the
/// balanced one.
pub open spec fn strategy_named(name: Seq<char>) -> CostRoutingStrategy {
    if name == "cheapest"@ || name == "cheapest_healthy_first"@ {
        CostRoutingStrategy::Cheapest
    } else if name == "latency_first"@ || name == "latency-first"@ {
        CostRoutingStrategy::LatencyFirst
    } else {
        CostRoutingStrategy::Balanced
    }
}

impl CostRoutingStrategy {
    pub fn from_str(strategy: &str) -> (named: CostRoutingStrategy)
        ensures
            named == strategy_named(strategy@),
    {
        if same_text(strategy, "cheapest") || same_text(strategy, "cheapest_healthy_first") {
            CostRoutingStrategy::Cheapest
        } else if same_text(strategy, "latency_first") || same_text(strategy, "latency-first") {
            CostRoutingStrategy::LatencyFirst
        } else {
            CostRoutingStrategy::Balanced
        }
    }
}

/// How a provider's score is to be adjusted for its price.
#[derive(Debug, Clone, Copy, PartialEq, Eq, Structural)]
pub enum CostAdjustment {
    /// Not at all.
    Unchanged,
    /// By what applies to providers without a known price.
    UnknownPrice,
    /// By how its price compares to the lowest one.
    Compared { lowest: u64, price: u64, strategy: CostRoutingStrategy },
}

/// Adjusts scores for prices. Prices are numbers that order them.
pub struct CostRoutingPolicy {
    enabled: bool,
    strategy: CostRoutingStrategy,
    provider_costs: Vec<Option<u64>>,
}

/// What a cost policy goes by.
#[verifier::ext_equal]
pub struct CostPolicyView {
    pub enabled: bool,
    pub strategy: CostRoutingStrategy,
    pub prices: Seq<Option<u64>>,
}

/// The prices of the providers.
pub open spec fn prices_of(providers: Seq<ProviderConfig>) -> Seq<Option<u64>> {
    providers.map_values(|provider: ProviderConfig| provider.cost_rank)
}

impl CostPolicyView {
    /// The price of a provider, if it is known.
    pub open spec fn price(self, provider: usize) -> Option<u64> {
        if provider < self.prices.len() {
            self.prices[provider as int]
        } else {
            None
        }
    }

    /// The lowest of the known prices of the given providers.
    pub open spec fn lowest(self, providers: Seq<usize>) -> Option<u64>
        decreases providers.len(),
    {
        if providers.len() == 0 {
            None
        } else {
            match (self.lowest(providers.drop_last()), self.price(providers.last())) {
                (Some(lowest), Some(price)) => Some(
                    if price < lowest {
                        price
                    } else {
                        lowest
                    },
                ),
                (None, price) => price,
                (lowest, None) => lowest,
            }
        }
    }

    /// How a provider's score is to be adjusted, given the lowest known price.
    pub open spec fn adjustment(self, provider: usize, lowest: Option<u64>) -> CostAdjustment {
        if !self.enabled || lowest is None {
            CostAdjustment::Unchanged
        } else {
            match self.price(provider) {
                Some(price) => CostAdjustment::Compared {
                    lowest: lowest->0,
                    price,
                    strategy: self.strategy,
                },
                None => CostAdjustment::UnknownPrice,
            }
        }
    }
}

impl View for CostRoutingPolicy {
    type V = CostPolicyView;

    closed spec fn view(&self) -> CostPolicyView {
        CostPolicyView {
            enabled: self.enabled,
            strategy: self.strategy,
            prices: self.provider_costs@,
        }
    }
}

impl CostRoutingPolicy {
    pub fn from_config(config: &CostRoutingConfig, providers: &Vec<ProviderConfig>) -> (policy:
        CostRoutingPolicy)
        ensures
            policy@.enabled == config.enabled,
            policy@.strategy == strategy_named(config.strategy_name()),
            policy@.prices == prices_of(providers@),
    {
        let mut provider_costs: Vec<Option<u64>> = Vec::new();
        let mut i: usize = 0;
        while i < providers.len()
            invariant
                i <= providers@.len(),
                provider_costs@ == prices_of(providers@).take(i as int),
            decreases providers@.len() - i,
        {
            provider_costs.push(providers[i].cost_rank);
            i = i + 1;
            assert(provider_costs@ =~= prices_of(providers@).take(i as int));
        }
        assert(provider_costs@ =~= prices_of(providers@));
        CostRoutingPolicy {
            enabled: config.enabled,
            strategy: CostRoutingStrategy::from_str(config.normalized_strategy().as_str()),
            provider_costs,
        }
    }

    /// Looks up a provider's price.
    pub fn provider_cost(&self, provider_index: usize) -> (price: Option<u64>)
        ensures
            price == self@.price(provider_index),
    {
        if provider_index < self.provider_costs.len() {
            self.provider_costs[provider_index]
        } else {
            None
        }
    }

    /// Finds the lowest of the known prices of the given providers.
    pub fn min_cost_for_indexes(&self, indexes: &[usize]) -> (lowest: Option<u64>)
        ensures
            lowest == self@.lowest(indexes@),
    {
        let mut lowest: Option<u64> = None;
        let mut i: usize = 0;
        while i < indexes.len()
            invariant
                i <= indexes@.len(),
                lowest == self@.lowest(indexes@.take(i as int)),
            decreases indexes@.len() - i,
        {
            assert(indexes@.take(i + 1).drop_last() =~= indexes@.take(i as int));
            if let Some(price) = self.provider_cost(indexes[i]) {
                lowest = match lowest {
                    Some(before) => Some(before.min(price)),
                    None => Some(price),
                };
            }
            i = i + 1;
        }
        assert(indexes@.take(i as int) =~= indexes@);
        lowest
    }

    /// Decides how a provider's score is to be adjusted.
    pub fn cost_adjustment(&self, provider_index: usize, min_known_cost: Option<u64>) -> (adjustment:
        CostAdjustment)
        ensures
            adjustment == self@.adjustment(provider_index, min_known_cost),
    {
        if !self.enabled {
            return CostAdjustment::Unchanged;
        }
        match min_known_cost {
            Some(lowest) => match self.provider_cost(provider_index) {
                Some(price) => CostAdjustment::Compared { lowest, price, strategy: self.strategy },
                None => CostAdjustment::UnknownPrice,
            },
            None => CostAdjustment::Unchanged,
        }
    }
}

/// The lowest price is that of one of the providers, and none of them is known to
/// be cheaper.
pub proof fn lowest_is_a_lower_bound(policy: CostPolicyView, providers: Seq<usize>, index: int)
    requires
        0 <= index < providers.len(),
        policy.price(providers[index]) is Some,
    ensures
        policy.lowest(providers) is Some,
        policy.lowest(providers)->0 <= policy.price(providers[index])->0,
        exists|i: int|
            0 <= i < providers.len() && policy.price(#[trigger] providers[i]) == policy.lowest(
                providers,
            ),
    decreases providers.len(),
{
    let before = providers.drop_last();
    let last = providers.len() - 1;
    if policy.lowest(before) is Some {
        lemma_lowest_is_known(policy, before);
        let i = choose|i: int|
            0 <= i < before.len() && policy.price(#[trigger] before[i]) == policy.lowest(before);
        assert(providers[i] == before[i]);
    }
    assert(policy.price(providers[last]) == policy.price(providers.last()));
    if index < last {
        assert(before[index] == providers[index]);
        lowest_is_a_lower_bound(policy, before, index);
    }
}

proof fn lemma_lowest_is_known(policy: CostPolicyView, providers: Seq<usize>)
    requires
        policy.lowest(providers) is Some,
    ensures
        exists|i: int|
            0 <= i < providers.len() && policy.price(#[trigger] providers[i]) == policy.lowest(
                providers,
            ),
    decreases providers.len(),
{
    let before = providers.drop_last();
    let last = providers.len() - 1;
    assert(policy.price(providers[last]) == policy.price(providers.last()));
    if policy.lowest(before) is Some {
        lemma_lowest_is_known(policy, before);
        let i = choose|i: int|
            0 <= i < before.len() && policy.price(#[trigger] before[i]) == policy.lowest(before);
        assert(providers[i] == before[i]);
    }
}

/// Prices do not count where cost routing is off or no price is known; else each
/// known price is compared to the lowest one, under the configured strategy, and a
/// provider without one is treated as such.
pub proof fn known_prices_are_compared(
    policy: CostPolicyView,
    provider: usize,
    lowest: Option<u64>,
)
    ensures
        !policy.enabled ==> policy.adjustment(provider, lowest) == CostAdjustment::Unchanged,
        lowest is None ==> policy.adjustment(provider, lowest) == CostAdjustment::Unchanged,
        policy.enabled && lowest is Some && policy.price(provider) is None ==> policy.adjustment(
            provider,
            lowest,
        ) == CostAdjustment::UnknownPrice,
        policy.enabled && lowest is Some && policy.price(provider) is Some ==> policy.adjustment(
            provider,
            lowest,
        ) == (CostAdjustment::Compared {
            lowest: lowest->0,
            price: policy.price(provider)->0,
            strategy: policy.strategy,
        }),
{
}

/// The price of a provider is the one that it is configured with, and there is none
/// of a provider that there is not.
pub proof fn prices_are_the_configured_ones(
    policy: CostPolicyView,
    providers: Seq<ProviderConfig>,
    provider: usize,
)
    requires
        policy.prices == prices_of(providers),
    ensures
        provider < providers.len() ==> policy.price(provider)
            == providers[provider as int].cost_rank,
        provider >= providers.len() ==> policy.price(provider) is None,
{
}

/// No lowest price is known where none of the providers has one.
pub proof fn no_lowest_price_without_prices(policy: CostPolicyView, providers: Seq<usize>)
    requires
        forall|i: int| 0 <= i < providers.len() ==> policy.price(#[trigger] providers[i]) is None,
    ensures
        policy.lowest(providers) is None,
    decreases providers.len(),
{
    if providers.len() > 0 {
        let before = providers.drop_last();
        assert forall|i: int| 0 <= i < before.len() implies policy.price(
            #[trigger] before[i],
        ) is None by {
            assert(before[i] == providers[i]);
        }
        no_lowest_price_without_prices(policy, before);
        assert(policy.price(providers[providers.len() - 1]) is None);
    }
}

/// The names of the strategies: two for the cheapest, two for latency first; all
/// others mean the balanced one.
pub proof fn strategies_have_these_names(name: Seq<char>)
    ensures
        name == "cheapest"@ || name == "cheapest_healthy_first"@ ==> strategy_named(name)
            == CostRoutingStrategy::Cheapest,
        name == "latency_first"@ || name == "latency-first"@ ==> strategy_named(name)
            == CostRoutingStrategy::LatencyFirst,
        name != "cheapest"@ && name != "cheapest_healthy_first"@ && name != "latency_first"@ && name
            != "latency-first"@ ==> strategy_named(name) == CostRoutingStrategy::Balanced,
{
    reveal_strlit("cheapest");
    reveal_strlit("cheapest_healthy_first");
    reveal_strlit("latency_first");
    reveal_strlit("latency-first");
    assert("cheapest"@[0] == 'c' && "cheapest_healthy_first"@[0] == 'c');
    assert("latency_first"@[0] == 'l' && "latency-first"@[0] == 'l');
}

} // verus!
