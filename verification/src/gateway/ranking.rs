//! The order in which providers are tried.
use vstd::prelude::*;
use vstd::relations::{sorted_by, total_ordering};
use vstd::seq_lib::lemma_sorted_unique;

use super::cost::{
    lowest_is_a_lower_bound, CostAdjustment, CostPolicyView, CostRoutingPolicy,
};
use super::predictive::ProviderScoringResult;
use super::validation::take_indexes;
use crate::health::ProviderHealthSnapshot;

verus! {

/// What is known of a provider when providers are ranked.
#[derive(Debug, Clone, Copy)]
pub struct ProviderAssessment {
    pub index: usize,
    pub snapshot: ProviderHealthSnapshot,
    pub scoring: ProviderScoringResult,
}

/// A provider as it takes part in a ranking. The score is a number that orders
/// scores.
#[derive(Debug, Clone, Copy, PartialEq, Eq, Structural)]
pub struct RankEntry {
    pub index: usize,
    pub healthy: bool,
    pub score: i64,
}

/// The providers in service.
pub open spec fn in_service(assessments: Seq<ProviderAssessment>) -> Seq<ProviderAssessment> {
    assessments.filter(|assessment: ProviderAssessment| assessment.scoring.is_live)
}

/// Keeps the providers in service.
pub fn retain_live(assessments: &Vec<ProviderAssessment>) -> (kept: Vec<ProviderAssessment>)
    ensures
        kept@ == in_service(assessments@),
{
    let ghost live = |assessment: ProviderAssessment| assessment.scoring.is_live;
    let mut kept: Vec<ProviderAssessment> = Vec::new();
    let mut i: usize = 0;
    proof {
        reveal(Seq::filter);
        assert(assessments@.take(0).filter(live) =~= Seq::empty());
    }
    while i < assessments.len()
        invariant
            i <= assessments@.len(),
            live == (|assessment: ProviderAssessment| assessment.scoring.is_live),
            kept@ == assessments@.take(i as int).filter(live),
        decreases assessments@.len() - i,
    {
        proof {
            reveal(Seq::filter);
            assert(assessments@.take(i + 1).drop_last() =~= assessments@.take(i as int));
            assert(assessments@.take(i + 1).last() == assessments@[i as int]);
        }
        if assessments[i].scoring.is_live {
            kept.push(assessments[i]);
        }
        i = i + 1;
    }
    assert(assessments@.take(i as int) =~= assessments@);
    kept
}

/// Whether the entry at one place goes before that at another: the healthy before
/// the others, then the one with the higher score, then the one that stands first.
pub open spec fn goes_before(entries: Seq<RankEntry>, left: int, right: int) -> bool {
    if entries[left].healthy != entries[right].healthy {
        entries[left].healthy
    } else if entries[left].score != entries[right].score {
        entries[left].score > entries[right].score
    } else {
        left < right
    }
}

/// Whether a place is the same as another or goes before it.
pub open spec fn ranks(entries: Seq<RankEntry>) -> spec_fn(usize, usize) -> bool {
    |left: usize, right: usize| left == right || goes_before(entries, left as int, right as int)
}

/// The places of a list.
pub open spec fn places(count: nat) -> Seq<usize> {
    Seq::new(count, |i: int| i as usize)
}

/// The places of the entries in the order of the ranking.
pub open spec fn ranked_places(entries: Seq<RankEntry>) -> Seq<usize> {
    places(entries.len()).sort_by(ranks(entries))
}

/// The providers in the order of the ranking.
pub open spec fn ranking(entries: Seq<RankEntry>) -> Seq<usize> {
    ranked_places(entries).map_values(|place: usize| entries[place as int].index)
}

proof fn lemma_ranks_is_total(entries: Seq<RankEntry>)
    ensures
        total_ordering(ranks(entries)),
{
}

fn place_goes_before(entries: &Vec<RankEntry>, left: usize, right: usize) -> (before: bool)
    requires
        left < entries@.len(),
        right < entries@.len(),
    ensures
        before == goes_before(entries@, left as int, right as int),
{
    if entries[left].healthy != entries[right].healthy {
        entries[left].healthy
    } else if entries[left].score != entries[right].score {
        entries[left].score > entries[right].score
    } else {
        left < right
    }
}

/// Puts a place in where it belongs in an ordered list.
fn insert_place(entries: &Vec<RankEntry>, order: &mut Vec<usize>, place: usize)
    requires
        place < entries@.len(),
        forall|k: int| 0 <= k < old(order)@.len() ==> (#[trigger] old(order)@[k]) < place,
        sorted_by(old(order)@, ranks(entries@)),
    ensures
        sorted_by(final(order)@, ranks(entries@)),
        final(order)@.to_multiset() == old(order)@.to_multiset().insert(place),
        forall|k: int| 0 <= k < final(order)@.len() ==> (#[trigger] final(order)@[k]) <= place,
        final(order)@.len() == old(order)@.len() + 1,
{
    let ghost leq = ranks(entries@);
    let ghost before = order@;
    let mut k: usize = 0;
    while k < order.len() && place_goes_before(entries, order[k], place)
        invariant
            before == order@,
            place < entries@.len(),
            forall|j: int| 0 <= j < before.len() ==> (#[trigger] before[j]) < place,
            k <= before.len(),
            forall|j: int|
                0 <= j < k ==> goes_before(entries@, (#[trigger] before[j]) as int, place as int),
        decreases before.len() - k,
    {
        k = k + 1;
    }
    order.insert(k, place);
    proof {
        lemma_ranks_is_total(entries@);
        broadcast use vstd::seq_lib::group_to_multiset_ensures;

        assert forall|i: int, j: int| 0 <= i < j < order@.len() implies #[trigger] leq(
            order@[i],
            order@[j],
        ) by {
            if i < k && j > k {
                assert(leq(before[i], before[j - 1]));
            } else if i < k && j < k {
                assert(leq(before[i], before[j]));
            } else if i == k {
                assert(order@[j] == before[j - 1]);
                assert(leq(place, before[k as int]));
                if j - 1 > k {
                    assert(leq(before[k as int], before[j - 1]));
                }
            } else if i > k {
                assert(leq(before[i - 1], before[j - 1]));
            } else {
                assert(goes_before(entries@, before[i] as int, place as int));
            }
        }
        assert(order@ =~= before.insert(k as int, place));
        assert forall|j: int| 0 <= j < order@.len() implies (#[trigger] order@[j]) <= place by {
            if j < k {
                assert(order@[j] == before[j]);
            } else if j > k {
                assert(order@[j] == before[j - 1]);
            }
        }
    }
}

/// Ranks providers.
pub fn rank_providers(entries: &Vec<RankEntry>) -> (ranked: Vec<usize>)
    ensures
        ranked@ == ranking(entries@),
{
    let mut order: Vec<usize> = Vec::new();
    let mut i: usize = 0;
    proof {
        assert(order@ =~= places(0));
    }
    while i < entries.len()
        invariant
            i <= entries@.len(),
            order@.len() == i,
            sorted_by(order@, ranks(entries@)),
            order@.to_multiset() == places(i as nat).to_multiset(),
            forall|k: int| 0 <= k < order@.len() ==> (#[trigger] order@[k]) < i,
        decreases entries@.len() - i,
    {
        insert_place(entries, &mut order, i);
        proof {
            broadcast use vstd::seq_lib::group_to_multiset_ensures;

            assert(places((i + 1) as nat) =~= places(i as nat).push(i));
        }
        i = i + 1;
    }
    proof {
        let leq = ranks(entries@);
        lemma_ranks_is_total(entries@);
        places(entries@.len()).lemma_sort_by_ensures(leq);
        lemma_sorted_unique(order@, ranked_places(entries@), leq);
    }
    let mut ranked: Vec<usize> = Vec::new();
    let mut k: usize = 0;
    while k < order.len()
        invariant
            k <= order@.len(),
            order@ == ranked_places(entries@),
            forall|j: int| 0 <= j < order@.len() ==> (#[trigger] order@[j]) < entries@.len(),
            ranked@ == ranking(entries@).take(k as int),
        decreases order@.len() - k,
    {
        ranked.push(entries[order[k]].index);
        k = k + 1;
        assert(ranked@ =~= ranking(entries@).take(k as int));
    }
    assert(ranked@ =~= ranking(entries@));
    ranked
}

/// A provider that takes part in a ranking, and how its score is to be adjusted for
/// its price.
#[derive(Debug, Clone, Copy)]
pub struct RankCandidate {
    pub assessment: ProviderAssessment,
    pub cost: CostAdjustment,
}

/// The indexes of providers.
pub open spec fn indexes_of(assessments: Seq<ProviderAssessment>) -> Seq<usize> {
    assessments.map_values(|assessment: ProviderAssessment| assessment.index)
}

/// The providers with the adjustments for their prices, each compared to the
/// lowest price among them.
pub open spec fn priced(costs: CostPolicyView, assessments: Seq<ProviderAssessment>) -> Seq<
    RankCandidate,
> {
    assessments.map_values(
        |assessment: ProviderAssessment|
            RankCandidate {
                assessment,
                cost: costs.adjustment(assessment.index, costs.lowest(indexes_of(assessments))),
            },
    )
}

/// Finds how the scores of providers are to be adjusted for their prices.
pub fn price_candidates(costs: &CostRoutingPolicy, assessments: &Vec<ProviderAssessment>) -> (candidates:
    Vec<RankCandidate>)
    ensures
        candidates@ == priced(costs@, assessments@),
{
    let mut indexes: Vec<usize> = Vec::new();
    let mut i: usize = 0;
    while i < assessments.len()
        invariant
            i <= assessments@.len(),
            indexes@ == indexes_of(assessments@).take(i as int),
        decreases assessments@.len() - i,
    {
        indexes.push(assessments[i].index);
        i = i + 1;
        assert(indexes@ =~= indexes_of(assessments@).take(i as int));
    }
    assert(indexes@ =~= indexes_of(assessments@));
    let lowest: Option<u64> = costs.min_cost_for_indexes(indexes.as_slice());
    let mut candidates: Vec<RankCandidate> = Vec::new();
    let mut k: usize = 0;
    while k < assessments.len()
        invariant
            k <= assessments@.len(),
            lowest == costs@.lowest(indexes_of(assessments@)),
            candidates@ == priced(costs@, assessments@).take(k as int),
        decreases assessments@.len() - k,
    {
        candidates.push(
            RankCandidate {
                assessment: assessments[k],
                cost: costs.cost_adjustment(assessments[k].index, lowest),
            },
        );
        k = k + 1;
        assert(candidates@ =~= priced(costs@, assessments@).take(k as int));
    }
    assert(candidates@ =~= priced(costs@, assessments@));
    candidates
}

/// Providers as they take part in a ranking with their scores.
pub open spec fn scored(candidates: Seq<RankCandidate>, scores: Seq<i64>) -> Seq<RankEntry> {
    Seq::new(
        candidates.len(),
        |i: int|
            RankEntry {
                index: candidates[i].assessment.index,
                healthy: candidates[i].assessment.snapshot.healthy,
                score: scores[i],
            },
    )
}

/// Ranks providers by their health and their scores.
pub fn ranked_provider_indexes(candidates: &Vec<RankCandidate>, scores: &Vec<i64>) -> (ranked: Vec<
    usize,
>)
    requires
        scores@.len() == candidates@.len(),
    ensures
        ranked@ == ranking(scored(candidates@, scores@)),
{
    let mut entries: Vec<RankEntry> = Vec::new();
    let mut i: usize = 0;
    while i < candidates.len()
        invariant
            i <= candidates@.len(),
            scores@.len() == candidates@.len(),
            entries@ == scored(candidates@, scores@).take(i as int),
        decreases candidates@.len() - i,
    {
        entries.push(
            RankEntry {
                index: candidates[i].assessment.index,
                healthy: candidates[i].assessment.snapshot.healthy,
                score: scores[i],
            },
        );
        i = i + 1;
        assert(entries@ =~= scored(candidates@, scores@).take(i as int));
    }
    assert(entries@ =~= scored(candidates@, scores@));
    rank_providers(&entries)
}

/// Candidates for mirroring as they take part in a ranking: only their scores
/// count.
pub open spec fn mirror_entries(candidates: Seq<ProviderAssessment>, scores: Seq<i64>) -> Seq<
    RankEntry,
> {
    Seq::new(
        candidates.len(),
        |i: int| RankEntry { index: candidates[i].index, healthy: true, score: scores[i] },
    )
}

/// The candidates that a request is mirrored to.
pub open spec fn best_mirrors(
    candidates: Seq<ProviderAssessment>,
    scores: Seq<i64>,
    limit: nat,
) -> Seq<usize> {
    ranking(mirror_entries(candidates, scores)).take(
        if limit <= candidates.len() {
            limit as int
        } else {
            candidates.len() as int
        },
    )
}

/// Chooses the providers that a request is mirrored to: of the candidates, given
/// with their scores, the few with the highest.
pub fn mirror_targets(candidates: &Vec<ProviderAssessment>, scores: &Vec<i64>, limit: usize) -> (targets:
    Vec<usize>)
    requires
        scores@.len() == candidates@.len(),
    ensures
        targets@ == best_mirrors(candidates@, scores@, limit as nat),
{
    let mut entries: Vec<RankEntry> = Vec::new();
    let mut i: usize = 0;
    while i < candidates.len()
        invariant
            i <= candidates@.len(),
            scores@.len() == candidates@.len(),
            entries@ == mirror_entries(candidates@, scores@).take(i as int),
        decreases candidates@.len() - i,
    {
        entries.push(
            RankEntry { index: candidates[i].index, healthy: true, score: scores[i] },
        );
        i = i + 1;
        assert(entries@ =~= mirror_entries(candidates@, scores@).take(i as int));
    }
    assert(entries@ =~= mirror_entries(candidates@, scores@));
    proof {
        lemma_ranked_places(entries@);
    }
    let ranked: Vec<usize> = rank_providers(&entries);
    take_indexes(&ranked, limit.min(ranked.len()))
}

proof fn lemma_ranked_places(entries: Seq<RankEntry>)
    ensures
        ranked_places(entries).len() == entries.len(),
        ranked_places(entries).to_multiset() == places(entries.len()).to_multiset(),
        sorted_by(ranked_places(entries), ranks(entries)),
{
    broadcast use vstd::seq_lib::group_to_multiset_ensures;

    lemma_ranks_is_total(entries);
    places(entries.len()).lemma_sort_by_ensures(ranks(entries));
    assert(ranked_places(entries).to_multiset().len() == ranked_places(entries).len());
    assert(places(entries.len()).to_multiset().len() == places(entries.len()).len());
}

/// Every provider that takes part is ranked, and there are no others.
pub proof fn ranking_covers_all(entries: Seq<RankEntry>, index: usize)
    requires
        entries.len() <= usize::MAX,
    ensures
        ranking(entries).len() == entries.len(),
        ranking(entries).contains(index) <==> exists|i: int|
            0 <= i < entries.len() && (#[trigger] entries[i]).index == index,
{
    broadcast use vstd::seq_lib::group_to_multiset_ensures;

    lemma_ranked_places(entries);
    let order = ranked_places(entries);
    let all = places(entries.len());
    assert(order.len() == entries.len());
    if ranking(entries).contains(index) {
        let k = choose|k: int| 0 <= k < ranking(entries).len() && ranking(entries)[k] == index;
        assert(order.to_multiset().contains(order[k]));
        assert(all.contains(order[k]));
        assert(entries[order[k] as int].index == index);
    }
    if exists|i: int| 0 <= i < entries.len() && (#[trigger] entries[i]).index == index {
        let i = choose|i: int| 0 <= i < entries.len() && (#[trigger] entries[i]).index == index;
        assert(all[i] == i as usize);
        assert(all.contains(i as usize));
        assert(order.to_multiset().contains(i as usize));
        assert(order.contains(i as usize));
        let k = choose|k: int| 0 <= k < order.len() && order[k] == i as usize;
        assert(ranking(entries)[k] == index);
    }
}

/// A provider that takes part once is ranked once.
pub proof fn none_is_ranked_twice(entries: Seq<RankEntry>)
    requires
        entries.len() <= usize::MAX,
        forall|i: int, k: int|
            0 <= i < k < entries.len() ==> (#[trigger] entries[i]).index != (
            #[trigger] entries[k]).index,
    ensures
        ranking(entries).no_duplicates(),
{
    broadcast use vstd::seq_lib::group_to_multiset_ensures;

    lemma_ranked_places(entries);
    let order = ranked_places(entries);
    let all = places(entries.len());
    assert(all.no_duplicates());
    all.lemma_multiset_has_no_duplicates();
    order.lemma_multiset_has_no_duplicates_conv();
    assert forall|i: int, k: int|
        0 <= i < ranking(entries).len() && 0 <= k < ranking(entries).len() && i != k implies ranking(
        entries,
    )[i] != ranking(entries)[k] by {
        assert(order[i] != order[k]);
        assert(order.to_multiset().contains(order[i]));
        assert(order.to_multiset().contains(order[k]));
        assert(all.contains(order[i]) && all.contains(order[k]));
        let left = entries[order[i] as int];
        let right = entries[order[k] as int];
        assert(left.index != right.index);
    }
}

/// Healthy providers go before the others, and among equally healthy ones those
/// with higher scores go first.
pub proof fn healthy_and_high_scores_first(entries: Seq<RankEntry>, first: int, later: int)
    requires
        0 <= first < later < entries.len(),
    ensures
        ({
            let better = entries[ranked_places(entries)[first] as int];
            let worse = entries[ranked_places(entries)[later] as int];
            &&& ranking(entries)[first] == better.index
            &&& ranking(entries)[later] == worse.index
            &&& worse.healthy ==> better.healthy
            &&& better.healthy == worse.healthy ==> better.score >= worse.score
        }),
{
    lemma_ranked_places(entries);
    let order = ranked_places(entries);
    assert(ranks(entries)(order[first], order[later]));
}

/// Only providers in service are ranked, and be it that there is none.
pub proof fn shadow_providers_are_excluded(assessments: Seq<ProviderAssessment>, place: int)
    requires
        0 <= place < in_service(assessments).len(),
    ensures
        in_service(assessments)[place].scoring.is_live,
{
    let keep = |assessment: ProviderAssessment| assessment.scoring.is_live;
    assessments.lemma_filter_pred(keep, place);
    assert(keep(assessments.filter(keep)[place]));
}

/// Every provider in service is ranked.
pub proof fn live_providers_are_kept(assessments: Seq<ProviderAssessment>, live: int)
    requires
        0 <= live < assessments.len(),
        assessments[live].scoring.is_live,
    ensures
        in_service(assessments).contains(assessments[live]),
{
    let keep = |assessment: ProviderAssessment| assessment.scoring.is_live;
    assessments.lemma_filter_contains_rev(keep, assessments[live]);
}

/// Whether providers stand in the order of their indexes.
pub open spec fn in_index_order(assessments: Seq<ProviderAssessment>) -> bool {
    forall|i: int, k: int|
        0 <= i < k < assessments.len() ==> (#[trigger] assessments[i]).index < (
        #[trigger] assessments[k]).index
}

/// Leaving out those that are not in service keeps the order, and adds none.
pub proof fn service_keeps_order(assessments: Seq<ProviderAssessment>)
    requires
        in_index_order(assessments),
    ensures
        in_index_order(in_service(assessments)),
        forall|k: int|
            0 <= k < in_service(assessments).len() ==> assessments.contains(
                #[trigger] in_service(assessments)[k],
            ),
{
    lemma_filter_keeps_order(
        assessments,
        |assessment: ProviderAssessment| assessment.scoring.is_live,
    );
}

proof fn lemma_filter_keeps_order(
    assessments: Seq<ProviderAssessment>,
    keep: spec_fn(ProviderAssessment) -> bool,
)
    requires
        in_index_order(assessments),
    ensures
        in_index_order(assessments.filter(keep)),
        forall|k: int|
            0 <= k < assessments.filter(keep).len() ==> assessments.contains(
                #[trigger] assessments.filter(keep)[k],
            ),
    decreases assessments.len(),
{
    reveal(Seq::filter);
    if assessments.len() > 0 {
        let before = assessments.drop_last();
        assert(in_index_order(before)) by {
            assert forall|i: int, k: int| 0 <= i < k < before.len() implies (
            #[trigger] before[i]).index < (#[trigger] before[k]).index by {
                assert(before[i] == assessments[i] && before[k] == assessments[k]);
            }
        }
        lemma_filter_keeps_order(before, keep);
        let kept = before.filter(keep);
        assert forall|k: int| 0 <= k < kept.len() implies assessments.contains(
            #[trigger] kept[k],
        ) && kept[k].index < assessments.last().index by {
            let i = choose|i: int| 0 <= i < before.len() && before[i] == kept[k];
            assert(assessments[i] == kept[k]);
            assert(assessments[i].index < assessments[assessments.len() - 1].index);
        }
        assert(assessments.contains(assessments.last()));
    }
}

/// Of equally healthy providers with the same score the one that stood first goes
/// first.
pub proof fn equals_keep_their_order(entries: Seq<RankEntry>, first: int, later: int)
    requires
        0 <= first < later < entries.len(),
        entries.len() <= usize::MAX,
        entries[ranked_places(entries)[first] as int].healthy
            == entries[ranked_places(entries)[later] as int].healthy,
        entries[ranked_places(entries)[first] as int].score
            == entries[ranked_places(entries)[later] as int].score,
    ensures
        ranked_places(entries)[first] < ranked_places(entries)[later],
        ranking(entries)[first] == entries[ranked_places(entries)[first] as int].index,
        ranking(entries)[later] == entries[ranked_places(entries)[later] as int].index,
{
    broadcast use vstd::seq_lib::group_to_multiset_ensures;

    lemma_ranked_places(entries);
    let order = ranked_places(entries);
    let all = places(entries.len());
    assert(ranks(entries)(order[first], order[later]));
    assert(all.no_duplicates());
    all.lemma_multiset_has_no_duplicates();
    order.lemma_multiset_has_no_duplicates_conv();
    assert(order[first] != order[later]);
}

/// A provider takes part in a ranking under its own index, with its own health and
/// the score that was given for it.
pub proof fn providers_are_ranked_by_their_own_scores(
    candidates: Seq<RankCandidate>,
    scores: Seq<i64>,
    place: int,
)
    requires
        0 <= place < candidates.len(),
    ensures
        scored(candidates, scores).len() == candidates.len(),
        scored(candidates, scores)[place].index == candidates[place].assessment.index,
        scored(candidates, scores)[place].healthy == candidates[place].assessment.snapshot.healthy,
        scored(candidates, scores)[place].score == scores[place],
{
}

/// The price of a provider in a ranking is compared to the lowest among those that
/// are ranked with it, and to no other.
pub proof fn prices_are_compared_within_a_ranking(
    costs: CostPolicyView,
    assessments: Seq<ProviderAssessment>,
    place: int,
)
    requires
        0 <= place < assessments.len(),
    ensures
        priced(costs, assessments).len() == assessments.len(),
        priced(costs, assessments)[place].assessment == assessments[place],
        costs.enabled && costs.price(assessments[place].index) is Some ==> {
            &&& priced(costs, assessments)[place].cost is Compared
            &&& priced(costs, assessments)[place].cost->price == costs.price(
                assessments[place].index,
            )->0
            &&& forall|k: int|
                0 <= k < assessments.len() && costs.price(
                    (#[trigger] assessments[k]).index,
                ) is Some ==> priced(costs, assessments)[place].cost->lowest <= costs.price(
                    assessments[k].index,
                )->0
            &&& exists|k: int|
                0 <= k < assessments.len() && costs.price((#[trigger] assessments[k]).index)
                    == Some(priced(costs, assessments)[place].cost->lowest)
        },
{
    let indexes = indexes_of(assessments);
    assert(indexes[place] == assessments[place].index);
    if costs.enabled && costs.price(assessments[place].index) is Some {
        lowest_is_a_lower_bound(costs, indexes, place);
        let k = choose|k: int|
            0 <= k < indexes.len() && costs.price(#[trigger] indexes[k]) == costs.lowest(indexes);
        assert(indexes[k] == assessments[k].index);
        assert forall|k: int|
            0 <= k < assessments.len() && costs.price((#[trigger] assessments[k]).index)
                is Some implies costs.lowest(indexes)->0 <= costs.price(
            assessments[k].index,
        )->0 by {
            assert(indexes[k] == assessments[k].index);
            lowest_is_a_lower_bound(costs, indexes, k);
        }
    }
}

/// A request is mirrored to the candidates with the highest scores, to as many as is
/// allowed and there are, however healthy they are.
pub proof fn the_best_are_mirrored_to(
    candidates: Seq<ProviderAssessment>,
    scores: Seq<i64>,
    limit: nat,
    place: int,
)
    requires
        candidates.len() <= usize::MAX,
    ensures
        best_mirrors(candidates, scores, limit).len() == (if limit <= candidates.len() {
            limit
        } else {
            candidates.len()
        }),
        0 <= place < best_mirrors(candidates, scores, limit).len() ==> exists|k: int|
            0 <= k < candidates.len() && (#[trigger] candidates[k]).index == best_mirrors(
                candidates,
                scores,
                limit,
            )[place],
        forall|first: int, later: int|
            0 <= first < later < candidates.len() ==> scores[#[trigger] ranked_places(
                mirror_entries(candidates, scores),
            )[first] as int] >= scores[#[trigger] ranked_places(
                mirror_entries(candidates, scores),
            )[later] as int],
        0 <= place < best_mirrors(candidates, scores, limit).len() ==> best_mirrors(
            candidates,
            scores,
            limit,
        )[place] == candidates[ranked_places(
            mirror_entries(candidates, scores),
        )[place] as int].index,
{
    broadcast use vstd::seq_lib::group_to_multiset_ensures;

    let entries = mirror_entries(candidates, scores);
    let order = ranked_places(entries);
    lemma_ranked_places(entries);
    let all = places(entries.len());
    assert forall|k: int| 0 <= k < order.len() implies (#[trigger] order[k]) < entries.len() by {
        assert(order.to_multiset().contains(order[k]));
        assert(all.contains(order[k]));
    }
    if 0 <= place < best_mirrors(candidates, scores, limit).len() {
        assert(candidates[order[place] as int].index == best_mirrors(
            candidates,
            scores,
            limit,
        )[place]);
    }
    assert forall|first: int, later: int|
        0 <= first < later < candidates.len() implies scores[#[trigger] order[first] as int]
        >= scores[#[trigger] order[later] as int] by {
        assert(order[first] < entries.len() && order[later] < entries.len());
        healthy_and_high_scores_first(entries, first, later);
    }
}

} // verus!
