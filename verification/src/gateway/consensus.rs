//! Voting among the answers that several providers give to one request.
use std::time::Duration;

use bytes::Bytes;
use serde_json::Value;

use vstd::prelude::*;

use crate::json::{
    descendant, is_plain_key, json_get, json_tree, member, parse_json, parsed_json, pointer_to,
    render_text, rendered_text, JsonTree,
};
use crate::payload::{as_slice, bytes_contents};
use crate::text::{lowercase, same_text};
use crate::time::duration_nanos;

verus! {

/// A provider's answer that takes part in a vote.
pub struct ConsensusCandidate {
    pub provider: String,
    pub body: Bytes,
    pub provider_index: usize,
    pub latency: Duration,
}

/// The outcome of a vote.
pub struct ConsensusDecision {
    pub winner: ConsensusCandidate,
    pub agreement: usize,
    pub participants: usize,
    pub majority: bool,
}

/// Where the answer to a method is looked for in a response, in order. The
/// method is given in lower case.
pub open spec fn consensus_paths(method: Seq<char>) -> Seq<Seq<Seq<char>>> {
    let result = seq!["result"@];
    let error = seq!["error"@];
    if method == "getbalance"@ || method == "isblockhashvalid"@ {
        seq![seq!["result"@, "value"@], result, error]
    } else if method == "gettokenaccountbalance"@ {
        seq![seq!["result"@, "value"@, "amount"@], seq!["result"@, "value"@], result, error]
    } else if method == "getlatestblockhash"@ {
        seq![seq!["result"@, "value"@, "blockhash"@], result, error]
    } else if method == "getblock"@ {
        seq![seq!["result"@, "blockhash"@], result, error]
    } else {
        seq![result, error]
    }
}

/// What the first path that leads anywhere leads to.
pub open spec fn first_found(tree: JsonTree, paths: Seq<Seq<Seq<char>>>) -> Option<JsonTree>
    decreases paths.len(),
{
    if paths.len() == 0 {
        None
    } else {
        match descendant(tree, paths[0]) {
            Some(found) => Some(found),
            None => first_found(tree, paths.skip(1)),
        }
    }
}

/// The part of a response that providers must agree on.
pub open spec fn voted_part(method: Option<Seq<char>>, tree: JsonTree) -> Option<JsonTree> {
    let name = match method {
        Some(m) => m,
        None => Seq::empty(),
    };
    first_found(tree, consensus_paths(lowercase(name)))
}

/// What a response is compared by: the part that providers must agree on, as
/// JSON text.
pub open spec fn fingerprint(method: Option<Seq<char>>, body: Seq<u8>) -> Option<Seq<char>> {
    match parsed_json(body) {
        Some(tree) => match voted_part(method, tree) {
            Some(part) => rendered_text(part),
            None => None,
        },
        None => None,
    }
}

/// The view of an optional method name.
pub open spec fn method_view(method: Option<&str>) -> Option<Seq<char>> {
    match method {
        Some(m) => Some(m@),
        None => None,
    }
}

proof fn lemma_pointers()
    ensures
        is_plain_key("result"@),
        is_plain_key("value"@),
        is_plain_key("amount"@),
        is_plain_key("blockhash"@),
        pointer_to(seq!["result"@, "value"@]) == "/result/value"@,
        pointer_to(seq!["result"@, "blockhash"@]) == "/result/blockhash"@,
        pointer_to(seq!["result"@, "value"@, "amount"@]) == "/result/value/amount"@,
        pointer_to(seq!["result"@, "value"@, "blockhash"@]) == "/result/value/blockhash"@,
{
    reveal_strlit("result");
    reveal_strlit("value");
    reveal_strlit("amount");
    reveal_strlit("blockhash");
    reveal_strlit("/");
    reveal_strlit("/result/value");
    reveal_strlit("/result/blockhash");
    reveal_strlit("/result/value/amount");
    reveal_strlit("/result/value/blockhash");
    reveal_with_fuel(pointer_to, 4);
    let value = seq!["result"@, "value"@];
    assert(value.skip(1) =~= seq!["value"@]);
    assert(value.skip(1).skip(1) =~= seq![]);
    assert(pointer_to(value) =~= "/result/value"@);
    let block = seq!["result"@, "blockhash"@];
    assert(block.skip(1) =~= seq!["blockhash"@]);
    assert(block.skip(1).skip(1) =~= seq![]);
    assert(pointer_to(block) =~= "/result/blockhash"@);
    let amount = seq!["result"@, "value"@, "amount"@];
    assert(amount.skip(1) =~= seq!["value"@, "amount"@]);
    assert(amount.skip(1).skip(1) =~= seq!["amount"@]);
    assert(amount.skip(1).skip(1).skip(1) =~= seq![]);
    assert(pointer_to(amount) =~= "/result/value/amount"@);
    let latest = seq!["result"@, "value"@, "blockhash"@];
    assert(latest.skip(1) =~= seq!["value"@, "blockhash"@]);
    assert(latest.skip(1).skip(1) =~= seq!["blockhash"@]);
    assert(latest.skip(1).skip(1).skip(1) =~= seq![]);
    assert(pointer_to(latest) =~= "/result/value/blockhash"@);
}

proof fn lemma_first_found_step(tree: JsonTree, path: Seq<Seq<char>>, rest: Seq<Seq<Seq<char>>>)
    ensures
        first_found(tree, seq![path] + rest) == (match descendant(tree, path) {
            Some(found) => Some(found),
            None => first_found(tree, rest),
        }),
{
    assert((seq![path] + rest).skip(1) =~= rest);
}

/// The result of a response, or else its error.
fn result_or_error(payload: &Value) -> (part: Option<Value>)
    ensures
        (match part {
            Some(p) => first_found(json_tree(*payload), seq![seq!["result"@], seq!["error"@]])
                == Some(json_tree(p)),
            None => first_found(
                json_tree(*payload),
                seq![seq!["result"@], seq!["error"@]],
            ) is None,
        }),
{
    proof {
        let tree = json_tree(*payload);
        let result = seq!["result"@];
        let error = seq!["error"@];
        reveal_with_fuel(descendant, 2);
        assert(result.skip(1) =~= seq![]);
        assert(error.skip(1) =~= seq![]);
        assert(descendant(tree, result) == member(tree, "result"@));
        assert(descendant(tree, error) == member(tree, "error"@));
        assert(seq![result, error] =~= seq![result] + seq![error]);
        lemma_first_found_step(tree, result, seq![error]);
        assert(seq![error] =~= seq![error] + seq![]);
        lemma_first_found_step(tree, error, seq![]);
    }
    match json_get(payload, "result") {
        Some(result) => Some(result.clone()),
        None => match json_get(payload, "error") {
            Some(error) => Some(error.clone()),
            None => None,
        },
    }
}

/// What the pointer leads to, or else the result or the error.
fn pointed_or_fallback(payload: &Value, pointer: &str, keys: Ghost<Seq<Seq<char>>>) -> (part:
    Option<Value>)
    requires
        forall|i: int| 0 <= i < keys@.len() ==> is_plain_key(#[trigger] keys@[i]),
        pointer@ == pointer_to(keys@),
    ensures
        (match part {
            Some(p) => first_found(
                json_tree(*payload),
                seq![keys@, seq!["result"@], seq!["error"@]],
            ) == Some(json_tree(p)),
            None => first_found(
                json_tree(*payload),
                seq![keys@, seq!["result"@], seq!["error"@]],
            ) is None,
        }),
{
    proof {
        let rest = seq![seq!["result"@], seq!["error"@]];
        assert(seq![keys@, seq!["result"@], seq!["error"@]] =~= seq![keys@] + rest);
        lemma_first_found_step(json_tree(*payload), keys@, rest);
    }
    match payload.pointer(pointer) {
        Some(found) => Some(found.clone()),
        None => result_or_error(payload),
    }
}

/// Picks the part of a response that providers must agree on.
pub fn consensus_part(method: Option<&str>, payload: &Value) -> (part: Option<Value>)
    ensures
        (match part {
            Some(p) => voted_part(method_view(method), json_tree(*payload)) == Some(json_tree(p)),
            None => voted_part(method_view(method), json_tree(*payload)) is None,
        }),
{
    let name: String = match method {
        Some(m) => m.to_ascii_lowercase(),
        None => String::new(),
    };
    let name: &str = name.as_str();
    let ghost value = seq!["result"@, "value"@];
    let ghost latest = seq!["result"@, "value"@, "blockhash"@];
    let ghost block = seq!["result"@, "blockhash"@];
    proof {
        lemma_pointers();
        assert(lowercase(Seq::empty()) =~= Seq::empty());
    }
    if same_text(name, "getbalance") || same_text(name, "isblockhashvalid") {
        pointed_or_fallback(payload, "/result/value", Ghost(value))
    } else if same_text(name, "gettokenaccountbalance") {
        proof {
            let amount = seq!["result"@, "value"@, "amount"@];
            let rest = seq![seq!["result"@, "value"@], seq!["result"@], seq!["error"@]];
            assert(consensus_paths(name@) =~= seq![amount] + rest);
            lemma_first_found_step(json_tree(*payload), amount, rest);
        }
        match payload.pointer("/result/value/amount") {
            Some(found) => Some(found.clone()),
            None => pointed_or_fallback(payload, "/result/value", Ghost(value)),
        }
    } else if same_text(name, "getlatestblockhash") {
        pointed_or_fallback(payload, "/result/value/blockhash", Ghost(latest))
    } else if same_text(name, "getblock") {
        pointed_or_fallback(payload, "/result/blockhash", Ghost(block))
    } else {
        result_or_error(payload)
    }
}

/// Computes what a response is compared by.
pub fn consensus_fingerprint(method: Option<&str>, body: &[u8]) -> (print: Option<String>)
    ensures
        (match print {
            Some(p) => fingerprint(method_view(method), body@) == Some(p@),
            None => fingerprint(method_view(method), body@) is None,
        }),
{
    match parse_json(body) {
        Some(payload) => match consensus_part(method, &payload) {
            Some(part) => match render_text(&part) {
                Ok(text) => Some(text),
                Err(_) => None,
            },
            None => None,
        },
        None => None,
    }
}

/// Two responses to a method agree wherever the first place to look for its
/// answer holds the same in both, whatever else they hold.
pub proof fn same_answer_same_fingerprint(
    method: Option<Seq<char>>,
    body: Seq<u8>,
    other_body: Seq<u8>,
)
    requires
        parsed_json(body) is Some,
        parsed_json(other_body) is Some,
        ({
            let name = match method {
                Some(m) => m,
                None => Seq::empty(),
            };
            let place = consensus_paths(lowercase(name))[0];
            &&& descendant(parsed_json(body)->0, place) is Some
            &&& descendant(parsed_json(body)->0, place) == descendant(
                parsed_json(other_body)->0,
                place,
            )
        }),
    ensures
        fingerprint(method, body) == fingerprint(method, other_body),
{
}

/// How many of the answers agree with a given fingerprint. An answer without a
/// fingerprint agrees with none.
pub open spec fn votes(prints: Seq<Option<Seq<char>>>, print: Option<Seq<char>>) -> nat
    decreases prints.len(),
{
    if prints.len() == 0 {
        0
    } else {
        votes(prints.drop_last(), print) + if print is Some && prints.last() == print {
            1nat
        } else {
            0
        }
    }
}

/// The views of a list of texts.
pub open spec fn texts(list: Seq<String>) -> Seq<Seq<char>> {
    list.map_values(|text: String| text@)
}

/// The view of what an answer is compared by, if it can be compared.
pub open spec fn print_view(print: Option<String>) -> Option<Seq<char>> {
    match print {
        Some(text) => Some(text@),
        None => None,
    }
}

/// The views of what answers are compared by.
pub open spec fn print_views(prints: Seq<Option<String>>) -> Seq<Option<Seq<char>>> {
    prints.map_values(|print: Option<String>| print_view(print))
}

/// Whether all answers can be compared.
pub open spec fn all_comparable(prints: Seq<Option<Seq<char>>>) -> bool {
    forall|i: int| 0 <= i < prints.len() ==> #[trigger] prints[i] is Some
}

/// How long each candidate took.
pub open spec fn latencies(candidates: Seq<ConsensusCandidate>) -> Seq<nat> {
    candidates.map_values(|candidate: ConsensusCandidate| duration_nanos(candidate.latency))
}

/// Whether a candidate wins the vote: no fingerprint has more votes than its
/// own, and it is the fastest, and among the fastest the first, of those that
/// share it. Of several fingerprints with the most votes any may win; a candidate
/// without one wins only where none has one.
pub open spec fn wins(prints: Seq<Option<Seq<char>>>, latencies: Seq<nat>, winner: int) -> bool {
    &&& 0 <= winner < prints.len()
    &&& forall|i: int|
        0 <= i < prints.len() ==> votes(prints, #[trigger] prints[i]) <= votes(
            prints,
            prints[winner],
        )
    &&& forall|i: int|
        0 <= i < prints.len() && prints[i] == prints[winner] ==> latencies[winner]
            <= #[trigger] latencies[i] && (i < winner ==> latencies[winner] < latencies[i])
}

proof fn lemma_votes_split(
    prints: Seq<Option<Seq<char>>>,
    print: Option<Seq<char>>,
    other: Option<Seq<char>>,
)
    requires
        print != other,
    ensures
        votes(prints, print) + votes(prints, other) <= prints.len(),
    decreases prints.len(),
{
    if prints.len() > 0 {
        lemma_votes_split(prints.drop_last(), print, other);
    }
}

/// A majority leaves no choice: where more than half of the candidates share a
/// fingerprint, one candidate alone can win, and it carries that fingerprint.
pub proof fn majority_decides(
    prints: Seq<Option<Seq<char>>>,
    latencies: Seq<nat>,
    print: Option<Seq<char>>,
    winner: int,
    other: int,
)
    requires
        prints.len() == latencies.len(),
        votes(prints, print) > prints.len() / 2,
        wins(prints, latencies, winner),
        wins(prints, latencies, other),
    ensures
        prints[winner] == print,
        winner == other,
{
    lemma_votes_present(prints, print);
    let i = choose|i: int| 0 <= i < prints.len() && #[trigger] prints[i] == print;
    assert(votes(prints, prints[i]) <= votes(prints, prints[winner]));
    assert(votes(prints, prints[i]) <= votes(prints, prints[other]));
    if prints[winner] != print {
        lemma_votes_split(prints, print, prints[winner]);
    }
    if prints[other] != print {
        lemma_votes_split(prints, print, prints[other]);
    }
    assert(latencies[winner] <= latencies[other]);
    assert(latencies[other] <= latencies[winner]);
}

proof fn lemma_votes_present(prints: Seq<Option<Seq<char>>>, print: Option<Seq<char>>)
    requires
        votes(prints, print) > 0,
    ensures
        exists|i: int| 0 <= i < prints.len() && #[trigger] prints[i] == print,
    decreases prints.len(),
{
    if prints.last() == print {
        assert(prints[prints.len() - 1] == print);
    } else {
        lemma_votes_present(prints.drop_last(), print);
        let i = choose|i: int|
            0 <= i < prints.drop_last().len() && #[trigger] prints.drop_last()[i] == print;
        assert(prints[i] == print);
    }
}

/// Whether two answers are compared by the same, or neither can be compared.
fn same_print(left: &Option<String>, right: &Option<String>) -> (same: bool)
    ensures
        same == (print_view(*left) == print_view(*right)),
{
    match (left, right) {
        (Some(l), Some(r)) => same_text(l.as_str(), r.as_str()),
        (None, None) => true,
        _ => false,
    }
}

/// Counts the answers that agree with the one at `index`.
fn count_votes(prints: &Vec<Option<String>>, index: usize) -> (count: usize)
    requires
        index < prints@.len(),
    ensures
        count == votes(print_views(prints@), print_view(prints@[index as int])),
{
    let mut count: usize = 0;
    let mut i: usize = 0;
    while i < prints.len()
        invariant
            index < prints@.len(),
            i <= prints@.len(),
            count == votes(
                print_views(prints@).take(i as int),
                print_view(prints@[index as int]),
            ),
            count <= i,
        decreases prints@.len() - i,
    {
        assert(print_views(prints@).take(i + 1).drop_last() =~= print_views(prints@).take(
            i as int,
        ));
        if prints[index].is_some() && same_print(&prints[i], &prints[index]) {
            count = count + 1;
        }
        i = i + 1;
    }
    assert(print_views(prints@).take(i as int) =~= print_views(prints@));
    count
}

/// Holds a vote among candidates by their fingerprints. Nobody wins where nobody
/// stands.
pub fn decide_by_fingerprints(
    prints: &Vec<Option<String>>,
    candidates: Vec<ConsensusCandidate>,
) -> (decision: Option<ConsensusDecision>)
    requires
        prints@.len() == candidates@.len(),
    ensures
        decision is None <==> candidates@.len() == 0,
        decision matches Some(d) ==> {
            &&& d.participants == candidates@.len()
            &&& d.majority == (d.agreement > d.participants / 2)
            &&& exists|winner: int| #[trigger]
                wins(print_views(prints@), latencies(candidates@), winner) && d.winner
                    == candidates@[winner] && d.agreement == votes(
                    print_views(prints@),
                    print_views(prints@)[winner],
                )
        },
{
    let mut candidates = candidates;
    let participants: usize = candidates.len();
    if participants == 0 {
        return None;
    }
    let ghost views = print_views(prints@);
    let ghost times = latencies(candidates@);
    let mut best: usize = 0;
    let mut agreement: usize = count_votes(prints, 0);
    let mut i: usize = 1;
    while i < participants
        invariant
            participants == candidates@.len(),
            prints@.len() == candidates@.len(),
            views == print_views(prints@),
            times == latencies(candidates@),
            best < i <= participants,
            agreement == votes(views, views[best as int]),
            forall|k: int| 0 <= k < i ==> votes(views, #[trigger] views[k]) <= agreement,
            forall|k: int|
                0 <= k < i && views[k] == views[best as int] ==> times[best as int]
                    <= #[trigger] times[k] && (k < best ==> times[best as int] < times[k]),
        decreases participants - i,
    {
        let count: usize = count_votes(prints, i);
        assert(views[i as int] == print_view(prints@[i as int]));
        assert(views[best as int] == print_view(prints@[best as int]));
        if count > agreement {
            best = i;
            agreement = count;
        } else if same_print(&prints[i], &prints[best]) && candidates[i].latency.as_nanos()
            < candidates[best].latency.as_nanos() {
            assert(times[i as int] < times[best as int]);
            best = i;
        } else {
            assert(views[i as int] == views[best as int] ==> times[best as int]
                <= times[i as int]);
        }
        i = i + 1;
    }
    let winner: ConsensusCandidate = candidates.swap_remove(best);
    assert(wins(views, times, best as int));
    Some(
        ConsensusDecision { winner, agreement, participants, majority: agreement > participants / 2 },
    )
}

/// The fingerprints of the candidates' bodies, as far as they have one.
pub open spec fn fingerprints(
    method: Option<Seq<char>>,
    candidates: Seq<ConsensusCandidate>,
) -> Seq<Option<Seq<char>>> {
    candidates.map_values(
        |candidate: ConsensusCandidate| fingerprint(method, bytes_contents(candidate.body)),
    )
}

/// Computes the fingerprints of the candidates' bodies.
pub fn fingerprints_of(method: Option<&str>, candidates: &Vec<ConsensusCandidate>) -> (prints: Vec<
    Option<String>,
>)
    ensures
        print_views(prints@) == fingerprints(method_view(method), candidates@),
{
    let mut prints: Vec<Option<String>> = Vec::new();
    let mut i: usize = 0;
    while i < candidates.len()
        invariant
            i <= candidates@.len(),
            prints@.len() == i,
            forall|k: int|
                0 <= k < i ==> print_view(#[trigger] prints@[k]) == fingerprint(
                    method_view(method),
                    bytes_contents(candidates@[k].body),
                ),
        decreases candidates@.len() - i,
    {
        prints.push(consensus_fingerprint(method, as_slice(&candidates[i].body)));
        i = i + 1;
    }
    assert(print_views(prints@) =~= fingerprints(method_view(method), candidates@));
    prints
}

/// Decides whether all answers can be compared.
pub fn are_comparable(prints: &Vec<Option<String>>) -> (comparable: bool)
    ensures
        comparable == all_comparable(print_views(prints@)),
{
    let mut i: usize = 0;
    while i < prints.len()
        invariant
            i <= prints@.len(),
            forall|k: int| 0 <= k < i ==> #[trigger] print_views(prints@)[k] is Some,
        decreases prints@.len() - i,
    {
        if prints[i].is_none() {
            assert(print_views(prints@)[i as int] is None);
            return false;
        }
        i = i + 1;
    }
    true
}

/// Holds a vote among candidates by what they answered. There is no decision
/// without candidates, or where some answer holds nothing to compare.
pub fn decide_consensus(method: Option<&str>, candidates: Vec<ConsensusCandidate>) -> (decision:
    Option<ConsensusDecision>)
    ensures
        decision is None <==> candidates@.len() == 0 || !all_comparable(
            fingerprints(method_view(method), candidates@),
        ),
        decision matches Some(d) ==> {
            let prints = fingerprints(method_view(method), candidates@);
            &&& d.participants == candidates@.len()
            &&& d.majority == (d.agreement > d.participants / 2)
            &&& exists|winner: int| #[trigger]
                wins(prints, latencies(candidates@), winner) && d.winner == candidates@[winner]
                    && d.agreement == votes(prints, prints[winner])
        },
{
    let prints: Vec<Option<String>> = fingerprints_of(method, &candidates);
    assert(print_views(prints@).len() == candidates@.len());
    if are_comparable(&prints) {
        decide_by_fingerprints(&prints, candidates)
    } else {
        None
    }
}

proof fn lemma_descendants(tree: JsonTree, a: Seq<char>, b: Seq<char>, c: Seq<char>)
    ensures
        descendant(tree, seq![a]) == member(tree, a),
        descendant(tree, seq![a, b]) == (match member(tree, a) {
            Some(child) => member(child, b),
            None => None,
        }),
        descendant(tree, seq![a, b, c]) == (match member(tree, a) {
            Some(child) => match member(child, b) {
                Some(grandchild) => member(grandchild, c),
                None => None,
            },
            None => None,
        }),
{
    reveal_with_fuel(descendant, 4);
    assert(seq![a].skip(1) =~= seq![]);
    assert(seq![a, b].skip(1) =~= seq![b]);
    assert(seq![b].skip(1) =~= seq![]);
    assert(seq![a, b, c].skip(1) =~= seq![b, c]);
    assert(seq![b, c].skip(1) =~= seq![c]);
    assert(seq![c].skip(1) =~= seq![]);
}

proof fn lemma_result_or_error(tree: JsonTree)
    ensures
        first_found(tree, seq![seq!["result"@], seq!["error"@]]) == (match member(
            tree,
            "result"@,
        ) {
            Some(result) => Some(result),
            None => member(tree, "error"@),
        }),
{
    let result = seq!["result"@];
    let error = seq!["error"@];
    lemma_descendants(tree, "result"@, "value"@, "amount"@);
    lemma_descendants(tree, "error"@, "value"@, "amount"@);
    assert(seq![result, error] =~= seq![result] + seq![error]);
    lemma_first_found_step(tree, result, seq![error]);
    assert(seq![error] =~= seq![error] + seq![]);
    lemma_first_found_step(tree, error, seq![]);
}

/// The name of a method in lower case, and nothing where no method is named.
pub open spec fn plain_name(method: Option<Seq<char>>) -> Seq<char> {
    match method {
        Some(name) => lowercase(name),
        None => Seq::empty(),
    }
}

/// Answers to all methods but five are compared by their whole results, and else by
/// their errors: by nothing less and nothing more.
pub proof fn whole_results_are_compared(method: Option<Seq<char>>, body: Seq<u8>, tree: JsonTree)
    requires
        parsed_json(body) == Some(tree),
        plain_name(method) != "getbalance"@,
        plain_name(method) != "isblockhashvalid"@,
        plain_name(method) != "gettokenaccountbalance"@,
        plain_name(method) != "getlatestblockhash"@,
        plain_name(method) != "getblock"@,
    ensures
        member(tree, "result"@) matches Some(result) ==> fingerprint(method, body)
            == rendered_text(result),
        member(tree, "result"@) is None ==> (match member(tree, "error"@) {
            Some(error) => fingerprint(method, body) == rendered_text(error),
            None => fingerprint(method, body) is None,
        }),
{
    assert(lowercase(Seq::empty()) =~= Seq::empty());
    lemma_result_or_error(tree);
}

/// Two answers with results to such a method agree exactly if their whole results
/// are written alike.
pub proof fn answers_agree_if_their_results_do(
    method: Option<Seq<char>>,
    body: Seq<u8>,
    tree: JsonTree,
    other_body: Seq<u8>,
    other_tree: JsonTree,
)
    requires
        parsed_json(body) == Some(tree),
        parsed_json(other_body) == Some(other_tree),
        member(tree, "result"@) is Some,
        member(other_tree, "result"@) is Some,
        plain_name(method) != "getbalance"@,
        plain_name(method) != "isblockhashvalid"@,
        plain_name(method) != "gettokenaccountbalance"@,
        plain_name(method) != "getlatestblockhash"@,
        plain_name(method) != "getblock"@,
    ensures
        fingerprint(method, body) == fingerprint(method, other_body) <==> rendered_text(
            member(tree, "result"@)->0,
        ) == rendered_text(member(other_tree, "result"@)->0),
{
    whole_results_are_compared(method, body, tree);
    whole_results_are_compared(method, other_body, other_tree);
}

/// Balances and the validity of a block hash are compared by the value within the
/// result; without one by the whole result, and without a result by the error.
pub proof fn values_are_compared(method: Option<Seq<char>>, body: Seq<u8>, tree: JsonTree)
    requires
        parsed_json(body) == Some(tree),
        plain_name(method) == "getbalance"@ || plain_name(method) == "isblockhashvalid"@,
    ensures
        fingerprint(method, body) == (match member(tree, "result"@) {
            Some(result) => match member(result, "value"@) {
                Some(value) => rendered_text(value),
                None => rendered_text(result),
            },
            None => match member(tree, "error"@) {
                Some(error) => rendered_text(error),
                None => None,
            },
        }),
{
    lemma_one_path(method, tree, seq!["result"@, "value"@]);
    lemma_descendants(tree, "result"@, "value"@, "amount"@);
}

/// Balances of token accounts are compared by the amount within the value, without
/// one by the value, and so on as other balances are.
pub proof fn amounts_are_compared(method: Option<Seq<char>>, body: Seq<u8>, tree: JsonTree)
    requires
        parsed_json(body) == Some(tree),
        plain_name(method) == "gettokenaccountbalance"@,
    ensures
        fingerprint(method, body) == (match member(tree, "result"@) {
            Some(result) => match member(result, "value"@) {
                Some(value) => match member(value, "amount"@) {
                    Some(amount) => rendered_text(amount),
                    None => rendered_text(value),
                },
                None => rendered_text(result),
            },
            None => match member(tree, "error"@) {
                Some(error) => rendered_text(error),
                None => None,
            },
        }),
{
    let amount = seq!["result"@, "value"@, "amount"@];
    let value = seq!["result"@, "value"@];
    let rest = seq![seq!["result"@], seq!["error"@]];
    lemma_fixed_names_differ();
    assert(lowercase(Seq::empty()) =~= Seq::empty());
    assert(seq![amount, value, seq!["result"@], seq!["error"@]] =~= seq![amount] + (seq![value]
        + rest));
    lemma_first_found_step(tree, amount, seq![value] + rest);
    lemma_first_found_step(tree, value, rest);
    lemma_descendants(tree, "result"@, "value"@, "amount"@);
    lemma_result_or_error(tree);
}

/// Latest block hashes are compared by the hash within the value, and blocks by
/// their hashes; without a hash both are compared by the whole result, and without
/// a result by the error.
pub proof fn block_hashes_are_compared(method: Option<Seq<char>>, body: Seq<u8>, tree: JsonTree)
    requires
        parsed_json(body) == Some(tree),
    ensures
        plain_name(method) == "getlatestblockhash"@ ==> fingerprint(method, body) == (match member(
            tree,
            "result"@,
        ) {
            Some(result) => match member(result, "value"@) {
                Some(value) => match member(value, "blockhash"@) {
                    Some(hash) => rendered_text(hash),
                    None => rendered_text(result),
                },
                None => rendered_text(result),
            },
            None => match member(tree, "error"@) {
                Some(error) => rendered_text(error),
                None => None,
            },
        }),
        plain_name(method) == "getblock"@ ==> fingerprint(method, body) == (match member(
            tree,
            "result"@,
        ) {
            Some(result) => match member(result, "blockhash"@) {
                Some(hash) => rendered_text(hash),
                None => rendered_text(result),
            },
            None => match member(tree, "error"@) {
                Some(error) => rendered_text(error),
                None => None,
            },
        }),
{
    if plain_name(method) == "getlatestblockhash"@ {
        lemma_one_path(method, tree, seq!["result"@, "value"@, "blockhash"@]);
    }
    if plain_name(method) == "getblock"@ {
        lemma_one_path(method, tree, seq!["result"@, "blockhash"@]);
    }
    lemma_descendants(tree, "result"@, "value"@, "blockhash"@);
    lemma_descendants(tree, "result"@, "blockhash"@, "value"@);
}

/// The part of a response that providers must agree on, for every method: what the
/// method's own place in the result holds, where there is such a place and it holds
/// anything; else the whole result, and without a result the error.
pub proof fn parts_are_looked_for_in_the_result(method: Option<Seq<char>>, tree: JsonTree)
    ensures
        ({
            let name = plain_name(method);
            let part = voted_part(method, tree);
            let whole = match member(tree, "result"@) {
                Some(result) => Some(result),
                None => member(tree, "error"@),
            };
            let value = descendant(tree, seq!["result"@, "value"@]);
            let amount = descendant(tree, seq!["result"@, "value"@, "amount"@]);
            let latest = descendant(tree, seq!["result"@, "value"@, "blockhash"@]);
            let block = descendant(tree, seq!["result"@, "blockhash"@]);
            &&& name != "getbalance"@ && name != "isblockhashvalid"@ && name
                != "gettokenaccountbalance"@ && name != "getlatestblockhash"@ && name
                != "getblock"@ ==> part == whole
            &&& name == "getbalance"@ || name == "isblockhashvalid"@ ==> part == if value is Some {
                value
            } else {
                whole
            }
            &&& name == "gettokenaccountbalance"@ ==> part == if amount is Some {
                amount
            } else if value is Some {
                value
            } else {
                whole
            }
            &&& name == "getlatestblockhash"@ ==> part == if latest is Some {
                latest
            } else {
                whole
            }
            &&& name == "getblock"@ ==> part == if block is Some {
                block
            } else {
                whole
            }
        }),
{
    let name = plain_name(method);
    assert(lowercase(Seq::empty()) =~= Seq::empty());
    lemma_result_or_error(tree);
    if name == "getbalance"@ || name == "isblockhashvalid"@ {
        lemma_one_path(method, tree, seq!["result"@, "value"@]);
    } else if name == "gettokenaccountbalance"@ {
        let amount = seq!["result"@, "value"@, "amount"@];
        let value = seq!["result"@, "value"@];
        let rest = seq![seq!["result"@], seq!["error"@]];
        lemma_fixed_names_differ();
        assert(seq![amount, value, seq!["result"@], seq!["error"@]] =~= seq![amount] + (
        seq![value] + rest));
        lemma_first_found_step(tree, amount, seq![value] + rest);
        lemma_first_found_step(tree, value, rest);
    } else if name == "getlatestblockhash"@ {
        lemma_one_path(method, tree, seq!["result"@, "value"@, "blockhash"@]);
    } else if name == "getblock"@ {
        lemma_one_path(method, tree, seq!["result"@, "blockhash"@]);
    }
    lemma_fixed_names_differ();
}

/// Each answer has the fingerprint of its own body, and no other.
pub proof fn answers_are_compared_by_their_own_bodies(
    method: Option<Seq<char>>,
    candidates: Seq<ConsensusCandidate>,
    index: int,
)
    requires
        0 <= index < candidates.len(),
    ensures
        fingerprints(method, candidates).len() == candidates.len(),
        fingerprints(method, candidates)[index] == fingerprint(
            method,
            bytes_contents(candidates[index].body),
        ),
        latencies(candidates).len() == candidates.len(),
        latencies(candidates)[index] == duration_nanos(candidates[index].latency),
{
}

proof fn lemma_one_path(method: Option<Seq<char>>, tree: JsonTree, path: Seq<Seq<char>>)
    requires
        ({
            let name = plain_name(method);
            ||| (name == "getbalance"@ || name == "isblockhashvalid"@) && path
                == seq!["result"@, "value"@]
            ||| name == "getlatestblockhash"@ && path == seq!["result"@, "value"@, "blockhash"@]
            ||| name == "getblock"@ && path == seq!["result"@, "blockhash"@]
        }),
    ensures
        voted_part(method, tree) == (match descendant(tree, path) {
            Some(found) => Some(found),
            None => match member(tree, "result"@) {
                Some(result) => Some(result),
                None => member(tree, "error"@),
            },
        }),
{
    let rest = seq![seq!["result"@], seq!["error"@]];
    lemma_fixed_names_differ();
    assert(lowercase(Seq::empty()) =~= Seq::empty());
    assert(seq![path, seq!["result"@], seq!["error"@]] =~= seq![path] + rest);
    lemma_first_found_step(tree, path, rest);
    lemma_result_or_error(tree);
}

proof fn lemma_fixed_names_differ()
    ensures
        "getbalance"@ != "getlatestblockhash"@,
        "getbalance"@ != "getblock"@,
        "getbalance"@ != "gettokenaccountbalance"@,
        "isblockhashvalid"@ != "getlatestblockhash"@,
        "isblockhashvalid"@ != "getblock"@,
        "isblockhashvalid"@ != "gettokenaccountbalance"@,
        "getlatestblockhash"@ != "getblock"@,
        "getlatestblockhash"@ != "gettokenaccountbalance"@,
        "getblock"@ != "gettokenaccountbalance"@,
{
    reveal_strlit("getbalance");
    reveal_strlit("isblockhashvalid");
    reveal_strlit("getlatestblockhash");
    reveal_strlit("getblock");
    reveal_strlit("gettokenaccountbalance");
    assert("getbalance"@.len() == 10);
    assert("isblockhashvalid"@.len() == 16);
    assert("getlatestblockhash"@.len() == 18);
    assert("getblock"@.len() == 8);
    assert("gettokenaccountbalance"@.len() == 22);
}

/// What is no JSON document has nothing to be compared by.
pub proof fn documents_alone_are_compared(method: Option<Seq<char>>, body: Seq<u8>)
    requires
        parsed_json(body) is None,
    ensures
        fingerprint(method, body) is None,
{
}

/// Votes are counted: a fingerprint has as many as there are answers with it, and
/// answers without one do not vote.
pub proof fn each_answer_has_one_vote(prints: Seq<Option<Seq<char>>>, print: Seq<char>)
    ensures
        votes(prints, Some(print)) == prints.filter(
            |other: Option<Seq<char>>| other == Some(print),
        ).len(),
        votes(prints, None) == 0,
    decreases prints.len(),
{
    reveal(Seq::filter);
    if prints.len() > 0 {
        each_answer_has_one_vote(prints.drop_last(), print);
    }
}

/// The answer that wins is one of those that most agree with, and the fastest of
/// those that agree with it; where any answer can be compared, it can be.
pub proof fn fastest_of_the_most_agreed_wins(
    prints: Seq<Option<Seq<char>>>,
    latencies: Seq<nat>,
    winner: int,
    other: int,
)
    requires
        prints.len() == latencies.len(),
        wins(prints, latencies, winner),
        0 <= other < prints.len(),
    ensures
        0 <= winner < prints.len(),
        votes(prints, prints[other]) <= votes(prints, prints[winner]),
        prints[other] == prints[winner] ==> latencies[winner] <= latencies[other],
        prints[other] == prints[winner] && latencies[winner] == latencies[other] ==> winner
            <= other,
        prints[other] is Some ==> prints[winner] is Some,
{
    assert(latencies[winner] <= latencies[winner]);
    assert(prints[other] == prints[winner] ==> latencies[winner] <= latencies[other]);
    if prints[other] is Some && prints[winner] is None {
        each_answer_has_one_vote(prints, prints[other]->0);
        lemma_votes_at_least_one(prints, other);
    }
}

proof fn lemma_votes_at_least_one(prints: Seq<Option<Seq<char>>>, index: int)
    requires
        0 <= index < prints.len(),
        prints[index] is Some,
    ensures
        votes(prints, prints[index]) >= 1,
    decreases prints.len(),
{
    if index < prints.len() - 1 {
        lemma_votes_at_least_one(prints.drop_last(), index);
    }
}

} // verus!
