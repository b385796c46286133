//! Sharing one upstream call among identical requests that come in while it is
//! under way.
use std::collections::hash_map::RandomState;

use dashmap::mapref::entry::Entry;
use dashmap::DashMap;

use vstd::prelude::*;

use crate::payload::{request_key, request_key_of};

verus! {

/// `dashmap::DashMap`, a concurrent hash map.
#[verifier::external_type_specification]
#[verifier::external_body]
#[verifier::reject_recursive_types(K)]
#[verifier::reject_recursive_types(V)]
#[verifier::reject_recursive_types(S)]
pub struct ExDashMap<K, V, S>(DashMap<K, V, S>);

/// What a concurrent map holds.
pub uninterp spec fn map_entries(map: DashMap<String, u64, RandomState>) -> Map<Seq<char>, u64>;

/// `DashMap::new`: a map that holds nothing.
#[verifier::external_body]
fn empty_map() -> (created: DashMap<String, u64, RandomState>)
    ensures
        map_entries(created).is_empty(),
{
    DashMap::new()
}

/// `DashMap::entry`: what the map holds under a key, or else the given value is
/// put in.
#[verifier::external_body]
fn entry_or_insert(map: &mut DashMap<String, u64, RandomState>, key: String, value: u64) -> (held:
    Option<u64>)
    ensures
        (match held {
            Some(existing) => {
                &&& map_entries(*old(map)).contains_key(key@)
                &&& existing == map_entries(*old(map))[key@]
                &&& map_entries(*final(map)) == map_entries(*old(map))
            },
            None => {
                &&& !map_entries(*old(map)).contains_key(key@)
                &&& map_entries(*final(map)) == map_entries(*old(map)).insert(key@, value)
            },
        }),
{
    match map.entry(key) {
        Entry::Occupied(existing) => Some(*existing.get()),
        Entry::Vacant(vacant) => {
            vacant.insert(value);
            None
        },
    }
}

/// `DashMap::remove`: what the map holds under a key is taken out.
#[verifier::external_body]
fn remove_key(map: &mut DashMap<String, u64, RandomState>, key: &str)
    ensures
        map_entries(*final(map)) == map_entries(*old(map)).remove(key@),
{
    map.remove(key);
}

/// `DashMap::len`: how many entries the map holds.
#[verifier::external_body]
fn map_len(map: &DashMap<String, u64, RandomState>) -> (count: usize)
    ensures
        count == map_entries(*map).len(),
{
    map.len()
}

/// Keeps track of the requests that are under way.
pub struct RequestCoalescer {
    enabled: bool,
    in_flight: DashMap<String, u64, RandomState>,
    leader_count: u64,
    fanout_count: u64,
}

/// The state of a coalescer: the numbers of the requests under way by their keys,
/// how many requests were made, and how many joined one.
#[verifier::ext_equal]
pub struct CoalescerView {
    pub enabled: bool,
    pub in_flight: Map<Seq<char>, u64>,
    pub leader_count: u64,
    pub fanout_count: u64,
}

/// What a request does with respect to those under way.
#[derive(Debug, Clone, Copy, PartialEq, Eq, Structural)]
pub enum CoalescingRole {
    /// It is made on its own.
    Alone,
    /// It is made, under this number, on behalf of those that join it.
    Leader(u64),
    /// It awaits the result of the request with this number.
    Follower(u64),
}

/// What is known of the coalescing so far.
#[derive(Debug, Clone, Copy)]
pub struct CoalescingStatsView {
    pub enabled: bool,
    pub in_flight: usize,
    pub leader_count: u64,
    pub fanout_count: u64,
}

/// One more, around the largest number.
pub open spec fn counted(count: u64) -> u64 {
    if count == u64::MAX {
        0
    } else {
        (count + 1) as u64
    }
}

impl CoalescerView {
    /// The coalescer before any request.
    pub open spec fn fresh(enabled: bool) -> CoalescerView {
        CoalescerView { enabled, in_flight: Map::empty(), leader_count: 0, fanout_count: 0 }
    }

    /// What a request with the given key does.
    pub open spec fn role(self, key: Seq<char>) -> CoalescingRole {
        if !self.enabled {
            CoalescingRole::Alone
        } else if self.in_flight.contains_key(key) {
            CoalescingRole::Follower(self.in_flight[key])
        } else {
            CoalescingRole::Leader(self.leader_count)
        }
    }

    /// The coalescer after a request has come in.
    pub open spec fn after_begin(self, key: Seq<char>) -> CoalescerView {
        match self.role(key) {
            CoalescingRole::Alone => self,
            CoalescingRole::Leader(number) => CoalescerView {
                in_flight: self.in_flight.insert(key, number),
                leader_count: counted(self.leader_count),
                ..self
            },
            CoalescingRole::Follower(_) => CoalescerView {
                fanout_count: counted(self.fanout_count),
                ..self
            },
        }
    }

    /// The coalescer after the request with the given key has its result.
    pub open spec fn after_finish(self, key: Seq<char>) -> CoalescerView {
        CoalescerView { in_flight: self.in_flight.remove(key), ..self }
    }

    /// Whether no two requests under way have the same number, nor one that is
    /// still to be given out.
    pub open spec fn numbers_are_distinct(self) -> bool {
        &&& forall|key: Seq<char>| #[trigger]
            self.in_flight.contains_key(key) ==> self.in_flight[key] < self.leader_count
        &&& forall|key: Seq<char>, other: Seq<char>|
            self.in_flight.contains_key(key) && self.in_flight.contains_key(other) && key != other
                ==> #[trigger] self.in_flight[key] != #[trigger] self.in_flight[other]
    }
}

impl View for RequestCoalescer {
    type V = CoalescerView;

    closed spec fn view(&self) -> CoalescerView {
        CoalescerView {
            enabled: self.enabled,
            in_flight: map_entries(self.in_flight),
            leader_count: self.leader_count,
            fanout_count: self.fanout_count,
        }
    }
}

impl RequestCoalescer {
    pub fn new(enabled: bool) -> (coalescer: RequestCoalescer)
        ensures
            coalescer@ == CoalescerView::fresh(enabled),
    {
        RequestCoalescer { enabled, in_flight: empty_map(), leader_count: 0, fanout_count: 0 }
    }

    pub fn enabled(&self) -> (enabled: bool)
        ensures
            enabled == self@.enabled,
    {
        self.enabled
    }

    pub fn stats(&self) -> (stats: CoalescingStatsView)
        ensures
            stats.enabled == self@.enabled,
            stats.in_flight == self@.in_flight.len(),
            stats.leader_count == self@.leader_count,
            stats.fanout_count == self@.fanout_count,
    {
        CoalescingStatsView {
            enabled: self.enabled,
            in_flight: map_len(&self.in_flight),
            leader_count: self.leader_count,
            fanout_count: self.fanout_count,
        }
    }

    /// Takes in a request: it is made, or joins the one with the same key that is
    /// under way.
    pub fn run_or_join(&mut self, key: String) -> (role: CoalescingRole)
        ensures
            role == old(self)@.role(key@),
            final(self)@ == old(self)@.after_begin(key@),
    {
        if !self.enabled {
            return CoalescingRole::Alone;
        }
        let number: u64 = self.leader_count;
        match entry_or_insert(&mut self.in_flight, key, number) {
            Some(leader) => {
                self.fanout_count = self.fanout_count.wrapping_add(1);
                CoalescingRole::Follower(leader)
            },
            None => {
                self.leader_count = self.leader_count.wrapping_add(1);
                CoalescingRole::Leader(number)
            },
        }
    }

    /// The request with the given key has its result: nothing joins it any more.
    pub fn finish(&mut self, key: &str)
        ensures
            final(self)@ == old(self)@.after_finish(key@),
    {
        remove_key(&mut self.in_flight, key);
    }
}

/// The place where the result of a request under way will stand.
pub struct InFlightRequest<T, E> {
    result: Option<Result<T, E>>,
}

impl<T, E> InFlightRequest<T, E> {
    /// The result, once there is one.
    pub closed spec fn outcome(&self) -> Option<Result<T, E>> {
        self.result
    }

    pub fn new() -> (request: InFlightRequest<T, E>)
        ensures
            request.outcome() is None,
    {
        InFlightRequest { result: None }
    }

    /// Puts the result in place.
    pub fn complete(&mut self, result: Result<T, E>)
        ensures
            final(self).outcome() == Some(result),
    {
        self.result = Some(result);
    }

    /// The result, once there is one.
    pub fn result(&self) -> (result: Option<&Result<T, E>>)
        ensures
            (match result {
                Some(r) => self.outcome() == Some(*r),
                None => self.outcome() is None,
            }),
    {
        self.result.as_ref()
    }
}

/// Computes the key by which identical requests find each other.
pub fn request_coalescing_key(method: &str, body: &[u8]) -> (key: String)
    ensures
        key@ == request_key(method@, body@),
{
    request_key_of(method, body)
}

/// Of identical requests one is made: while it is under way, those that come in
/// join it, and none of them is made.
pub proof fn identical_requests_join(state: CoalescerView, key: Seq<char>, number: u64)
    requires
        state.role(key) == CoalescingRole::Leader(number),
    ensures
        state.after_begin(key).role(key) == CoalescingRole::Follower(number),
        state.after_begin(key).after_begin(key).role(key) == CoalescingRole::Follower(number),
        state.after_begin(key).after_begin(key).in_flight == state.after_begin(key).in_flight,
        state.after_begin(key).after_begin(key).leader_count == state.after_begin(key).leader_count,
{
}

/// Whatever other requests come in or have their results, those under way can
/// still be joined.
pub proof fn other_requests_do_not_interfere(
    state: CoalescerView,
    key: Seq<char>,
    number: u64,
    other: Seq<char>,
)
    requires
        state.role(key) == CoalescingRole::Follower(number),
        other != key,
    ensures
        state.after_begin(other).role(key) == CoalescingRole::Follower(number),
        state.after_finish(other).role(key) == CoalescingRole::Follower(number),
{
}

/// Once a request has its result, the next identical one is made anew.
pub proof fn finished_requests_are_made_anew(state: CoalescerView, key: Seq<char>)
    requires
        state.enabled,
    ensures
        state.after_finish(key).role(key) == CoalescingRole::Leader(state.leader_count),
{
}

/// Requests under way have different numbers, as long as the numbers last.
pub proof fn numbers_stay_distinct(state: CoalescerView, key: Seq<char>)
    requires
        state.numbers_are_distinct(),
        state.leader_count < u64::MAX,
    ensures
        state.after_begin(key).numbers_are_distinct(),
        state.after_finish(key).numbers_are_distinct(),
        CoalescerView::fresh(state.enabled).numbers_are_distinct(),
{
}

/// Without coalescing every request is made on its own, and nothing is kept track of.
pub proof fn nothing_is_shared_without_coalescing(state: CoalescerView, key: Seq<char>)
    requires
        !state.enabled,
    ensures
        state.role(key) == CoalescingRole::Alone,
        state.after_begin(key) == state,
{
}

/// With coalescing a request leads exactly if none is under way under its key, and
/// else joins that one; those that lead and those that join are counted, each once.
pub proof fn requests_lead_or_join(state: CoalescerView, key: Seq<char>)
    requires
        state.enabled,
    ensures
        !state.in_flight.contains_key(key) ==> {
            let after = state.after_begin(key);
            &&& state.role(key) == CoalescingRole::Leader(state.leader_count)
            &&& after.in_flight == state.in_flight.insert(key, state.leader_count)
            &&& state.leader_count < u64::MAX ==> after.leader_count == state.leader_count + 1
            &&& state.leader_count == u64::MAX ==> after.leader_count == 0
            &&& after.fanout_count == state.fanout_count
        },
        state.in_flight.contains_key(key) ==> {
            let after = state.after_begin(key);
            &&& state.role(key) == CoalescingRole::Follower(state.in_flight[key])
            &&& after.in_flight == state.in_flight
            &&& after.leader_count == state.leader_count
            &&& state.fanout_count < u64::MAX ==> after.fanout_count == state.fanout_count + 1
            &&& state.fanout_count == u64::MAX ==> after.fanout_count == 0
        },
        state.after_begin(key).enabled,
{
}

/// A request that has its result is no longer under way, and all others still are; it
/// is not counted again.
pub proof fn finished_requests_leave(state: CoalescerView, key: Seq<char>, other: Seq<char>)
    requires
        other != key,
    ensures
        ({
            let after = state.after_finish(key);
            &&& !after.in_flight.contains_key(key)
            &&& after.in_flight.contains_key(other) == state.in_flight.contains_key(other)
            &&& state.in_flight.contains_key(other) ==> after.in_flight[other]
                == state.in_flight[other]
            &&& after.leader_count == state.leader_count
            &&& after.fanout_count == state.fanout_count
            &&& after.enabled == state.enabled
        }),
        ({
            let fresh = CoalescerView::fresh(state.enabled);
            fresh.enabled == state.enabled && fresh.in_flight.is_empty() && fresh.leader_count == 0
                && fresh.fanout_count == 0
        }),
{
}

} // verus!
