//! Which responses are kept, for how long, and the store that keeps them.
use std::time::Duration;

use bytes::Bytes;

use vstd::hash_map::StringHashMap;
use vstd::prelude::*;

use super::consensus::{method_view, texts};
use crate::payload::{request_key, request_key_of};
use crate::settings::{at_least, CacheConfig};
use crate::text::lowercase;
use crate::time::{duration_millis, duration_nanos, now_unix_ms, NANOS_PER_SEC};

verus! {

/// Decides which responses may be kept.
pub struct CachePolicy {
    enabled: bool,
    default_ttl_secs: u64,
    cacheable_methods: Vec<String>,
    method_ttl_secs: StringHashMap<u64>,
}

/// What a policy goes by: the lifetime of responses in seconds, the methods that
/// alone may be cached if there are any, and the lifetimes of single methods. All
/// methods are in lower case.
#[verifier::ext_equal]
pub struct CachePolicyView {
    pub enabled: bool,
    pub default_ttl_secs: nat,
    pub cacheable_methods: Seq<Seq<char>>,
    pub method_ttl_secs: Map<Seq<char>, u64>,
}

/// Where a response is kept, and for how long.
pub struct CachePlan {
    pub key: String,
    pub ttl: Duration,
}

/// The methods in lower case.
pub open spec fn lowercase_all(methods: Seq<String>) -> Seq<Seq<char>> {
    methods.map_values(|method: String| lowercase(method@))
}

/// The lifetimes of single methods; a later entry replaces an earlier one.
pub open spec fn ttl_table(entries: Seq<(String, u64)>) -> Map<Seq<char>, u64>
    decreases entries.len(),
{
    if entries.len() == 0 {
        Map::empty()
    } else {
        ttl_table(entries.drop_last()).insert(lowercase(entries.last().0@), entries.last().1)
    }
}

/// The policy that a configuration describes.
pub open spec fn configured_policy(config: CacheConfig) -> CachePolicyView {
    CachePolicyView {
        enabled: config.enabled,
        default_ttl_secs: at_least(config.ttl_secs as int, 1) as nat,
        cacheable_methods: lowercase_all(config.cacheable_methods@),
        method_ttl_secs: ttl_table(config.method_ttl_secs@),
    }
}

impl CachePolicyView {
    /// The lifetime of responses to a method, in seconds, where they may be kept.
    /// A lifetime of the method's own comes first, and zero forbids; then the
    /// list of methods, where there is one; then what the method is by default.
    pub open spec fn ttl_secs(self, method: Seq<char>, cacheable_by_default: bool) -> Option<nat> {
        let name = lowercase(method);
        if self.method_ttl_secs.contains_key(name) {
            if self.method_ttl_secs[name] == 0 {
                None
            } else {
                Some(self.method_ttl_secs[name] as nat)
            }
        } else if self.cacheable_methods.len() > 0 {
            if self.cacheable_methods.contains(name) {
                Some(self.default_ttl_secs)
            } else {
                None
            }
        } else if cacheable_by_default {
            Some(self.default_ttl_secs)
        } else {
            None
        }
    }

    /// The lifetime of the response to a request, in seconds, where it may be
    /// kept at all.
    pub open spec fn planned_ttl(
        self,
        method: Option<Seq<char>>,
        cacheable_by_default: bool,
    ) -> Option<nat> {
        match method {
            Some(name) => if self.enabled {
                self.ttl_secs(name, cacheable_by_default)
            } else {
                None
            },
            None => None,
        }
    }
}

impl CachePlan {
    /// Whether the response to this request is kept for this long, under the
    /// request's key.
    pub open spec fn keeps(&self, method: Seq<char>, body: Seq<u8>, ttl_secs: nat) -> bool {
        &&& self.key@ == request_key(method, body)
        &&& duration_nanos(self.ttl) == ttl_secs * NANOS_PER_SEC
    }
}

/// Whether a plan is what a policy makes of a request.
pub open spec fn is_plan(
    policy: CachePolicyView,
    body: Seq<u8>,
    method: Option<Seq<char>>,
    cacheable_by_default: bool,
    plan: Option<CachePlan>,
) -> bool {
    match policy.planned_ttl(method, cacheable_by_default) {
        Some(ttl_secs) => plan is Some && plan->0.keeps(method->0, body, ttl_secs),
        None => plan is None,
    }
}

impl View for CachePolicy {
    type V = CachePolicyView;

    closed spec fn view(&self) -> CachePolicyView {
        CachePolicyView {
            enabled: self.enabled,
            default_ttl_secs: self.default_ttl_secs as nat,
            cacheable_methods: texts(self.cacheable_methods@),
            method_ttl_secs: self.method_ttl_secs@,
        }
    }
}

impl CachePolicy {
    /// The policy that a configuration describes.
    pub fn from_config(config: &CacheConfig) -> (policy: CachePolicy)
        ensures
            policy@ == configured_policy(*config),
    {
        let mut cacheable_methods: Vec<String> = Vec::new();
        let mut i: usize = 0;
        while i < config.cacheable_methods.len()
            invariant
                i <= config.cacheable_methods@.len(),
                cacheable_methods@.len() == i,
                forall|k: int|
                    0 <= k < i ==> (#[trigger] cacheable_methods@[k])@ == lowercase(
                        config.cacheable_methods@[k]@,
                    ),
            decreases config.cacheable_methods@.len() - i,
        {
            cacheable_methods.push(config.cacheable_methods[i].as_str().to_ascii_lowercase());
            i = i + 1;
        }
        assert(texts(cacheable_methods@) =~= lowercase_all(config.cacheable_methods@));
        let mut method_ttl_secs: StringHashMap<u64> = StringHashMap::new();
        let mut j: usize = 0;
        while j < config.method_ttl_secs.len()
            invariant
                j <= config.method_ttl_secs@.len(),
                method_ttl_secs@ == ttl_table(config.method_ttl_secs@.take(j as int)),
            decreases config.method_ttl_secs@.len() - j,
        {
            assert(config.method_ttl_secs@.take(j + 1).drop_last()
                =~= config.method_ttl_secs@.take(j as int));
            method_ttl_secs.insert(
                config.method_ttl_secs[j].0.as_str().to_ascii_lowercase(),
                config.method_ttl_secs[j].1,
            );
            j = j + 1;
        }
        assert(config.method_ttl_secs@.take(j as int) =~= config.method_ttl_secs@);
        CachePolicy {
            enabled: config.enabled,
            default_ttl_secs: config.ttl_secs.max(1),
            cacheable_methods,
            method_ttl_secs,
        }
    }

    pub fn enabled(&self) -> (enabled: bool)
        ensures
            enabled == self@.enabled,
    {
        self.enabled
    }

    /// Decides whether and where the response to a request is kept.
    pub fn plan(&self, body: &[u8], method: Option<&str>, cacheable_by_default: bool) -> (plan:
        Option<CachePlan>)
        ensures
            is_plan(self@, body@, method_view(method), cacheable_by_default, plan),
    {
        if !self.enabled {
            return None;
        }
        match method {
            Some(name) => match self.ttl_for_method(name, cacheable_by_default) {
                Some(ttl) => Some(CachePlan { key: request_key_of(name, body), ttl }),
                None => None,
            },
            None => None,
        }
    }

    /// How long responses to a method are kept, if they are.
    fn ttl_for_method(&self, method: &str, cacheable_by_default: bool) -> (ttl: Option<Duration>)
        ensures
            (match self@.ttl_secs(method@, cacheable_by_default) {
                Some(secs) => ttl is Some && duration_nanos(ttl->0) == secs * NANOS_PER_SEC,
                None => ttl is None,
            }),
    {
        let name: String = method.to_ascii_lowercase();
        if let Some(secs) = self.method_ttl_secs.get(name.as_str()) {
            let secs: u64 = *secs;
            if secs == 0 {
                return None;
            }
            return Some(Duration::from_secs(secs));
        }
        if self.cacheable_methods.len() > 0 {
            if self.lists(&name) {
                return Some(Duration::from_secs(self.default_ttl_secs));
            }
            return None;
        }
        if cacheable_by_default {
            return Some(Duration::from_secs(self.default_ttl_secs));
        }
        None
    }

    /// Whether a method is on the list of methods.
    fn lists(&self, name: &String) -> (listed: bool)
        ensures
            listed == self@.cacheable_methods.contains(name@),
    {
        let mut i: usize = 0;
        while i < self.cacheable_methods.len()
            invariant
                i <= self.cacheable_methods@.len(),
                forall|k: int| 0 <= k < i ==> (#[trigger] self.cacheable_methods@[k])@ != name@,
            decreases self.cacheable_methods@.len() - i,
        {
            if self.cacheable_methods[i] == *name {
                assert(self@.cacheable_methods[i as int] == name@);
                return true;
            }
            i = i + 1;
        }
        assert forall|k: int| 0 <= k < self@.cacheable_methods.len() implies
            #[trigger] self@.cacheable_methods[k] != name@ by {
            assert(self@.cacheable_methods[k] == self.cacheable_methods@[k]@);
        }
        false
    }
}

/// A response that is kept, since when and until when.
pub struct CachedResponse {
    pub body: Bytes,
    pub provider: String,
    pub cached_at_unix_ms: u128,
    pub expires_at_unix_ms: u128,
}

impl Clone for CachedResponse {
    fn clone(&self) -> (copy: CachedResponse)
        ensures
            copy == *self,
    {
        CachedResponse {
            body: self.body.clone(),
            provider: self.provider.clone(),
            cached_at_unix_ms: self.cached_at_unix_ms,
            expires_at_unix_ms: self.expires_at_unix_ms,
        }
    }
}

/// The responses that are kept, up to a number of them.
pub struct ResponseCache {
    entries: StringHashMap<CachedResponse>,
    keys: Vec<String>,
    max_capacity: usize,
}

/// The responses that are kept by their keys, and how many may be kept.
#[verifier::ext_equal]
pub struct CacheView {
    pub entries: Map<Seq<char>, CachedResponse>,
    pub capacity: nat,
}

/// A time as far behind another one, up to the latest that there is.
pub open spec fn expiry(now: u128, ttl: Duration) -> u128 {
    if now + duration_millis(ttl) > u128::MAX {
        u128::MAX
    } else {
        (now + duration_millis(ttl)) as u128
    }
}

impl CacheView {
    /// The response that is kept under a key and has not expired.
    pub open spec fn fresh(self, key: Seq<char>, now: u128) -> Option<CachedResponse> {
        if self.entries.contains_key(key) && self.entries[key].expires_at_unix_ms > now {
            Some(self.entries[key])
        } else {
            None
        }
    }

    /// The cache after a look at a key: a response that has expired is dropped.
    pub open spec fn after_get(self, key: Seq<char>, now: u128) -> CacheView {
        if self.fresh(key, now) is None {
            CacheView { entries: self.entries.remove(key), ..self }
        } else {
            self
        }
    }

    /// The responses that have not expired.
    pub open spec fn unexpired(self, now: u128) -> Map<Seq<char>, CachedResponse> {
        self.entries.filter_keys(|key: Seq<char>| self.entries[key].expires_at_unix_ms > now)
    }

    /// Whether no response is kept for longer than the one under a key.
    pub open spec fn is_oldest(
        entries: Map<Seq<char>, CachedResponse>,
        key: Seq<char>,
    ) -> bool {
        &&& entries.contains_key(key)
        &&& forall|other: Seq<char>| #[trigger]
            entries.contains_key(other) ==> entries[key].cached_at_unix_ms
                <= entries[other].cached_at_unix_ms
    }

    /// Whether these responses are left when room has been made for one more: a
    /// full cache drops those that have expired, and if it is still full the
    /// oldest one. Of several oldest any may go.
    pub open spec fn makes_room(self, now: u128, left: Map<Seq<char>, CachedResponse>) -> bool {
        if self.entries.len() < self.capacity {
            left == self.entries
        } else if self.unexpired(now).len() < self.capacity {
            left == self.unexpired(now)
        } else {
            exists|victim: Seq<char>| #[trigger]
                CacheView::is_oldest(self.unexpired(now), victim) && left == self.unexpired(
                    now,
                ).remove(victim)
        }
    }

    /// Whether the cache comes to this state when a response is put in.
    pub open spec fn inserts(
        self,
        key: Seq<char>,
        response: CachedResponse,
        now: u128,
        after: CacheView,
    ) -> bool {
        exists|left: Map<Seq<char>, CachedResponse>| #[trigger]
            self.makes_room(now, left) && after.entries == left.insert(key, response)
                && after.capacity == self.capacity
    }
}

impl View for ResponseCache {
    type V = CacheView;

    closed spec fn view(&self) -> CacheView {
        CacheView { entries: self.entries@, capacity: self.max_capacity as nat }
    }
}

spec fn lists_keys(keys: Seq<Seq<char>>, entries: Map<Seq<char>, CachedResponse>) -> bool {
    &&& keys.no_duplicates()
    &&& entries.dom().finite()
    &&& forall|key: Seq<char>| keys.contains(key) <==> #[trigger] entries.contains_key(key)
}

proof fn lemma_swap_remove(keys: Seq<Seq<char>>, i: int)
    requires
        keys.no_duplicates(),
        0 <= i < keys.len(),
    ensures
        keys.update(i, keys.last()).drop_last().no_duplicates(),
        forall|key: Seq<char>| #[trigger]
            keys.update(i, keys.last()).drop_last().contains(key) <==> keys.contains(key) && key
                != keys[i],
{
    let rest = keys.update(i, keys.last()).drop_last();
    let last = keys.len() - 1;
    assert forall|key: Seq<char>| #[trigger] rest.contains(key) implies keys.contains(key) && key
        != keys[i] by {
        let j = choose|j: int| 0 <= j < rest.len() && rest[j] == key;
        let from = if j == i {
            last
        } else {
            j
        };
        assert(keys[from] == key);
    }
    assert forall|key: Seq<char>| keys.contains(key) && key != keys[i] implies
        #[trigger] rest.contains(key) by {
        let j = choose|j: int| 0 <= j < keys.len() && keys[j] == key;
        let to = if j == last {
            i
        } else {
            j
        };
        assert(rest[to] == key);
    }
}

impl ResponseCache {
    /// Whether the cache is sound: it keeps no more responses than it may, and
    /// its list of keys is complete.
    pub closed spec fn wf(&self) -> bool {
        &&& lists_keys(texts(self.keys@), self.entries@)
        &&& self.max_capacity >= 1
        &&& self.entries@.len() <= self.max_capacity
    }

    /// A sound cache holds finitely many responses, and no more than it may.
    pub proof fn holds_no_more_than_it_may(&self)
        requires
            self.wf(),
        ensures
            self@.entries.dom().finite(),
            self@.entries.len() <= self@.capacity,
            self@.capacity >= 1,
    {
    }

    /// An empty cache, for one response at least.
    pub fn new(max_capacity: u64) -> (cache: ResponseCache)
        ensures
            cache.wf(),
            cache@.entries == Map::<Seq<char>, CachedResponse>::empty(),
            cache@.capacity == (if max_capacity == 0 {
                1
            } else if max_capacity > usize::MAX {
                usize::MAX as nat
            } else {
                max_capacity as nat
            }),
    {
        let wanted: u64 = max_capacity.max(1);
        let capacity: usize = if wanted > usize::MAX as u64 {
            usize::MAX
        } else {
            wanted as usize
        };
        ResponseCache { entries: StringHashMap::new(), keys: Vec::new(), max_capacity: capacity }
    }

    /// Looks up a response now.
    pub fn get(&mut self, key: &str) -> (found: Option<CachedResponse>)
        requires
            old(self).wf(),
        ensures
            final(self).wf(),
            exists|now: u128| #[trigger] gets(old(self)@, key@, now, final(self)@, found),
    {
        let now: u128 = now_unix_ms();
        self.get_at(key, now)
    }

    /// Looks up a response at the given time, and drops it if it has expired.
    pub fn get_at(&mut self, key: &str, now_ms: u128) -> (found: Option<CachedResponse>)
        requires
            old(self).wf(),
        ensures
            final(self).wf(),
            gets(old(self)@, key@, now_ms, final(self)@, found),
    {
        let expired: bool = match self.entries.get(key) {
            Some(response) => {
                if response.expires_at_unix_ms > now_ms {
                    return Some(response.clone());
                }
                true
            },
            None => false,
        };
        if expired {
            let index: usize = self.index_of(key);
            self.remove_at(index);
        }
        assert(self@.entries =~= old(self)@.after_get(key@, now_ms).entries);
        None
    }

    /// Where a key stands in the list of keys.
    fn index_of(&self, key: &str) -> (index: usize)
        requires
            self.wf(),
            self.entries@.contains_key(key@),
        ensures
            index < self.keys@.len(),
            self.keys@[index as int]@ == key@,
    {
        let wanted: String = key.to_string();
        proof {
            assert(texts(self.keys@).contains(key@));
            let i = choose|i: int|
                0 <= i < texts(self.keys@).len() && texts(self.keys@)[i] == key@;
            assert(self.keys@[i]@ == key@);
        }
        let mut i: usize = 0;
        while i < self.keys.len()
            invariant
                wanted@ == key@,
                i <= self.keys@.len(),
                exists|k: int| i <= k < self.keys@.len() && (#[trigger] self.keys@[k])@ == key@,
            decreases self.keys@.len() - i,
        {
            if self.keys[i] == wanted {
                return i;
            }
            i = i + 1;
        }
        i
    }

    /// Drops the response whose key stands at the given place.
    fn remove_at(&mut self, index: usize)
        requires
            lists_keys(texts(old(self).keys@), old(self).entries@),
            index < old(self).keys@.len(),
        ensures
            lists_keys(texts(final(self).keys@), final(self).entries@),
            final(self).entries@ == old(self).entries@.remove(old(self).keys@[index as int]@),
            final(self).keys@ == old(self).keys@.update(
                index as int,
                old(self).keys@.last(),
            ).drop_last(),
            final(self).max_capacity == old(self).max_capacity,
            old(self).entries@.contains_key(old(self).keys@[index as int]@),
            final(self).entries@.len() == old(self).entries@.len() - 1,
    {
        let ghost names = texts(self.keys@);
        proof {
            assert(names[index as int] == self.keys@[index as int]@);
            assert(names.contains(names[index as int]));
            lemma_swap_remove(names, index as int);
        }
        let key: String = self.keys.swap_remove(index);
        self.entries.remove(key.as_str());
        assert(texts(self.keys@) =~= names.update(index as int, names.last()).drop_last());
    }

    /// Puts in a response now.
    pub fn insert(&mut self, key: String, body: Bytes, provider: String, ttl: Duration)
        requires
            old(self).wf(),
        ensures
            final(self).wf(),
            exists|now: u128| #[trigger]
                puts(old(self)@, key@, body, provider, ttl, now, final(self)@),
    {
        let now: u128 = now_unix_ms();
        self.insert_at(key, body, provider, ttl, now);
    }

    /// Puts in a response at the given time, in place of one under the same key,
    /// and makes room for it where the cache is full.
    pub fn insert_at(&mut self, key: String, body: Bytes, provider: String, ttl: Duration, now_ms: u128)
        requires
            old(self).wf(),
        ensures
            final(self).wf(),
            puts(old(self)@, key@, body, provider, ttl, now_ms, final(self)@),
    {
        if self.entries.len() >= self.max_capacity {
            self.drop_expired(now_ms);
            if self.entries.len() >= self.max_capacity {
                self.drop_oldest();
            }
        }
        let ghost left = self.entries@;
        assert(old(self)@.makes_room(now_ms, left));
        let ghost names = texts(self.keys@);
        if !self.entries.contains_key(key.as_str()) {
            self.keys.push(key.clone());
            proof {
                assert(texts(self.keys@) =~= names.push(key@));
                assert forall|name: Seq<char>| texts(self.keys@).contains(name) <==>
                    names.contains(name) || name == key@ by {
                    if names.contains(name) {
                        let i = choose|i: int| 0 <= i < names.len() && names[i] == name;
                        assert(names.push(key@)[i] == name);
                    }
                    if name == key@ {
                        assert(names.push(key@)[names.len() as int] == name);
                    }
                }
            }
        }
        let response = CachedResponse {
            body,
            provider,
            cached_at_unix_ms: now_ms,
            expires_at_unix_ms: now_ms.saturating_add(ttl.as_millis()),
        };
        self.entries.insert(key, response);
        assert(response == cached(body, provider, ttl, now_ms));
        assert(self@.entries == left.insert(key@, response));
    }

    /// Drops the responses that have expired.
    fn drop_expired(&mut self, now_ms: u128)
        requires
            old(self).wf(),
        ensures
            final(self).wf(),
            final(self).entries@ == old(self)@.unexpired(now_ms),
            final(self).max_capacity == old(self).max_capacity,
    {
        let ghost all = self.entries@;
        let mut i: usize = 0;
        while i < self.keys.len()
            invariant
                self.wf(),
                self.max_capacity == old(self).max_capacity,
                i <= self.keys@.len(),
                all == old(self)@.entries,
                forall|key: Seq<char>| #[trigger]
                    self.entries@.contains_key(key) ==> all.contains_key(key)
                        && self.entries@[key] == all[key],
                forall|key: Seq<char>| #[trigger]
                    all.contains_key(key) && !self.entries@.contains_key(key)
                        ==> all[key].expires_at_unix_ms <= now_ms,
                forall|k: int|
                    0 <= k < i ==> all[(#[trigger] self.keys@[k])@].expires_at_unix_ms > now_ms,
            decreases self.keys@.len() - i,
        {
            let ghost before = *self;
            proof {
                assert(texts(self.keys@)[i as int] == self.keys@[i as int]@);
                assert(texts(self.keys@).contains(self.keys@[i as int]@));
            }
            let expired: bool = match self.entries.get(self.keys[i].as_str()) {
                Some(response) => response.expires_at_unix_ms <= now_ms,
                None => false,
            };
            if expired {
                self.remove_at(i);
                assert forall|k: int| 0 <= k < i implies all[(
                #[trigger] self.keys@[k])@].expires_at_unix_ms > now_ms by {
                    assert(self.keys@[k] == before.keys@[k]);
                }
            } else {
                i = i + 1;
            }
        }
        assert forall|key: Seq<char>| #[trigger] self.entries@.contains_key(key) implies
            all[key].expires_at_unix_ms > now_ms by {
            assert(texts(self.keys@).contains(key));
            let k = choose|k: int| 0 <= k < texts(self.keys@).len() && texts(self.keys@)[k] == key;
            assert(self.keys@[k]@ == key);
        }
        assert(self.entries@ =~= old(self)@.unexpired(now_ms));
    }

    /// Drops the response that has been kept for longest.
    fn drop_oldest(&mut self)
        requires
            old(self).wf(),
            old(self).entries@.len() > 0,
        ensures
            final(self).wf(),
            final(self).entries@.len() < final(self).max_capacity,
            final(self).max_capacity == old(self).max_capacity,
            exists|victim: Seq<char>| #[trigger]
                CacheView::is_oldest(old(self).entries@, victim) && final(self).entries@
                    == old(self).entries@.remove(victim),
    {
        proof {
            if self.keys@.len() == 0 {
                assert(texts(self.keys@).len() == 0);
                assert(self.entries@.dom() =~= Set::empty());
            }
        }
        let mut oldest: usize = 0;
        let mut since: u128 = self.cached_since(0);
        let mut i: usize = 1;
        while i < self.keys.len()
            invariant
                *self == *old(self),
                self.wf(),
                oldest < i <= self.keys@.len(),
                since == self.entries@[self.keys@[oldest as int]@].cached_at_unix_ms,
                forall|k: int|
                    0 <= k < i ==> since <= self.entries@[(
                    #[trigger] self.keys@[k])@].cached_at_unix_ms,
            decreases self.keys@.len() - i,
        {
            let candidate: u128 = self.cached_since(i);
            if candidate < since {
                oldest = i;
                since = candidate;
            }
            i = i + 1;
        }
        let ghost victim = self.keys@[oldest as int]@;
        proof {
            assert(texts(self.keys@)[oldest as int] == victim);
            assert(texts(self.keys@).contains(victim));
            assert forall|other: Seq<char>| #[trigger] self.entries@.contains_key(other) implies
                self.entries@[victim].cached_at_unix_ms
                    <= self.entries@[other].cached_at_unix_ms by {
                assert(texts(self.keys@).contains(other));
                let k = choose|k: int|
                    0 <= k < texts(self.keys@).len() && texts(self.keys@)[k] == other;
                assert(self.keys@[k]@ == other);
            }
            assert(CacheView::is_oldest(self.entries@, victim));
        }
        self.remove_at(oldest);
    }

    /// Since when the response is kept whose key stands at the given place.
    fn cached_since(&self, index: usize) -> (since: u128)
        requires
            self.wf(),
            index < self.keys@.len(),
        ensures
            since == self.entries@[self.keys@[index as int]@].cached_at_unix_ms,
    {
        proof {
            assert(texts(self.keys@)[index as int] == self.keys@[index as int]@);
            assert(texts(self.keys@).contains(self.keys@[index as int]@));
        }
        match self.entries.get(self.keys[index].as_str()) {
            Some(response) => response.cached_at_unix_ms,
            None => 0,
        }
    }
}

/// A response as it is put in.
pub open spec fn cached(body: Bytes, provider: String, ttl: Duration, now: u128) -> CachedResponse {
    CachedResponse {
        body,
        provider,
        cached_at_unix_ms: now,
        expires_at_unix_ms: expiry(now, ttl),
    }
}

/// Whether a cache is left so when a response is put in at this time.
pub open spec fn puts(
    before: CacheView,
    key: Seq<char>,
    body: Bytes,
    provider: String,
    ttl: Duration,
    now: u128,
    after: CacheView,
) -> bool {
    before.inserts(key, cached(body, provider, ttl, now), now, after)
}

/// Whether a cache gives back this response at this time, and is left so.
pub open spec fn gets(
    before: CacheView,
    key: Seq<char>,
    now: u128,
    after: CacheView,
    found: Option<CachedResponse>,
) -> bool {
    &&& after == before.after_get(key, now)
    &&& found == before.fresh(key, now)
}

/// What was put in is found until it expires: the same body of the same provider,
/// kept since it was put in.
pub proof fn found_until_expiry(
    before: CacheView,
    key: Seq<char>,
    body: Bytes,
    provider: String,
    ttl: Duration,
    now: u128,
    after: CacheView,
    later: u128,
    last: CacheView,
    found: Option<CachedResponse>,
)
    requires
        puts(before, key, body, provider, ttl, now, after),
        gets(after, key, later, last, found),
        later < expiry(now, ttl),
    ensures
        found is Some,
        found->0.body == body,
        found->0.provider == provider,
        found->0.cached_at_unix_ms == now,
        last == after,
{
}

/// What was put in is not found when it has expired, and is gone then.
pub proof fn not_found_after_expiry(
    before: CacheView,
    key: Seq<char>,
    body: Bytes,
    provider: String,
    ttl: Duration,
    now: u128,
    after: CacheView,
    later: u128,
    last: CacheView,
    found: Option<CachedResponse>,
)
    requires
        puts(before, key, body, provider, ttl, now, after),
        gets(after, key, later, last, found),
        later >= expiry(now, ttl),
    ensures
        found is None,
        !last.entries.contains_key(key),
{
}

/// A cache that holds no more than it may never comes to hold more.
pub proof fn capacity_is_never_exceeded(
    before: CacheView,
    key: Seq<char>,
    response: CachedResponse,
    now: u128,
    after: CacheView,
)
    requires
        before.entries.dom().finite(),
        before.entries.len() <= before.capacity,
        before.capacity >= 1,
        before.inserts(key, response, now, after),
    ensures
        after.entries.len() <= after.capacity,
{
    let left = choose|left: Map<Seq<char>, CachedResponse>| #[trigger]
        before.makes_room(now, left) && after.entries == left.insert(key, response)
            && after.capacity == before.capacity;
    vstd::set_lib::lemma_len_subset(before.unexpired(now).dom(), before.entries.dom());
}

/// Making room spares what has not expired, unless the cache is full of it; and
/// what it drops then is no newer than what stays.
pub proof fn oldest_goes_first(
    before: CacheView,
    key: Seq<char>,
    response: CachedResponse,
    now: u128,
    after: CacheView,
    gone: Seq<char>,
    kept: Seq<char>,
)
    requires
        before.inserts(key, response, now, after),
        before.fresh(gone, now) is Some,
        !after.entries.contains_key(gone),
        before.fresh(kept, now) is Some,
        after.entries.contains_key(kept),
    ensures
        before.unexpired(now).len() >= before.capacity,
        before.entries[gone].cached_at_unix_ms <= before.entries[kept].cached_at_unix_ms,
{
    assert(before.unexpired(now).contains_key(gone));
    assert(before.unexpired(now).contains_key(kept));
}

/// A lifetime of zero forbids that responses to a method be kept, whatever else
/// the configuration says of it.
pub proof fn zero_ttl_disables_caching(
    policy: CachePolicyView,
    method: Seq<char>,
    cacheable_by_default: bool,
)
    requires
        policy.method_ttl_secs.contains_key(lowercase(method)),
        policy.method_ttl_secs[lowercase(method)] == 0,
    ensures
        policy.planned_ttl(Some(method), cacheable_by_default) is None,
{
}

/// Methods that agree up to letter case are kept alike: equally long, and under
/// the same key where the bodies are the same.
pub proof fn caching_ignores_letter_case(
    policy: CachePolicyView,
    method: Seq<char>,
    other_method: Seq<char>,
    body: Seq<u8>,
    cacheable_by_default: bool,
)
    requires
        lowercase(method) == lowercase(other_method),
    ensures
        policy.planned_ttl(Some(method), cacheable_by_default) == policy.planned_ttl(
            Some(other_method),
            cacheable_by_default,
        ),
        request_key(method, body) == request_key(other_method, body),
{
}

/// A response lives for the seconds of its plan, to the millisecond, from when it was
/// put in.
pub proof fn lifetimes_are_counted_in_seconds(now: u128, ttl: Duration, ttl_secs: nat)
    requires
        duration_nanos(ttl) == ttl_secs * 1_000_000_000,
        now + ttl_secs * 1_000 <= u128::MAX,
    ensures
        expiry(now, ttl) == now + ttl_secs * 1_000,
{
}

/// How long responses to a method are kept. A lifetime of its own counts, and zero
/// forbids; without one, and where methods are listed, only these are kept; and
/// where none are listed, those that may be by default. The default lifetime is the
/// configured one, and one second at least. Nothing is kept where the cache is off
/// or no method is named.
pub proof fn lifetimes_go_by_the_configuration(
    config: CacheConfig,
    method: Seq<char>,
    cacheable_by_default: bool,
)
    ensures
        ({
            let policy = configured_policy(config);
            let name = lowercase(method);
            let planned = policy.planned_ttl(Some(method), cacheable_by_default);
            let default_secs = if config.ttl_secs >= 1 {
                config.ttl_secs as nat
            } else {
                1
            };
            let own = exists|i: int|
                0 <= i < config.method_ttl_secs@.len() && lowercase(
                    (#[trigger] config.method_ttl_secs@[i]).0@,
                ) == name;
            let listed = exists|i: int|
                0 <= i < config.cacheable_methods@.len() && lowercase(
                    (#[trigger] config.cacheable_methods@[i])@,
                ) == name;
            &&& !config.enabled ==> planned is None
            &&& policy.planned_ttl(None, cacheable_by_default) is None
            &&& config.enabled && own ==> {
                &&& policy.method_ttl_secs[name] == 0 ==> planned is None
                &&& policy.method_ttl_secs[name] > 0 ==> planned == Some(
                    policy.method_ttl_secs[name] as nat,
                )
            }
            &&& config.enabled && !own && config.cacheable_methods@.len() > 0 ==> planned == (
            if listed {
                Some(default_secs)
            } else {
                None
            })
            &&& config.enabled && !own && config.cacheable_methods@.len() == 0 ==> planned == (
            if cacheable_by_default {
                Some(default_secs)
            } else {
                None
            })
        }),
{
    let policy = configured_policy(config);
    let name = lowercase(method);
    let methods = config.cacheable_methods@;
    lemma_ttl_table_keys(config.method_ttl_secs@, name);
    if exists|i: int| 0 <= i < methods.len() && lowercase((#[trigger] methods[i])@) == name {
        let i = choose|i: int| 0 <= i < methods.len() && lowercase((#[trigger] methods[i])@) == name;
        assert(policy.cacheable_methods[i] == name);
        assert(policy.cacheable_methods.contains(name));
    } else if policy.cacheable_methods.contains(name) {
        let i = choose|i: int|
            0 <= i < policy.cacheable_methods.len() && policy.cacheable_methods[i] == name;
        assert(lowercase(methods[i]@) == name);
    }
}

proof fn lemma_ttl_table_keys(entries: Seq<(String, u64)>, name: Seq<char>)
    ensures
        ttl_table(entries).contains_key(name) <==> exists|i: int|
            0 <= i < entries.len() && lowercase((#[trigger] entries[i]).0@) == name,
    decreases entries.len(),
{
    if entries.len() > 0 {
        let before = entries.drop_last();
        lemma_ttl_table_keys(before, name);
        if exists|i: int| 0 <= i < before.len() && lowercase((#[trigger] before[i]).0@) == name {
            let i = choose|i: int|
                0 <= i < before.len() && lowercase((#[trigger] before[i]).0@) == name;
            assert(entries[i] == before[i]);
        }
        assert(entries[entries.len() - 1] == entries.last());
        if exists|i: int| 0 <= i < entries.len() && lowercase((#[trigger] entries[i]).0@) == name {
            let i = choose|i: int|
                0 <= i < entries.len() && lowercase((#[trigger] entries[i]).0@) == name;
            if i < before.len() {
                assert(before[i] == entries[i]);
            }
        }
    }
}

/// Of several lifetimes for one method the last counts, in whatever case the method
/// is named.
pub proof fn the_last_lifetime_counts(entries: Seq<(String, u64)>, index: int, name: Seq<char>)
    requires
        0 <= index < entries.len(),
        lowercase(entries[index].0@) == name,
        forall|i: int|
            index < i < entries.len() ==> lowercase((#[trigger] entries[i]).0@) != name,
    ensures
        ttl_table(entries).contains_key(name),
        ttl_table(entries)[name] == entries[index].1,
    decreases entries.len(),
{
    if index < entries.len() - 1 {
        let before = entries.drop_last();
        assert forall|i: int| index < i < before.len() implies lowercase(
            (#[trigger] before[i]).0@,
        ) != name by {
            assert(before[i] == entries[i]);
        }
        the_last_lifetime_counts(before, index, name);
        assert(lowercase(entries[entries.len() - 1].0@) != name);
    }
}

/// A plan keeps a response under the key of its request, for the planned number of
/// seconds; there is a plan exactly where there is such a number.
pub proof fn plans_keep_what_may_be_kept(
    policy: CachePolicyView,
    body: Seq<u8>,
    method: Option<Seq<char>>,
    cacheable_by_default: bool,
    plan: Option<CachePlan>,
)
    requires
        is_plan(policy, body, method, cacheable_by_default, plan),
    ensures
        plan is Some <==> policy.planned_ttl(method, cacheable_by_default) is Some,
        plan is Some ==> method is Some && plan->0.key@ == request_key(method->0, body)
            && duration_nanos(plan->0.ttl) == policy.planned_ttl(method, cacheable_by_default)->0
            * 1_000_000_000,
{
}

/// A look at one key leaves what is kept under all others as it is, and finds nothing
/// under a key under which nothing is kept.
pub proof fn looking_changes_nothing_else(
    before: CacheView,
    key: Seq<char>,
    now: u128,
    after: CacheView,
    found: Option<CachedResponse>,
    other: Seq<char>,
)
    requires
        gets(before, key, now, after, found),
        other != key,
    ensures
        after.capacity == before.capacity,
        after.entries.contains_key(other) == before.entries.contains_key(other),
        before.entries.contains_key(other) ==> after.entries[other] == before.entries[other],
        !before.entries.contains_key(key) ==> found is None,
        found is Some ==> found == Some(before.entries[key]) && now
            < before.entries[key].expires_at_unix_ms,
{
}

/// Putting in a response adds it and changes none that stays. Where there is room, all
/// stay; where the cache is full but some have expired, all that have not stay; and
/// where it is full of those that have not, all of these but one.
pub proof fn inserting_keeps_the_others(
    before: CacheView,
    key: Seq<char>,
    response: CachedResponse,
    now: u128,
    after: CacheView,
    other: Seq<char>,
)
    requires
        before.inserts(key, response, now, after),
        other != key,
    ensures
        after.entries.contains_key(key) && after.entries[key] == response,
        after.capacity == before.capacity,
        after.entries.contains_key(other) ==> before.entries.contains_key(other)
            && after.entries[other] == before.entries[other],
        before.entries.len() < before.capacity && before.entries.contains_key(other)
            ==> after.entries.contains_key(other),
        before.unexpired(now).len() < before.capacity && before.fresh(other, now) is Some
            ==> after.entries.contains_key(other),
        before.entries.len() >= before.capacity && before.entries.contains_key(other)
            && before.entries[other].expires_at_unix_ms <= now ==> !after.entries.contains_key(
            other,
        ),
        before.unexpired(now).len() >= before.capacity && before.entries.len() >= before.capacity
            ==> exists|victim: Seq<char>| #[trigger]
            before.fresh(victim, now) is Some && forall|kept: Seq<char>|
                kept != victim && kept != key && #[trigger] before.fresh(kept, now) is Some
                    ==> after.entries.contains_key(kept),
{
    let left = choose|left: Map<Seq<char>, CachedResponse>| #[trigger]
        before.makes_room(now, left) && after.entries == left.insert(key, response)
            && after.capacity == before.capacity;
    let unexpired = before.unexpired(now);
    if before.fresh(other, now) is Some {
        assert(unexpired.contains_key(other));
    }
    if before.unexpired(now).len() >= before.capacity && before.entries.len() >= before.capacity {
        let victim = choose|victim: Seq<char>| #[trigger]
            CacheView::is_oldest(unexpired, victim) && left == unexpired.remove(victim);
        assert(before.fresh(victim, now) is Some);
        assert forall|kept: Seq<char>|
            kept != victim && kept != key && #[trigger] before.fresh(kept, now)
                is Some implies after.entries.contains_key(kept) by {
            assert(unexpired.contains_key(kept));
        }
    }
}

} // verus!
