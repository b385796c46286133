//! What is known of JSON-RPC methods: whether responses may be cached, and
//! whether providers must agree on them.
use vstd::hash_map::StringHashMap;
use vstd::prelude::*;

use super::consensus::method_view;
use crate::settings::{MethodPolicyConfig, MethodPolicyOverride};
use crate::text::{lowercase, same_text};

verus! {

/// The classification of a method.
#[derive(Debug, Clone, Copy, PartialEq, Eq, Structural)]
pub struct SolanaMethodPolicy {
    pub known: bool,
    pub cacheable_by_default: bool,
    pub consensus_critical: bool,
}

/// The classification of a method of which nothing is known.
pub open spec fn unknown_policy() -> SolanaMethodPolicy {
    SolanaMethodPolicy { known: false, cacheable_by_default: false, consensus_critical: false }
}

/// The classification of a known method.
pub open spec fn known_policy(cacheable: bool, critical: bool) -> SolanaMethodPolicy {
    SolanaMethodPolicy { known: true, cacheable_by_default: cacheable, consensus_critical: critical }
}

impl SolanaMethodPolicy {
    pub fn unknown() -> (policy: SolanaMethodPolicy)
        ensures
            policy == unknown_policy(),
    {
        SolanaMethodPolicy { known: false, cacheable_by_default: false, consensus_critical: false }
    }

    pub fn cacheable(consensus_critical: bool) -> (policy: SolanaMethodPolicy)
        ensures
            policy == known_policy(true, consensus_critical),
    {
        SolanaMethodPolicy { known: true, cacheable_by_default: true, consensus_critical }
    }

    pub fn non_cacheable(consensus_critical: bool) -> (policy: SolanaMethodPolicy)
        ensures
            policy == known_policy(false, consensus_critical),
    {
        SolanaMethodPolicy { known: true, cacheable_by_default: false, consensus_critical }
    }
}

/// Whether a method, in lower case, reads what may be cached briefly.
pub open spec fn is_plain_read(name: Seq<char>) -> bool {
    ||| name == "gethealth"@
    ||| name == "getversion"@
    ||| name == "getslot"@
    ||| name == "getslotleader"@
    ||| name == "getblockheight"@
    ||| name == "getepochinfo"@
    ||| name == "getepochschedule"@
    ||| name == "getgenesishash"@
    ||| name == "getidentity"@
    ||| name == "getclusternodes"@
    ||| name == "getsupply"@
    ||| name == "gettokensupply"@
    ||| name == "getsignaturestatuses"@
    ||| name == "getsignaturesforaddress"@
    ||| name == "getrecentprioritizationfees"@
    ||| name == "getminimumbalanceforrentexemption"@
}

/// Whether a method, in lower case, reads what must be correct.
pub open spec fn is_critical_read(name: Seq<char>) -> bool {
    ||| name == "getbalance"@
    ||| name == "getaccountinfo"@
    ||| name == "getmultipleaccounts"@
    ||| name == "getprogramaccounts"@
    ||| name == "gettokenaccountbalance"@
    ||| name == "getlatestblockhash"@
    ||| name == "getblock"@
    ||| name == "gettransaction"@
    ||| name == "isblockhashvalid"@
}

/// Whether a method, in lower case, changes something or depends on the moment.
pub open spec fn is_write(name: Seq<char>) -> bool {
    ||| name == "sendtransaction"@
    ||| name == "sendrawtransaction"@
    ||| name == "requestairdrop"@
    ||| name == "simulatetransaction"@
}

/// The built-in classification of a method, in whatever case.
pub open spec fn builtin_policy(method: Seq<char>) -> SolanaMethodPolicy {
    let name = lowercase(method);
    if is_plain_read(name) {
        known_policy(true, false)
    } else if is_critical_read(name) {
        known_policy(true, true)
    } else if is_write(name) {
        known_policy(false, false)
    } else {
        unknown_policy()
    }
}

/// A classification with what an override says in place of it. A method of which
/// the override says anything is known.
pub open spec fn overridden(
    base: SolanaMethodPolicy,
    policy_override: MethodPolicyOverride,
) -> SolanaMethodPolicy {
    SolanaMethodPolicy {
        known: base.known || policy_override.cacheable_by_default is Some
            || policy_override.consensus_critical is Some,
        cacheable_by_default: match policy_override.cacheable_by_default {
            Some(cacheable) => cacheable,
            None => base.cacheable_by_default,
        },
        consensus_critical: match policy_override.consensus_critical {
            Some(critical) => critical,
            None => base.consensus_critical,
        },
    }
}

/// The classifications that differ from the built-in ones, by the methods in
/// lower case; a later entry replaces an earlier one.
pub open spec fn override_table(entries: Seq<(String, MethodPolicyOverride)>) -> Map<
    Seq<char>,
    SolanaMethodPolicy,
>
    decreases entries.len(),
{
    if entries.len() == 0 {
        Map::empty()
    } else {
        let (method, policy_override) = entries.last();
        override_table(entries.drop_last()).insert(
            lowercase(method@),
            overridden(builtin_policy(method@), policy_override),
        )
    }
}

/// The classification of a method, given those that differ from the built-in
/// ones.
pub open spec fn table_policy(
    overrides: Map<Seq<char>, SolanaMethodPolicy>,
    method: Seq<char>,
) -> SolanaMethodPolicy {
    if overrides.contains_key(lowercase(method)) {
        overrides[lowercase(method)]
    } else {
        builtin_policy(method)
    }
}

/// The classification of a request, which may name no method.
pub open spec fn request_policy(
    overrides: Map<Seq<char>, SolanaMethodPolicy>,
    method: Option<Seq<char>>,
) -> SolanaMethodPolicy {
    match method {
        Some(name) => table_policy(overrides, name),
        None => unknown_policy(),
    }
}

/// The classifications of all methods.
pub struct SolanaMethodPolicyTable {
    overrides: StringHashMap<SolanaMethodPolicy>,
}

impl View for SolanaMethodPolicyTable {
    type V = Map<Seq<char>, SolanaMethodPolicy>;

    closed spec fn view(&self) -> Map<Seq<char>, SolanaMethodPolicy> {
        self.overrides@
    }
}

impl SolanaMethodPolicyTable {
    pub fn from_config(config: &MethodPolicyConfig) -> (table: SolanaMethodPolicyTable)
        ensures
            table@ == override_table(config.overrides@),
    {
        let mut overrides: StringHashMap<SolanaMethodPolicy> = StringHashMap::new();
        let mut i: usize = 0;
        while i < config.overrides.len()
            invariant
                i <= config.overrides@.len(),
                overrides@ == override_table(config.overrides@.take(i as int)),
            decreases config.overrides@.len() - i,
        {
            assert(config.overrides@.take(i + 1).drop_last() =~= config.overrides@.take(i as int));
            let method: &str = config.overrides[i].0.as_str();
            overrides.insert(
                method.to_ascii_lowercase(),
                apply_override(solana_method_policy(method), &config.overrides[i].1),
            );
            i = i + 1;
        }
        assert(config.overrides@.take(i as int) =~= config.overrides@);
        SolanaMethodPolicyTable { overrides }
    }

    pub fn policy_for(&self, method: &str) -> (policy: SolanaMethodPolicy)
        ensures
            policy == table_policy(self@, method@),
    {
        let name: String = method.to_ascii_lowercase();
        match self.overrides.get(name.as_str()) {
            Some(policy) => *policy,
            None => solana_method_policy(method),
        }
    }

    pub fn policy_for_opt(&self, method: Option<&str>) -> (policy: SolanaMethodPolicy)
        ensures
            policy == request_policy(self@, method_view(method)),
    {
        match method {
            Some(name) => self.policy_for(name),
            None => SolanaMethodPolicy::unknown(),
        }
    }
}

/// Puts what an override says in place of a classification.
pub fn apply_override(base: SolanaMethodPolicy, policy_override: &MethodPolicyOverride) -> (policy:
    SolanaMethodPolicy)
    ensures
        policy == overridden(base, *policy_override),
{
    SolanaMethodPolicy {
        known: base.known || policy_override.cacheable_by_default.is_some()
            || policy_override.consensus_critical.is_some(),
        cacheable_by_default: match policy_override.cacheable_by_default {
            Some(cacheable) => cacheable,
            None => base.cacheable_by_default,
        },
        consensus_critical: match policy_override.consensus_critical {
            Some(critical) => critical,
            None => base.consensus_critical,
        },
    }
}

/// Looks up the built-in classification of a method.
pub fn solana_method_policy(method: &str) -> (policy: SolanaMethodPolicy)
    ensures
        policy == builtin_policy(method@),
{
    let lower: String = method.to_ascii_lowercase();
    let name: &str = lower.as_str();
    if same_text(name, "gethealth") || same_text(name, "getversion") || same_text(name, "getslot")
        || same_text(name, "getslotleader") || same_text(name, "getblockheight") || same_text(
        name,
        "getepochinfo",
    ) || same_text(name, "getepochschedule") || same_text(name, "getgenesishash") || same_text(
        name,
        "getidentity",
    ) || same_text(name, "getclusternodes") || same_text(name, "getsupply") || same_text(
        name,
        "gettokensupply",
    ) || same_text(name, "getsignaturestatuses") || same_text(name, "getsignaturesforaddress")
        || same_text(name, "getrecentprioritizationfees") || same_text(
        name,
        "getminimumbalanceforrentexemption",
    ) {
        SolanaMethodPolicy::cacheable(false)
    } else if same_text(name, "getbalance") || same_text(name, "getaccountinfo") || same_text(
        name,
        "getmultipleaccounts",
    ) || same_text(name, "getprogramaccounts") || same_text(name, "gettokenaccountbalance")
        || same_text(name, "getlatestblockhash") || same_text(name, "getblock") || same_text(
        name,
        "gettransaction",
    ) || same_text(name, "isblockhashvalid") {
        SolanaMethodPolicy::cacheable(true)
    } else if same_text(name, "sendtransaction") || same_text(name, "sendrawtransaction")
        || same_text(name, "requestairdrop") || same_text(name, "simulatetransaction") {
        SolanaMethodPolicy::non_cacheable(false)
    } else {
        SolanaMethodPolicy::unknown()
    }
}

pub fn solana_method_policy_opt(method: Option<&str>) -> (policy: SolanaMethodPolicy)
    ensures
        policy == (match method {
            Some(name) => builtin_policy(name@),
            None => unknown_policy(),
        }),
{
    match method {
        Some(name) => solana_method_policy(name),
        None => SolanaMethodPolicy::unknown(),
    }
}

/// Methods that agree up to letter case are classified alike.
pub proof fn classification_ignores_letter_case(
    overrides: Map<Seq<char>, SolanaMethodPolicy>,
    method: Seq<char>,
    other: Seq<char>,
)
    requires
        lowercase(method) == lowercase(other),
    ensures
        table_policy(overrides, method) == table_policy(overrides, other),
{
}

/// A method that is neither in the built-in table nor overridden is taken to be
/// neither cacheable nor consensus-critical.
pub proof fn unknown_methods_are_not_cacheable(
    entries: Seq<(String, MethodPolicyOverride)>,
    method: Seq<char>,
)
    requires
        !is_plain_read(lowercase(method)),
        !is_critical_read(lowercase(method)),
        !is_write(lowercase(method)),
        forall|i: int|
            0 <= i < entries.len() ==> lowercase((#[trigger] entries[i]).0@) != lowercase(method),
    ensures
        table_policy(override_table(entries), method) == unknown_policy(),
{
    lemma_not_overridden(entries, lowercase(method));
}

proof fn lemma_not_overridden(entries: Seq<(String, MethodPolicyOverride)>, name: Seq<char>)
    requires
        forall|i: int| 0 <= i < entries.len() ==> lowercase((#[trigger] entries[i]).0@) != name,
    ensures
        !override_table(entries).contains_key(name),
    decreases entries.len(),
{
    if entries.len() > 0 {
        let before = entries.drop_last();
        assert forall|i: int| 0 <= i < before.len() implies lowercase((#[trigger] before[i]).0@)
            != name by {
            assert(before[i] == entries[i]);
        }
        lemma_not_overridden(before, name);
        assert(lowercase(entries[entries.len() - 1].0@) != name);
    }
}

/// What an override says of a method holds of it, in whatever case it is named,
/// unless a later override says otherwise; what it does not say stays as it is
/// built in.
pub proof fn overrides_take_effect(
    entries: Seq<(String, MethodPolicyOverride)>,
    index: int,
    method: Seq<char>,
)
    requires
        0 <= index < entries.len(),
        lowercase(entries[index].0@) == lowercase(method),
        forall|i: int|
            index < i < entries.len() ==> lowercase((#[trigger] entries[i]).0@) != lowercase(
                method,
            ),
    ensures
        table_policy(override_table(entries), method) == overridden(
            builtin_policy(method),
            entries[index].1,
        ),
    decreases entries.len(),
{
    let before = entries.drop_last();
    if index == entries.len() - 1 {
        assert(builtin_policy(entries[index].0@) == builtin_policy(method));
    } else {
        assert forall|i: int| index < i < before.len() implies lowercase(
            (#[trigger] before[i]).0@,
        ) != lowercase(method) by {
            assert(before[i] == entries[i]);
        }
        overrides_take_effect(before, index, method);
        assert(lowercase(entries[entries.len() - 1].0@) != lowercase(method));
        lemma_overridden(before, index, lowercase(method));
    }
}

proof fn lemma_overridden(
    entries: Seq<(String, MethodPolicyOverride)>,
    index: int,
    name: Seq<char>,
)
    requires
        0 <= index < entries.len(),
        lowercase(entries[index].0@) == name,
    ensures
        override_table(entries).contains_key(name),
    decreases entries.len(),
{
    if index < entries.len() - 1 {
        lemma_overridden(entries.drop_last(), index, name);
    }
}

/// An override that is applied twice says no more than one that is applied once,
/// and one that says nothing changes nothing.
pub proof fn overriding_is_idempotent(
    base: SolanaMethodPolicy,
    policy_override: MethodPolicyOverride,
)
    ensures
        overridden(overridden(base, policy_override), policy_override) == overridden(
            base,
            policy_override,
        ),
        policy_override.cacheable_by_default is None && policy_override.consensus_critical is None
            ==> overridden(base, policy_override) == base,
{
}

/// What the built-in table says of each method that it lists, in whatever case the
/// method is named. Plain reads may be cached; so may critical reads, on which
/// providers must agree besides; writes may not be cached, and nothing is known of
/// any other method.
pub proof fn builtin_table_lists_these_methods(method: Seq<char>, name: Seq<char>)
    requires
        name == lowercase(method),
    ensures
        (name == "gethealth"@
            || name == "getversion"@
            || name == "getslot"@
            || name == "getslotleader"@
            || name == "getblockheight"@
            || name == "getepochinfo"@
            || name == "getepochschedule"@
            || name == "getgenesishash"@
            || name == "getidentity"@
            || name == "getclusternodes"@
            || name == "getsupply"@
            || name == "gettokensupply"@
            || name == "getsignaturestatuses"@
            || name == "getsignaturesforaddress"@
            || name == "getrecentprioritizationfees"@
            || name == "getminimumbalanceforrentexemption"@) ==> {
            let policy = builtin_policy(method);
            policy.known && policy.cacheable_by_default && !policy.consensus_critical
        },
        (name == "getbalance"@
            || name == "getaccountinfo"@
            || name == "getmultipleaccounts"@
            || name == "getprogramaccounts"@
            || name == "gettokenaccountbalance"@
            || name == "getlatestblockhash"@
            || name == "getblock"@
            || name == "gettransaction"@
            || name == "isblockhashvalid"@) ==> {
            let policy = builtin_policy(method);
            policy.known && policy.cacheable_by_default && policy.consensus_critical
        },
        (name == "sendtransaction"@
            || name == "sendrawtransaction"@
            || name == "requestairdrop"@
            || name == "simulatetransaction"@) ==> {
            let policy = builtin_policy(method);
            policy.known && !policy.cacheable_by_default && !policy.consensus_critical
        },
        (name != "gethealth"@
            && name != "getversion"@
            && name != "getslot"@
            && name != "getslotleader"@
            && name != "getblockheight"@
            && name != "getepochinfo"@
            && name != "getepochschedule"@
            && name != "getgenesishash"@
            && name != "getidentity"@
            && name != "getclusternodes"@
            && name != "getsupply"@
            && name != "gettokensupply"@
            && name != "getsignaturestatuses"@
            && name != "getsignaturesforaddress"@
            && name != "getrecentprioritizationfees"@
            && name != "getminimumbalanceforrentexemption"@
            && name != "getbalance"@
            && name != "getaccountinfo"@
            && name != "getmultipleaccounts"@
            && name != "getprogramaccounts"@
            && name != "gettokenaccountbalance"@
            && name != "getlatestblockhash"@
            && name != "getblock"@
            && name != "gettransaction"@
            && name != "isblockhashvalid"@
            && name != "sendtransaction"@
            && name != "sendrawtransaction"@
            && name != "requestairdrop"@
            && name != "simulatetransaction"@) ==> {
            let policy = builtin_policy(method);
            !policy.known && !policy.cacheable_by_default && !policy.consensus_critical
        },
{
    lemma_names_differ();
}

/// No name of the built-in table stands under two classifications.
proof fn lemma_names_differ()
    ensures
        forall|name: Seq<char>| #[trigger]
            is_critical_read(name) ==> !is_plain_read(name),
        forall|name: Seq<char>| #[trigger]
            is_write(name) ==> !is_plain_read(name) && !is_critical_read(name),
{
    reveal_strlit("gethealth");
    assert("gethealth"@.len() == 9);
    reveal_strlit("getversion");
    assert("getversion"@.len() == 10);
    reveal_strlit("getslot");
    assert("getslot"@.len() == 7);
    reveal_strlit("getslotleader");
    assert("getslotleader"@.len() == 13);
    reveal_strlit("getblockheight");
    assert("getblockheight"@.len() == 14);
    reveal_strlit("getepochinfo");
    assert("getepochinfo"@.len() == 12);
    reveal_strlit("getepochschedule");
    assert("getepochschedule"@.len() == 16);
    reveal_strlit("getgenesishash");
    assert("getgenesishash"@.len() == 14);
    reveal_strlit("getidentity");
    assert("getidentity"@.len() == 11);
    reveal_strlit("getclusternodes");
    assert("getclusternodes"@.len() == 15);
    reveal_strlit("getsupply");
    assert("getsupply"@.len() == 9);
    reveal_strlit("gettokensupply");
    assert("gettokensupply"@.len() == 14);
    reveal_strlit("getsignaturestatuses");
    assert("getsignaturestatuses"@.len() == 20);
    reveal_strlit("getsignaturesforaddress");
    assert("getsignaturesforaddress"@.len() == 23);
    reveal_strlit("getrecentprioritizationfees");
    assert("getrecentprioritizationfees"@.len() == 27);
    reveal_strlit("getminimumbalanceforrentexemption");
    assert("getminimumbalanceforrentexemption"@.len() == 33);
    reveal_strlit("getbalance");
    assert("getbalance"@.len() == 10);
    reveal_strlit("getaccountinfo");
    assert("getaccountinfo"@.len() == 14);
    reveal_strlit("getmultipleaccounts");
    assert("getmultipleaccounts"@.len() == 19);
    reveal_strlit("getprogramaccounts");
    assert("getprogramaccounts"@.len() == 18);
    reveal_strlit("gettokenaccountbalance");
    assert("gettokenaccountbalance"@.len() == 22);
    reveal_strlit("getlatestblockhash");
    assert("getlatestblockhash"@.len() == 18);
    reveal_strlit("getblock");
    assert("getblock"@.len() == 8);
    reveal_strlit("gettransaction");
    assert("gettransaction"@.len() == 14);
    reveal_strlit("isblockhashvalid");
    assert("isblockhashvalid"@.len() == 16);
    reveal_strlit("sendtransaction");
    assert("sendtransaction"@.len() == 15);
    reveal_strlit("sendrawtransaction");
    assert("sendrawtransaction"@.len() == 18);
    reveal_strlit("requestairdrop");
    assert("requestairdrop"@.len() == 14);
    reveal_strlit("simulatetransaction");
    assert("simulatetransaction"@.len() == 19);
    assert("getversion"@[3] != "getbalance"@[3]);
    assert("getblockheight"@[3] != "getaccountinfo"@[3]);
    assert("getblockheight"@[3] != "gettransaction"@[3]);
    assert("getepochschedule"@[0] != "isblockhashvalid"@[0]);
    assert("getgenesishash"@[3] != "getaccountinfo"@[3]);
    assert("getgenesishash"@[3] != "gettransaction"@[3]);
    assert("gettokensupply"@[3] != "getaccountinfo"@[3]);
    assert("gettokensupply"@[4] != "gettransaction"@[4]);
    assert("getblockheight"@[0] != "requestairdrop"@[0]);
    assert("getgenesishash"@[0] != "requestairdrop"@[0]);
    assert("getclusternodes"@[0] != "sendtransaction"@[0]);
    assert("gettokensupply"@[0] != "requestairdrop"@[0]);
    assert("getaccountinfo"@[0] != "requestairdrop"@[0]);
    assert("getmultipleaccounts"@[0] != "simulatetransaction"@[0]);
    assert("getprogramaccounts"@[0] != "sendrawtransaction"@[0]);
    assert("getlatestblockhash"@[0] != "sendrawtransaction"@[0]);
    assert("gettransaction"@[0] != "requestairdrop"@[0]);
}

/// Each of the two flags of a classification is what an override says of it, and
/// stays where the override is silent; neither flag has a say in the other. A method
/// is known if it was, or if the override says anything of it.
pub proof fn overrides_replace_flag_by_flag(
    base: SolanaMethodPolicy,
    policy_override: MethodPolicyOverride,
)
    ensures
        policy_override.cacheable_by_default matches Some(flag) ==> overridden(
            base,
            policy_override,
        ).cacheable_by_default == flag,
        policy_override.cacheable_by_default is None ==> overridden(
            base,
            policy_override,
        ).cacheable_by_default == base.cacheable_by_default,
        policy_override.consensus_critical matches Some(flag) ==> overridden(
            base,
            policy_override,
        ).consensus_critical == flag,
        policy_override.consensus_critical is None ==> overridden(
            base,
            policy_override,
        ).consensus_critical == base.consensus_critical,
        overridden(base, policy_override).known <==> (base.known
            || policy_override.cacheable_by_default is Some
            || policy_override.consensus_critical is Some),
{
}

/// A method without an override is classified as it is built in, and a request that
/// names no method as one of which nothing is known.
pub proof fn without_override_the_builtin_counts(
    entries: Seq<(String, MethodPolicyOverride)>,
    method: Seq<char>,
)
    requires
        forall|i: int|
            0 <= i < entries.len() ==> lowercase((#[trigger] entries[i]).0@) != lowercase(method),
    ensures
        request_policy(override_table(entries), Some(method)) == builtin_policy(method),
        ({
            let nameless = request_policy(override_table(entries), None);
            !nameless.known && !nameless.cacheable_by_default && !nameless.consensus_critical
        }),
{
    lemma_not_overridden(entries, lowercase(method));
}

} // verus!
