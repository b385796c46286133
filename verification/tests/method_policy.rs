use rpc_gateway::gateway::method_policy::{
    apply_override, solana_method_policy, solana_method_policy_opt, SolanaMethodPolicy, SolanaMethodPolicyTable,
};
use rpc_gateway::settings::{MethodPolicyConfig, MethodPolicyOverride};

fn table(overrides: Vec<(String, MethodPolicyOverride)>) -> SolanaMethodPolicyTable {
    SolanaMethodPolicyTable::from_config(&MethodPolicyConfig { overrides })
}

#[test]
fn known_read_methods_are_cacheable() {
    let policy = solana_method_policy("getSlot");
    assert!(policy.known);
    assert!(policy.cacheable_by_default);
    assert!(!policy.consensus_critical);
}

#[test]
fn critical_methods_are_marked_consensus_critical() {
    let policy = solana_method_policy("getBalance");
    assert!(policy.known);
    assert!(policy.cacheable_by_default);
    assert!(policy.consensus_critical);
}

#[test]
fn write_methods_are_not_cacheable() {
    let policy = solana_method_policy("sendTransaction");
    assert!(policy.known);
    assert!(!policy.cacheable_by_default);
    assert!(!policy.consensus_critical);
}

#[test]
fn unknown_methods_default_to_safe_non_cacheable() {
    let policy = solana_method_policy("customExperimentalMethod");
    assert!(!policy.known);
    assert!(!policy.cacheable_by_default);
    assert!(!policy.consensus_critical);
}

#[test]
fn missing_method_defaults_to_safe_non_cacheable() {
    let policy = solana_method_policy_opt(None);
    assert!(!policy.known);
    assert!(!policy.cacheable_by_default);
    assert!(!policy.consensus_critical);
}

#[test]
fn policy_table_overrides_known_method() {
    let table = table(vec![(
        "getBalance".to_string(),
        MethodPolicyOverride {
            cacheable_by_default: Some(false),
            consensus_critical: Some(false),
        },
    )]);

    let policy = table.policy_for("getBalance");
    assert!(policy.known);
    assert!(!policy.cacheable_by_default);
    assert!(!policy.consensus_critical);
}

#[test]
fn policy_table_can_classify_unknown_method() {
    let table = table(vec![(
        "customMethod".to_string(),
        MethodPolicyOverride {
            cacheable_by_default: Some(true),
            consensus_critical: Some(true),
        },
    )]);

    let policy = table.policy_for("customMethod");
    assert!(policy.known);
    assert!(policy.cacheable_by_default);
    assert!(policy.consensus_critical);
}

#[test]
fn policy_table_lookup_is_case_insensitive() {
    let table = table(vec![(
        "customMethod".to_string(),
        MethodPolicyOverride {
            cacheable_by_default: Some(true),
            consensus_critical: Some(false),
        },
    )]);

    let policy = table.policy_for("CuStOmMeThOd");
    assert!(policy.known);
    assert!(policy.cacheable_by_default);
    assert!(!policy.consensus_critical);
}

#[test]
fn policy_table_defaults_to_builtin_policy_without_override() {
    let table = SolanaMethodPolicyTable::from_config(&MethodPolicyConfig::default());
    let policy = table.policy_for("getSlot");
    assert!(policy.known);
    assert!(policy.cacheable_by_default);
    assert!(!policy.consensus_critical);
}

#[test]
fn every_builtin_method_has_its_class() {
    let plain = [
        "getHealth",
        "getVersion",
        "getSlot",
        "getSlotLeader",
        "getBlockHeight",
        "getEpochInfo",
        "getEpochSchedule",
        "getGenesisHash",
        "getIdentity",
        "getClusterNodes",
        "getSupply",
        "getTokenSupply",
        "getSignatureStatuses",
        "getSignaturesForAddress",
        "getRecentPrioritizationFees",
        "getMinimumBalanceForRentExemption",
    ];
    for method in plain {
        assert_eq!(solana_method_policy(method), SolanaMethodPolicy::cacheable(false));
    }
    let critical = [
        "getBalance",
        "getAccountInfo",
        "getMultipleAccounts",
        "getProgramAccounts",
        "getTokenAccountBalance",
        "getLatestBlockhash",
        "getBlock",
        "getTransaction",
        "isBlockhashValid",
    ];
    for method in critical {
        assert_eq!(solana_method_policy(method), SolanaMethodPolicy::cacheable(true));
    }
    let writes =
        ["sendTransaction", "sendRawTransaction", "requestAirdrop", "simulateTransaction"];
    for method in writes {
        assert_eq!(solana_method_policy(method), SolanaMethodPolicy::non_cacheable(false));
    }
}

#[test]
fn partial_override_keeps_the_rest() {
    let table = table(vec![(
        "GETBALANCE".to_string(),
        MethodPolicyOverride {
            cacheable_by_default: Some(false),
            consensus_critical: None,
        },
    )]);
    let policy = table.policy_for_opt(Some("getBalance"));
    assert!(policy.known);
    assert!(!policy.cacheable_by_default);
    assert!(policy.consensus_critical);
    assert_eq!(table.policy_for_opt(None), SolanaMethodPolicy::unknown());
}

#[test]
fn empty_override_leaves_a_method_unknown() {
    let table = table(vec![("customMethod".to_string(), MethodPolicyOverride::default())]);
    assert_eq!(table.policy_for("customMethod"), SolanaMethodPolicy::unknown());
}

#[test]
fn later_override_of_a_method_counts() {
    let table = table(vec![
        (
            "customMethod".to_string(),
            MethodPolicyOverride {
                cacheable_by_default: Some(true),
                consensus_critical: None,
            },
        ),
        (
            "CUSTOMMETHOD".to_string(),
            MethodPolicyOverride {
                cacheable_by_default: Some(false),
                consensus_critical: Some(true),
            },
        ),
    ]);
    assert_eq!(table.policy_for("customMethod"), SolanaMethodPolicy::non_cacheable(true));
}

#[test]
fn repeated_and_empty_overrides_change_nothing() {
    let flags = |policy: &SolanaMethodPolicy| {
        (policy.known, policy.cacheable_by_default, policy.consensus_critical)
    };
    let base = solana_method_policy("customExperimentalMethod");
    let cacheable =
        MethodPolicyOverride { cacheable_by_default: Some(true), consensus_critical: None };
    let once = apply_override(base, &cacheable);
    assert_eq!(flags(&once), (true, true, false));
    assert_eq!(flags(&apply_override(once, &cacheable)), (true, true, false));
    let silent = MethodPolicyOverride { cacheable_by_default: None, consensus_critical: None };
    assert_eq!(flags(&apply_override(base, &silent)), (false, false, false));
}
