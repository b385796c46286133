use rpc_gateway::gateway::coalescing::{CoalescingRole, InFlightRequest, RequestCoalescer};

#[test]
fn coalescer_fans_out_to_waiters() {
    let mut coalescer = RequestCoalescer::new(true);
    let mut execution_count = 0;
    let mut slot: InFlightRequest<u64, String> = InFlightRequest::new();

    let first = coalescer.run_or_join("k".to_string());
    assert!(matches!(first, CoalescingRole::Leader(_)));
    execution_count += 1;
    assert!(slot.result().is_none());

    let second = coalescer.run_or_join("k".to_string());
    let (CoalescingRole::Leader(leader), CoalescingRole::Follower(followed)) = (first, second)
    else {
        panic!("the second request should join the first");
    };
    assert_eq!(leader, followed);
    assert_eq!(coalescer.stats().in_flight, 1);

    slot.complete(Ok(7));
    coalescer.finish("k");

    assert_eq!(slot.result(), Some(&Ok(7)));
    assert_ne!(first, second);
    let stats = coalescer.stats();
    assert!(stats.enabled);
    assert_eq!(stats.in_flight, 0);
    assert_eq!(stats.leader_count, 1);
    assert_eq!(stats.fanout_count, 1);
    assert_eq!(execution_count, 1);
}

#[test]
fn disabled_coalescer_runs_every_request() {
    let mut coalescer = RequestCoalescer::new(false);
    assert!(!coalescer.enabled());
    assert_eq!(coalescer.run_or_join("k".to_string()), CoalescingRole::Alone);
    assert_eq!(coalescer.run_or_join("k".to_string()), CoalescingRole::Alone);
    let stats = coalescer.stats();
    assert_eq!(stats.leader_count, 0);
    assert_eq!(stats.fanout_count, 0);
    assert_eq!(stats.in_flight, 0);
}

#[test]
fn different_keys_run_side_by_side() {
    let mut coalescer = RequestCoalescer::new(true);
    assert_eq!(coalescer.run_or_join("a".to_string()), CoalescingRole::Leader(0));
    assert_eq!(coalescer.run_or_join("b".to_string()), CoalescingRole::Leader(1));
    assert_eq!(coalescer.stats().in_flight, 2);
    coalescer.finish("a");
    assert_eq!(coalescer.run_or_join("b".to_string()), CoalescingRole::Follower(1));
    assert_eq!(coalescer.run_or_join("a".to_string()), CoalescingRole::Leader(2));
    coalescer.finish("missing");
    assert_eq!(coalescer.stats().in_flight, 2);
}
