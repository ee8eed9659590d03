use akasha::pool::{
    keep_released_connection, permit_fallback, ConnectionQueue, IpcPoolConfig, IpcPoolConfigBuilder,
    PermitFallback, RejectPolicy, Span,
};

#[test]
fn builder_starts_from_defaults() {
    let c = IpcPoolConfigBuilder::new().build();
    assert_eq!(c, IpcPoolConfig::default());
    assert_eq!(c.min_connections, 3);
    assert_eq!(c.max_connections, 10);
    assert_eq!(c.idle_timeout, Span::from_secs(60));
    assert_eq!(c.health_check_interval, Span::from_secs(60));
    assert_eq!(c.reject_policy, RejectPolicy::New);
    assert_eq!(RejectPolicy::default(), RejectPolicy::New);
}

#[test]
fn builder_sets_each_field() {
    let c = IpcPoolConfigBuilder::new()
        .min_connections(0)
        .max_connections(20)
        .idle_timeout(Span::from_millis(500))
        .health_check_interval(Span::from_secs(10))
        .reject_policy(RejectPolicy::Timeout(Span::from_millis(1500)))
        .build();
    assert_eq!(c.min_connections, 0);
    assert_eq!(c.max_connections, 20);
    assert_eq!(c.idle_timeout, Span { secs: 0, nanos: 500_000_000 });
    assert_eq!(c.health_check_interval, Span { secs: 10, nanos: 0 });
    assert_eq!(c.reject_policy, RejectPolicy::Timeout(Span { secs: 1, nanos: 500_000_000 }));
}

#[test]
fn span_in_nanoseconds() {
    assert_eq!(Span::from_millis(1500).as_nanos(), 1_500_000_000);
    assert_eq!(Span::from_secs(2).as_nanos(), 2_000_000_000);
    assert_eq!(
        Span::from_millis(123_456).as_nanos(),
        std::time::Duration::from_millis(123_456).as_nanos()
    );
}

#[test]
fn fallback_follows_policy() {
    assert_eq!(permit_fallback(RejectPolicy::New), PermitFallback::AddPermitAndWait);
    assert_eq!(permit_fallback(RejectPolicy::Reject), PermitFallback::Reject);
    assert_eq!(permit_fallback(RejectPolicy::Wait), PermitFallback::Wait);
    assert_eq!(
        permit_fallback(RejectPolicy::Timeout(Span::from_secs(3))),
        PermitFallback::WaitAtMost(Span::from_secs(3))
    );
}

#[test]
fn release_keeps_connection_while_permits_are_taken() {
    assert!(keep_released_connection(19, 20));
    assert!(!keep_released_connection(20, 20));
    let mut q: ConnectionQueue<&str> = ConnectionQueue::new();
    assert_eq!(q.release("a", 5, 3, 20), None);
    assert_eq!(q.release("b", 6, 20, 20), Some("b"));
    assert_eq!(q.len(), 1);
    assert_eq!(q.pop_front(), Some("a"));
    assert_eq!(q.pop_front(), None);
}

#[test]
fn cleanup_keeps_minimum_and_fresh_connections() {
    let config = IpcPoolConfigBuilder::new()
        .min_connections(1)
        .idle_timeout(Span::from_secs(1))
        .build();
    let mut q: ConnectionQueue<u32> = ConnectionQueue::new();
    let s = 1_000_000_000u128;
    q.release(1, 0, 0, 20);
    q.release(2, 0, 0, 20);
    q.release(3, 9 * s, 0, 20);
    q.release(4, 1 * s, 0, 20);
    let dropped = q.cleanup_idle_connections(10 * s, &config);
    assert_eq!(dropped, vec![2, 4]);
    assert_eq!(q.pop_front(), Some(1));
    assert_eq!(q.pop_front(), Some(3));
    assert_eq!(q.pop_front(), None);
}

#[test]
fn cleanup_skips_small_pools() {
    let config = IpcPoolConfigBuilder::new().min_connections(3).idle_timeout(Span::from_secs(0)).build();
    let mut q: ConnectionQueue<u32> = ConnectionQueue::new();
    q.release(1, 0, 0, 20);
    q.release(2, 0, 0, 20);
    assert!(q.cleanup_idle_connections(1_000_000, &config).is_empty());
    assert_eq!(q.len(), 2);
    q.clear_pool();
    assert_eq!(q.len(), 0);
}

#[test]
fn cleanup_returns_closed_connections_in_order() {
    let mut q: ConnectionQueue<u8> = ConnectionQueue::new();
    for (c, t) in [(1u8, 100u128), (2, 0), (3, 100), (4, 0), (5, 99)] {
        assert!(q.release(c, t, 0, 10).is_none());
    }
    let config = IpcPoolConfigBuilder::new().min_connections(1).idle_timeout(Span { secs: 0, nanos: 50 }).build();
    let dropped = q.cleanup_idle_connections(100, &config);
    assert_eq!(dropped, vec![2, 4]);
    assert_eq!(q.len(), 3);
    assert_eq!(q.pop_front(), Some(1));
    assert_eq!(q.pop_front(), Some(3));
    assert_eq!(q.pop_front(), Some(5));
}
