use pingora_learning::balancer::{ConfigError, LoadBalancerProxy, RequestCtx, Selection};
use pingora_learning::backend::Backend;
use std::time::Instant;

fn route(lb: &mut LoadBalancerProxy) -> Selection {
    let mut ctx = RequestCtx::from_parts(7, Instant::now());
    lb.upstream_peer(&mut ctx)
}

#[test]
fn three_healthy_backends_rotate_in_order() {
    let mut lb = LoadBalancerProxy::new(vec!["A", "B", "C"]);
    let picked: Vec<String> = (0..3)
        .map(|_| {
            let s = lb.select_backend();
            assert!(matches!(s, Selection::Healthy(_)));
            lb.backend(s.index()).addr().clone()
        })
        .collect();
    assert_eq!(picked, vec!["A", "B", "C"]);
}

#[test]
fn unhealthy_backend_is_never_selected() {
    let mut lb = LoadBalancerProxy::new(vec!["A", "B"]);
    lb.fail_to_connect("B", ());
    for _ in 0..10 {
        let s = lb.select_backend();
        assert!(matches!(s, Selection::Healthy(0)));
        assert_eq!(lb.backend(s.index()).addr(), "A");
    }
}

#[test]
fn single_backend_failure_falls_back_to_it() {
    let mut lb = LoadBalancerProxy::new(vec!["A"]);
    let err = lb.fail_to_connect("A", "refused");
    assert_eq!(err, "refused");
    assert!(!lb.backend(0).is_healthy());
    let s = lb.select_backend();
    assert!(matches!(s, Selection::Degraded(0)));
}

#[test]
fn stats_after_five_requests_and_one_failure() {
    let mut lb = LoadBalancerProxy::new(vec!["10.0.0.1:9000"]);
    for _ in 0..5 {
        route(&mut lb);
    }
    lb.fail_to_connect("10.0.0.1:9000", ());
    let snap = lb.snapshot();
    assert_eq!(snap.len(), 1);
    assert_eq!(snap[0].address, "10.0.0.1:9000");
    assert_eq!(snap[0].requests, 5);
    assert_eq!(snap[0].failures, 1);
    assert!(!snap[0].healthy);
    assert_eq!(lb.backend(0).stats(), (5, 1));
}

#[test]
fn window_of_n_selections_visits_every_backend() {
    let mut lb = LoadBalancerProxy::new(vec!["A", "B", "C", "D"]);
    lb.select_backend();
    let mut seen: Vec<usize> = (0..4).map(|_| lb.select_backend().index()).collect();
    assert_eq!(seen, vec![1, 2, 3, 0]);
    seen.sort();
    assert_eq!(seen, vec![0, 1, 2, 3]);
}

#[test]
fn selection_skips_unhealthy_from_any_cursor() {
    let mut lb = LoadBalancerProxy::new(vec!["A", "B", "C"]);
    lb.fail_to_connect("B", ());
    let picked: Vec<usize> = (0..6).map(|_| lb.select_backend().index()).collect();
    assert_eq!(picked, vec![0, 2, 2, 0, 2, 2]);
}

#[test]
fn counters_count_routings_and_failures_per_backend() {
    let mut lb = LoadBalancerProxy::new(vec!["A", "B"]);
    for _ in 0..4 {
        route(&mut lb);
    }
    lb.fail_to_connect("A", ());
    lb.fail_to_connect("A", ());
    for _ in 0..3 {
        route(&mut lb);
    }
    assert_eq!(lb.backend(0).stats(), (2, 2));
    assert_eq!(lb.backend(1).stats(), (5, 0));
}

#[test]
fn routing_records_backend_in_context() {
    let mut lb = LoadBalancerProxy::new(vec!["A", "B"]);
    let mut ctx = RequestCtx::from_parts(1, Instant::now());
    assert_eq!(ctx.backend(), None);
    let s = lb.upstream_peer(&mut ctx);
    assert_eq!(ctx.backend(), Some(s.index()));
    assert_eq!(ctx.request_id(), 1);
    assert_eq!(lb.backend(0).stats(), (1, 0));
}

#[test]
fn unknown_address_failure_changes_nothing() {
    let mut lb = LoadBalancerProxy::new(vec!["A"]);
    assert_eq!(lb.find_backend("Z"), None);
    assert_eq!(lb.find_backend("A"), Some(0));
    let e = lb.fail_to_connect("Z", 5u8);
    assert_eq!(e, 5);
    assert!(lb.backend(0).is_healthy());
    assert_eq!(lb.backend(0).stats(), (0, 0));
}

#[test]
fn configuration_errors() {
    assert_eq!(LoadBalancerProxy::try_new(vec![]).err(), Some(ConfigError::Empty));
    assert_eq!(
        LoadBalancerProxy::try_new(vec!["A", "B", "A"]).err(),
        Some(ConfigError::DuplicateAddress(2))
    );
    let lb = LoadBalancerProxy::try_new(vec!["A", "B"]).ok().unwrap();
    assert_eq!(lb.len(), 2);
}

#[test]
fn stats_due_every_fifth_request() {
    let mut lb = LoadBalancerProxy::new(vec!["A"]);
    let mut due = Vec::new();
    for i in 0..10u32 {
        let mut ctx = RequestCtx::from_parts(i, Instant::now());
        lb.upstream_peer(&mut ctx);
        due.push(lb.stats_due(&ctx));
    }
    assert_eq!(
        due,
        vec![false, false, false, false, true, false, false, false, false, true]
    );
    let fresh = RequestCtx::new();
    assert!(!lb.stats_due(&fresh));
}

#[test]
fn backend_health_and_counters() {
    let mut b = Backend::new("h:1");
    assert!(b.is_healthy());
    b.mark_unhealthy();
    assert!(!b.is_healthy());
    b.mark_healthy();
    assert!(b.is_healthy());
    b.record_request();
    b.record_request();
    b.record_failure();
    assert_eq!(b.stats(), (2, 1));
    assert_eq!(b.addr(), "h:1");
}
