use pingora_learning::balancer::{LoadBalancerProxy, RequestCtx};
use pingora_learning::decimal::decimal;
use pingora_learning::headers::HeaderEdit;
use pingora_learning::simple::{FirstProxy, LearningProxy};
use pingora_learning::smart::{self, SmartProxy};
use std::collections::BTreeMap;
use std::time::Instant;

fn apply(h: &mut BTreeMap<String, String>, edits: &[HeaderEdit]) {
    for e in edits {
        match e {
            HeaderEdit::Insert(n, v) => {
                h.insert(n.clone(), v.clone());
            }
            HeaderEdit::Remove(n) => {
                h.remove(n);
            }
        }
    }
}

fn routed(id: u32, addr: &str) -> (LoadBalancerProxy, RequestCtx) {
    let mut lb = LoadBalancerProxy::new(vec![addr]);
    let mut ctx = RequestCtx::from_parts(id, Instant::now());
    lb.upstream_peer(&mut ctx);
    (lb, ctx)
}

#[test]
fn routed_request_carries_id_and_backend() {
    let (lb, ctx) = routed(42, "10.0.0.1:9000");
    let mut out = BTreeMap::new();
    apply(&mut out, &lb.upstream_request_filter(&ctx));
    assert_eq!(out["X-Request-ID"], "42");
    assert_eq!(out["X-Backend"], "10.0.0.1:9000");
    assert_eq!(out["X-Forwarded-By"], "Pingora-LoadBalancer");
    assert!(out["X-Request-Start"].chars().all(|c| c.is_ascii_digit()));

    let mut resp = BTreeMap::new();
    resp.insert("Server".to_string(), "nginx".to_string());
    resp.insert("X-Powered-By".to_string(), "php".to_string());
    resp.insert("Content-Length".to_string(), "3".to_string());
    apply(&mut resp, &lb.response_filter(&ctx));
    assert!(resp["X-Response-Time"].ends_with("ms"));
    assert!(!resp.contains_key("Server"));
    assert!(!resp.contains_key("X-Powered-By"));
    assert_eq!(resp["X-Request-ID"], "42");
    assert_eq!(resp["X-Served-By"], "10.0.0.1:9000");
    assert_eq!(resp["X-Content-Type-Options"], "nosniff");
    assert_eq!(resp["X-Frame-Options"], "DENY");
    assert_eq!(resp["X-XSS-Protection"], "1; mode=block");
    assert_eq!(resp["Content-Length"], "3");
}

#[test]
fn outbound_edits_twice_same_as_once() {
    let (lb, ctx) = routed(9, "b:1");
    let mut once = BTreeMap::new();
    once.insert("X-Request-ID".to_string(), "stale".to_string());
    once.insert("Accept".to_string(), "*/*".to_string());
    let mut twice = once.clone();
    let edits = lb.upstream_request_edits(&ctx, 120);
    apply(&mut once, &edits);
    apply(&mut twice, &edits);
    apply(&mut twice, &edits);
    assert_eq!(once, twice);
    let later = lb.upstream_request_edits(&ctx, 900);
    apply(&mut twice, &later);
    let mut fresh = BTreeMap::new();
    fresh.insert("X-Request-ID".to_string(), "stale".to_string());
    fresh.insert("Accept".to_string(), "*/*".to_string());
    apply(&mut fresh, &later);
    assert_eq!(twice, fresh);
    assert_eq!(fresh["X-Request-Start"], "900");
}

#[test]
fn response_time_is_whole_milliseconds() {
    let (lb, ctx) = routed(3, "b:1");
    let mut resp = BTreeMap::new();
    apply(&mut resp, &lb.response_edits(&ctx, 1234));
    assert_eq!(resp["X-Response-Time"], "1234ms");
    assert_eq!(resp["X-Request-ID"], "3");
}

#[test]
fn unrouted_context_has_no_backend_header() {
    let lb = LoadBalancerProxy::new(vec!["a:1"]);
    let ctx = RequestCtx::from_parts(5, Instant::now());
    let mut out = BTreeMap::new();
    apply(&mut out, &lb.upstream_request_edits(&ctx, 0));
    assert!(!out.contains_key("X-Backend"));
    assert_eq!(out["X-Request-Start"], "0");
}

#[test]
fn decimal_text() {
    assert_eq!(decimal(0), "0");
    assert_eq!(decimal(42), "42");
    assert_eq!(decimal(4294967295), "4294967295");
    assert_eq!(decimal(u128::MAX), u128::MAX.to_string());
}

#[test]
fn smart_path_filter() {
    let p = SmartProxy::new("127.0.0.1:8080", "127.0.0.1:8081");
    assert_eq!(p.request_filter("/admin"), Err(403));
    assert_eq!(p.request_filter("/admin/users"), Err(403));
    assert_eq!(p.request_filter("/static/../etc/passwd"), Err(400));
    assert_eq!(p.request_filter("/"), Ok(()));
    assert_eq!(p.request_filter("/api/users"), Ok(()));
    assert_eq!(p.request_filter("/a.b/c."), Ok(()));
}

#[test]
fn smart_routing_by_path() {
    let p = SmartProxy::new("127.0.0.1:8080", "127.0.0.1:8081");
    let mut ctx = smart::RequestCtx::from_parts(11, Instant::now());
    assert_eq!(p.upstream_peer("/api/users", &mut ctx), "127.0.0.1:8081");
    assert_eq!(ctx.upstream_name(), "api");
    let mut ctx = smart::RequestCtx::from_parts(12, Instant::now());
    assert_eq!(p.upstream_peer("/api", &mut ctx), "127.0.0.1:8080");
    assert_eq!(ctx.upstream_name(), "default");
}

#[test]
fn smart_headers() {
    let p = SmartProxy::new("d:1", "a:1");
    let mut ctx = smart::RequestCtx::from_parts(77, Instant::now());
    p.upstream_peer("/x", &mut ctx);
    let mut out = BTreeMap::new();
    apply(&mut out, &p.upstream_request_edits(&ctx, Some(Some("example.com")), 15));
    assert_eq!(out["X-Request-ID"], "77");
    assert_eq!(out["X-Forwarded-By"], "Pingora-SmartProxy");
    assert_eq!(out["X-Original-Host"], "example.com");
    assert_eq!(out["X-Request-Start"], "15");
    let mut out = BTreeMap::new();
    apply(&mut out, &p.upstream_request_filter(&ctx, Some(None)));
    assert_eq!(out["X-Original-Host"], "unknown");
    let mut out = BTreeMap::new();
    apply(&mut out, &p.upstream_request_edits(&ctx, None, 15));
    assert!(!out.contains_key("X-Original-Host"));

    let mut resp = BTreeMap::new();
    resp.insert("Server".to_string(), "x".to_string());
    apply(&mut resp, &p.response_edits(&ctx, 8));
    assert_eq!(resp["X-Response-Time"], "8ms");
    assert_eq!(resp["X-Served-By"], "default");
    assert!(!resp.contains_key("Server"));
    let mut resp = BTreeMap::new();
    apply(&mut resp, &p.response_filter(&ctx));
    assert_eq!(resp["X-Request-ID"], "77");
}

#[test]
fn user_agent_is_cut_to_thirty_characters() {
    assert_eq!(smart::user_agent_excerpt(None), "unknown");
    assert_eq!(smart::user_agent_excerpt(Some("curl/8.0")), "curl/8.0");
    let long = "Mozilla/5.0 (X11; Linux x86_64) AppleWebKit/537.36";
    assert_eq!(smart::user_agent_excerpt(Some(long)), &long[..30]);
}

#[test]
fn single_upstream_proxies() {
    let f = FirstProxy::new("127.0.0.1:8080");
    assert_eq!(f.upstream(), "127.0.0.1:8080");
    let l = LearningProxy::new("upstream:80");
    assert_eq!(l.upstream_addr(), "upstream:80");
    let mut out = BTreeMap::new();
    apply(&mut out, &l.upstream_request_filter());
    assert_eq!(out.len(), 1);
    assert_eq!(out["X-Proxied-By"], "Pingora-Learning");
}

#[test]
fn fresh_contexts_are_unrouted() {
    let c = RequestCtx::new();
    assert_eq!(c.backend(), None);
    let s = smart::RequestCtx::new();
    assert_eq!(s.upstream_name(), "");
    assert!(s.start_time().elapsed().as_secs() < 60);
}
