//! A proxy with two upstreams: requests under `/api/` go to one, the rest to
//! the other. Admin paths and path traversal are refused up front, and
//! headers are added for tracing, timing and hardening.
use vstd::prelude::*;
use crate::decimal::{decimal, decimal_spec};
use crate::headers::{edits_view, hardening_view, push_hardening, push_insert, HeaderEdit};
use crate::text::{contains_dot_dot, has_dot_dot, has_prefix, starts_with, take_chars, excerpt};

verus! {

/// The longest user agent text that the completion log shows.
pub const USER_AGENT_SHOWN: usize = 30;

/// What the path check decides: go on, or answer with this HTTP status.
pub open spec fn path_verdict(path: Seq<char>) -> Result<(), u16> {
    if starts_with(path, "/admin"@) {
        Err(403)
    } else if has_dot_dot(path) {
        Err(400)
    } else {
        Ok(())
    }
}

/// The path is served by the API upstream.
pub open spec fn is_api_path(path: Seq<char>) -> bool {
    starts_with(path, "/api/"@)
}

/// The inbound `Host` header: absent, present but not readable as text, or
/// its text.
pub open spec fn host_view(host: Option<Option<&str>>) -> Option<Option<Seq<char>>> {
    match host {
        Some(Some(h)) => Some(Some(h@)),
        Some(None) => Some(None),
        None => None,
    }
}

/// The edits made to a request before it leaves: the tracing identifier,
/// the proxy's name, the client's `Host` header when it sent one ("unknown"
/// when it is not text), and the microseconds spent so far.
pub open spec fn smart_outbound_edits(
    id: u32,
    host: Option<Option<Seq<char>>>,
    elapsed_us: u128,
) -> Seq<(Seq<char>, Option<Seq<char>>)> {
    let base = seq![
        ("X-Request-ID"@, Some(decimal_spec(id as nat))),
        ("X-Forwarded-By"@, Some("Pingora-SmartProxy"@)),
    ];
    let with_host = match host {
        Some(Some(h)) => base.push(("X-Original-Host"@, Some(h))),
        Some(None) => base.push(("X-Original-Host"@, Some("unknown"@))),
        None => base,
    };
    with_host.push(("X-Request-Start"@, Some(decimal_spec(elapsed_us as nat))))
}

/// The edits made to a response: the response time in milliseconds, the
/// tracing identifier, the name of the upstream that served it, then the
/// hardening headers.
pub open spec fn smart_inbound_edits(id: u32, upstream_name: Seq<char>, elapsed_ms: u128) -> Seq<
    (Seq<char>, Option<Seq<char>>),
> {
    seq![
        ("X-Response-Time"@, Some(decimal_spec(elapsed_ms as nat) + "ms"@)),
        ("X-Request-ID"@, Some(decimal_spec(id as nat))),
        ("X-Served-By"@, Some(upstream_name)),
    ] + hardening_view()
}

/// Per-request record: identifier, start time, and the name of the chosen
/// upstream ("" until routed).
pub struct RequestCtx {
    request_id: u32,
    start_time: std::time::Instant,
    upstream_name: String,
}

impl RequestCtx {
    /// The request's identifier.
    pub closed spec fn spec_request_id(&self) -> u32 {
        self.request_id
    }

    /// When the request began.
    pub closed spec fn spec_start_time(&self) -> std::time::Instant {
        self.start_time
    }

    /// The name of the chosen upstream.
    pub closed spec fn spec_upstream_name(&self) -> Seq<char> {
        self.upstream_name@
    }

    /// A context for a request that begins now, with a random identifier.
    pub fn new() -> (r: RequestCtx)
        ensures
            r.spec_upstream_name() == Seq::<char>::empty(),
    {
        RequestCtx::from_parts(rand::random::<u32>(), std::time::Instant::now())
    }

    /// A context with the given identifier and start time, not yet routed.
    pub fn from_parts(request_id: u32, start_time: std::time::Instant) -> (r: RequestCtx)
        ensures
            r.spec_request_id() == request_id,
            r.spec_start_time() == start_time,
            r.spec_upstream_name() == Seq::<char>::empty(),
    {
        RequestCtx { request_id, start_time, upstream_name: String::new() }
    }

    /// The request's identifier.
    pub fn request_id(&self) -> (r: u32)
        ensures
            r == self.spec_request_id(),
    {
        self.request_id
    }

    /// When the request began.
    pub fn start_time(&self) -> (r: &std::time::Instant)
        ensures
            *r == self.spec_start_time(),
    {
        &self.start_time
    }

    /// The name of the chosen upstream.
    pub fn upstream_name(&self) -> (r: &String)
        ensures
            r@ == self.spec_upstream_name(),
    {
        &self.upstream_name
    }
}

/// The two upstream addresses.
pub struct SmartProxy {
    default_upstream: String,
    api_upstream: String,
}

impl SmartProxy {
    /// The default upstream's address.
    pub closed spec fn spec_default(&self) -> Seq<char> {
        self.default_upstream@
    }

    /// The API upstream's address.
    pub closed spec fn spec_api(&self) -> Seq<char> {
        self.api_upstream@
    }

    /// A proxy over the two upstreams.
    pub fn new(default: &str, api: &str) -> (r: SmartProxy)
        ensures
            r.spec_default() == default@,
            r.spec_api() == api@,
    {
        SmartProxy { default_upstream: String::from_str(default), api_upstream: String::from_str(api) }
    }

    /// Early check of the request path: admin paths get 403, paths holding
    /// `..` get 400, anything else goes on.
    pub fn request_filter(&self, path: &str) -> (r: Result<(), u16>)
        ensures
            r == path_verdict(path@),
    {
        if has_prefix(path, "/admin") {
            Err(403)
        } else if contains_dot_dot(path) {
            Err(400)
        } else {
            Ok(())
        }
    }

    /// Chooses the upstream for `path`, records its name ("api" or
    /// "default") in the context, and returns its address.
    pub fn upstream_peer(&self, path: &str, ctx: &mut RequestCtx) -> (r: String)
        ensures
            r@ == (if is_api_path(path@) {
                self.spec_api()
            } else {
                self.spec_default()
            }),
            final(ctx).spec_upstream_name() == (if is_api_path(path@) {
                "api"@
            } else {
                "default"@
            }),
            final(ctx).spec_request_id() == old(ctx).spec_request_id(),
            final(ctx).spec_start_time() == old(ctx).spec_start_time(),
    {
        if has_prefix(path, "/api/") {
            ctx.upstream_name = String::from_str("api");
            self.api_upstream.clone()
        } else {
            ctx.upstream_name = String::from_str("default");
            self.default_upstream.clone()
        }
    }

    /// The outbound edits, `elapsed_us` microseconds after the request
    /// began; `host` is the client's `Host` header as described at
    /// `host_view`.
    pub fn upstream_request_edits(
        &self,
        ctx: &RequestCtx,
        host: Option<Option<&str>>,
        elapsed_us: u128,
    ) -> (r: Vec<HeaderEdit>)
        ensures
            edits_view(r@) == smart_outbound_edits(ctx.spec_request_id(), host_view(host), elapsed_us),
    {
        let mut edits: Vec<HeaderEdit> = Vec::new();
        push_insert(&mut edits, "X-Request-ID", decimal(ctx.request_id as u128));
        push_insert(&mut edits, "X-Forwarded-By", String::from_str("Pingora-SmartProxy"));
        match host {
            Some(Some(h)) => push_insert(&mut edits, "X-Original-Host", String::from_str(h)),
            Some(None) => push_insert(&mut edits, "X-Original-Host", String::from_str("unknown")),
            None => {},
        }
        push_insert(&mut edits, "X-Request-Start", decimal(elapsed_us));
        edits
    }

    /// The outbound edits, timed now.
    pub fn upstream_request_filter(&self, ctx: &RequestCtx, host: Option<Option<&str>>) -> (r: Vec<
        HeaderEdit,
    >)
        ensures
            exists|us: u128|
                edits_view(r@) == smart_outbound_edits(ctx.spec_request_id(), host_view(host), us),
    {
        let us = ctx.start_time.elapsed().as_micros();
        self.upstream_request_edits(ctx, host, us)
    }

    /// The inbound edits, `elapsed_ms` milliseconds after the request began.
    pub fn response_edits(&self, ctx: &RequestCtx, elapsed_ms: u128) -> (r: Vec<HeaderEdit>)
        ensures
            edits_view(r@) == smart_inbound_edits(
                ctx.spec_request_id(),
                ctx.spec_upstream_name(),
                elapsed_ms,
            ),
    {
        let mut edits: Vec<HeaderEdit> = Vec::new();
        let mut took = decimal(elapsed_ms);
        took.append("ms");
        push_insert(&mut edits, "X-Response-Time", took);
        push_insert(&mut edits, "X-Request-ID", decimal(ctx.request_id as u128));
        push_insert(&mut edits, "X-Served-By", ctx.upstream_name.clone());
        push_hardening(&mut edits);
        edits
    }

    /// The inbound edits, timed now.
    pub fn response_filter(&self, ctx: &RequestCtx) -> (r: Vec<HeaderEdit>)
        ensures
            exists|ms: u128|
                edits_view(r@) == smart_inbound_edits(
                    ctx.spec_request_id(),
                    ctx.spec_upstream_name(),
                    ms,
                ),
    {
        let ms = ctx.start_time.elapsed().as_millis();
        self.response_edits(ctx, ms)
    }
}

/// The user agent as the completion log shows it: its first
/// `USER_AGENT_SHOWN` characters, or "unknown" when there is no readable one.
pub fn user_agent_excerpt(user_agent: Option<&str>) -> (r: String)
    ensures
        r@ == (match user_agent {
            Some(ua) => excerpt(ua@, USER_AGENT_SHOWN as nat),
            None => "unknown"@,
        }),
{
    match user_agent {
        Some(ua) => take_chars(ua, USER_AGENT_SHOWN),
        None => String::from_str("unknown"),
    }
}

} // verus!
