//! The two single-upstream proxies: one that only forwards, and one that
//! also marks the requests it forwards.
use vstd::prelude::*;
use crate::headers::{edits_view, push_insert, HeaderEdit};

verus! {

/// A proxy that forwards every request to one upstream.
pub struct FirstProxy {
    upstream: String,
}

impl FirstProxy {
    /// A proxy forwarding to `upstream` (an `ip:port` address).
    pub fn new(upstream: &str) -> (r: FirstProxy)
        ensures
            r.upstream()@ == upstream@,
    {
        FirstProxy { upstream: String::from_str(upstream) }
    }

    /// The upstream's address.
    #[verifier::when_used_as_spec(spec_upstream)]
    pub fn upstream(&self) -> (r: &String)
        ensures
            r@ == self.spec_upstream()@,
    {
        &self.upstream
    }

    /// The upstream's address.
    pub closed spec fn spec_upstream(&self) -> &String {
        &self.upstream
    }
}

/// Per-request record of the forwarding proxy: it holds nothing.
pub struct RequestCtx {}

/// A proxy that forwards every request to one upstream, which may be named
/// by host name, and marks the requests it forwards.
pub struct LearningProxy {
    upstream_addr: String,
}

/// The edits made to every forwarded request.
pub open spec fn marking_edits() -> Seq<(Seq<char>, Option<Seq<char>>)> {
    seq![("X-Proxied-By"@, Some("Pingora-Learning"@))]
}

impl LearningProxy {
    /// A proxy forwarding to `upstream` (`host:port`).
    pub fn new(upstream: &str) -> (r: LearningProxy)
        ensures
            r.upstream_addr()@ == upstream@,
    {
        LearningProxy { upstream_addr: String::from_str(upstream) }
    }

    /// The upstream's address, as configured.
    #[verifier::when_used_as_spec(spec_upstream_addr)]
    pub fn upstream_addr(&self) -> (r: &String)
        ensures
            r@ == self.spec_upstream_addr()@,
    {
        &self.upstream_addr
    }

    /// The upstream's address, as configured.
    pub closed spec fn spec_upstream_addr(&self) -> &String {
        &self.upstream_addr
    }

    /// The edits made to a request before it is forwarded.
    pub fn upstream_request_filter(&self) -> (r: Vec<HeaderEdit>)
        ensures
            edits_view(r@) == marking_edits(),
    {
        let mut edits: Vec<HeaderEdit> = Vec::new();
        push_insert(&mut edits, "X-Proxied-By", String::from_str("Pingora-Learning"));
        edits
    }
}

/// Per-request record of the marking proxy: it holds nothing.
pub struct RequestContext {}

} // verus!
