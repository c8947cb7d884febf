//! One upstream server: its address, health flag and traffic counters.
use vstd::prelude::*;

verus! {

/// What a backend holds, as mathematical values.
pub struct BackendView {
    pub addr: Seq<char>,
    pub healthy: bool,
    pub requests: nat,
    pub failures: nat,
}

/// The largest value a counter holds: counters stop there rather than wrap.
pub open spec fn counter_bound() -> nat {
    u64::MAX as nat
}

/// A counter after one increment.
pub open spec fn bumped(c: nat) -> nat {
    if c < counter_bound() {
        c + 1
    } else {
        c
    }
}

impl BackendView {
    /// A backend as configured at startup: healthy, with zero counters.
    pub open spec fn fresh(addr: Seq<char>) -> BackendView {
        BackendView { addr, healthy: true, requests: 0, failures: 0 }
    }

    /// After one request was routed to it.
    pub open spec fn with_request(self) -> BackendView {
        BackendView { requests: bumped(self.requests), ..self }
    }

    /// After one connection failure was attributed to it.
    pub open spec fn with_failure(self) -> BackendView {
        BackendView { failures: bumped(self.failures), ..self }
    }

    /// With the health flag set to `healthy`.
    pub open spec fn with_health(self, healthy: bool) -> BackendView {
        BackendView { healthy, ..self }
    }
}

/// One upstream target.
pub struct Backend {
    addr: String,
    healthy: bool,
    request_count: u64,
    failure_count: u64,
}

impl View for Backend {
    type V = BackendView;

    closed spec fn view(&self) -> BackendView {
        BackendView {
            addr: self.addr@,
            healthy: self.healthy,
            requests: self.request_count as nat,
            failures: self.failure_count as nat,
        }
    }
}

impl Backend {
    /// A healthy backend at `addr` with zero counters.
    pub fn new(addr: &str) -> (r: Backend)
        ensures
            r@ == BackendView::fresh(addr@),
    {
        Backend { addr: String::from_str(addr), healthy: true, request_count: 0, failure_count: 0 }
    }

    /// The backend's address.
    pub fn addr(&self) -> (r: &String)
        ensures
            r@ == self@.addr,
    {
        &self.addr
    }

    /// Whether the backend is considered healthy.
    pub fn is_healthy(&self) -> (r: bool)
        ensures
            r == self@.healthy,
    {
        self.healthy
    }

    /// Takes the backend out of rotation.
    pub fn mark_unhealthy(&mut self)
        ensures
            final(self)@ == old(self)@.with_health(false),
    {
        self.healthy = false;
    }

    /// Puts the backend back into rotation.
    pub fn mark_healthy(&mut self)
        ensures
            final(self)@ == old(self)@.with_health(true),
    {
        self.healthy = true;
    }

    /// Counts one request routed to this backend.
    pub fn record_request(&mut self)
        ensures
            final(self)@ == old(self)@.with_request(),
    {
        self.request_count = self.request_count.saturating_add(1);
    }

    /// Counts one connection failure against this backend.
    pub fn record_failure(&mut self)
        ensures
            final(self)@ == old(self)@.with_failure(),
    {
        self.failure_count = self.failure_count.saturating_add(1);
    }

    /// The request and failure counts.
    pub fn stats(&self) -> (r: (u64, u64))
        ensures
            r.0 as nat == self@.requests,
            r.1 as nat == self@.failures,
    {
        (self.request_count, self.failure_count)
    }
}

} // verus!
