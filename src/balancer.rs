//! The backend registry and its round-robin selector, the failure handler
//! and the stats reporter.
use vstd::prelude::*;
use crate::backend::{Backend, BackendView};
use crate::decimal::{decimal, decimal_spec};
use crate::headers::{edits_view, hardening_view, push_hardening, push_insert, HeaderEdit};

verus! {

/// Position `i` steps after `start` in a ring of `n` slots, for
/// `start < n` and `i < n`: that is, `(start + i) mod n`.
pub open spec fn slot(start: int, i: int, n: int) -> int {
    if start + i < n {
        start + i
    } else {
        start + i - n
    }
}

/// The first healthy index met when scanning from step `i` on, starting at
/// `start`, or -1 if the rest of the scan meets none.
pub open spec fn scan(health: Seq<bool>, start: int, i: int) -> int
    decreases health.len() - i,
{
    if i >= health.len() {
        -1
    } else if health[slot(start, i, health.len() as int)] {
        slot(start, i, health.len() as int)
    } else {
        scan(health, start, i + 1)
    }
}

/// The index that a selection picks with the cursor at `start`: the first
/// healthy one in ring order, or index 0 when none is healthy.
pub open spec fn pick(health: Seq<bool>, start: int) -> int {
    if scan(health, start, 0) >= 0 {
        scan(health, start, 0)
    } else {
        0
    }
}

/// A scan ends on a healthy index inside the ring, or finds none.
pub proof fn lemma_scan_result(health: Seq<bool>, start: int, i: int)
    requires
        0 <= start < health.len(),
        0 <= i,
    ensures
        scan(health, start, i) == -1 || (0 <= scan(health, start, i) < health.len() && health[scan(
            health,
            start,
            i,
        )]),
    decreases health.len() - i,
{
    if i < health.len() && !health[slot(start, i, health.len() as int)] {
        lemma_scan_result(health, start, i + 1);
    }
}

/// The cursor after one selection: one further, modulo `n`.
pub open spec fn next_cursor(c: int, n: int) -> int {
    if c + 1 < n {
        c + 1
    } else {
        0
    }
}

/// No two addresses are equal.
pub open spec fn distinct(addrs: Seq<Seq<char>>) -> bool {
    forall|i: int, j: int| 0 <= i < j < addrs.len() ==> addrs[i] != addrs[j]
}

/// The registry as mathematical values: the backends in ring order and the
/// selection cursor.
pub struct RegistryView {
    pub backends: Seq<BackendView>,
    pub cursor: int,
}

impl RegistryView {
    /// The health flags, in ring order.
    pub open spec fn health(self) -> Seq<bool> {
        self.backends.map_values(|b: BackendView| b.healthy)
    }

    /// The addresses, in ring order.
    pub open spec fn addrs(self) -> Seq<Seq<char>> {
        self.backends.map_values(|b: BackendView| b.addr)
    }

    /// At least one backend, unique addresses, and a cursor inside the ring.
    pub open spec fn wf(self) -> bool {
        &&& self.backends.len() >= 1
        &&& 0 <= self.cursor < self.backends.len()
        &&& distinct(self.addrs())
    }

    /// The index the next selection picks.
    pub open spec fn choice(self) -> int {
        pick(self.health(), self.cursor)
    }

    /// No backend is healthy: the next selection falls back to index 0.
    pub open spec fn degraded(self) -> bool {
        scan(self.health(), self.cursor, 0) < 0
    }

    /// After a selection: only the cursor moves.
    pub open spec fn after_select(self) -> RegistryView {
        RegistryView { cursor: next_cursor(self.cursor, self.backends.len() as int), ..self }
    }

    /// After a request is routed: a selection, and one more request counted
    /// on the chosen backend.
    pub open spec fn after_route(self) -> RegistryView {
        let i = self.choice();
        RegistryView {
            backends: self.backends.update(i, self.backends[i].with_request()),
            cursor: next_cursor(self.cursor, self.backends.len() as int),
        }
    }

    /// The index of the backend at `addr`, or -1 if there is none.
    pub open spec fn index_of(self, addr: Seq<char>) -> int {
        if exists|i: int| 0 <= i < self.backends.len() && self.backends[i].addr == addr {
            choose|i: int| 0 <= i < self.backends.len() && self.backends[i].addr == addr
        } else {
            -1
        }
    }

    /// After a connection failure to `addr`: the backend there, if any, has
    /// one more failure counted and is marked unhealthy.
    pub open spec fn after_failure(self, addr: Seq<char>) -> RegistryView {
        let i = self.index_of(addr);
        if i >= 0 {
            RegistryView {
                backends: self.backends.update(i, self.backends[i].with_failure().with_health(false)),
                ..self
            }
        } else {
            self
        }
    }
}

/// The registry that a list of addresses configures: one fresh backend per
/// address, in order, and the cursor at 0.
pub open spec fn configured(addrs: Seq<Seq<char>>) -> RegistryView {
    RegistryView { backends: addrs.map_values(|a: Seq<char>| BackendView::fresh(a)), cursor: 0 }
}

/// The outcome of a selection.
pub enum Selection {
    /// A healthy backend, by index.
    Healthy(usize),
    /// No backend was healthy; the backend at this index is used anyway.
    Degraded(usize),
}

impl Selection {
    /// The selected index.
    pub open spec fn spec_index(self) -> usize {
        match self {
            Selection::Healthy(i) => i,
            Selection::Degraded(i) => i,
        }
    }

    /// The selected index.
    pub fn index(&self) -> (r: usize)
        ensures
            r == self.spec_index(),
    {
        match self {
            Selection::Healthy(i) => *i,
            Selection::Degraded(i) => *i,
        }
    }
}

/// Why a list of addresses cannot configure a registry.
#[derive(Debug, PartialEq, Eq, Structural)]
pub enum ConfigError {
    /// No address was given.
    Empty,
    /// The address at this index repeats an earlier one.
    DuplicateAddress(usize),
}

/// A fixed registry of backends with a round-robin cursor.
pub struct LoadBalancerProxy {
    backends: Vec<Backend>,
    current_index: usize,
}

impl View for LoadBalancerProxy {
    type V = RegistryView;

    closed spec fn view(&self) -> RegistryView {
        RegistryView {
            backends: self.backends@.map_values(|b: Backend| b@),
            cursor: self.current_index as int,
        }
    }
}

/// The addresses of a list of string slices.
pub open spec fn addrs_view(addrs: Seq<&str>) -> Seq<Seq<char>> {
    addrs.map_values(|a: &str| a@)
}

fn fresh_backends(addrs: &Vec<&str>) -> (r: Vec<Backend>)
    ensures
        r@.len() == addrs@.len(),
        forall|k: int| 0 <= k < r@.len() ==> (#[trigger] r@[k])@ == BackendView::fresh(addrs@[k]@),
        r@.map_values(|b: Backend| b@) == configured(addrs_view(addrs@)).backends,
{
    let mut backends: Vec<Backend> = Vec::new();
    let mut i: usize = 0;
    while i < addrs.len()
        invariant
            i <= addrs@.len(),
            backends@.len() == i,
            forall|j: int| 0 <= j < i ==> (#[trigger] backends@[j])@ == BackendView::fresh(addrs@[j]@),
        decreases addrs@.len() - i,
    {
        backends.push(Backend::new(addrs[i]));
        i = i + 1;
    }
    assert(backends@.map_values(|b: Backend| b@) =~= configured(addrs_view(addrs@)).backends);
    backends
}

impl LoadBalancerProxy {
    /// The registry is well formed.
    pub open spec fn wf(&self) -> bool {
        self@.wf()
    }

    /// A registry of fresh backends at `addrs`, in order.
    pub fn new(addrs: Vec<&str>) -> (r: LoadBalancerProxy)
        requires
            addrs@.len() >= 1,
            distinct(addrs_view(addrs@)),
        ensures
            r@ == configured(addrs_view(addrs@)),
            r.wf(),
    {
        let backends = fresh_backends(&addrs);
        let r = LoadBalancerProxy { backends, current_index: 0 };
        assert(r@.addrs() =~= addrs_view(addrs@));
        r
    }

    /// A registry of fresh backends at `addrs`, or the configuration error:
    /// `Empty` for no address, `DuplicateAddress(j)` when address `j` is the
    /// first to repeat an earlier one.
    pub fn try_new(addrs: Vec<&str>) -> (r: Result<LoadBalancerProxy, ConfigError>)
        ensures
            addrs@.len() == 0 <==> r matches Err(ConfigError::Empty),
            (r is Err && r->Err_0 is DuplicateAddress) <==> (addrs@.len() >= 1 && !distinct(
                addrs_view(addrs@),
            )),
            r matches Err(ConfigError::DuplicateAddress(j)) ==> {
                &&& j < addrs@.len()
                &&& distinct(addrs_view(addrs@).take(j as int))
                &&& exists|i: int| 0 <= i < j && addrs@[i]@ == addrs@[j as int]@
            },
            r matches Ok(p) ==> p@ == configured(addrs_view(addrs@)) && p.wf(),
    {
        if addrs.len() == 0 {
            return Err(ConfigError::Empty);
        }
        let ghost s = addrs_view(addrs@);
        let backends = fresh_backends(&addrs);
        assert(forall|k: int| 0 <= k < s.len() ==> (#[trigger] backends@[k])@.addr == s[k]);
        assert(s.take(1) =~= seq![s[0]]);
        let mut j: usize = 1;
        while j < backends.len()
            invariant
                1 <= j <= backends@.len(),
                addrs@.len() >= 1,
                backends@.len() == s.len(),
                s == addrs_view(addrs@),
                forall|k: int| 0 <= k < s.len() ==> (#[trigger] backends@[k])@.addr == s[k],
                distinct(s.take(j as int)),
            decreases backends@.len() - j,
        {
            let mut i: usize = 0;
            while i < j
                invariant
                    i <= j < backends@.len(),
                    addrs@.len() >= 1,
                    s == addrs_view(addrs@),
                    backends@.len() == s.len(),
                    forall|k: int| 0 <= k < s.len() ==> (#[trigger] backends@[k])@.addr == s[k],
                    forall|k: int| 0 <= k < i ==> s[k] != s[j as int],
                    distinct(s.take(j as int)),
                decreases j - i,
            {
                if *backends[i].addr() == *backends[j].addr() {
                    assert(s[i as int] == s[j as int]);
                    return Err(ConfigError::DuplicateAddress(j));
                }
                i = i + 1;
            }
            let ghost t = s.take(j as int + 1);
            let ghost p = s.take(j as int);
            assert forall|a: int, b: int| 0 <= a < b < t.len() implies #[trigger] t[a] != #[trigger] t[b] by {
                if b < j {
                    assert(p[a] != p[b]);
                }
            }
            j = j + 1;
        }
        assert(s.take(j as int) =~= s);
        let r = LoadBalancerProxy { backends, current_index: 0 };
        assert(r@.addrs() =~= s);
        Ok(r)
    }

    /// The number of backends.
    pub fn len(&self) -> (r: usize)
        ensures
            r == self@.backends.len(),
    {
        self.backends.len()
    }

    /// The backend at index `i`.
    pub fn backend(&self, i: usize) -> (r: &Backend)
        requires
            i < self@.backends.len(),
        ensures
            r@ == self@.backends[i as int],
    {
        &self.backends[i]
    }

    /// Round-robin selection: scans the ring once from the cursor and
    /// returns the first healthy backend; with none healthy, falls back to
    /// index 0 and says so. The cursor moves one step on every call.
    pub fn select_backend(&mut self) -> (r: Selection)
        requires
            old(self).wf(),
        ensures
            final(self)@ == old(self)@.after_select(),
            final(self).wf(),
            r.spec_index() == old(self)@.choice(),
            r.spec_index() < old(self)@.backends.len(),
            r is Degraded <==> old(self)@.degraded(),
    {
        let len = self.backends.len();
        let start = self.current_index;
        let ghost h = old(self)@.health();
        self.current_index = if start + 1 < len {
            start + 1
        } else {
            0
        };
        assert(self@.backends =~= old(self)@.backends);
        let mut i: usize = 0;
        while i < len
            invariant
                old(self).wf(),
                len == self.backends@.len(),
                start < len,
                start as int == old(self)@.cursor,
                i <= len,
                h == old(self)@.health(),
                h.len() == len,
                self@ == old(self)@.after_select(),
                self@.backends == old(self)@.backends,
                scan(h, start as int, i as int) == scan(h, start as int, 0),
            decreases len - i,
        {
            let idx = if i < len - start {
                start + i
            } else {
                i - (len - start)
            };
            assert(idx == slot(start as int, i as int, len as int));
            if self.backends[idx].is_healthy() {
                assert(h[idx as int]);
                assert(scan(h, start as int, i as int) == idx as int);
                assert(self@.addrs() =~= old(self)@.addrs());
                return Selection::Healthy(idx);
            }
            i = i + 1;
        }
        assert(self@.addrs() =~= old(self)@.addrs());
        Selection::Degraded(0)
    }

    /// The index of the backend at `addr`, if there is one. A linear scan.
    pub fn find_backend(&self, addr: &str) -> (r: Option<usize>)
        requires
            self.wf(),
        ensures
            r matches Some(i) ==> i as int == self@.index_of(addr@),
            r is None <==> self@.index_of(addr@) == -1,
    {
        let target = String::from_str(addr);
        let mut i: usize = 0;
        while i < self.backends.len()
            invariant
                i <= self@.backends.len(),
                target@ == addr@,
                self.wf(),
                forall|k: int| 0 <= k < i ==> self@.backends[k].addr != addr@,
            decreases self@.backends.len() - i,
        {
            if *self.backends[i].addr() == target {
                assert(self@.addrs()[i as int] == addr@);
                assert forall|k: int|
                    0 <= k < self@.backends.len() && self@.backends[k].addr == addr@ implies k
                    == i by {
                    assert(self@.addrs()[k] == addr@);
                }
                return Some(i);
            }
            i = i + 1;
        }
        None
    }
}

/// Per-request record: an identifier, the time the request began, and the
/// backend it was routed to, which is set once.
pub struct RequestCtx {
    backend: Option<usize>,
    start_time: std::time::Instant,
    request_id: u32,
}

impl RequestCtx {
    /// The index of the backend the request was routed to, once routed.
    pub closed spec fn spec_backend(&self) -> Option<usize> {
        self.backend
    }

    /// The request's identifier.
    pub closed spec fn spec_request_id(&self) -> u32 {
        self.request_id
    }

    /// When the request began.
    pub closed spec fn spec_start_time(&self) -> std::time::Instant {
        self.start_time
    }

    /// A context for a request that begins now, with a random identifier.
    pub fn new() -> (r: RequestCtx)
        ensures
            r.spec_backend() is None,
    {
        RequestCtx::from_parts(rand::random::<u32>(), std::time::Instant::now())
    }

    /// A context with the given identifier and start time, not yet routed.
    pub fn from_parts(request_id: u32, start_time: std::time::Instant) -> (r: RequestCtx)
        ensures
            r.spec_backend() is None,
            r.spec_request_id() == request_id,
            r.spec_start_time() == start_time,
    {
        RequestCtx { backend: None, start_time, request_id }
    }

    /// The request's identifier.
    pub fn request_id(&self) -> (r: u32)
        ensures
            r == self.spec_request_id(),
    {
        self.request_id
    }

    /// The backend the request was routed to, once routed.
    pub fn backend(&self) -> (r: Option<usize>)
        ensures
            r == self.spec_backend(),
    {
        self.backend
    }

    /// When the request began.
    pub fn start_time(&self) -> (r: &std::time::Instant)
        ensures
            *r == self.spec_start_time(),
    {
        &self.start_time
    }
}

/// One backend's counters as the stats reporter shows them.
pub struct BackendStats {
    pub address: String,
    pub healthy: bool,
    pub requests: u64,
    pub failures: u64,
}

/// The stats are printed each time a backend's request count reaches a
/// multiple of this.
pub const STATS_EVERY: u64 = 5;

impl RegistryView {
    /// The address of the backend a context was routed to, if any.
    pub open spec fn addr_for(self, backend: Option<usize>) -> Option<Seq<char>> {
        match backend {
            Some(i) => Some(self.backends[i as int].addr),
            None => None,
        }
    }
}

/// The edits made to a request before it leaves for the backend: the
/// tracing identifier, the proxy's name, the microseconds spent so far, and
/// the chosen backend's address once there is one.
pub open spec fn outbound_edits(id: u32, addr: Option<Seq<char>>, elapsed_us: u128) -> Seq<
    (Seq<char>, Option<Seq<char>>),
> {
    let base = seq![
        ("X-Request-ID"@, Some(decimal_spec(id as nat))),
        ("X-Forwarded-By"@, Some("Pingora-LoadBalancer"@)),
        ("X-Request-Start"@, Some(decimal_spec(elapsed_us as nat))),
    ];
    match addr {
        Some(a) => base.push(("X-Backend"@, Some(a))),
        None => base,
    }
}

/// The edits made to a response before it reaches the client: the response
/// time in milliseconds, the tracing identifier, the backend that served it
/// once there is one, then the hardening headers.
pub open spec fn inbound_edits(id: u32, addr: Option<Seq<char>>, elapsed_ms: u128) -> Seq<
    (Seq<char>, Option<Seq<char>>),
> {
    let base = seq![
        ("X-Response-Time"@, Some(decimal_spec(elapsed_ms as nat) + "ms"@)),
        ("X-Request-ID"@, Some(decimal_spec(id as nat))),
    ];
    let served = match addr {
        Some(a) => base.push(("X-Served-By"@, Some(a))),
        None => base,
    };
    served + hardening_view()
}

impl LoadBalancerProxy {
    /// The context's backend, if any, is one of this registry's.
    pub open spec fn fits(&self, ctx: &RequestCtx) -> bool {
        ctx.spec_backend() matches Some(i) ==> i < self@.backends.len()
    }

    /// Routes a request: selects a backend, counts the request on it, and
    /// records it in the context.
    pub fn upstream_peer(&mut self, ctx: &mut RequestCtx) -> (r: Selection)
        requires
            old(self).wf(),
            old(ctx).spec_backend() is None,
        ensures
            final(self)@ == old(self)@.after_route(),
            final(self).wf(),
            r.spec_index() == old(self)@.choice(),
            r is Degraded <==> old(self)@.degraded(),
            final(ctx).spec_backend() == Some(r.spec_index()),
            final(ctx).spec_request_id() == old(ctx).spec_request_id(),
            final(ctx).spec_start_time() == old(ctx).spec_start_time(),
    {
        let r = self.select_backend();
        let i = r.index();
        let ghost mid = self@;
        self.backends[i].record_request();
        assert(self@.backends =~= mid.backends.update(i as int, mid.backends[i as int].with_request()));
        assert(self@.addrs() =~= old(self)@.addrs());
        ctx.backend = Some(i);
        r
    }

    /// Reacts to a failed connection to `addr`: the backend there, if any,
    /// has a failure counted and is marked unhealthy. The error is handed
    /// back unchanged.
    pub fn fail_to_connect<E>(&mut self, addr: &str, e: E) -> (r: E)
        requires
            old(self).wf(),
        ensures
            r == e,
            final(self)@ == old(self)@.after_failure(addr@),
            final(self).wf(),
    {
        match self.find_backend(addr) {
            Some(i) => {
                self.backends[i].record_failure();
                self.backends[i].mark_unhealthy();
                assert(self@.backends =~= old(self)@.backends.update(
                    i as int,
                    old(self)@.backends[i as int].with_failure().with_health(false),
                ));
                assert(self@.addrs() =~= old(self)@.addrs());
            },
            None => {},
        }
        e
    }

    /// Every backend's address, health and counters, in ring order.
    pub fn snapshot(&self) -> (r: Vec<BackendStats>)
        ensures
            r@.len() == self@.backends.len(),
            forall|i: int|
                0 <= i < r@.len() ==> {
                    &&& (#[trigger] r@[i]).address@ == self@.backends[i].addr
                    &&& r@[i].healthy == self@.backends[i].healthy
                    &&& r@[i].requests as nat == self@.backends[i].requests
                    &&& r@[i].failures as nat == self@.backends[i].failures
                },
    {
        let mut out: Vec<BackendStats> = Vec::new();
        let mut i: usize = 0;
        while i < self.backends.len()
            invariant
                i <= self@.backends.len(),
                out@.len() == i,
                forall|k: int|
                    0 <= k < i ==> {
                        &&& (#[trigger] out@[k]).address@ == self@.backends[k].addr
                        &&& out@[k].healthy == self@.backends[k].healthy
                        &&& out@[k].requests as nat == self@.backends[k].requests
                        &&& out@[k].failures as nat == self@.backends[k].failures
                    },
            decreases self@.backends.len() - i,
        {
            let b = &self.backends[i];
            let (requests, failures) = b.stats();
            out.push(
                BackendStats { address: b.addr().clone(), healthy: b.is_healthy(), requests, failures },
            );
            i = i + 1;
        }
        out
    }

    /// Whether the completion of this request should print the stats: its
    /// backend's request count is a multiple of `STATS_EVERY`.
    pub fn stats_due(&self, ctx: &RequestCtx) -> (r: bool)
        requires
            self.fits(ctx),
        ensures
            r == (ctx.spec_backend() matches Some(i) && self@.backends[i as int].requests
                % (STATS_EVERY as nat) == 0),
    {
        match ctx.backend {
            Some(i) => self.backends[i].stats().0 % STATS_EVERY == 0,
            None => false,
        }
    }

    /// The outbound edits for a request, `elapsed_us` microseconds after it
    /// began.
    pub fn upstream_request_edits(&self, ctx: &RequestCtx, elapsed_us: u128) -> (r: Vec<
        HeaderEdit,
    >)
        requires
            self.fits(ctx),
        ensures
            edits_view(r@) == outbound_edits(
                ctx.spec_request_id(),
                self@.addr_for(ctx.spec_backend()),
                elapsed_us,
            ),
    {
        let mut edits: Vec<HeaderEdit> = Vec::new();
        push_insert(&mut edits, "X-Request-ID", decimal(ctx.request_id as u128));
        push_insert(&mut edits, "X-Forwarded-By", String::from_str("Pingora-LoadBalancer"));
        push_insert(&mut edits, "X-Request-Start", decimal(elapsed_us));
        match ctx.backend {
            Some(i) => push_insert(&mut edits, "X-Backend", self.backends[i].addr().clone()),
            None => {},
        }
        assert(edits_view(edits@) =~= outbound_edits(
            ctx.spec_request_id(),
            self@.addr_for(ctx.spec_backend()),
            elapsed_us,
        ));
        edits
    }

    /// The outbound edits for a request, timed now.
    pub fn upstream_request_filter(&self, ctx: &RequestCtx) -> (r: Vec<HeaderEdit>)
        requires
            self.fits(ctx),
        ensures
            exists|us: u128|
                edits_view(r@) == outbound_edits(
                    ctx.spec_request_id(),
                    self@.addr_for(ctx.spec_backend()),
                    us,
                ),
    {
        let us = ctx.start_time.elapsed().as_micros();
        self.upstream_request_edits(ctx, us)
    }

    /// The inbound edits for a response, `elapsed_ms` milliseconds after the
    /// request began.
    pub fn response_edits(&self, ctx: &RequestCtx, elapsed_ms: u128) -> (r: Vec<HeaderEdit>)
        requires
            self.fits(ctx),
        ensures
            edits_view(r@) == inbound_edits(
                ctx.spec_request_id(),
                self@.addr_for(ctx.spec_backend()),
                elapsed_ms,
            ),
    {
        let mut edits: Vec<HeaderEdit> = Vec::new();
        let mut took = decimal(elapsed_ms);
        took.append("ms");
        push_insert(&mut edits, "X-Response-Time", took);
        push_insert(&mut edits, "X-Request-ID", decimal(ctx.request_id as u128));
        match ctx.backend {
            Some(i) => push_insert(&mut edits, "X-Served-By", self.backends[i].addr().clone()),
            None => {},
        }
        push_hardening(&mut edits);
        edits
    }

    /// The inbound edits for a response, timed now.
    pub fn response_filter(&self, ctx: &RequestCtx) -> (r: Vec<HeaderEdit>)
        requires
            self.fits(ctx),
        ensures
            exists|ms: u128|
                edits_view(r@) == inbound_edits(
                    ctx.spec_request_id(),
                    self@.addr_for(ctx.spec_backend()),
                    ms,
                ),
    {
        let ms = ctx.start_time.elapsed().as_millis();
        self.response_edits(ctx, ms)
    }
}

} // verus!
