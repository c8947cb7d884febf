//! What the registry guarantees across calls: fairness of the round-robin
//! selector, avoidance of unhealthy backends, exact counters, and the
//! idempotence of the outbound header edits.
use vstd::prelude::*;
use crate::balancer::{
    RegistryView, inbound_edits, lemma_scan_result, next_cursor, outbound_edits, pick, scan, slot,
};
use crate::decimal::decimal_spec;
use crate::backend::counter_bound;
use crate::headers::{
    apply_edit, apply_edits, lemma_apply_concat, lemma_reapply_absorbs, lemma_untouched_kept, touches,
};

verus! {

/// The indices that `k` consecutive selections pick when the health flags
/// stay as they are and the cursor starts at `start`.
pub open spec fn picks(health: Seq<bool>, start: int, k: nat) -> Seq<int>
    decreases k,
{
    if k == 0 {
        Seq::empty()
    } else {
        seq![pick(health, start)] + picks(
            health,
            next_cursor(start, health.len() as int),
            (k - 1) as nat,
        )
    }
}

proof fn lemma_picks_all_healthy(health: Seq<bool>, start: int, k: nat, j: int)
    requires
        forall|i: int| 0 <= i < health.len() ==> #[trigger] health[i],
        0 <= start < health.len(),
        0 <= j < k <= health.len(),
    ensures
        picks(health, start, k).len() == k,
        picks(health, start, k)[j] == slot(start, j, health.len() as int),
    decreases k,
{
    let n = health.len() as int;
    let next = next_cursor(start, n);
    assert(slot(start, 0, n) == start);
    assert(pick(health, start) == start);
    if k > 1 {
        lemma_picks_all_healthy(health, next, (k - 1) as nat, if j > 0 { j - 1 } else { 0 });
    } else {
        assert(picks(health, next, 0).len() == 0);
    }
    if j > 0 {
        lemma_picks_all_healthy(health, next, (k - 1) as nat, j - 1);
    }
}

/// With every backend healthy, any `n` consecutive selections over `n`
/// backends pick each backend once: the window starting at any cursor
/// position visits every index.
pub proof fn lemma_round_robin_visits_all(health: Seq<bool>, start: int, target: int)
    requires
        forall|i: int| 0 <= i < health.len() ==> #[trigger] health[i],
        0 <= start < health.len(),
        0 <= target < health.len(),
    ensures
        picks(health, start, health.len()).contains(target),
{
    let n = health.len() as int;
    let j = if target >= start {
        target - start
    } else {
        target + n - start
    };
    lemma_picks_all_healthy(health, start, health.len(), j);
}

proof fn lemma_scan_reaches(health: Seq<bool>, start: int, i: int, found: int)
    requires
        0 <= start < health.len(),
        0 <= i <= found < health.len(),
        health[slot(start, found, health.len() as int)],
    ensures
        scan(health, start, i) >= 0,
    decreases found - i,
{
    if !health[slot(start, i, health.len() as int)] {
        lemma_scan_reaches(health, start, i + 1, found);
    }
}

/// While some backend is healthy, a selection picks a healthy one, and so
/// never a backend marked unhealthy.
pub proof fn lemma_unhealthy_never_chosen(health: Seq<bool>, start: int, other: int, b: int)
    requires
        0 <= start < health.len(),
        0 <= b < health.len(),
        !health[b],
        0 <= other < health.len(),
        health[other],
    ensures
        pick(health, start) != b,
        health[pick(health, start)],
        scan(health, start, 0) >= 0,
{
    let n = health.len() as int;
    let found = if other >= start {
        other - start
    } else {
        other + n - start
    };
    lemma_scan_reaches(health, start, 0, found);
    lemma_scan_result(health, start, 0);
}

/// An event that changes the registry.
pub enum RegistryEvent {
    /// A request was routed (selection and request count).
    Route,
    /// A connection to this address failed.
    ConnectFailure(Seq<char>),
}

/// The registry after one event.
pub open spec fn step(v: RegistryView, e: RegistryEvent) -> RegistryView {
    match e {
        RegistryEvent::Route => v.after_route(),
        RegistryEvent::ConnectFailure(a) => v.after_failure(a),
    }
}

/// The registry after the events, in order.
pub open spec fn replay(v: RegistryView, evs: Seq<RegistryEvent>) -> RegistryView
    decreases evs.len(),
{
    if evs.len() == 0 {
        v
    } else {
        step(replay(v, evs.drop_last()), evs.last())
    }
}

/// How many of the events routed a request to backend `b`.
pub open spec fn routed_to(v: RegistryView, evs: Seq<RegistryEvent>, b: int) -> nat
    decreases evs.len(),
{
    if evs.len() == 0 {
        0
    } else {
        routed_to(v, evs.drop_last(), b) + if evs.last() is Route && replay(
            v,
            evs.drop_last(),
        ).choice() == b {
            1nat
        } else {
            0nat
        }
    }
}

/// How many of the events report a failed connection to `addr`.
pub open spec fn failures_at(evs: Seq<RegistryEvent>, addr: Seq<char>) -> nat
    decreases evs.len(),
{
    if evs.len() == 0 {
        0
    } else {
        failures_at(evs.drop_last(), addr) + if evs.last() == RegistryEvent::ConnectFailure(addr) {
            1nat
        } else {
            0nat
        }
    }
}

proof fn lemma_replay_shape(v: RegistryView, evs: Seq<RegistryEvent>)
    requires
        v.wf(),
    ensures
        replay(v, evs).wf(),
        replay(v, evs).backends.len() == v.backends.len(),
        replay(v, evs).addrs() == v.addrs(),
    decreases evs.len(),
{
    if evs.len() > 0 {
        let p = replay(v, evs.drop_last());
        lemma_replay_shape(v, evs.drop_last());
        lemma_scan_result(p.health(), p.cursor, 0);
        let q = replay(v, evs);
        assert(q.addrs() =~= p.addrs());
    }
}

/// Counters are exact: starting from a well-formed registry, after any
/// sequence of routings and connection failures, each backend's request
/// count has grown by the number of routings that picked it, and its
/// failure count by the number of failures reported at its address (as long
/// as the counters stay within their bound).
pub proof fn lemma_counters_additive(v: RegistryView, evs: Seq<RegistryEvent>, b: int)
    requires
        v.wf(),
        0 <= b < v.backends.len(),
        v.backends[b].requests + routed_to(v, evs, b) <= counter_bound(),
        v.backends[b].failures + failures_at(evs, v.backends[b].addr) <= counter_bound(),
    ensures
        replay(v, evs).backends.len() == v.backends.len(),
        replay(v, evs).backends[b].requests == v.backends[b].requests + routed_to(v, evs, b),
        replay(v, evs).backends[b].failures == v.backends[b].failures + failures_at(
            evs,
            v.backends[b].addr,
        ),
    decreases evs.len(),
{
    lemma_replay_shape(v, evs);
    if evs.len() > 0 {
        let d = evs.drop_last();
        let p = replay(v, d);
        lemma_replay_shape(v, d);
        lemma_counters_additive(v, d, b);
        lemma_scan_result(p.health(), p.cursor, 0);
        let addr = v.backends[b].addr;
        assert(p.addrs()[b] == addr);
        match evs.last() {
            RegistryEvent::Route => {},
            RegistryEvent::ConnectFailure(a) => {
                let i = p.index_of(a);
                if a == addr {
                    assert(p.backends[b].addr == a);
                    assert(i == b) by {
                        assert(p.addrs()[i] == p.addrs()[b]);
                    }
                } else if i >= 0 {
                    assert(p.addrs()[i] == a);
                }
            },
        }
    }
}

/// Outbound edits overwrite rather than accumulate: applying them a second
/// time, even at a later time, gives the same header set as applying the
/// later edits once. With equal times this is idempotence.
pub proof fn lemma_outbound_reapply(
    h: Map<Seq<char>, Seq<char>>,
    id: u32,
    addr: Option<Seq<char>>,
    first_us: u128,
    second_us: u128,
)
    ensures
        apply_edits(apply_edits(h, outbound_edits(id, addr, first_us)), outbound_edits(id, addr, second_us))
            == apply_edits(h, outbound_edits(id, addr, second_us)),
{
    let a = outbound_edits(id, addr, first_us);
    let b = outbound_edits(id, addr, second_us);
    assert forall|k: Seq<char>| touches(a, k) implies touches(b, k) by {
        let i = choose|i: int| 0 <= i < a.len() && #[trigger] a[i].0 == k;
        assert(b[i].0 == k);
    }
    lemma_reapply_absorbs(h, a, b);
}

/// Whatever headers the upstream sent, the response leaves with its
/// response time set and without the headers that name the upstream's
/// server software.
pub proof fn lemma_inbound_hides_server(
    h: Map<Seq<char>, Seq<char>>,
    id: u32,
    addr: Option<Seq<char>>,
    elapsed_ms: u128,
)
    ensures
        apply_edits(h, inbound_edits(id, addr, elapsed_ms)).contains_key("X-Response-Time"@),
        apply_edits(h, inbound_edits(id, addr, elapsed_ms))["X-Response-Time"@] == decimal_spec(
            elapsed_ms as nat,
        ) + "ms"@,
        !apply_edits(h, inbound_edits(id, addr, elapsed_ms)).contains_key("Server"@),
        !apply_edits(h, inbound_edits(id, addr, elapsed_ms)).contains_key("X-Powered-By"@),
{
    reveal_strlit("X-Response-Time");
    reveal_strlit("X-Request-ID");
    reveal_strlit("X-Served-By");
    reveal_strlit("X-Content-Type-Options");
    reveal_strlit("X-Frame-Options");
    reveal_strlit("X-XSS-Protection");
    reveal_strlit("Server");
    reveal_strlit("X-Powered-By");
    let es = inbound_edits(id, addr, elapsed_ms);
    let n = es.len() as int;
    let d1 = es.drop_last();
    let d2 = d1.drop_last();
    assert(es.last() == ("X-Powered-By"@, None::<Seq<char>>));
    assert(d1.last() == ("Server"@, None::<Seq<char>>));
    assert(apply_edits(h, es) == apply_edit(apply_edits(h, d1), es.last()));
    assert(apply_edits(h, d1) == apply_edit(apply_edits(h, d2), d1.last()));
    assert("Server"@ != "X-Powered-By"@) by {
        assert("Server"@.len() != "X-Powered-By"@.len());
    }
    let key = "X-Response-Time"@;
    let first = seq![es[0]];
    let rest = es.subrange(1, n);
    assert(es =~= first + rest);
    lemma_apply_concat(h, first, rest);
    assert(first.drop_last() =~= Seq::<(Seq<char>, Option<Seq<char>>)>::empty());
    assert(apply_edits(h, first.drop_last()) == h);
    assert(es[0] == (key, Some(decimal_spec(elapsed_ms as nat) + "ms"@)));
    assert(apply_edits(h, first) == apply_edit(h, es[0]));
    assert forall|i: int| 0 <= i < rest.len() implies #[trigger] rest[i].0 != key by {
        assert(rest[i].0.len() != key.len() || rest[i].0[2] != key[2]);
    }
    lemma_untouched_kept(apply_edits(h, first), rest, key);
}

} // verus!
