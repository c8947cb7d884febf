//! Header edits: the pipeline decides which headers to set or drop, as plain
//! values, and the runtime applies them to its own header structures.
//!
//! A header set is modelled as a map from header name to value. An edit
//! either inserts a name (overwriting any earlier value) or removes it; a
//! removal of an absent name changes nothing.
use vstd::prelude::*;

verus! {

/// One change to a header set.
pub enum HeaderEdit {
    /// Set `name` to `value`, replacing what was there.
    Insert(String, String),
    /// Drop `name`, if present.
    Remove(String),
}

impl HeaderEdit {
    /// The header name this edit touches.
    pub open spec fn name(self) -> Seq<char> {
        match self {
            HeaderEdit::Insert(n, _) => n@,
            HeaderEdit::Remove(n) => n@,
        }
    }

    /// The name, and the value set (`None` for a removal).
    pub open spec fn spec_view(self) -> (Seq<char>, Option<Seq<char>>) {
        match self {
            HeaderEdit::Insert(n, v) => (n@, Some(v@)),
            HeaderEdit::Remove(n) => (n@, None),
        }
    }
}

/// The edits as (name, value-or-removal) pairs.
pub open spec fn edits_view(es: Seq<HeaderEdit>) -> Seq<(Seq<char>, Option<Seq<char>>)> {
    es.map_values(|e: HeaderEdit| e.spec_view())
}

/// Appends `name: value` to the edits.
pub fn push_insert(edits: &mut Vec<HeaderEdit>, name: &str, value: String)
    ensures
        edits_view(final(edits)@) == edits_view(old(edits)@).push((name@, Some(value@))),
{
    edits.push(HeaderEdit::Insert(String::from_str(name), value));
    assert(edits_view(edits@) =~= edits_view(old(edits)@).push((name@, Some(value@))));
}

/// Appends the removal of `name` to the edits.
pub fn push_remove(edits: &mut Vec<HeaderEdit>, name: &str)
    ensures
        edits_view(final(edits)@) == edits_view(old(edits)@).push((name@, None)),
{
    edits.push(HeaderEdit::Remove(String::from_str(name)));
    assert(edits_view(edits@) =~= edits_view(old(edits)@).push((name@, None)));
}

/// The hardening applied to every response: headers that stop content-type
/// sniffing, framing and legacy XSS filtering are set, then headers that
/// reveal the upstream's server software are dropped.
pub open spec fn hardening_view() -> Seq<(Seq<char>, Option<Seq<char>>)> {
    seq![
        ("X-Content-Type-Options"@, Some("nosniff"@)),
        ("X-Frame-Options"@, Some("DENY"@)),
        ("X-XSS-Protection"@, Some("1; mode=block"@)),
        ("Server"@, None),
        ("X-Powered-By"@, None),
    ]
}

/// Appends the response hardening edits.
pub fn push_hardening(edits: &mut Vec<HeaderEdit>)
    ensures
        edits_view(final(edits)@) == edits_view(old(edits)@) + hardening_view(),
{
    push_insert(edits, "X-Content-Type-Options", String::from_str("nosniff"));
    push_insert(edits, "X-Frame-Options", String::from_str("DENY"));
    push_insert(edits, "X-XSS-Protection", String::from_str("1; mode=block"));
    push_remove(edits, "Server");
    push_remove(edits, "X-Powered-By");
    assert(edits_view(edits@) =~= edits_view(old(edits)@) + hardening_view());
}

/// The header set after one edit.
pub open spec fn apply_edit(
    h: Map<Seq<char>, Seq<char>>,
    e: (Seq<char>, Option<Seq<char>>),
) -> Map<Seq<char>, Seq<char>> {
    match e.1 {
        Some(v) => h.insert(e.0, v),
        None => h.remove(e.0),
    }
}

/// The header set after the edits, applied in order.
pub open spec fn apply_edits(
    h: Map<Seq<char>, Seq<char>>,
    es: Seq<(Seq<char>, Option<Seq<char>>)>,
) -> Map<Seq<char>, Seq<char>>
    decreases es.len(),
{
    if es.len() == 0 {
        h
    } else {
        apply_edit(apply_edits(h, es.drop_last()), es.last())
    }
}

/// Some edit of `es` touches header `k`.
pub open spec fn touches(es: Seq<(Seq<char>, Option<Seq<char>>)>, k: Seq<char>) -> bool {
    exists|i: int| 0 <= i < es.len() && #[trigger] es[i].0 == k
}

proof fn lemma_touches_last(es: Seq<(Seq<char>, Option<Seq<char>>)>, k: Seq<char>)
    requires
        es.len() > 0,
    ensures
        touches(es, k) <==> (es.last().0 == k || touches(es.drop_last(), k)),
{
    let d = es.drop_last();
    if touches(es, k) && es.last().0 != k {
        let i = choose|i: int| 0 <= i < es.len() && #[trigger] es[i].0 == k;
        assert(d[i].0 == k);
    }
    if touches(d, k) {
        let i = choose|i: int| 0 <= i < d.len() && #[trigger] d[i].0 == k;
        assert(es[i].0 == k);
    }
    if es.last().0 == k {
        assert(es[es.len() - 1].0 == k);
    }
}

/// Headers that no edit touches keep their entry.
pub proof fn lemma_untouched_kept(
    h: Map<Seq<char>, Seq<char>>,
    es: Seq<(Seq<char>, Option<Seq<char>>)>,
    k: Seq<char>,
)
    requires
        !touches(es, k),
    ensures
        apply_edits(h, es).contains_key(k) == h.contains_key(k),
        h.contains_key(k) ==> apply_edits(h, es)[k] == h[k],
    decreases es.len(),
{
    if es.len() > 0 {
        lemma_touches_last(es, k);
        lemma_untouched_kept(h, es.drop_last(), k);
    }
}

/// The entry of a touched header depends on the edits alone.
proof fn lemma_touched_determined(
    h1: Map<Seq<char>, Seq<char>>,
    h2: Map<Seq<char>, Seq<char>>,
    es: Seq<(Seq<char>, Option<Seq<char>>)>,
    k: Seq<char>,
)
    requires
        touches(es, k),
    ensures
        apply_edits(h1, es).contains_key(k) == apply_edits(h2, es).contains_key(k),
        apply_edits(h1, es).contains_key(k) ==> apply_edits(h1, es)[k] == apply_edits(h2, es)[k],
    decreases es.len(),
{
    lemma_touches_last(es, k);
    if es.last().0 != k {
        lemma_touched_determined(h1, h2, es.drop_last(), k);
    }
}

/// Applying `a` then `b` is applying their concatenation.
pub proof fn lemma_apply_concat(
    h: Map<Seq<char>, Seq<char>>,
    a: Seq<(Seq<char>, Option<Seq<char>>)>,
    b: Seq<(Seq<char>, Option<Seq<char>>)>,
)
    ensures
        apply_edits(h, a + b) == apply_edits(apply_edits(h, a), b),
    decreases b.len(),
{
    if b.len() == 0 {
        assert(a + b =~= a);
    } else {
        lemma_apply_concat(h, a, b.drop_last());
        assert((a + b).drop_last() =~= a + b.drop_last());
    }
}

/// Applying edits that touch no header outside those of `second`, and then
/// `second`, gives the same header set as applying `second` alone: every
/// insertion overwrites, so an earlier application leaves no trace.
pub proof fn lemma_reapply_absorbs(
    h: Map<Seq<char>, Seq<char>>,
    first: Seq<(Seq<char>, Option<Seq<char>>)>,
    second: Seq<(Seq<char>, Option<Seq<char>>)>,
)
    requires
        forall|k: Seq<char>| touches(first, k) ==> touches(second, k),
    ensures
        apply_edits(apply_edits(h, first), second) == apply_edits(h, second),
{
    let a = apply_edits(apply_edits(h, first), second);
    let b = apply_edits(h, second);
    assert forall|k: Seq<char>| #[trigger] a.contains_key(k) == b.contains_key(k) && (
    a.contains_key(k) ==> a[k] == b[k]) by {
        if touches(second, k) {
            lemma_touched_determined(apply_edits(h, first), h, second, k);
        } else {
            lemma_untouched_kept(apply_edits(h, first), second, k);
            lemma_untouched_kept(h, first, k);
            lemma_untouched_kept(h, second, k);
        }
    }
    assert(a =~= b);
}

/// Applying the same edits twice gives the same header set as once.
pub proof fn lemma_apply_idempotent(
    h: Map<Seq<char>, Seq<char>>,
    es: Seq<(Seq<char>, Option<Seq<char>>)>,
)
    ensures
        apply_edits(apply_edits(h, es), es) == apply_edits(h, es),
{
    lemma_reapply_absorbs(h, es, es);
}

} // verus!
