//! The laws of the cache and its two writers, stated over the abstract
//! transitions that the executable contracts use: `hit_state` (a
//! redirect's increment), `register_state` (publishing a fresh mapping),
//! and `flush_state` (the aggregator's read-then-subtract commit).

use vstd::prelude::*;
use crate::cache::EntryModel;
use crate::cache::flush_state;
use crate::cache::hit_answer;
use crate::cache::hit_state;
use crate::cache::hit_state_n;
use crate::cache::register_state;

verus! {

/// An unregistered token never redirects: a cache miss answers nothing
/// and leaves the cache exactly as it was, and resolving the durable
/// store's "absent" answer yields "not found" while caching nothing.
pub proof fn lemma_unregistered_not_found(m: Map<Seq<char>, EntryModel>, t: Seq<char>)
    requires
        !m.contains_key(t),
    ensures
        hit_answer(m, t) is None,
        hit_state(m, t) == m,
{
}

/// Absence is idempotent: however often an unregistered token is asked
/// for, the cache never gains an entry for it — a miss resolved as absent
/// mutates nothing — so every single attempt answers "not found" again.
pub proof fn lemma_absence_idempotent(m: Map<Seq<char>, EntryModel>, t: Seq<char>, n: nat)
    requires
        !m.contains_key(t),
    ensures
        hit_state_n(m, t, n) == m,
        hit_answer(hit_state_n(m, t, n), t) is None,
    decreases n,
{
    if n > 0 {
        lemma_absence_idempotent(m, t, (n - 1) as nat);
    }
}

/// After a registration of target `g` under token `t`, a redirect on `t`
/// answers exactly `g`, and that redirect records the first hit.
pub proof fn lemma_register_then_redirect(
    m: Map<Seq<char>, EntryModel>,
    t: Seq<char>,
    g: Seq<char>,
)
    ensures
        hit_answer(register_state(m, t, g), t) == Some(g),
        hit_state(register_state(m, t, g), t)[t] == (EntryModel { target: g, hits: 1 }),
{
}

/// Registrations under distinct tokens are independent: with both
/// mappings published, each token redirects to its own target. (That two
/// random draws come out distinct is a matter of chance and is not a
/// theorem; an actual collision is detected and fails the second
/// registration instead of overwriting the first.)
pub proof fn lemma_distinct_registrations_independent(
    m: Map<Seq<char>, EntryModel>,
    t1: Seq<char>,
    g1: Seq<char>,
    t2: Seq<char>,
    g2: Seq<char>,
)
    requires
        t1 != t2,
    ensures
        hit_answer(register_state(register_state(m, t1, g1), t2, g2), t1) == Some(g1),
        hit_answer(register_state(register_state(m, t1, g1), t2, g2), t2) == Some(g2),
{
}

/// `n` consecutive redirects move a counter up by exactly `n`, as long as
/// the total stays within the counter's range, and never touch the
/// stored target.
pub proof fn lemma_hit_state_n_adds(m: Map<Seq<char>, EntryModel>, t: Seq<char>, n: nat)
    requires
        m.contains_key(t),
        m[t].hits >= 0,
        m[t].hits + n <= i64::MAX,
    ensures
        hit_state_n(m, t, n).contains_key(t),
        hit_state_n(m, t, n)[t].hits == m[t].hits + n,
        hit_state_n(m, t, n)[t].target == m[t].target,
        hit_state_n(m, t, n).dom() == m.dom(),
    decreases n,
{
    if n > 0 {
        lemma_hit_state_n_adds(m, t, (n - 1) as nat);
    }
}

/// Hit counting: starting from a cached token with a drained counter,
/// `n` consecutive redirects leave the counter at exactly `n`; the sweep
/// that follows captures a record of exactly `n`, and its commit returns
/// the counter to zero, leaving the target in place.
pub proof fn lemma_hits_then_flush(m: Map<Seq<char>, EntryModel>, t: Seq<char>, n: nat)
    requires
        m.contains_key(t),
        m[t].hits == 0,
        n <= i64::MAX,
    ensures
        hit_state_n(m, t, n)[t].hits == n,
        hit_state_n(m, t, n)[t].target == m[t].target,
        flush_state(hit_state_n(m, t, n), t, n as int)[t].hits == 0,
        flush_state(hit_state_n(m, t, n), t, n as int)[t].target == m[t].target,
{
    lemma_hit_state_n_adds(m, t, n);
}

/// Flush accounting under concurrency: the aggregator captured the
/// counter's value `h` at its read; `k` further redirects landed between
/// that read and the commit. Committing exactly the captured `h` records
/// every hit that happened before the read, records nothing twice — the
/// captured `h` never exceeds the `h + k` hits that actually occurred —
/// and leaves as residual exactly the `k` later hits, never a negative
/// counter.
pub proof fn lemma_flush_keeps_concurrent_hits(
    m: Map<Seq<char>, EntryModel>,
    t: Seq<char>,
    k: nat,
)
    requires
        m.contains_key(t),
        m[t].hits >= 0,
        m[t].hits + k <= i64::MAX,
    ensures
        hit_state_n(m, t, k)[t].hits == m[t].hits + k,
        m[t].hits <= m[t].hits + k,
        flush_state(hit_state_n(m, t, k), t, m[t].hits)[t].hits == k,
        flush_state(hit_state_n(m, t, k), t, m[t].hits)[t].hits >= 0,
{
    lemma_hit_state_n_adds(m, t, k);
}

} // verus!
