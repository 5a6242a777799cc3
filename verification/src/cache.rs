//! The token cache: an in-memory mapping from token to cache entry that
//! serves the redirect read path, absorbs registrations, and accumulates
//! per-token hit counts until a maintenance sweep drains them.
//!
//! The cache is modelled as an association list with unique keys; its
//! abstract value is the map from token to entry. Counters are plain
//! integers kept non-negative by construction: a hit adds one (pinning at
//! `i64::MAX` rather than wrapping, so a counter never turns negative), and
//! a flush subtracts exactly the amount that was read earlier in the same
//! sweep step, never more than the counter holds.

use vstd::prelude::*;
use crate::errors::ServiceError;

verus! {

/// Mathematical model of one cache entry: the redirect target and the
/// number of hits accumulated since the last flush.
pub struct EntryModel {
    pub target: Seq<char>,
    pub hits: int,
}

/// One in-memory cache entry: the target URL a token redirects to and the
/// hits accumulated since the last flush.
pub struct Entry {
    pub target: String,
    pub hits: i64,
}

impl View for Entry {
    type V = EntryModel;

    open spec fn view(&self) -> EntryModel {
        EntryModel { target: self.target@, hits: self.hits as int }
    }
}

/// How one redirect hit changes a counter: it adds one, pinning at
/// `i64::MAX` instead of wrapping, so that a counter never decreases and
/// never turns negative.
pub open spec fn hit_increment(h: int) -> int {
    if h < i64::MAX {
        h + 1
    } else {
        h
    }
}

/// The abstract cache after one redirect hit on token `t`: a cached token
/// has its counter moved up by one, an uncached token changes nothing.
pub open spec fn hit_state(m: Map<Seq<char>, EntryModel>, t: Seq<char>) -> Map<
    Seq<char>,
    EntryModel,
> {
    if m.contains_key(t) {
        m.insert(t, (EntryModel { target: m[t].target, hits: hit_increment(m[t].hits) }))
    } else {
        m
    }
}

/// What the redirect path answers from the cache alone: the stored target
/// on a hit, nothing on a miss.
pub open spec fn hit_answer(m: Map<Seq<char>, EntryModel>, t: Seq<char>) -> Option<Seq<char>> {
    if m.contains_key(t) {
        Some(m[t].target)
    } else {
        None
    }
}

/// The abstract cache after `n` consecutive redirect hits on token `t`.
pub open spec fn hit_state_n(m: Map<Seq<char>, EntryModel>, t: Seq<char>, n: nat) -> Map<
    Seq<char>,
    EntryModel,
>
    decreases n,
{
    if n == 0 {
        m
    } else {
        hit_state(hit_state_n(m, t, (n - 1) as nat), t)
    }
}

/// The abstract cache after a registration published target `g` under
/// token `t`: a fresh entry with a drained counter.
pub open spec fn register_state(
    m: Map<Seq<char>, EntryModel>,
    t: Seq<char>,
    g: Seq<char>,
) -> Map<Seq<char>, EntryModel> {
    m.insert(t, (EntryModel { target: g, hits: 0 }))
}

/// The abstract cache after the aggregator committed a flush of `c` hits
/// on token `t`: exactly the committed amount leaves the counter.
pub open spec fn flush_state(m: Map<Seq<char>, EntryModel>, t: Seq<char>, c: int) -> Map<
    Seq<char>,
    EntryModel,
> {
    m.insert(t, (EntryModel { target: m[t].target, hits: m[t].hits - c }))
}

struct Slot {
    token: String,
    entry: Entry,
}

/// One row destined for the append-only count log: the token, its target,
/// and the number of hits being flushed.
pub struct CountRecord {
    pub token: String,
    pub target: String,
    pub count: i64,
}

/// What the durable store answered to appending one count record to the
/// append-only count log. The append itself is I/O and happens outside
/// the library; the aggregator's commit step takes the answer as an
/// argument.
#[derive(Clone, Copy, Debug, PartialEq, Eq, Structural)]
pub enum StoreAppend {
    /// The count row is durably in the log.
    Appended,
    /// The append was rejected or the store failed.
    Failed,
}

/// The shared token cache. Abstractly it is a map from token to entry;
/// concretely an association list whose keys stay unique.
pub struct TokenCache {
    slots: Vec<Slot>,
}

spec fn slots_map(s: Seq<Slot>) -> Map<Seq<char>, EntryModel>
    decreases s.len(),
{
    if s.len() == 0 {
        Map::empty()
    } else {
        slots_map(s.drop_last()).insert(s.last().token@, s.last().entry@)
    }
}

spec fn distinct_tokens(s: Seq<Slot>) -> bool {
    forall|p: int, q: int| 0 <= p < q < s.len() ==> s[p].token@ != s[q].token@
}

proof fn lemma_slots_map_dom(s: Seq<Slot>, k: Seq<char>)
    ensures
        slots_map(s).contains_key(k) <==> exists|i: int| 0 <= i < s.len() && s[i].token@ == k,
    decreases s.len(),
{
    if s.len() > 0 {
        let prefix = s.drop_last();
        lemma_slots_map_dom(prefix, k);
        if s.last().token@ == k {
            assert(s[s.len() - 1].token@ == k);
        } else {
            if slots_map(s).contains_key(k) {
                let i = choose|i: int| 0 <= i < prefix.len() && prefix[i].token@ == k;
                assert(s[i].token@ == k);
            }
            if exists|i: int| 0 <= i < s.len() && s[i].token@ == k {
                let i = choose|i: int| 0 <= i < s.len() && s[i].token@ == k;
                if i < s.len() - 1 {
                    assert(prefix[i].token@ == k);
                }
            }
        }
    }
}

proof fn lemma_slots_map_index(s: Seq<Slot>, i: int)
    requires
        distinct_tokens(s),
        0 <= i < s.len(),
    ensures
        slots_map(s).contains_key(s[i].token@),
        slots_map(s)[s[i].token@] == s[i].entry@,
    decreases s.len(),
{
    if i < s.len() - 1 {
        let prefix = s.drop_last();
        assert(distinct_tokens(prefix));
        lemma_slots_map_index(prefix, i);
        assert(s[s.len() - 1].token@ != s[i].token@);
    }
}

proof fn lemma_slots_map_update(s: Seq<Slot>, i: int, slot: Slot)
    requires
        distinct_tokens(s),
        0 <= i < s.len(),
        slot.token@ == s[i].token@,
    ensures
        slots_map(s.update(i, slot)) == slots_map(s).insert(slot.token@, slot.entry@),
    decreases s.len(),
{
    let s2 = s.update(i, slot);
    if i == s.len() - 1 {
        assert(s2.drop_last() =~= s.drop_last());
        assert(slots_map(s2) =~= slots_map(s).insert(slot.token@, slot.entry@));
    } else {
        let prefix = s.drop_last();
        assert(distinct_tokens(prefix));
        lemma_slots_map_update(prefix, i, slot);
        assert(s2.drop_last() =~= prefix.update(i, slot));
        assert(s2.last() == s.last());
        assert(s.last().token@ != slot.token@);
        assert(slots_map(s2) =~= slots_map(s).insert(slot.token@, slot.entry@));
    }
}

proof fn lemma_slots_map_push(s: Seq<Slot>, slot: Slot)
    ensures
        slots_map(s.push(slot)) == slots_map(s).insert(slot.token@, slot.entry@),
{
    assert(s.push(slot).drop_last() =~= s);
    assert(s.push(slot).last() == slot);
}

impl View for TokenCache {
    type V = Map<Seq<char>, EntryModel>;

    closed spec fn view(&self) -> Map<Seq<char>, EntryModel> {
        slots_map(self.slots@)
    }
}

impl TokenCache {
    /// The tokens in slot order, the order in which a maintenance sweep
    /// visits them.
    pub closed spec fn keys(&self) -> Seq<Seq<char>> {
        Seq::new(self.slots@.len(), |i: int| self.slots@[i].token@)
    }

    /// The entry stored in the slot at position `i` of the sweep order.
    pub closed spec fn entry_at(&self, i: int) -> EntryModel {
        self.slots@[i].entry@
    }

    /// Well-formedness: at most one slot per token, and no counter is
    /// negative.
    pub closed spec fn wf(&self) -> bool {
        &&& distinct_tokens(self.slots@)
        &&& forall|i: int| 0 <= i < self.slots@.len() ==> self.slots@[i].entry@.hits >= 0
    }

    /// An empty cache, the single initialization point at process start.
    pub fn new() -> (c: TokenCache)
        ensures
            c.wf(),
            c@ == Map::<Seq<char>, EntryModel>::empty(),
            c.keys() == Seq::<Seq<char>>::empty(),
    {
        let c = TokenCache { slots: Vec::new() };
        proof {
            assert(c.keys() =~= Seq::<Seq<char>>::empty());
        }
        c
    }

    /// Sweep order and abstract map agree: the slot at position `i` holds
    /// a cached token, and the map carries that slot's entry.
    pub proof fn lemma_key_entry(&self, i: int)
        requires
            self.wf(),
            0 <= i < self.keys().len(),
        ensures
            self@.contains_key(self.keys()[i]),
            self@[self.keys()[i]] == self.entry_at(i),
    {
        lemma_slots_map_index(self.slots@, i);
    }

    /// A token is in the abstract map exactly when some sweep position
    /// holds it.
    pub proof fn lemma_contains_iff_key(&self, k: Seq<char>)
        ensures
            self@.contains_key(k) <==> exists|i: int| 0 <= i < self.keys().len() && self.keys()[i]
                == k,
    {
        lemma_slots_map_dom(self.slots@, k);
        if exists|i: int| 0 <= i < self.keys().len() && self.keys()[i] == k {
            let i = choose|i: int| 0 <= i < self.keys().len() && self.keys()[i] == k;
            assert(self.slots@[i].token@ == k);
        }
        if self@.contains_key(k) {
            let i = choose|i: int| 0 <= i < self.slots@.len() && self.slots@[i].token@ == k;
            assert(self.keys()[i] == k);
        }
    }

    /// Tokens are unique: two sweep positions holding the same token are
    /// the same position, so one sweep emits at most one count record per
    /// token.
    pub proof fn lemma_keys_unique(&self, i: int, j: int)
        requires
            self.wf(),
            0 <= i < self.keys().len(),
            0 <= j < self.keys().len(),
            self.keys()[i] == self.keys()[j],
        ensures
            i == j,
    {
    }

    /// In a well-formed cache every counter is non-negative.
    pub proof fn lemma_hits_nonnegative(&self, i: int)
        requires
            self.wf(),
            0 <= i < self.keys().len(),
        ensures
            self.entry_at(i).hits >= 0,
    {
    }

    /// Linear scan for a token; `None` means the token is cached nowhere.
    fn find(&self, token: &String) -> (r: Option<usize>)
        ensures
            r matches Some(i) ==> i < self.keys().len() && self.keys()[i as int] == token@,
            r is None ==> !self@.contains_key(token@),
    {
        let n = self.slots.len();
        let mut i: usize = 0;
        while i < n
            invariant
                i <= n,
                n == self.slots@.len(),
                forall|j: int| 0 <= j < i ==> self.slots@[j].token@ != token@,
            decreases n - i,
        {
            if self.slots[i].token == *token {
                return Some(i);
            }
            i = i + 1;
        }
        proof {
            lemma_slots_map_dom(self.slots@, token@);
        }
        None
    }

    /// How many slots a maintenance sweep has to visit.
    pub fn len(&self) -> (n: usize)
        ensures
            n == self.keys().len(),
    {
        self.slots.len()
    }

    /// Whether a token is cached; the registration path uses this to
    /// detect a collision of a freshly generated token.
    pub fn contains(&self, token: &String) -> (b: bool)
        requires
            self.wf(),
        ensures
            b == self@.contains_key(token@),
    {
        match self.find(token) {
            Some(i) => {
                proof {
                    lemma_slots_map_index(self.slots@, i as int);
                }
                true
            },
            None => false,
        }
    }

    /// Redirect read path, cache side: if the token is cached, record one
    /// hit on its counter and hand back the stored target; otherwise leave
    /// the cache untouched, and the caller falls back to durable storage.
    pub fn hit(&mut self, token: &String) -> (r: Option<String>)
        requires
            old(self).wf(),
        ensures
            final(self).wf(),
            final(self).keys() == old(self).keys(),
            final(self)@ == hit_state(old(self)@, token@),
            old(self)@.contains_key(token@) ==> (r matches Some(t) && t@ == old(
                self,
            )@[token@].target),
            !old(self)@.contains_key(token@) ==> r is None && *final(self) == *old(self),
    {
        match self.find(token) {
            Some(i) => {
                proof {
                    lemma_slots_map_index(self.slots@, i as int);
                }
                let ghost s0 = self.slots@;
                let target = self.slots[i].entry.target.clone();
                let h = self.slots[i].entry.hits;
                if h < i64::MAX {
                    self.slots[i].entry.hits = h + 1;
                }
                proof {
                    if h < i64::MAX {
                        lemma_slots_map_update(s0, i as int, self.slots@[i as int]);
                    } else {
                        assert(self.slots@ =~= s0);
                        assert(old(self)@.insert(token@, old(self)@[token@]) =~= old(self)@);
                    }
                    assert(self.keys() =~= old(self).keys());
                }
                Some(target)
            },
            None => None,
        }
    }

    /// Store an entry under a token, overwriting any previous entry for
    /// the same token (last writer wins). The registration path publishes
    /// with a counter of zero; a redirect that resolved a miss against
    /// durable storage populates with a counter of one, the resolving
    /// lookup itself counting as a hit.
    pub fn put(&mut self, token: String, target: String, hits: i64)
        requires
            old(self).wf(),
            hits >= 0,
        ensures
            final(self).wf(),
            final(self)@ == old(self)@.insert(
                token@,
                (EntryModel { target: target@, hits: hits as int }),
            ),
            old(self)@.contains_key(token@) ==> final(self).keys() == old(self).keys(),
            !old(self)@.contains_key(token@) ==> final(self).keys() == old(self).keys().push(
                token@,
            ),
    {
        self.put_entry(token, Entry { target, hits });
    }

    /// Store a ready-made entry under a token, with the same overwrite
    /// semantics as `put`.
    pub fn put_entry(&mut self, token: String, entry: Entry)
        requires
            old(self).wf(),
            entry@.hits >= 0,
        ensures
            final(self).wf(),
            final(self)@ == old(self)@.insert(token@, entry@),
            old(self)@.contains_key(token@) ==> final(self).keys() == old(self).keys(),
            !old(self)@.contains_key(token@) ==> final(self).keys() == old(self).keys().push(
                token@,
            ),
    {
        let ghost s0 = self.slots@;
        match self.find(&token) {
            Some(i) => {
                proof {
                    lemma_slots_map_index(self.slots@, i as int);
                }
                self.slots[i].entry = entry;
                proof {
                    lemma_slots_map_update(s0, i as int, self.slots@[i as int]);
                    assert(self.keys() =~= old(self).keys());
                }
            },
            None => {
                self.slots.push(Slot { token, entry });
                proof {
                    lemma_slots_map_push(s0, self.slots@.last());
                    assert(self.slots@.drop_last() =~= s0);
                    lemma_slots_map_dom(s0, self.slots@.last().token@);
                    assert(self.keys() =~= old(self).keys().push(self.slots@.last().token@));
                }
            },
        }
    }

    /// The counter currently held by the slot at position `i`; a caller
    /// that committed a flush can check against it how much is left.
    pub fn hits_at(&self, i: usize) -> (h: i64)
        requires
            i < self.keys().len(),
        ensures
            h == self.entry_at(i as int).hits,
    {
        self.slots[i].entry.hits
    }

    /// Aggregator sweep, read step: capture what the slot at position `i`
    /// would flush. `None` means the counter is zero and there is nothing
    /// to write; otherwise the record carries the token, its target, and
    /// the exact counter value observed now.
    pub fn flush_read(&self, i: usize) -> (r: Option<CountRecord>)
        requires
            self.wf(),
            i < self.keys().len(),
        ensures
            r is None <==> self.entry_at(i as int).hits == 0,
            r matches Some(rec) ==> {
                &&& rec.token@ == self.keys()[i as int]
                &&& rec.target@ == self.entry_at(i as int).target
                &&& rec.count == self.entry_at(i as int).hits
                &&& rec.count > 0
            },
    {
        let hits = self.slots[i].entry.hits;
        if hits == 0 {
            None
        } else {
            Some(
                CountRecord {
                    token: self.slots[i].token.clone(),
                    target: self.slots[i].entry.target.clone(),
                    count: hits,
                },
            )
        }
    }

    /// Aggregator sweep, commit step: after the captured record was
    /// durably appended, subtract exactly the captured amount — never a
    /// blind reset — so hits recorded between the read and this commit
    /// survive in the counter. The counter cannot go negative because no
    /// step in between ever decreases it below the captured value.
    pub fn flush_commit(&mut self, i: usize, count: i64)
        requires
            old(self).wf(),
            i < old(self).keys().len(),
            0 <= count <= old(self).entry_at(i as int).hits,
        ensures
            final(self).wf(),
            final(self).keys() == old(self).keys(),
            final(self).entry_at(i as int).hits == old(self).entry_at(i as int).hits - count,
            final(self).entry_at(i as int).target == old(self).entry_at(i as int).target,
            forall|j: int|
                0 <= j < old(self).keys().len() && j != i ==> final(self).entry_at(j) == old(
                    self,
                ).entry_at(j),
            final(self)@ == flush_state(old(self)@, old(self).keys()[i as int], count as int),
    {
        let ghost s0 = self.slots@;
        let h = self.slots[i].entry.hits;
        self.slots[i].entry.hits = h - count;
        proof {
            lemma_slots_map_index(s0, i as int);
            lemma_slots_map_update(s0, i as int, self.slots@[i as int]);
            assert(self.keys() =~= old(self).keys());
        }
    }

    /// Aggregator sweep, decision step: fold the durable store's answer
    /// to the count-log append into the cache. Only a durably appended
    /// record commits, subtracting exactly the captured amount; a failed
    /// append leaves the entry — and its unflushed counter — untouched
    /// for a later attempt, and surfaces the storage failure, on which
    /// the aggregator loop aborts by design rather than lose counts
    /// silently.
    pub fn flush_apply(&mut self, i: usize, count: i64, append: StoreAppend) -> (r: Result<
        (),
        ServiceError,
    >)
        requires
            old(self).wf(),
            i < old(self).keys().len(),
            0 <= count <= old(self).entry_at(i as int).hits,
        ensures
            final(self).wf(),
            final(self).keys() == old(self).keys(),
            append is Appended ==> {
                &&& r is Ok
                &&& final(self)@ == flush_state(old(self)@, old(self).keys()[i as int], count as int)
                &&& final(self).entry_at(i as int).hits == old(self).entry_at(i as int).hits
                    - count
                &&& final(self).entry_at(i as int).target == old(self).entry_at(i as int).target
                &&& forall|j: int|
                    0 <= j < old(self).keys().len() && j != i ==> final(self).entry_at(j) == old(
                        self,
                    ).entry_at(j)
            },
            append is Failed ==> {
                &&& r matches Err(e) && e == ServiceError::StorageFailure
                &&& *final(self) == *old(self)
            },
    {
        match append {
            StoreAppend::Appended => {
                self.flush_commit(i, count);
                Ok(())
            },
            StoreAppend::Failed => Err(ServiceError::StorageFailure),
        }
    }
}

} // verus!
