//! Bounded tables of flows, with hit counts, eviction of the flow that was idle longest,
//! and expiry of idle flows.

use crate::packet::InnerFlowId;
use crate::time::Moment;
use crate::time::MILLIS_PER_SEC;
use vstd::prelude::*;

verus! {

/// After how many idle seconds a flow expires, unless its table or its state says otherwise.
pub const FLOW_DEF_EXPIRE_SECS: u32 = 60;

/// What a flow table asks of the state that it keeps per flow.
pub trait FlowState: Sized {
    /// After how many idle milliseconds a flow in this state expires, in a table whose own
    /// limit is `table_ttl_ms`.
    spec fn spec_ttl_ms(&self, table_ttl_ms: u64) -> u64;

    /// A few words on the state, for tables that are shown to an operator.
    spec fn spec_summary(&self) -> Seq<char>;

    /// After how many idle milliseconds a flow in this state expires.
    fn ttl_ms(&self, table_ttl_ms: u64) -> (r: u64)
        ensures
            r == self.spec_ttl_ms(table_ttl_ms),
    ;

    /// A few words on the state.
    fn summary(&self) -> (r: String)
        ensures
            r@ == self.spec_summary(),
    ;
}

/// What a table knows of one flow.
#[derive(Clone, Copy, Debug)]
pub struct FlowEntry<V> {
    pub value: V,
    /// How often the flow was looked up and found.
    pub hits: u64,
    /// When the flow was last looked up and found, or installed.
    pub last_hit: Moment,
    /// When the flow was installed.
    pub created: Moment,
}

/// A flow and what the table knows of it.
#[derive(Clone, Copy, Debug)]
pub struct FlowSlot<V> {
    pub key: InnerFlowId,
    pub entry: FlowEntry<V>,
}

/// What a table shows of one flow to an operator.
#[derive(Clone, Debug)]
pub struct FlowEntryDump {
    pub hits: u64,
    pub state_summary: String,
}

/// A bounded table of flows. Its view is the sequence of its flows, oldest first.
#[derive(Debug)]
pub struct FlowTable<V> {
    pub slots: Vec<FlowSlot<V>>,
    /// The number of flows that the table has room for; at least one.
    pub limit: u32,
    /// After how many idle milliseconds a flow expires.
    pub ttl_ms: u64,
}

/// The view of a table is its flows, in the order in which they were installed. The room
/// of the table (`limit`) and its idle time (`ttl_ms`) are fields of their own, which the
/// contracts state beside the view.
impl<V> View for FlowTable<V> {
    type V = Seq<FlowSlot<V>>;

    open spec fn view(&self) -> Seq<FlowSlot<V>> {
        self.slots@
    }
}

/// The position of the flow `key` in `s`, or -1 where `s` does not hold it.
pub open spec fn slot_of<V>(s: Seq<FlowSlot<V>>, key: InnerFlowId) -> int
    decreases s.len(),
{
    if s.len() == 0 {
        -1
    } else if s.last().key == key {
        s.len() - 1
    } else {
        slot_of(s.drop_last(), key)
    }
}

/// True when `s` holds the flow `key`.
pub open spec fn has_flow<V>(s: Seq<FlowSlot<V>>, key: InnerFlowId) -> bool {
    slot_of(s, key) >= 0
}

/// True when no flow occurs twice in `s`.
pub open spec fn distinct_keys<V>(s: Seq<FlowSlot<V>>) -> bool {
    forall|i: int, j: int| 0 <= i < j < s.len() ==> s[i].key != s[j].key
}

/// The position of the flow that was idle longest: the first one among those whose last
/// hit is the earliest. -1 for an empty sequence.
pub open spec fn lru_slot<V>(s: Seq<FlowSlot<V>>) -> int
    decreases s.len(),
{
    if s.len() == 0 {
        -1
    } else {
        let r = lru_slot(s.drop_last());
        if r >= 0 && s[r].entry.last_hit@ <= s.last().entry.last_hit@ {
            r
        } else {
            s.len() - 1
        }
    }
}

/// A hit count after one more hit; the count stays at its maximum once it is there.
pub open spec fn one_more(hits: u64) -> u64 {
    if hits < u64::MAX {
        (hits + 1) as u64
    } else {
        hits
    }
}

/// The slot `slot` after a hit at `now`.
pub open spec fn hit_slot<V>(slot: FlowSlot<V>, now: Moment) -> FlowSlot<V> {
    FlowSlot { key: slot.key, entry: FlowEntry { hits: one_more(slot.entry.hits), last_hit: now, ..slot.entry } }
}

/// A slot for the flow `key` in the state `value`, installed at `now`.
pub open spec fn fresh_slot<V>(key: InnerFlowId, value: V, now: Moment) -> FlowSlot<V> {
    FlowSlot { key, entry: FlowEntry { value, hits: 0, last_hit: now, created: now } }
}

/// The flows of `s` after a lookup of `key` at `now`: the flow found has one more hit and
/// was last hit at `now`.
pub open spec fn after_hit<V>(s: Seq<FlowSlot<V>>, key: InnerFlowId, now: Moment) -> Seq<FlowSlot<V>> {
    let i = slot_of(s, key);
    if i >= 0 {
        s.update(i, hit_slot(s[i], now))
    } else {
        s
    }
}

/// The flows of `s` without the flow at position `i`.
pub open spec fn without<V>(s: Seq<FlowSlot<V>>, i: int) -> Seq<FlowSlot<V>> {
    if 0 <= i < s.len() {
        s.remove(i)
    } else {
        s
    }
}

/// The flows of `s` after `key` was installed in the state `value` at `now`, in a table
/// with room for `limit` flows. A flow that is in the table already is replaced where it
/// stands. Otherwise the new flow goes to the end, and where the table is full the flow
/// that was idle longest leaves first.
pub open spec fn after_insert<V>(s: Seq<FlowSlot<V>>, limit: u32, key: InnerFlowId, value: V, now: Moment) -> Seq<
    FlowSlot<V>,
> {
    let i = slot_of(s, key);
    if i >= 0 {
        s.update(i, fresh_slot(key, value, now))
    } else if s.len() >= limit {
        without(s, lru_slot(s)).push(fresh_slot(key, value, now))
    } else {
        s.push(fresh_slot(key, value, now))
    }
}

/// The flows of `s` without the flow `key`.
pub open spec fn after_remove<V>(s: Seq<FlowSlot<V>>, key: InnerFlowId) -> Seq<FlowSlot<V>> {
    without(s, slot_of(s, key))
}

/// True when the flow in `slot` has been idle for its time to live at `now`.
pub open spec fn is_expired<V: FlowState>(slot: FlowSlot<V>, now: Moment, table_ttl_ms: u64) -> bool {
    now.spec_delta_as_millis(slot.entry.last_hit) >= slot.entry.value.spec_ttl_ms(table_ttl_ms)
}

/// The flows of `s` that have not expired at `now`, in their order.
pub open spec fn live_at<V: FlowState>(s: Seq<FlowSlot<V>>, now: Moment, table_ttl_ms: u64) -> Seq<FlowSlot<V>>
    decreases s.len(),
{
    if s.len() == 0 {
        Seq::empty()
    } else if is_expired(s.last(), now, table_ttl_ms) {
        live_at(s.drop_last(), now, table_ttl_ms)
    } else {
        live_at(s.drop_last(), now, table_ttl_ms).push(s.last())
    }
}

/// `slot_of` finds a position that holds the flow, and finds one wherever the flow occurs.
pub proof fn lemma_slot_of<V>(s: Seq<FlowSlot<V>>, key: InnerFlowId)
    ensures
        -1 <= slot_of(s, key) < s.len(),
        slot_of(s, key) >= 0 ==> s[slot_of(s, key)].key == key,
        slot_of(s, key) < 0 ==> forall|i: int| 0 <= i < s.len() ==> s[i].key != key,
        forall|i: int| slot_of(s, key) < i < s.len() ==> s[i].key != key,
    decreases s.len(),
{
    if s.len() > 0 && s.last().key != key {
        lemma_slot_of(s.drop_last(), key);
        assert forall|i: int| slot_of(s, key) < i < s.len() implies s[i].key != key by {
            if i < s.len() - 1 {
                assert(s.drop_last()[i] == s[i]);
            }
        }
        assert forall|i: int| slot_of(s, key) < 0 && 0 <= i < s.len() implies s[i].key != key by {
            if i < s.len() - 1 {
                assert(s.drop_last()[i] == s[i]);
            }
        }
    }
}

/// Where no flow occurs twice, a flow is found at the one position that holds it.
pub proof fn lemma_slot_of_at<V>(s: Seq<FlowSlot<V>>, i: int)
    requires
        distinct_keys(s),
        0 <= i < s.len(),
    ensures
        slot_of(s, s[i].key) == i,
{
    lemma_slot_of(s, s[i].key);
    let j = slot_of(s, s[i].key);
    if j < i {
        assert(s[i].key != s[i].key);
    }
}

/// `lru_slot` finds a position of a non-empty sequence, and no flow was idle longer than
/// the one there.
pub proof fn lemma_lru_slot<V>(s: Seq<FlowSlot<V>>)
    ensures
        s.len() > 0 ==> 0 <= lru_slot(s) < s.len(),
        s.len() == 0 ==> lru_slot(s) == -1,
        forall|i: int|
            0 <= i < s.len() ==> s[lru_slot(s)].entry.last_hit@ <= (#[trigger] s[i]).entry.last_hit@,
    decreases s.len(),
{
    if s.len() > 0 {
        lemma_lru_slot(s.drop_last());
        let r = lru_slot(s.drop_last());
        assert forall|i: int| 0 <= i < s.len() implies s[lru_slot(s)].entry.last_hit@ <= (#[trigger] s[
            i
        ]).entry.last_hit@ by {
            if i < s.len() - 1 {
                assert(s.drop_last()[i] == s[i]);
                if r >= 0 {
                    assert(s.drop_last()[r] == s[r]);
                }
            }
        }
    }
}

impl<V: FlowState> FlowTable<V> {
    /// The table has room for at least one flow, holds no more flows than it has room for,
    /// and holds no flow twice.
    pub open spec fn wf(self) -> bool {
        &&& self.limit >= 1
        &&& self@.len() <= self.limit
        &&& distinct_keys(self@)
    }

    /// An empty table with room for `limit` flows, whose flows expire after `ttl_secs`
    /// idle seconds.
    pub fn new(limit: u32, ttl_secs: u32) -> (r: FlowTable<V>)
        requires
            limit >= 1,
        ensures
            r@ == Seq::<FlowSlot<V>>::empty(),
            r.limit == limit,
            r.ttl_ms == ttl_secs as u64 * MILLIS_PER_SEC,
            r.wf(),
    {
        FlowTable { slots: Vec::new(), limit, ttl_ms: ttl_secs as u64 * MILLIS_PER_SEC }
    }

    /// The number of flows in the table.
    pub fn len(&self) -> (r: usize)
        ensures
            r == self@.len(),
    {
        self.slots.len()
    }

    /// The number of flows that the table has room for.
    pub fn limit(&self) -> (r: u32)
        ensures
            r == self.limit,
    {
        self.limit
    }

    /// The position of the flow `key`, if the table holds it.
    pub fn find(&self, key: &InnerFlowId) -> (r: Option<usize>)
        ensures
            match r {
                Some(i) => slot_of(self@, *key) == i && i < self@.len(),
                None => slot_of(self@, *key) < 0,
            },
    {
        let mut i = self.slots.len();
        assert(self@.take(i as int) =~= self@);
        while i > 0
            invariant
                i <= self.slots.len(),
                slot_of(self@, *key) == slot_of(self@.take(i as int), *key),
            decreases i,
        {
            let ghost t = self@.take(i as int);
            assert(t.drop_last() =~= self@.take(i - 1));
            assert(t.last() == self@[i - 1]);
            if self.slots[i - 1].key == *key {
                return Some(i - 1);
            }
            i = i - 1;
        }
        None
    }

    /// What the table knows of the flow `key`, without counting a hit.
    pub fn peek(&self, key: &InnerFlowId) -> (r: Option<&FlowEntry<V>>)
        ensures
            match r {
                Some(e) => has_flow(self@, *key) && *e == self@[slot_of(self@, *key)].entry,
                None => !has_flow(self@, *key),
            },
    {
        match self.find(key) {
            Some(i) => Some(&self.slots[i].entry),
            None => None,
        }
    }

    /// Looks the flow `key` up at `now`. A flow that is found has one more hit and was last
    /// hit at `now`; the position of the flow comes back.
    pub fn get(&mut self, key: &InnerFlowId, now: Moment) -> (r: Option<usize>)
        requires
            old(self).wf(),
        ensures
            final(self).wf(),
            final(self).limit == old(self).limit,
            final(self).ttl_ms == old(self).ttl_ms,
            final(self)@ == after_hit(old(self)@, *key, now),
            match r {
                Some(i) => slot_of(old(self)@, *key) == i && i < old(self)@.len(),
                None => slot_of(old(self)@, *key) < 0,
            },
    {
        match self.find(key) {
            Some(i) => {
                proof {
                    lemma_slot_of(self@, *key);
                }
                let hits = self.slots[i].entry.hits;
                let hits = if hits < u64::MAX {
                    hits + 1
                } else {
                    hits
                };
                self.slots[i].entry.hits = hits;
                self.slots[i].entry.last_hit = now;
                assert(self@ =~= after_hit(old(self)@, *key, now));
                Some(i)
            },
            None => None,
        }
    }

    /// What the table knows of the flow at position `i`.
    pub fn entry_at(&self, i: usize) -> (r: &FlowEntry<V>)
        requires
            i < self@.len(),
        ensures
            *r == self@[i as int].entry,
    {
        &self.slots[i].entry
    }

    // The position of the flow that was idle longest, in a table that is not empty.
    fn lru(&self) -> (r: usize)
        requires
            self@.len() > 0,
        ensures
            r == lru_slot(self@),
    {
        let n = self.slots.len();
        let mut best: usize = 0;
        let mut i: usize = 1;
        proof {
            let one = self@.take(1);
            assert(one.drop_last() =~= Seq::<FlowSlot<V>>::empty());
            assert(lru_slot(one.drop_last()) == -1);
        }
        while i < n
            invariant
                1 <= i <= n == self.slots.len(),
                best < i,
                best == lru_slot(self@.take(i as int)),
            decreases n - i,
        {
            proof {
                let t = self@.take(i + 1);
                assert(t.drop_last() =~= self@.take(i as int));
                assert(t.last() == self@[i as int]);
                assert(t[best as int] == self@[best as int]);
            }
            if !(self.slots[best].entry.last_hit.nanos <= self.slots[i].entry.last_hit.nanos) {
                best = i;
            }
            i = i + 1;
        }
        assert(self@.take(n as int) =~= self@);
        best
    }

    /// Installs the flow `key` in the state `value` at `now`. A flow that is in the table
    /// already is replaced; where the table is full, the flow that was idle longest leaves.
    pub fn insert(&mut self, key: InnerFlowId, value: V, now: Moment)
        requires
            old(self).wf(),
        ensures
            final(self).wf(),
            final(self).limit == old(self).limit,
            final(self).ttl_ms == old(self).ttl_ms,
            final(self)@ == after_insert(old(self)@, old(self).limit, key, value, now),
            has_flow(final(self)@, key),
    {
        let slot = FlowSlot { key, entry: FlowEntry { value, hits: 0, last_hit: now, created: now } };
        proof {
            lemma_slot_of(self@, key);
        }
        match self.find(&key) {
            Some(i) => {
                self.slots.set(i, slot);
                proof {
                    assert(self@ =~= after_insert(old(self)@, old(self).limit, key, value, now));
                    lemma_slot_of_at(self@, i as int);
                }
            },
            None => {
                if self.slots.len() >= self.limit as usize {
                    let victim = self.lru();
                    proof {
                        lemma_lru_slot(self@);
                    }
                    self.slots.remove(victim);
                }
                let ghost before = self@;
                self.slots.push(slot);
                proof {
                    assert(self@ =~= after_insert(old(self)@, old(self).limit, key, value, now));
                    assert(self@.drop_last() =~= before);
                }
            },
        }
    }

    /// Takes the flow `key` out of the table; what the table knew of it comes back.
    pub fn remove(&mut self, key: &InnerFlowId) -> (r: Option<FlowEntry<V>>)
        requires
            old(self).wf(),
        ensures
            final(self).wf(),
            final(self).limit == old(self).limit,
            final(self).ttl_ms == old(self).ttl_ms,
            final(self)@ == after_remove(old(self)@, *key),
            !has_flow(final(self)@, *key),
            match r {
                Some(e) => has_flow(old(self)@, *key) && e == old(self)@[slot_of(old(self)@, *key)].entry,
                None => !has_flow(old(self)@, *key),
            },
    {
        proof {
            lemma_slot_of(self@, *key);
        }
        match self.find(key) {
            Some(i) => {
                let slot = self.slots.remove(i);
                proof {
                    lemma_slot_of(self@, *key);
                    if slot_of(self@, *key) >= 0 {
                        let j = slot_of(self@, *key);
                        let jj = if j < i {
                            j
                        } else {
                            j + 1
                        };
                        assert(old(self)@[jj].key == *key);
                        assert(old(self)@[i as int].key == *key);
                    }
                }
                Some(slot.entry)
            },
            None => None,
        }
    }

    /// Takes all flows out of the table.
    pub fn clear(&mut self)
        ensures
            final(self)@ == Seq::<FlowSlot<V>>::empty(),
            final(self).limit == old(self).limit,
            final(self).ttl_ms == old(self).ttl_ms,
            old(self).limit >= 1 ==> final(self).wf(),
    {
        self.slots = Vec::new();
    }
}

/// Every flow of `live_at` is a flow of the sequence it was taken from, in the same order.
pub proof fn lemma_live_at<V: FlowState>(s: Seq<FlowSlot<V>>, now: Moment, ttl: u64)
    ensures
        live_at(s, now, ttl).len() <= s.len(),
        distinct_keys(s) ==> distinct_keys(live_at(s, now, ttl)),
        forall|i: int|
            0 <= i < live_at(s, now, ttl).len() ==> exists|j: int|
                0 <= j < s.len() && s[j] == #[trigger] live_at(s, now, ttl)[i] && !is_expired(s[j], now, ttl),
        forall|j: int| 0 <= j < s.len() && !is_expired(s[j], now, ttl) ==> live_at(s, now, ttl).contains(s[j]),
    decreases s.len(),
{
    if s.len() > 0 {
        let t = s.drop_last();
        lemma_live_at(t, now, ttl);
        let l = live_at(s, now, ttl);
        let lt = live_at(t, now, ttl);
        assert forall|i: int| 0 <= i < l.len() implies exists|j: int|
            0 <= j < s.len() && s[j] == #[trigger] l[i] && !is_expired(s[j], now, ttl) by {
            if i < lt.len() {
                let j = choose|j: int| 0 <= j < t.len() && t[j] == lt[i] && !is_expired(t[j], now, ttl);
                assert(s[j] == t[j]);
            } else {
                assert(s[s.len() - 1] == l[i]);
            }
        }
        assert forall|j: int| 0 <= j < s.len() && !is_expired(s[j], now, ttl) implies l.contains(s[j]) by {
            if j < t.len() {
                assert(t[j] == s[j]);
                let i = choose|i: int| 0 <= i < lt.len() && lt[i] == t[j];
                assert(l[i] == s[j]);
            } else {
                assert(l[l.len() - 1] == s[j]);
            }
        }
        if distinct_keys(s) {
            assert(distinct_keys(t)) by {
                assert forall|i: int, j: int| 0 <= i < j < t.len() implies t[i].key != t[j].key by {
                    assert(t[i] == s[i] && t[j] == s[j]);
                }
            }
            assert forall|i: int, j: int| 0 <= i < j < l.len() implies l[i].key != l[j].key by {
                if j == lt.len() {
                    let a = choose|a: int| 0 <= a < t.len() && t[a] == lt[i] && !is_expired(t[a], now, ttl);
                    assert(s[a] == t[a]);
                    assert(s[a].key != s[s.len() - 1].key);
                }
            }
        }
    }
}

impl<V: FlowState> FlowTable<V> {
    /// Takes out the flows that have been idle for their time to live at `now`. The number
    /// of flows taken out comes back.
    pub fn expire(&mut self, now: Moment) -> (r: usize)
        requires
            old(self).wf(),
        ensures
            final(self).wf(),
            final(self).limit == old(self).limit,
            final(self).ttl_ms == old(self).ttl_ms,
            final(self)@ == live_at(old(self)@, now, old(self).ttl_ms),
            r == old(self)@.len() - final(self)@.len(),
    {
        let mut kept: Vec<FlowSlot<V>> = Vec::new();
        let mut rest: Vec<FlowSlot<V>> = Vec::new();
        std::mem::swap(&mut rest, &mut self.slots);
        let n = rest.len();
        let ttl = self.ttl_ms;
        // Walk from the back so that slots can be moved out, then restore the order.
        let mut back: Vec<FlowSlot<V>> = Vec::new();
        let ghost orig = rest@;
        assert(rest@ =~= orig.take(rest@.len() as int));
        while rest.len() > 0
            invariant
                rest@.len() + back@.len() == n,
                n == orig.len(),
                rest@ == orig.take(rest@.len() as int),
                back@.len() <= n,
                forall|k: int| 0 <= k < back@.len() ==> back@[k] == orig[n - 1 - k],
            decreases rest@.len(),
        {
            let s = rest.pop().unwrap();
            back.push(s);
            assert(rest@ =~= orig.take(rest@.len() as int));
        }
        let mut i: usize = 0;
        assert(orig.take(0) =~= Seq::<FlowSlot<V>>::empty());
        while back.len() > 0
            invariant
                i + back@.len() == n,
                n == orig.len(),
                forall|k: int| 0 <= k < back@.len() ==> back@[k] == orig[n - 1 - k],
                kept@ == live_at(orig.take(i as int), now, ttl),
            decreases back@.len(),
        {
            let s = back.pop().unwrap();
            proof {
                let t = orig.take(i + 1);
                assert(t.drop_last() =~= orig.take(i as int));
                assert(t.last() == orig[i as int]);
                assert(s == orig[i as int]);
            }
            let idle = now.delta_as_millis(s.entry.last_hit);
            if !(idle >= s.entry.value.ttl_ms(ttl)) {
                kept.push(s);
            }
            i = i + 1;
        }
        proof {
            assert(orig.take(n as int) =~= orig);
            lemma_live_at(orig, now, ttl);
        }
        let removed = n - kept.len();
        self.slots = kept;
        removed
    }

    /// What the table shows of its flows to an operator, oldest flow first.
    pub fn dump(&self) -> (r: Vec<(InnerFlowId, FlowEntryDump)>)
        ensures
            r@.len() == self@.len(),
            forall|i: int|
                0 <= i < r@.len() ==> (#[trigger] r@[i]).0 == self@[i].key && r@[i].1.hits == self@[i].entry.hits
                    && r@[i].1.state_summary@ == self@[i].entry.value.spec_summary(),
    {
        let mut out: Vec<(InnerFlowId, FlowEntryDump)> = Vec::new();
        let n = self.slots.len();
        let mut i: usize = 0;
        while i < n
            invariant
                i <= n == self.slots.len(),
                out@.len() == i,
                forall|k: int|
                    0 <= k < i ==> (#[trigger] out@[k]).0 == self@[k].key && out@[k].1.hits
                        == self@[k].entry.hits && out@[k].1.state_summary@
                        == self@[k].entry.value.spec_summary(),
            decreases n - i,
        {
            let s = &self.slots[i];
            out.push((s.key, FlowEntryDump { hits: s.entry.hits, state_summary: s.entry.value.summary() }));
            i = i + 1;
        }
        out
    }
}

/// Every flow of a table after an insert is the new flow or a flow that was there before.
pub proof fn lemma_after_insert_members<V>(s: Seq<FlowSlot<V>>, limit: u32, key: InnerFlowId, value: V, now: Moment)
    ensures
        forall|i: int|
            0 <= i < after_insert(s, limit, key, value, now).len() ==> (#[trigger] after_insert(
                s,
                limit,
                key,
                value,
                now,
            )[i]) == fresh_slot(key, value, now) || s.contains(after_insert(s, limit, key, value, now)[i]),
{
    let r = after_insert(s, limit, key, value, now);
    lemma_slot_of(s, key);
    lemma_lru_slot(s);
    assert forall|i: int| 0 <= i < r.len() implies (#[trigger] r[i]) == fresh_slot(key, value, now) || s.contains(
        r[i],
    ) by {
        let k = slot_of(s, key);
        if k >= 0 {
            if i != k {
                assert(s[i] == r[i]);
            }
        } else if s.len() >= limit {
            let v = lru_slot(s);
            let w = without(s, v);
            if i < w.len() {
                if 0 <= v < s.len() {
                    if i < v {
                        assert(s[i] == r[i]);
                    } else {
                        assert(s[i + 1] == r[i]);
                    }
                } else {
                    assert(s[i] == r[i]);
                }
            }
        } else {
            if i < s.len() {
                assert(s[i] == r[i]);
            }
        }
    }
}

/// A lookup changes no flow's state and no flow's place.
pub proof fn lemma_after_hit_values<V>(s: Seq<FlowSlot<V>>, key: InnerFlowId, now: Moment)
    ensures
        after_hit(s, key, now).len() == s.len(),
        forall|i: int|
            0 <= i < s.len() ==> (#[trigger] after_hit(s, key, now)[i]).key == s[i].key && after_hit(
                s,
                key,
                now,
            )[i].entry.value == s[i].entry.value,
{
    lemma_slot_of(s, key);
}

/// A flow that has expired at one moment has expired at every later moment.
pub proof fn lemma_expired_later<V: FlowState>(slot: FlowSlot<V>, t1: Moment, t2: Moment, ttl: u64)
    requires
        t1@ <= t2@,
        is_expired(slot, t1, ttl),
    ensures
        is_expired(slot, t2, ttl),
{
    let a = t1.spec_delta_as_millis(slot.entry.last_hit);
    let b = t2.spec_delta_as_millis(slot.entry.last_hit);
    if t1@ >= slot.entry.last_hit@ {
        vstd::arithmetic::div_mod::lemma_div_is_ordered(
            t1@ - slot.entry.last_hit@,
            t2@ - slot.entry.last_hit@,
            crate::time::NANOS_PER_MILLI as int,
        );
    }
}

/// Expiring flows at one moment and again at a later moment leaves what expiring them at
/// the later moment alone leaves.
pub proof fn lemma_expire_twice<V: FlowState>(s: Seq<FlowSlot<V>>, t1: Moment, t2: Moment, ttl: u64)
    requires
        t1@ <= t2@,
    ensures
        live_at(live_at(s, t1, ttl), t2, ttl) == live_at(s, t2, ttl),
    decreases s.len(),
{
    if s.len() > 0 {
        let t = s.drop_last();
        lemma_expire_twice(t, t1, t2, ttl);
        if is_expired(s.last(), t1, ttl) {
            lemma_expired_later(s.last(), t1, t2, ttl);
        } else {
            let l1 = live_at(s, t1, ttl);
            assert(l1.drop_last() =~= live_at(t, t1, ttl));
            assert(l1.last() == s.last());
        }
    }
}

/// A flow that stands somewhere in a sequence is found by `slot_of`.
pub proof fn lemma_has_flow_at<V>(s: Seq<FlowSlot<V>>, i: int)
    requires
        0 <= i < s.len(),
    ensures
        has_flow(s, s[i].key),
        slot_of(s, s[i].key) >= i,
{
    lemma_slot_of(s, s[i].key);
}

/// After a flow was installed the table holds it, in the state in which it was installed.
pub proof fn lemma_after_insert_has<V>(s: Seq<FlowSlot<V>>, limit: u32, key: InnerFlowId, value: V, now: Moment)
    requires
        distinct_keys(s),
    ensures
        has_flow(after_insert(s, limit, key, value, now), key),
        after_insert(s, limit, key, value, now)[slot_of(after_insert(s, limit, key, value, now), key)]
            == fresh_slot(key, value, now),
{
    let r = after_insert(s, limit, key, value, now);
    lemma_slot_of(s, key);
    let i = slot_of(s, key);
    if i >= 0 {
        lemma_has_flow_at(r, i);
        lemma_slot_of(r, key);
        let j = slot_of(r, key);
        if j != i {
            assert(r[j] == s[j]);
            if i < j {
                assert(s[i].key != s[j].key);
            } else {
                assert(s[j].key != s[i].key);
            }
        }
    }
}

/// After a flow was taken out the table does not hold it, where no flow stood twice.
pub proof fn lemma_after_remove_gone<V>(s: Seq<FlowSlot<V>>, key: InnerFlowId)
    requires
        distinct_keys(s),
    ensures
        !has_flow(after_remove(s, key), key),
{
    let r = after_remove(s, key);
    lemma_slot_of(s, key);
    lemma_slot_of(r, key);
    let i = slot_of(s, key);
    let j = slot_of(r, key);
    if i >= 0 && j >= 0 {
        let jj = if j < i {
            j
        } else {
            j + 1
        };
        assert(r[j] == s[jj]);
        if jj < i {
            assert(s[jj].key != s[i].key);
        } else {
            assert(s[i].key != s[jj].key);
        }
    }
}

/// A lookup finds afterwards what it found before, at the same place.
pub proof fn lemma_after_hit_slot<V>(s: Seq<FlowSlot<V>>, key: InnerFlowId, now: Moment, other: InnerFlowId)
    ensures
        slot_of(after_hit(s, key, now), other) == slot_of(s, other),
    decreases s.len(),
{
    let r = after_hit(s, key, now);
    lemma_slot_of(s, key);
    lemma_slot_of(s, other);
    lemma_slot_of(r, other);
    lemma_after_hit_values(s, key, now);
    let a = slot_of(s, other);
    let b = slot_of(r, other);
    if a >= 0 {
        assert(r[a].key == other);
    }
    if b >= 0 {
        assert(s[b].key == other);
    }
}

/// Installing a flow in a table that holds no flow twice leaves such a table.
pub proof fn lemma_after_insert_distinct<V>(s: Seq<FlowSlot<V>>, limit: u32, key: InnerFlowId, value: V, now: Moment)
    requires
        distinct_keys(s),
    ensures
        distinct_keys(after_insert(s, limit, key, value, now)),
{
    let r = after_insert(s, limit, key, value, now);
    lemma_slot_of(s, key);
    lemma_lru_slot(s);
    let k = slot_of(s, key);
    assert forall|i: int, j: int| 0 <= i < j < r.len() implies r[i].key != r[j].key by {
        if k >= 0 {
            assert(r[i].key == s[i].key && r[j].key == s[j].key);
        } else if s.len() >= limit {
            let v = lru_slot(s);
            let w = without(s, v);
            let a = if 0 <= v < s.len() && i >= v {
                i + 1
            } else {
                i
            };
            let b = if 0 <= v < s.len() && j >= v {
                j + 1
            } else {
                j
            };
            if j < w.len() {
                assert(r[i] == s[a] && r[j] == s[b]);
            } else {
                assert(r[i] == s[a]);
            }
        } else {
            if j < s.len() {
                assert(r[i] == s[i] && r[j] == s[j]);
            } else {
                assert(r[i] == s[i]);
            }
        }
    }
}

/// Taking a flow out brings no flow in.
pub proof fn lemma_after_remove_subset<V>(s: Seq<FlowSlot<V>>, key: InnerFlowId, other: InnerFlowId)
    requires
        has_flow(after_remove(s, key), other),
    ensures
        has_flow(s, other),
{
    let r = after_remove(s, key);
    lemma_slot_of(s, key);
    lemma_slot_of(r, other);
    let i = slot_of(s, key);
    let j = slot_of(r, other);
    if i >= 0 {
        let jj = if j < i {
            j
        } else {
            j + 1
        };
        assert(r[j] == s[jj]);
        lemma_has_flow_at(s, jj);
    }
}

} // verus!
