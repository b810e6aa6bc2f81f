use vstd::prelude::*;
use crate::api::error_code;
use crate::message::db_error::{DbError, is_error, one_param};

verus! {

/// The settings of a cache with long keys that evicts by the LIRS policy.
pub struct CacheLongKeyLIRSConfig {
    /// The maximum memory to use (1 or larger).
    pub max_memory: i64,
    /// The number of cache segments (must be a power of 2).
    pub segment_count: i32,
    /// How many other items are to be moved to the top of the stack before
    /// the current item is moved.
    pub stack_move_distance: i32,
    /// Low watermark for the number of entries in the non-resident queue, as a
    /// factor of the number of all other entries in the map.
    pub non_resident_queue_size: i32,
    /// High watermark for the number of entries in the non-resident queue, as
    /// a factor of the number of all other entries in the map.
    pub non_resident_queue_size_high: i32,
}

/// Whether `c` holds the default settings: 1 byte, 16 segments, a stack move
/// distance of 32, and non-resident queue factors 3 and 12.
pub open spec fn is_default_config(c: CacheLongKeyLIRSConfig) -> bool {
    &&& c.max_memory == 1
    &&& c.segment_count == 16
    &&& c.stack_move_distance == 32
    &&& c.non_resident_queue_size == 3
    &&& c.non_resident_queue_size_high == 12
}

/// `a / b` rounded toward zero.
pub open spec fn div_trunc(a: int, b: int) -> int {
    let q = (if a >= 0 {
        a
    } else {
        -a
    }) / (if b >= 0 {
        b
    } else {
        -b
    });
    if (a >= 0) == (b >= 0) {
        q
    } else {
        -q
    }
}

/// The largest item that fits in a cache with these settings: the memory of
/// one segment, and at least 1.
pub open spec fn max_item_size_of(max_memory: i64, segment_count: i32) -> int {
    let per_segment = div_trunc(max_memory as int, segment_count as int);
    if per_segment > 1 {
        per_segment
    } else {
        1
    }
}

impl CacheLongKeyLIRSConfig {
    /// The default settings.
    pub fn new() -> (c: CacheLongKeyLIRSConfig)
        ensures
            is_default_config(c),
    {
        CacheLongKeyLIRSConfig {
            max_memory: 1,
            segment_count: 16,
            stack_move_distance: 32,
            non_resident_queue_size: 3,
            non_resident_queue_size_high: 12,
        }
    }

    /// The largest item that fits in a cache with these settings; see
    /// `max_item_size_of`.
    pub fn get_max_item_size(&self) -> (r: i64)
        requires
            self.segment_count > 0,
        ensures
            r == max_item_size_of(self.max_memory, self.segment_count),
    {
        let per_segment = self.max_memory / (self.segment_count as i64);
        if per_segment > 1 {
            per_segment
        } else {
            1
        }
    }
}

impl Default for CacheLongKeyLIRSConfig {
    fn default() -> (c: CacheLongKeyLIRSConfig)
        ensures
            is_default_config(c),
    {
        Self::new()
    }
}

/// An entry of a cache segment: its key, its value (`None` for a
/// non-resident cold entry), its memory, when it was last moved to the top of
/// the stack, and whether it is on the stack and in one of the two queues.
pub struct Entry<V> {
    pub key: i64,
    pub value: Option<V>,
    pub memory: i32,
    pub top_move: i32,
    pub on_stack: bool,
    pub queued: bool,
}

impl<V: Clone> Entry<V> {
    /// An empty entry.
    pub fn new0() -> (e: Entry<V>)
        ensures
            e.key == 0,
            e.value is None,
            e.memory == 0,
            e.top_move == 0,
            !e.on_stack,
            !e.queued,
    {
        Entry { key: 0, value: None, memory: 0, top_move: 0, on_stack: false, queued: false }
    }

    /// A new entry for `key` with `value` and its memory, in no list.
    pub fn new3(key: i64, value: V, memory: i32) -> (e: Entry<V>)
        ensures
            e.key == key,
            e.value == Some(value),
            e.memory == memory,
            e.top_move == 0,
            !e.on_stack,
            !e.queued,
    {
        Entry { key, value: Some(value), memory, top_move: 0, on_stack: false, queued: false }
    }

    /// A copy of `old` in no list: its key, value, memory and last move to
    /// the top of the stack.
    pub fn new1(old: &Entry<V>) -> (e: Entry<V>)
        ensures
            e.key == old.key,
            e.memory == old.memory,
            e.top_move == old.top_move,
            old.value is None ==> e.value is None,
            old.value matches Some(v) ==> (e.value matches Some(w) && cloned::<V>(v, w)),
            !e.on_stack,
            !e.queued,
    {
        Entry {
            key: old.key,
            value: old.getValue(),
            memory: old.memory,
            top_move: old.top_move,
            on_stack: false,
            queued: false,
        }
    }

    /// Whether the entry is hot: it is in no queue (cold entries are in one
    /// of the two queues).
    pub fn isHot(&self) -> (r: bool)
        ensures
            r == !self.queued,
    {
        !self.queued
    }

    /// A copy of the value.
    pub fn getValue(&self) -> (r: Option<V>)
        ensures
            self.value is None ==> r is None,
            self.value matches Some(v) ==> (r matches Some(w) && cloned::<V>(v, w)),
    {
        match &self.value {
            Some(v) => Some(v.clone()),
            None => None,
        }
    }

    /// The memory of the entry.
    pub fn getMemory(&self) -> (r: i32)
        ensures
            r == self.memory,
    {
        self.memory
    }
}


/// Whether some entry of `es` has the key `k`.
pub open spec fn has_key<V>(es: Seq<Entry<V>>, k: i64) -> bool {
    exists|i: int| 0 <= i < es.len() && es[i].key == k
}

/// The index of an entry of `es` with the key `k`, where there is one.
pub open spec fn key_index<V>(es: Seq<Entry<V>>, k: i64) -> int {
    choose|i: int| 0 <= i < es.len() && es[i].key == k
}

/// No two entries of `es` have the same key.
pub open spec fn unique_keys<V>(es: Seq<Entry<V>>) -> bool {
    forall|i: int, j: int|
        0 <= i < es.len() && 0 <= j < es.len() && i != j ==> #[trigger] es[i].key != #[trigger] es[j].key
}

/// The memory of all entries of `es` together.
pub open spec fn mem_sum<V>(es: Seq<Entry<V>>) -> int
    decreases es.len(),
{
    if es.len() == 0 {
        0
    } else {
        mem_sum(es.drop_last()) + es.last().memory
    }
}

/// `b` is `a` but for where its entries are on the stack.
pub open spec fn same_but_stack<V>(a: Seq<Entry<V>>, b: Seq<Entry<V>>) -> bool {
    &&& a.len() == b.len()
    &&& forall|i: int| 0 <= i < a.len() ==> #[trigger] b[i] == (Entry { on_stack: b[i].on_stack, ..a[i] })
}

/// `b` holds the same keys, values and memory as `a`, in the same order.
pub open spec fn same_content<V>(a: Seq<Entry<V>>, b: Seq<Entry<V>>) -> bool {
    &&& a.len() == b.len()
    &&& forall|i: int|
        0 <= i < a.len() ==> #[trigger] b[i].key == a[i].key && b[i].value == a[i].value && b[i].memory
            == a[i].memory
}

/// What a cache segment holds: its entries, the keys on its stack of recently
/// used entries from the top down, the keys in its queue of resident cold
/// entries and in its queue of non-resident cold entries, each from the
/// front, the memory that it counts as used and the most it should use, the
/// bit mask of its hash buckets, its settings and its counters.
#[verifier::ext_equal]
pub struct SegmentView<V> {
    pub entries: Seq<Entry<V>>,
    pub stack: Seq<i64>,
    pub queue: Seq<i64>,
    pub queue2: Seq<i64>,
    pub used_memory: i64,
    pub max_memory: i64,
    pub mask: i32,
    pub stack_move_distance: i32,
    pub non_resident_queue_size: i32,
    pub non_resident_queue_size_high: i32,
    pub stack_move_round_count: i32,
    pub hit_count: i32,
    pub miss_count: i32,
}

impl<V> SegmentView<V> {
    /// The entry with the key `k`.
    pub open spec fn entry(self, k: i64) -> Entry<V> {
        self.entries[key_index(self.entries, k)]
    }

    /// Whether the entry with the key `k` is cold: in one of the queues.
    pub open spec fn is_cold(self, k: i64) -> bool {
        self.queue.contains(k) || self.queue2.contains(k)
    }

    /// How the entries and the lists fit together: no key occurs twice in the
    /// entries or in a list; every key in a list is the key of an entry; no
    /// key is in both queues; the flags of an entry say whether its key is on
    /// the stack and whether it is in a queue; memory is never negative; an
    /// entry of the first queue, and every entry in no queue, has a value;
    /// an entry of the second queue has none, and no memory.
    pub open spec fn links(self) -> bool {
        &&& unique_keys(self.entries)
        &&& self.stack.no_duplicates()
        &&& self.queue.no_duplicates()
        &&& self.queue2.no_duplicates()
        &&& forall|x: i64| #[trigger] self.stack.contains(x) ==> has_key(self.entries, x)
        &&& forall|x: i64| #[trigger] self.queue.contains(x) ==> has_key(self.entries, x)
        &&& forall|x: i64|
            #[trigger] self.queue2.contains(x) ==> has_key(self.entries, x) && !self.queue.contains(x)
        &&& forall|i: int|
            0 <= i < self.entries.len() ==> {
                let e = #[trigger] self.entries[i];
                &&& e.on_stack == self.stack.contains(e.key)
                &&& e.queued == self.is_cold(e.key)
                &&& 0 <= e.memory
                &&& self.queue2.contains(e.key) <==> e.value is None
                &&& e.value is None ==> e.memory == 0
            }
    }

    /// What each round of eviction makes smaller: twice the number of entries
    /// that are not in the second queue, and the size of the stack.
    pub open spec fn evict_measure(self) -> int {
        2 * (self.entries.len() - self.queue2.len()) + self.stack.len()
    }

    /// The entry with the key `k` is there, with the value `value`, in no
    /// list: one that was just put and is not yet on the stack.
    pub open spec fn pending(self, k: i64, value: Option<V>) -> bool {
        &&& has_key(self.entries, k)
        &&& self.entry(k).value == value
        &&& !self.is_cold(k)
        &&& !self.stack.contains(k)
    }

    /// The invariant of a segment: `links`; the bottom of the stack is hot;
    /// the used memory is the memory of all entries; the mask is not negative.
    pub open spec fn wf(self) -> bool {
        &&& self.links()
        &&& self.stack.len() > 0 ==> !self.is_cold(self.stack.last())
        &&& self.used_memory == mem_sum(self.entries)
        &&& self.mask >= 0
    }
}

/// Entries with the same memory, one for one, have the same memory in all.
pub proof fn lemma_mem_sum_same<V>(a: Seq<Entry<V>>, b: Seq<Entry<V>>)
    requires
        a.len() == b.len(),
        forall|i: int| 0 <= i < a.len() ==> #[trigger] a[i].memory == b[i].memory,
    ensures
        mem_sum(a) == mem_sum(b),
    decreases a.len(),
{
    if a.len() > 0 {
        let c = a.drop_last();
        let d = b.drop_last();
        assert forall|i: int| 0 <= i < c.len() implies #[trigger] c[i].memory == d[i].memory by {
            assert(a[i].memory == b[i].memory);
        }
        lemma_mem_sum_same(c, d);
    }
}

/// Every key of `b` is a key of `a`, with the same value in `b` as in `a` or
/// with none.
pub open spec fn kept_or_dropped<V>(a: Seq<Entry<V>>, b: Seq<Entry<V>>) -> bool {
    forall|x: i64|
        #[trigger] has_key(b, x) ==> has_key(a, x) && (b[key_index(b, x)].value == a[key_index(
            a,
            x,
        )].value || b[key_index(b, x)].value is None)
}

/// Entries with the same keys and values in the same order keep every value.
pub proof fn lemma_kept_same_content<V>(a: Seq<Entry<V>>, b: Seq<Entry<V>>)
    requires
        unique_keys(a),
        same_content(a, b),
    ensures
        unique_keys(b),
        kept_or_dropped(a, b),
{
    lemma_same_keys(a, b);
    assert forall|x: i64| #[trigger] has_key(b, x) implies has_key(a, x) && (b[key_index(b, x)].value
        == a[key_index(a, x)].value || b[key_index(b, x)].value is None) by {
        let i = key_index(b, x);
        assert(b[i].key == x);
        lemma_key_index(a, i);
        lemma_key_index(b, i);
    }
}

/// Removing an entry keeps the values of the others.
pub proof fn lemma_kept_remove<V>(a: Seq<Entry<V>>, i: int)
    requires
        unique_keys(a),
        0 <= i < a.len(),
    ensures
        kept_or_dropped(a, a.remove(i)),
{
    let b = a.remove(i);
    lemma_remove_entry(a, i);
    assert forall|x: i64| #[trigger] has_key(b, x) implies has_key(a, x) && (b[key_index(b, x)].value
        == a[key_index(a, x)].value || b[key_index(b, x)].value is None) by {
        let j = key_index(b, x);
        let j2 = if j < i { j } else { j + 1 };
        assert(b[j] == a[j2]);
        lemma_key_index(b, j);
        lemma_key_index(a, j2);
    }
}

/// Dropping the value of an entry keeps the values of the others.
pub proof fn lemma_kept_drop_value<V>(a: Seq<Entry<V>>, i: int, e: Entry<V>)
    requires
        unique_keys(a),
        0 <= i < a.len(),
        e.key == a[i].key,
        e.value is None,
    ensures
        unique_keys(a.update(i, e)),
        kept_or_dropped(a, a.update(i, e)),
{
    let b = a.update(i, e);
    lemma_same_keys(a, b);
    assert forall|x: i64| #[trigger] has_key(b, x) implies has_key(a, x) && (b[key_index(b, x)].value
        == a[key_index(a, x)].value || b[key_index(b, x)].value is None) by {
        let j = key_index(b, x);
        lemma_key_index(b, j);
        lemma_key_index(a, j);
    }
}

/// A list without duplicates whose elements are keys of entries with unique
/// keys is no longer than the entries.
pub proof fn lemma_list_len<V>(es: Seq<Entry<V>>, s: Seq<i64>)
    requires
        unique_keys(es),
        s.no_duplicates(),
        forall|x: i64| #[trigger] s.contains(x) ==> has_key(es, x),
    ensures
        s.len() <= es.len(),
{
    let keys = Seq::new(es.len(), |i: int| es[i].key);
    s.unique_seq_to_set();
    keys.lemma_cardinality_of_set();
    assert(s.to_set().subset_of(keys.to_set())) by {
        assert forall|x: i64| s.to_set().contains(x) implies keys.to_set().contains(x) by {
            assert(s.contains(x));
            let i = choose|i: int| 0 <= i < es.len() && es[i].key == x;
            assert(keys[i] == x);
        }
    }
    vstd::seq_lib::seq_to_set_is_finite(keys);
    vstd::set_lib::lemma_len_subset(s.to_set(), keys.to_set());
}

/// Where the entries at `ia` of `a` and at `ib` of `b` have the key `x` and
/// the same value, the entry of `x` has the same value in both.
pub proof fn lemma_value_of_key<V>(a: Seq<Entry<V>>, b: Seq<Entry<V>>, x: i64, ia: int, ib: int)
    requires
        unique_keys(a),
        unique_keys(b),
        0 <= ia < a.len(),
        0 <= ib < b.len(),
        a[ia].key == x,
        b[ib].key == x,
        a[ia].value == b[ib].value,
    ensures
        has_key(a, x),
        has_key(b, x),
        a[key_index(a, x)].value == b[key_index(b, x)].value,
{
    lemma_key_index(a, ia);
    lemma_key_index(b, ib);
}

/// With an entry outside the second queue, that queue is shorter than the
/// entries.
pub proof fn lemma_queue2_len<V>(v: SegmentView<V>, k: i64)
    requires
        v.links(),
        has_key(v.entries, k),
        !v.queue2.contains(k),
    ensures
        v.queue2.len() + 1 <= v.entries.len(),
{
    let i = key_index(v.entries, k);
    lemma_remove_entry(v.entries, i);
    lemma_list_len(v.entries.remove(i), v.queue2);
}

/// Adding an entry with a new key keeps the keys unique and the values of the
/// other keys.
pub proof fn lemma_push_entry<V>(es: Seq<Entry<V>>, e: Entry<V>)
    requires
        unique_keys(es),
        !has_key(es, e.key),
    ensures
        unique_keys(es.push(e)),
        has_key(es.push(e), e.key),
        es.push(e)[key_index(es.push(e), e.key)] == e,
        forall|x: i64|
            #[trigger] has_key(es.push(e), x) && x != e.key ==> has_key(es, x) && es.push(e)[key_index(
                es.push(e),
                x,
            )].value == es[key_index(es, x)].value,
{
    let p = es.push(e);
    assert forall|i: int, j: int| 0 <= i < p.len() && 0 <= j < p.len() && i != j implies #[trigger] p[i].key
        != #[trigger] p[j].key by {
        if i < es.len() && j < es.len() {
            assert(es[i].key != es[j].key);
        } else if i == es.len() {
            assert(es[j].key != e.key);
        } else {
            assert(es[i].key != e.key);
        }
    }
    lemma_key_index(p, es.len() as int);
    assert forall|x: i64| #[trigger] has_key(p, x) && x != e.key implies has_key(es, x) && p[key_index(p, x)].value
        == es[key_index(es, x)].value by {
        let j = key_index(p, x);
        assert(0 <= j < p.len() && p[j].key == x);
        assert(j < es.len());
        assert(p[j] == es[j]);
        lemma_key_index(es, j);
    }
}

/// Keeping or dropping values twice keeps or drops them.
pub proof fn lemma_kept_trans<V>(a: Seq<Entry<V>>, b: Seq<Entry<V>>, c: Seq<Entry<V>>)
    requires
        kept_or_dropped(a, b),
        kept_or_dropped(b, c),
    ensures
        kept_or_dropped(a, c),
{
    assert forall|x: i64| #[trigger] has_key(c, x) implies has_key(a, x) && (c[key_index(c, x)].value
        == a[key_index(a, x)].value || c[key_index(c, x)].value is None) by {
        assert(has_key(b, x));
    }
}

/// What a put does to the other keys: from `v`, a removal gives `a`
/// without `key`, adding the new entry gives `b`, and what follows keeps or
/// drops values to give `w`; every other key of `w` was in `v`, with its value
/// there or none.
pub proof fn lemma_put_others<V>(
    v: Seq<Entry<V>>,
    a: Seq<Entry<V>>,
    e: Entry<V>,
    w: Seq<Entry<V>>,
)
    requires
        unique_keys(a),
        kept_or_dropped(v, a),
        !has_key(a, e.key),
        kept_or_dropped(a.push(e), w),
    ensures
        forall|x: i64|
            #[trigger] has_key(w, x) && x != e.key ==> has_key(v, x) && (w[key_index(w, x)].value
                == v[key_index(v, x)].value || w[key_index(w, x)].value is None),
{
    lemma_push_entry(a, e);
    assert forall|x: i64| #[trigger] has_key(w, x) && x != e.key implies has_key(v, x) && (w[key_index(
        w,
        x,
    )].value == v[key_index(v, x)].value || w[key_index(w, x)].value is None) by {
        assert(has_key(a.push(e), x));
        assert(has_key(a, x));
    }
}

/// Entries with unique keys, each with the key and the memory of an entry of
/// `os`, take no more memory in all than `os`.
pub proof fn lemma_sub_sum<V>(es: Seq<Entry<V>>, os: Seq<Entry<V>>)
    requires
        unique_keys(es),
        unique_keys(os),
        forall|i: int| 0 <= i < os.len() ==> 0 <= #[trigger] os[i].memory,
        forall|i: int|
            0 <= i < es.len() ==> has_key(os, #[trigger] es[i].key) && os[key_index(os, es[i].key)].memory
                == es[i].memory,
    ensures
        mem_sum(es) <= mem_sum(os),
    decreases es.len(),
{
    lemma_mem_sum_bounds(os);
    if es.len() > 0 {
        let last = es.last();
        let j = key_index(os, last.key);
        assert(has_key(os, es[es.len() - 1].key));
        assert(0 <= j < os.len() && os[j].key == last.key);
        let es2 = es.drop_last();
        let os2 = os.remove(j);
        lemma_remove_entry(os, j);
        assert forall|i: int| 0 <= i < os2.len() implies 0 <= #[trigger] os2[i].memory by {
            let i2 = if i < j { i } else { i + 1 };
            assert(os2[i] == os[i2]);
        }
        assert forall|i: int| 0 <= i < es2.len() implies has_key(os2, #[trigger] es2[i].key)
            && os2[key_index(os2, es2[i].key)].memory == es2[i].memory by {
            let k = es2[i].key;
            assert(es[i] == es2[i]);
            assert(es[i].key != es[es.len() - 1].key);
            assert(has_key(os, k));
            assert(has_key(os2, k));
            let i3 = key_index(os2, k);
            assert(0 <= i3 < os2.len() && os2[i3].key == k);
            let i4 = if i3 < j { i3 } else { i3 + 1 };
            assert(os2[i3] == os[i4]);
            lemma_key_index(os, i4);
        }
        assert forall|a: int, b: int| 0 <= a < es2.len() && 0 <= b < es2.len() && a != b implies #[trigger] es2[a].key
            != #[trigger] es2[b].key by {
            assert(es[a].key != es[b].key);
        }
        lemma_sub_sum(es2, os2);
        lemma_mem_sum_remove(os, j);
    }
}

/// Whether `k` is on the stack or in one of the queues of `v`.
pub open spec fn in_lists<V>(v: SegmentView<V>, k: i64) -> bool {
    v.stack.contains(k) || v.queue.contains(k) || v.queue2.contains(k)
}

/// `e` is the copy that a resize makes of the entry of its key in `v`: the
/// same key, memory and flags, a clone of the value, and, for an entry on the
/// stack, its place on the stack counted from the bottom as its last move to
/// the top.
pub open spec fn resized_copy<V: Clone>(v: SegmentView<V>, e: Entry<V>) -> bool {
    let o = v.entry(e.key);
    &&& has_key(v.entries, e.key)
    &&& e.memory == o.memory
    &&& e.on_stack == o.on_stack
    &&& e.queued == o.queued
    &&& (o.value is None <==> e.value is None)
    &&& (o.value matches Some(a) ==> (e.value matches Some(b) && cloned::<V>(a, b)))
    &&& e.top_move == (if o.on_stack {
        v.stack.len() - 1 - v.stack.index_of(e.key)
    } else {
        o.top_move as int
    })
}

/// Whether `b` is `a` kept: the same, or a clone of the same value.
pub open spec fn value_kept<V: Clone>(a: Option<V>, b: Option<V>) -> bool {
    ||| b == a
    ||| (a matches Some(x) && b matches Some(y) && cloned::<V>(x, y))
}

/// `es` holds resized copies of entries of `v` that are on its lists, no key
/// twice, and `used` is their memory.
pub open spec fn partial_copy<V: Clone>(v: SegmentView<V>, es: Seq<Entry<V>>, used: i64) -> bool {
    &&& unique_keys(es)
    &&& forall|i: int| 0 <= i < es.len() ==> resized_copy(v, #[trigger] es[i])
    &&& forall|i: int| 0 <= i < es.len() ==> in_lists(v, #[trigger] es[i].key)
    &&& used == mem_sum(es)
}

/// With unique keys, the entry at `i` is the entry of its key.
pub proof fn lemma_key_index<V>(es: Seq<Entry<V>>, i: int)
    requires
        unique_keys(es),
        0 <= i < es.len(),
    ensures
        has_key(es, es[i].key),
        key_index(es, es[i].key) == i,
{
    let k = es[i].key;
    assert(has_key(es, k));
    let j = key_index(es, k);
    if j != i {
        assert(es[i].key != es[j].key);
    }
}

/// Removing the element at `p` from a list without duplicates removes that
/// element and no other.
pub proof fn lemma_remove_at(s: Seq<i64>, p: int)
    requires
        s.no_duplicates(),
        0 <= p < s.len(),
    ensures
        s.remove(p).no_duplicates(),
        forall|x: i64| #[trigger] s.remove(p).contains(x) <==> (s.contains(x) && x != s[p]),
        s.remove_value(s[p]) == s.remove(p),
{
    let r = s.remove(p);
    assert forall|x: i64| #[trigger] r.contains(x) <==> (s.contains(x) && x != s[p]) by {
        if r.contains(x) {
            let j = choose|j: int| 0 <= j < r.len() && r[j] == x;
            if j < p {
                assert(s[j] == x);
            } else {
                assert(s[j + 1] == x);
            }
        }
        if s.contains(x) && x != s[p] {
            let j = choose|j: int| 0 <= j < s.len() && s[j] == x;
            if j < p {
                assert(r[j] == x);
            } else {
                assert(j != p);
                assert(r[j - 1] == x);
            }
        }
    }
    s.index_of_first_ensures(s[p]);
    let f = s.index_of_first(s[p]);
    assert(s.contains(s[p]));
    assert(f == Some(p)) by {
        let q = f->0;
        if q != p {
            assert(s[q] == s[p]);
        }
    }
}

/// Putting a new element in front of a list, or behind it, keeps it free of
/// duplicates and adds that element.
pub proof fn lemma_add(s: Seq<i64>, k: i64)
    requires
        s.no_duplicates(),
        !s.contains(k),
    ensures
        (seq![k] + s).no_duplicates(),
        s.push(k).no_duplicates(),
        forall|x: i64| #[trigger] (seq![k] + s).contains(x) <==> (x == k || s.contains(x)),
        forall|x: i64| #[trigger] s.push(k).contains(x) <==> (x == k || s.contains(x)),
{
    let a = seq![k] + s;
    let b = s.push(k);
    assert forall|x: i64| #[trigger] a.contains(x) <==> (x == k || s.contains(x)) by {
        if a.contains(x) {
            let j = choose|j: int| 0 <= j < a.len() && a[j] == x;
            if j > 0 {
                assert(s[j - 1] == x);
            }
        }
        if x == k {
            assert(a[0] == x);
        }
        if s.contains(x) {
            let j = choose|j: int| 0 <= j < s.len() && s[j] == x;
            assert(a[j + 1] == x);
        }
    }
    assert forall|x: i64| #[trigger] b.contains(x) <==> (x == k || s.contains(x)) by {
        if b.contains(x) {
            let j = choose|j: int| 0 <= j < b.len() && b[j] == x;
            if j < s.len() {
                assert(s[j] == x);
            }
        }
        if x == k {
            assert(b[s.len() as int] == x);
        }
        if s.contains(x) {
            let j = choose|j: int| 0 <= j < s.len() && s[j] == x;
            assert(b[j] == x);
        }
    }
    assert forall|i: int, j: int| 0 <= i < a.len() && 0 <= j < a.len() && i != j implies a[i] != a[j] by {
        if i > 0 && j > 0 {
            assert(s[i - 1] != s[j - 1]);
        } else if i == 0 {
            assert(s.contains(a[j]));
        } else {
            assert(s.contains(a[i]));
        }
    }
    assert forall|i: int, j: int| 0 <= i < b.len() && 0 <= j < b.len() && i != j implies b[i] != b[j] by {
        if i < s.len() && j < s.len() {
            assert(s[i] != s[j]);
        } else if i == s.len() {
            assert(s.contains(b[j]));
        } else {
            assert(s.contains(b[i]));
        }
    }
}

/// Changing the entry at `i` changes the memory of all by the difference.
pub proof fn lemma_mem_sum_update<V>(es: Seq<Entry<V>>, i: int, e: Entry<V>)
    requires
        0 <= i < es.len(),
    ensures
        mem_sum(es.update(i, e)) == mem_sum(es) - es[i].memory + e.memory,
    decreases es.len(),
{
    let u = es.update(i, e);
    if i == es.len() - 1 {
        assert(u.drop_last() =~= es.drop_last());
    } else {
        assert(u.drop_last() =~= es.drop_last().update(i, e));
        lemma_mem_sum_update(es.drop_last(), i, e);
    }
}

/// Removing the entry at `i` takes its memory from the memory of all.
pub proof fn lemma_mem_sum_remove<V>(es: Seq<Entry<V>>, i: int)
    requires
        0 <= i < es.len(),
    ensures
        mem_sum(es.remove(i)) == mem_sum(es) - es[i].memory,
    decreases es.len(),
{
    let r = es.remove(i);
    if i == es.len() - 1 {
        assert(r =~= es.drop_last());
    } else {
        assert(r.drop_last() =~= es.drop_last().remove(i));
        assert(r.last() == es.last());
        lemma_mem_sum_remove(es.drop_last(), i);
    }
}

/// Where no memory is negative, neither is the memory of all, and each entry
/// takes part of it.
pub proof fn lemma_mem_sum_bounds<V>(es: Seq<Entry<V>>)
    requires
        forall|i: int| 0 <= i < es.len() ==> 0 <= #[trigger] es[i].memory,
    ensures
        0 <= mem_sum(es),
        forall|i: int| 0 <= i < es.len() ==> #[trigger] es[i].memory <= mem_sum(es),
    decreases es.len(),
{
    if es.len() > 0 {
        let d = es.drop_last();
        assert forall|i: int| 0 <= i < d.len() implies 0 <= #[trigger] d[i].memory by {
            assert(d[i] == es[i]);
        }
        lemma_mem_sum_bounds(d);
        assert forall|i: int| 0 <= i < es.len() implies #[trigger] es[i].memory <= mem_sum(es) by {
            if i < es.len() - 1 {
                assert(d[i] == es[i]);
            }
        }
    }
}


/// Entries with the same keys in the same order have the same keys.
pub proof fn lemma_same_keys<V>(a: Seq<Entry<V>>, b: Seq<Entry<V>>)
    requires
        a.len() == b.len(),
        forall|i: int| 0 <= i < a.len() ==> #[trigger] a[i].key == b[i].key,
    ensures
        unique_keys(a) == unique_keys(b),
        forall|x: i64| #[trigger] has_key(a, x) == has_key(b, x),
{
    assert forall|x: i64| #[trigger] has_key(a, x) == has_key(b, x) by {
        if has_key(a, x) {
            let i = choose|i: int| 0 <= i < a.len() && a[i].key == x;
            assert(b[i].key == x);
        }
        if has_key(b, x) {
            let i = choose|i: int| 0 <= i < b.len() && b[i].key == x;
            assert(a[i].key == x);
        }
    }
    if unique_keys(a) {
        assert forall|i: int, j: int| 0 <= i < b.len() && 0 <= j < b.len() && i != j implies #[trigger] b[i].key
            != #[trigger] b[j].key by {
            assert(a[i].key != a[j].key);
        }
    }
    if unique_keys(b) {
        assert forall|i: int, j: int| 0 <= i < a.len() && 0 <= j < a.len() && i != j implies #[trigger] a[i].key
            != #[trigger] a[j].key by {
            assert(b[i].key != b[j].key);
        }
    }
}

/// Removing the entry at `i` from entries with unique keys removes its key and
/// keeps the others.
pub proof fn lemma_remove_entry<V>(es: Seq<Entry<V>>, i: int)
    requires
        unique_keys(es),
        0 <= i < es.len(),
    ensures
        unique_keys(es.remove(i)),
        forall|x: i64| #[trigger] has_key(es.remove(i), x) == (has_key(es, x) && x != es[i].key),
{
    let r = es.remove(i);
    assert forall|x: i64| #[trigger] has_key(r, x) == (has_key(es, x) && x != es[i].key) by {
        if has_key(r, x) {
            let j = choose|j: int| 0 <= j < r.len() && r[j].key == x;
            if j < i {
                assert(es[j].key == x);
                assert(es[j].key != es[i].key);
            } else {
                assert(es[j + 1].key == x);
                assert(es[j + 1].key != es[i].key);
            }
        }
        if has_key(es, x) && x != es[i].key {
            let j = choose|j: int| 0 <= j < es.len() && es[j].key == x;
            if j < i {
                assert(r[j].key == x);
            } else {
                assert(j != i);
                assert(r[j - 1].key == x);
            }
        }
    }
    assert forall|a: int, b: int| 0 <= a < r.len() && 0 <= b < r.len() && a != b implies #[trigger] r[a].key
        != #[trigger] r[b].key by {
        let a2 = if a < i { a } else { a + 1 };
        let b2 = if b < i { b } else { b + 1 };
        assert(r[a] == es[a2]);
        assert(r[b] == es[b2]);
        assert(es[a2].key != es[b2].key);
    }
}

/// The position of `k` in `v`, if it is there.
fn position(v: &Vec<i64>, k: i64) -> (r: Option<usize>)
    ensures
        match r {
            Some(p) => p < v@.len() && v@[p as int] == k,
            None => !v@.contains(k),
        },
{
    let mut p: usize = 0;
    while p < v.len()
        invariant
            p <= v@.len(),
            forall|j: int| 0 <= j < p ==> v@[j] != k,
        decreases v@.len() - p,
    {
        if v[p] == k {
            return Some(p);
        }
        p = p + 1;
    }
    None
}

/// A segment of a cache: a map from keys to values that keeps the values of
/// recently and frequently used keys and evicts cold entries by the LIRS
/// policy once it holds more memory than it should.
pub struct Segment<V> {
    entries: Vec<Entry<V>>,
    stack: Vec<i64>,
    queue: Vec<i64>,
    queue2: Vec<i64>,
    used_memory: i64,
    max_memory: i64,
    mask: i32,
    stack_move_distance: i32,
    non_resident_queue_size: i32,
    non_resident_queue_size_high: i32,
    stack_move_round_count: i32,
    hit_count: i32,
    miss_count: i32,
}

impl<V> View for Segment<V> {
    type V = SegmentView<V>;

    closed spec fn view(&self) -> SegmentView<V> {
        SegmentView {
            entries: self.entries@,
            stack: self.stack@,
            queue: self.queue@,
            queue2: self.queue2@,
            used_memory: self.used_memory,
            max_memory: self.max_memory,
            mask: self.mask,
            stack_move_distance: self.stack_move_distance,
            non_resident_queue_size: self.non_resident_queue_size,
            non_resident_queue_size_high: self.non_resident_queue_size_high,
            stack_move_round_count: self.stack_move_round_count,
            hit_count: self.hit_count,
            miss_count: self.miss_count,
        }
    }
}

/// How a use of the entry at `i` changes a segment `before` into `after`
/// by the LIRS policy: only the entries' flags, the lists and the move
/// counter change. A hot entry leaves the stack as it was (it moves to the
/// top only from the top). A cold entry that is not resident changes
/// nothing. A resident cold entry on the stack becomes hot: it leaves the
/// queue and the stack, and the oldest hot entry goes to the front of the
/// queue, the stack losing its bottom down to a hot entry. A resident cold
/// entry that is not on the stack goes to the front of the queue and to the
/// top of the stack, where the stack was not empty.
pub open spec fn accessed<V>(before: SegmentView<V>, i: int, after: SegmentView<V>) -> bool {
    let key = before.entries[i].key;
    &&& same_content(before.entries, after.entries)
    &&& after == (SegmentView {
        entries: after.entries,
        stack: after.stack,
        queue: after.queue,
        stack_move_round_count: after.stack_move_round_count,
        ..before
    })
    &&& !before.is_cold(key) ==> after.queue == before.queue && after.stack == before.stack
    &&& before.queue2.contains(key) ==> after == before
    &&& before.queue.contains(key) && before.stack.contains(key) ==> {
        let s = before.stack.remove_value(key);
        &&& !after.is_cold(key)
        &&& after.queue == seq![before.stack.last()] + before.queue.remove_value(key)
        &&& after.stack.len() < s.len()
        &&& after.stack == s.subrange(0, after.stack.len() as int)
        &&& forall|j: int| after.stack.len() <= j < s.len() ==> after.is_cold(#[trigger] s[j])
    }
    &&& before.queue.contains(key) && !before.stack.contains(key) ==> {
        &&& after.queue == seq![key] + before.queue.remove_value(key)
        &&& after.stack == if before.stack.len() == 0 {
            Seq::<i64>::empty()
        } else {
            seq![key] + before.stack
        }
    }
}

/// Taking one more element from the end of `s` into the tail from `n`
/// adds just that element to it.
pub proof fn lemma_subrange_step(s: Seq<i64>, n: int, l: int)
    requires
        0 <= n < l <= s.len(),
    ensures
        forall|x: i64| #[trigger] s.subrange(n, l).contains(x) == (x == s[n] || s.subrange(n + 1, l).contains(x)),
{
    assert forall|x: i64| #[trigger] s.subrange(n, l).contains(x) == (x == s[n] || s.subrange(n + 1, l).contains(x)) by {
        if s.subrange(n, l).contains(x) {
            let j = choose|j: int| 0 <= j < l - n && #[trigger] s.subrange(n, l)[j] == x;
            if j > 0 {
                assert(s.subrange(n + 1, l)[j - 1] == x);
            }
        }
        if x == s[n] {
            assert(s.subrange(n, l)[0] == x);
        }
        if s.subrange(n + 1, l).contains(x) {
            let j = choose|j: int| 0 <= j < l - n - 1 && #[trigger] s.subrange(n + 1, l)[j] == x;
            assert(s.subrange(n, l)[j + 1] == x);
        }
    }
}

/// How the lists of a segment `before` change into those of `after` when
/// the hot entry `key` is removed: it leaves the stack; the front entry of
/// the resident cold queue, where there is one, leaves the queue and becomes
/// hot, going to the bottom of the stack where it is not on it; then the
/// stack loses its bottom down to a hot entry.
pub open spec fn removed_hot<V>(before: SegmentView<V>, key: i64, after: SegmentView<V>) -> bool {
    let s0 = before.stack.remove_value(key);
    let promoted = before.queue.len() > 0;
    let f = before.queue[0];
    let s1 = if promoted && !s0.contains(f) {
        s0.push(f)
    } else {
        s0
    };
    &&& after.queue == if promoted {
        before.queue.remove_value(f)
    } else {
        before.queue
    }
    &&& promoted ==> !after.is_cold(f)
    &&& after.stack.len() <= s1.len()
    &&& after.stack == s1.subrange(0, after.stack.len() as int)
    &&& forall|j: int| after.stack.len() <= j < s1.len() ==> after.is_cold(#[trigger] s1[j])
}

/// How many non-resident entries a queue of `n` keeps when trimmed to
/// `limit`: all where there are not more than that, else `limit`, or none
/// where the limit is not positive.
pub open spec fn trimmed_len(n: int, limit: int) -> int {
    if n > limit {
        if limit > 0 {
            limit
        } else {
            0
        }
    } else {
        n
    }
}

impl<V: Clone> Segment<V> {
    /// The index of the entry with the key `key`.
    fn entry_index(&self, key: i64) -> (r: Option<usize>)
        requires
            unique_keys(self@.entries),
        ensures
            match r {
                Some(i) => i < self@.entries.len() && self@.entries[i as int].key == key && key_index(
                    self@.entries,
                    key,
                ) == i,
                None => !has_key(self@.entries, key),
            },
    {
        let mut i: usize = 0;
        while i < self.entries.len()
            invariant
                unique_keys(self.entries@),
                i <= self.entries@.len(),
                forall|j: int| 0 <= j < i ==> self.entries@[j].key != key,
            decreases self.entries@.len() - i,
        {
            if self.entries[i].key == key {
                proof {
                    lemma_key_index(self.entries@, i as int);
                }
                return Some(i);
            }
            i = i + 1;
        }
        None
    }

    /// Takes the entry at `i` off the stack.
    fn remove_from_stack(&mut self, i: usize)
        requires
            old(self)@.links(),
            i < old(self)@.entries.len(),
            old(self)@.entries[i as int].on_stack,
        ensures
            final(self)@.links(),
            final(self)@ == (SegmentView {
                entries: old(self)@.entries.update(
                    i as int,
                    Entry { on_stack: false, ..old(self)@.entries[i as int] },
                ),
                stack: old(self)@.stack.remove_value(old(self)@.entries[i as int].key),
                ..old(self)@
            }),
    {
        let ghost v = self@;
        let key = self.entries[i].key;
        let p = match position(&self.stack, key) {
            Some(p) => p,
            None => {
                proof {
                    assert(v.entries[i as int].on_stack == v.stack.contains(key));
                }
                return ;
            },
        };
        proof {
            lemma_remove_at(v.stack, p as int);
        }
        self.stack.remove(p);
        self.entries[i].on_stack = false;
        proof {
            let w = self@;
            lemma_same_keys(v.entries, w.entries);
            assert forall|j: int| 0 <= j < w.entries.len() implies {
                let e = #[trigger] w.entries[j];
                &&& e.on_stack == w.stack.contains(e.key)
                &&& e.queued == w.is_cold(e.key)
                &&& 0 <= e.memory
                &&& w.queue2.contains(e.key) <==> e.value is None
                &&& e.value is None ==> e.memory == 0
            } by {
                if j != i {
                    assert(v.entries[j].key != v.entries[i as int].key);
                }
            }
            assert(w == (SegmentView {
                entries: v.entries.update(i as int, Entry { on_stack: false, ..v.entries[i as int] }),
                stack: v.stack.remove_value(key),
                ..v
            }));
        }
    }

    /// Puts the entry at `i` on the top of the stack and notes the move.
    fn add_to_stack(&mut self, i: usize)
        requires
            old(self)@.links(),
            i < old(self)@.entries.len(),
            !old(self)@.entries[i as int].on_stack,
        ensures
            final(self)@.links(),
            final(self)@ == (SegmentView {
                entries: old(self)@.entries.update(
                    i as int,
                    Entry {
                        on_stack: true,
                        top_move: old(self)@.stack_move_round_count,
                        ..old(self)@.entries[i as int]
                    },
                ),
                stack: seq![old(self)@.entries[i as int].key] + old(self)@.stack,
                stack_move_round_count: vstd::wrapping::i32_specs::wrapping_add(
                    old(self)@.stack_move_round_count,
                    1,
                ),
                ..old(self)@
            }),
    {
        let ghost v = self@;
        let key = self.entries[i].key;
        proof {
            assert(v.entries[i as int].on_stack == v.stack.contains(key));
            lemma_add(v.stack, key);
        }
        self.stack.insert(0, key);
        self.entries[i].on_stack = true;
        self.entries[i].top_move = self.stack_move_round_count;
        self.stack_move_round_count = self.stack_move_round_count.wrapping_add(1);
        proof {
            let w = self@;
            assert(w.stack =~= seq![key] + v.stack);
            lemma_same_keys(v.entries, w.entries);
            assert forall|j: int| 0 <= j < w.entries.len() implies {
                let e = #[trigger] w.entries[j];
                &&& e.on_stack == w.stack.contains(e.key)
                &&& e.queued == w.is_cold(e.key)
                &&& 0 <= e.memory
                &&& w.queue2.contains(e.key) <==> e.value is None
                &&& e.value is None ==> e.memory == 0
            } by {
                if j != i {
                    assert(v.entries[j].key != v.entries[i as int].key);
                }
            }
        }
    }

    /// Puts the entry at `i` at the bottom of the stack.
    fn add_to_stack_bottom(&mut self, i: usize)
        requires
            old(self)@.links(),
            i < old(self)@.entries.len(),
            !old(self)@.entries[i as int].on_stack,
        ensures
            final(self)@.links(),
            final(self)@ == (SegmentView {
                entries: old(self)@.entries.update(
                    i as int,
                    Entry { on_stack: true, ..old(self)@.entries[i as int] },
                ),
                stack: old(self)@.stack.push(old(self)@.entries[i as int].key),
                ..old(self)@
            }),
    {
        let ghost v = self@;
        let key = self.entries[i].key;
        proof {
            assert(v.entries[i as int].on_stack == v.stack.contains(key));
            lemma_add(v.stack, key);
        }
        self.stack.push(key);
        self.entries[i].on_stack = true;
        proof {
            let w = self@;
            lemma_same_keys(v.entries, w.entries);
            assert forall|j: int| 0 <= j < w.entries.len() implies {
                let e = #[trigger] w.entries[j];
                &&& e.on_stack == w.stack.contains(e.key)
                &&& e.queued == w.is_cold(e.key)
                &&& 0 <= e.memory
                &&& w.queue2.contains(e.key) <==> e.value is None
                &&& e.value is None ==> e.memory == 0
            } by {
                if j != i {
                    assert(v.entries[j].key != v.entries[i as int].key);
                }
            }
        }
    }

    /// Takes the entry at `i`, a resident cold entry, out of the queue: it is
    /// hot now.
    fn remove_from_queue(&mut self, i: usize)
        requires
            old(self)@.links(),
            i < old(self)@.entries.len(),
            old(self)@.queue.contains(old(self)@.entries[i as int].key),
        ensures
            final(self)@.links(),
            final(self)@ == (SegmentView {
                entries: old(self)@.entries.update(
                    i as int,
                    Entry { queued: false, ..old(self)@.entries[i as int] },
                ),
                queue: old(self)@.queue.remove_value(old(self)@.entries[i as int].key),
                ..old(self)@
            }),
    {
        let ghost v = self@;
        let key = self.entries[i].key;
        let p = match position(&self.queue, key) {
            Some(p) => p,
            None => {
                return ;
            },
        };
        proof {
            lemma_remove_at(v.queue, p as int);
            assert(!v.queue2.contains(key));
        }
        self.queue.remove(p);
        self.entries[i].queued = false;
        proof {
            let w = self@;
            lemma_same_keys(v.entries, w.entries);
            assert forall|j: int| 0 <= j < w.entries.len() implies {
                let e = #[trigger] w.entries[j];
                &&& e.on_stack == w.stack.contains(e.key)
                &&& e.queued == w.is_cold(e.key)
                &&& 0 <= e.memory
                &&& w.queue2.contains(e.key) <==> e.value is None
                &&& e.value is None ==> e.memory == 0
            } by {
                if j != i {
                    assert(v.entries[j].key != v.entries[i as int].key);
                }
            }
        }
    }

    /// Puts the entry at `i`, a hot entry, in front of the queue of resident
    /// cold entries: it is cold now.
    fn add_to_queue(&mut self, i: usize)
        requires
            old(self)@.links(),
            i < old(self)@.entries.len(),
            !old(self)@.entries[i as int].queued,
        ensures
            final(self)@.links(),
            final(self)@ == (SegmentView {
                entries: old(self)@.entries.update(
                    i as int,
                    Entry { queued: true, ..old(self)@.entries[i as int] },
                ),
                queue: seq![old(self)@.entries[i as int].key] + old(self)@.queue,
                ..old(self)@
            }),
    {
        let ghost v = self@;
        let key = self.entries[i].key;
        proof {
            assert(v.entries[i as int].queued == v.is_cold(key));
            lemma_add(v.queue, key);
        }
        self.queue.insert(0, key);
        self.entries[i].queued = true;
        proof {
            let w = self@;
            assert(w.queue =~= seq![key] + v.queue);
            lemma_same_keys(v.entries, w.entries);
            assert forall|j: int| 0 <= j < w.entries.len() implies {
                let e = #[trigger] w.entries[j];
                &&& e.on_stack == w.stack.contains(e.key)
                &&& e.queued == w.is_cold(e.key)
                &&& 0 <= e.memory
                &&& w.queue2.contains(e.key) <==> e.value is None
                &&& e.value is None ==> e.memory == 0
            } by {
                if j != i {
                    assert(v.entries[j].key != v.entries[i as int].key);
                }
            }
        }
    }

    /// Makes the entry at the back of the queue of resident cold entries
    /// non-resident: it drops its value and its memory and goes to the front
    /// of the queue of non-resident entries.
    fn make_non_resident(&mut self, i: usize)
        requires
            old(self)@.links(),
            old(self)@.used_memory == mem_sum(old(self)@.entries),
            i < old(self)@.entries.len(),
            old(self)@.queue.len() > 0,
            old(self)@.entries[i as int].key == old(self)@.queue.last(),
        ensures
            final(self)@.links(),
            final(self)@.used_memory == mem_sum(final(self)@.entries),
            final(self)@ == (SegmentView {
                entries: old(self)@.entries.update(
                    i as int,
                    Entry { value: None, memory: 0, ..old(self)@.entries[i as int] },
                ),
                queue: old(self)@.queue.drop_last(),
                queue2: seq![old(self)@.entries[i as int].key] + old(self)@.queue2,
                used_memory: (old(self)@.used_memory - old(self)@.entries[i as int].memory) as i64,
                ..old(self)@
            }),
    {
        let ghost v = self@;
        let key = self.entries[i].key;
        let m = self.entries[i].memory;
        proof {
            lemma_mem_sum_bounds(v.entries);
            let last = v.queue.len() - 1;
            lemma_remove_at(v.queue, last);
            assert(v.queue.remove(last) =~= v.queue.drop_last());
            assert(v.queue.contains(key));
            assert(!v.queue2.contains(key));
            lemma_add(v.queue2, key);
            lemma_mem_sum_update(v.entries, i as int, Entry { value: None, memory: 0, ..v.entries[i as int] });
        }
        self.used_memory = self.used_memory - m as i64;
        self.queue.pop();
        self.entries[i].value = None;
        self.entries[i].memory = 0;
        self.queue2.insert(0, key);
        proof {
            let w = self@;
            assert(w.queue2 =~= seq![key] + v.queue2);
            assert(w.queue =~= v.queue.drop_last());
            assert(w.entries =~= v.entries.update(i as int, Entry { value: None, memory: 0, ..v.entries[i as int] }));
            lemma_same_keys(v.entries, w.entries);
            assert forall|j: int| 0 <= j < w.entries.len() implies {
                let e = #[trigger] w.entries[j];
                &&& e.on_stack == w.stack.contains(e.key)
                &&& e.queued == w.is_cold(e.key)
                &&& 0 <= e.memory
                &&& w.queue2.contains(e.key) <==> e.value is None
                &&& e.value is None ==> e.memory == 0
            } by {
                if j != i {
                    assert(v.entries[j].key != v.entries[i as int].key);
                }
            }
        }
    }

    /// Takes the key `k` out of `list`, where it is.
    fn take_out(list: &mut Vec<i64>, k: i64)
        requires
            old(list)@.no_duplicates(),
        ensures
            final(list)@ == old(list)@.remove_value(k),
            final(list)@.no_duplicates(),
            forall|x: i64| #[trigger] final(list)@.contains(x) == (old(list)@.contains(x) && x != k),
    {
        let ghost s = list@;
        match position(list, k) {
            Some(p) => {
                proof {
                    lemma_remove_at(s, p as int);
                }
                list.remove(p);
            },
            None => {
                proof {
                    s.index_of_first_ensures(k);
                }
            },
        }
    }

    /// Takes the entry at `i` out of the segment: out of the stack, the
    /// queues and the entries, and its memory out of the used memory.
    fn detach(&mut self, i: usize)
        requires
            old(self)@.links(),
            old(self)@.used_memory == mem_sum(old(self)@.entries),
            i < old(self)@.entries.len(),
        ensures
            final(self)@.links(),
            final(self)@.used_memory == mem_sum(final(self)@.entries),
            final(self)@ == (SegmentView {
                entries: old(self)@.entries.remove(i as int),
                stack: old(self)@.stack.remove_value(old(self)@.entries[i as int].key),
                queue: old(self)@.queue.remove_value(old(self)@.entries[i as int].key),
                queue2: old(self)@.queue2.remove_value(old(self)@.entries[i as int].key),
                used_memory: (old(self)@.used_memory - old(self)@.entries[i as int].memory) as i64,
                ..old(self)@
            }),
    {
        let ghost v = self@;
        let key = self.entries[i].key;
        let m = self.entries[i].memory;
        proof {
            lemma_mem_sum_bounds(v.entries);
            lemma_mem_sum_remove(v.entries, i as int);
            lemma_remove_entry(v.entries, i as int);
        }
        Self::take_out(&mut self.stack, key);
        Self::take_out(&mut self.queue, key);
        Self::take_out(&mut self.queue2, key);
        self.entries.remove(i);
        self.used_memory = self.used_memory - m as i64;
        proof {
            let w = self@;
            assert forall|j: int| 0 <= j < w.entries.len() implies {
                let e = #[trigger] w.entries[j];
                &&& e.on_stack == w.stack.contains(e.key)
                &&& e.queued == w.is_cold(e.key)
                &&& 0 <= e.memory
                &&& w.queue2.contains(e.key) <==> e.value is None
                &&& e.value is None ==> e.memory == 0
            } by {
                let j2 = if j < i { j } else { j + 1 };
                assert(w.entries[j] == v.entries[j2]);
                assert(v.entries[j2].key != v.entries[i as int].key);
            }
        }
    }

    /// Takes cold entries off the bottom of the stack until its bottom entry
    /// is hot, or the stack is empty.
    fn pruneStack(&mut self)
        requires
            old(self)@.links(),
        ensures
            final(self)@.links(),
            final(self)@.stack.len() <= old(self)@.stack.len(),
            final(self)@.stack == old(self)@.stack.subrange(0, final(self)@.stack.len() as int),
            forall|j: int|
                final(self)@.stack.len() <= j < old(self)@.stack.len() ==> old(self)@.is_cold(
                    #[trigger] old(self)@.stack[j],
                ),
            final(self)@.stack.len() > 0 ==> !final(self)@.is_cold(final(self)@.stack.last()),
            same_but_stack(old(self)@.entries, final(self)@.entries),
            final(self)@ == (SegmentView {
                entries: final(self)@.entries,
                stack: final(self)@.stack,
                ..old(self)@
            }),
    {
        let ghost v = self@;
        while self.stack.len() > 0
            invariant
                self@.links(),
                self@.stack.len() <= v.stack.len(),
                self@.stack == v.stack.subrange(0, self@.stack.len() as int),
                forall|j: int| self@.stack.len() <= j < v.stack.len() ==> v.is_cold(#[trigger] v.stack[j]),
                same_but_stack(v.entries, self@.entries),
                self@ == (SegmentView { entries: self@.entries, stack: self@.stack, ..v }),
            ensures
                self@.stack.len() > 0 ==> !self@.is_cold(self@.stack.last()),
            decreases self@.stack.len(),
        {
            let ghost u = self@;
            let last = self.stack[self.stack.len() - 1];
            proof {
                assert(u.stack.contains(last)) by {
                    assert(u.stack[u.stack.len() - 1] == last);
                }
            }
            let i = match self.entry_index(last) {
                Some(i) => i,
                None => {
                    return ;
                },
            };
            if self.entries[i].isHot() {
                proof {
                    assert(u.entries[i as int].queued == u.is_cold(last));
                }
                break;
            }
            proof {
                assert(u.entries[i as int].on_stack == u.stack.contains(last));
                lemma_remove_at(u.stack, u.stack.len() - 1);
                assert(u.stack.remove(u.stack.len() - 1) =~= u.stack.drop_last());
            }
            self.remove_from_stack(i);
            proof {
                let w = self@;
                assert(w.stack =~= v.stack.subrange(0, w.stack.len() as int));
                assert forall|j: int| 0 <= j < v.entries.len() implies #[trigger] w.entries[j] == (Entry {
                    on_stack: w.entries[j].on_stack,
                    ..v.entries[j]
                }) by {
                    assert(u.entries[j] == (Entry { on_stack: u.entries[j].on_stack, ..v.entries[j] }));
                }
            }
        }
    }

    /// Makes the hot entry at the bottom of the stack cold: it goes to the
    /// front of the queue, and the stack is pruned.
    fn convertOldestHotToCold(&mut self)
        requires
            old(self)@.links(),
            old(self)@.stack.len() > 0,
            !old(self)@.is_cold(old(self)@.stack.last()),
        ensures
            final(self)@.links(),
            final(self)@.queue == seq![old(self)@.stack.last()] + old(self)@.queue,
            final(self)@.stack.len() < old(self)@.stack.len(),
            final(self)@.stack == old(self)@.stack.subrange(0, final(self)@.stack.len() as int),
            forall|j: int|
                final(self)@.stack.len() <= j < old(self)@.stack.len() ==> final(self)@.is_cold(
                    #[trigger] old(self)@.stack[j],
                ),
            final(self)@.stack.len() > 0 ==> !final(self)@.is_cold(final(self)@.stack.last()),
            same_content(old(self)@.entries, final(self)@.entries),
            final(self)@ == (SegmentView {
                entries: final(self)@.entries,
                stack: final(self)@.stack,
                queue: final(self)@.queue,
                ..old(self)@
            }),
    {
        let ghost v = self@;
        let last = self.stack[self.stack.len() - 1];
        proof {
            assert(v.stack.contains(last)) by {
                assert(v.stack[v.stack.len() - 1] == last);
            }
        }
        let i = match self.entry_index(last) {
            Some(i) => i,
            None => {
                return ;
            },
        };
        proof {
            assert(v.entries[i as int].on_stack == v.stack.contains(last));
            lemma_remove_at(v.stack, v.stack.len() - 1);
            assert(v.stack.remove(v.stack.len() - 1) =~= v.stack.drop_last());
        }
        self.remove_from_stack(i);
        self.add_to_queue(i);
        let ghost u = self@;
        self.pruneStack();
        proof {
            let w = self@;
            assert(w.stack =~= v.stack.subrange(0, w.stack.len() as int));
            assert forall|j: int| w.stack.len() <= j < v.stack.len() implies w.is_cold(#[trigger] v.stack[j]) by {
                if j == v.stack.len() - 1 {
                    assert(w.queue[0] == last);
                    assert(w.queue.contains(last));
                } else {
                    assert(u.stack[j] == v.stack[j]);
                    assert(u.is_cold(u.stack[j]));
                }
            }
            assert forall|j: int| 0 <= j < v.entries.len() implies #[trigger] w.entries[j].key
                == v.entries[j].key && w.entries[j].value == v.entries[j].value && w.entries[j].memory
                == v.entries[j].memory by {
                assert(w.entries[j] == (Entry { on_stack: w.entries[j].on_stack, ..u.entries[j] }));
            }
        }
    }

    /// The index of the entry with the key `key`, looked for in the hash
    /// bucket `hash & mask`: found where the key is there and `hash` falls in
    /// the same bucket as the key's own hash.
    pub fn find(&self, key: i64, hash: i32) -> (r: Option<usize>)
        requires
            self@.wf(),
        ensures
            match r {
                Some(i) => has_key(self@.entries, key) && (hash & self@.mask) == (get_hash(key) & self@.mask)
                    && i == key_index(self@.entries, key),
                None => !(has_key(self@.entries, key) && (hash & self@.mask) == (get_hash(key) & self@.mask)),
            },
    {
        if (hash & self.mask) != (getHash(key) & self.mask) {
            return None;
        }
        self.entry_index(key)
    }

    /// Notes a use of the entry at `i` by the LIRS policy. A hot entry at the
    /// top of the stack that has waited long enough is moved to the top
    /// again. A resident cold entry on the stack becomes hot, and the oldest
    /// hot entry becomes cold in its place; one that is not on the stack moves
    /// to the front of the queue and to the top of the stack.
    fn access(&mut self, i: usize)
        requires
            old(self)@.wf(),
            i < old(self)@.entries.len(),
        ensures
            final(self)@.wf(),
            accessed(old(self)@, i as int, final(self)@),
    {
        let ghost v = self@;
        let key = self.entries[i].key;
        proof {
            lemma_key_index(v.entries, i as int);
            lemma_same_keys(v.entries, v.entries);
        }
        if self.entries[i].isHot() {
            if self.stack.len() > 0 && self.stack[0] == key {
                let waited = self.stack_move_round_count.wrapping_sub(self.entries[i].top_move);
                if waited > self.stack_move_distance {
                    let was_end = self.stack[self.stack.len() - 1] == key;
                    proof {
                        assert(v.stack.contains(key)) by {
                            assert(v.stack[0] == key);
                        }
                        lemma_remove_at(v.stack, 0);
                    }
                    self.remove_from_stack(i);
                    if was_end {
                        self.pruneStack();
                    }
                    proof {
                        let u = self@;
                        if !was_end {
                            assert(v.stack.len() > 1);
                            assert(u.stack.last() == v.stack.last());
                        }
                        assert(!u.entries[i as int].on_stack);
                        lemma_same_keys(v.entries, u.entries);
                    }
                    let ghost u2 = self@;
                    self.add_to_stack(i);
                    proof {
                        let w = self@;
                        if u2.stack.len() == 0 {
                            assert(w.stack.last() == key);
                        } else {
                            assert(w.stack.last() == u2.stack.last());
                        }
                        if was_end {
                            assert(v.stack.len() == 1) by {
                                if v.stack.len() > 1 {
                                    assert(v.stack[0] == v.stack[v.stack.len() - 1]);
                                }
                            }
                            assert(u2.stack.len() == 0);
                        } else {
                            assert(u2.stack == v.stack.remove(0));
                        }
                        assert(w.stack =~= v.stack);
                        assert forall|j: int| 0 <= j < v.entries.len() implies #[trigger] w.entries[j].key
                            == v.entries[j].key && w.entries[j].value == v.entries[j].value
                            && w.entries[j].memory == v.entries[j].memory by {
                            assert(u2.entries[j].key == v.entries[j].key);
                        }
                    }
                }
            }
        } else {
            if self.entries[i].value.is_none() {
                return ;
            }
            proof {
                assert(v.queue.contains(key));
            }
            self.remove_from_queue(i);
            if self.entries[i].on_stack {
                proof {
                    let u = self@;
                    assert(v.stack.contains(key));
                    let p = v.stack.index_of(key);
                    assert(v.stack[p] == key);
                    assert(p != v.stack.len() - 1);
                    lemma_remove_at(v.stack, p);
                }
                self.remove_from_stack(i);
                proof {
                    let u = self@;
                    let p = v.stack.index_of(key);
                    assert(u.stack.last() == v.stack.last());
                    assert(u.stack.len() > 0);
                    assert(v.stack.last() != key);
                }
                let ghost u3 = self@;
                self.convertOldestHotToCold();
                proof {
                    let w = self@;
                    assert(w.entries[i as int].key == key);
                    assert(!w.entries[i as int].queued);
                    lemma_key_index(w.entries, i as int);
                    assert forall|j: int| 0 <= j < v.entries.len() implies #[trigger] w.entries[j].key
                        == v.entries[j].key && w.entries[j].value == v.entries[j].value
                        && w.entries[j].memory == v.entries[j].memory by {
                        assert(u3.entries[j].key == v.entries[j].key);
                    }
                }
            } else {
                self.add_to_queue(i);
                self.add_to_stack(i);
                let ghost u4 = self@;
                self.pruneStack();
                proof {
                    let w = self@;
                    assert(u4.stack =~= seq![key] + v.stack);
                    assert(u4.queue.contains(key)) by {
                        assert(u4.queue[0] == key);
                    }
                    if v.stack.len() == 0 {
                        if w.stack.len() > 0 {
                            assert(w.stack.last() == key);
                        }
                        assert(w.stack =~= Seq::<i64>::empty());
                    } else {
                        let x = v.stack.last();
                        assert(v.stack.contains(x)) by {
                            assert(v.stack[v.stack.len() - 1] == x);
                        }
                        assert(x != key);
                        let q = v.queue.index_of(key);
                        lemma_remove_at(v.queue, q);
                        assert(!u4.is_cold(x)) by {
                            if u4.queue.contains(x) {
                                let j = choose|j: int| 0 <= j < u4.queue.len() && u4.queue[j] == x;
                                assert(j > 0);
                                assert(v.queue.remove(q)[j - 1] == x);
                                assert(v.queue.remove(q).contains(x));
                            }
                        }
                        if w.stack.len() < u4.stack.len() {
                            assert(u4.stack[u4.stack.len() - 1] == x);
                        }
                        assert(w.stack =~= u4.stack);
                    }
                    assert forall|j: int| 0 <= j < v.entries.len() implies #[trigger] w.entries[j].key
                        == v.entries[j].key && w.entries[j].value == v.entries[j].value
                        && w.entries[j].memory == v.entries[j].memory by {
                        assert(w.entries[j] == (Entry { on_stack: w.entries[j].on_stack, ..u4.entries[j] }));
                    }
                }
            }
        }
        proof {
            lemma_mem_sum_same(v.entries, self@.entries);
        }
    }

    /// The value of the entry at `entry`, if there is one and it is resident;
    /// a hit is counted and the use noted, else a miss is counted.
    pub fn get(&mut self, entry: Option<usize>) -> (r: Option<V>)
        requires
            old(self)@.wf(),
            entry matches Some(i) ==> i < old(self)@.entries.len(),
        ensures
            final(self)@.wf(),
            same_content(old(self)@.entries, final(self)@.entries),
            match entry {
                None => r is None,
                Some(i) => {
                    &&& old(self)@.entries[i as int].value is None ==> r is None
                    &&& old(self)@.entries[i as int].value matches Some(v) ==> (r matches Some(w) && cloned::<V>(v, w))
                },
            },
            r is None ==> final(self)@ == (SegmentView {
                miss_count: vstd::wrapping::i32_specs::wrapping_add(old(self)@.miss_count, 1),
                ..old(self)@
            }),
            r is Some ==> final(self)@.hit_count == vstd::wrapping::i32_specs::wrapping_add(old(self)@.hit_count, 1),
            r is Some ==> (entry matches Some(i) && accessed(
                old(self)@,
                i as int,
                SegmentView { hit_count: old(self)@.hit_count, ..final(self)@ },
            )),
    {
        let value = match entry {
            None => None,
            Some(i) => self.entries[i].getValue(),
        };
        match value {
            None => {
                self.miss_count = self.miss_count.wrapping_add(1);
            },
            Some(_) => {
                let i = match entry {
                    Some(i) => i,
                    None => {
                        return value;
                    },
                };
                self.access(i);
                self.hit_count = self.hit_count.wrapping_add(1);
            },
        }
        value
    }

    /// Removes the entry with the key `key`, looked for as `find` does, and
    /// gives back its value. Where it was hot, the front entry of the queue
    /// of resident cold entries becomes hot and goes to the bottom of the
    /// stack if it is not on it; the stack is pruned.
    #[verifier::spinoff_prover]
    #[verifier::rlimit(40)]
    fn remove(&mut self, key: i64, hash: i32) -> (r: Option<V>)
        requires
            old(self)@.wf(),
        ensures
            final(self)@.wf(),
            !(has_key(old(self)@.entries, key) && (hash & old(self)@.mask) == (get_hash(key)
                & old(self)@.mask)) ==> r is None && final(self)@ == old(self)@,
            has_key(old(self)@.entries, key) && (hash & old(self)@.mask) == (get_hash(key)
                & old(self)@.mask) ==> {
                let e = old(self)@.entry(key);
                &&& e.value is None ==> r is None
                &&& e.value matches Some(v) ==> (r matches Some(w) && cloned::<V>(v, w))
                &&& same_content(
                    old(self)@.entries.remove(key_index(old(self)@.entries, key)),
                    final(self)@.entries,
                )
                &&& final(self)@.used_memory == old(self)@.used_memory - e.memory
                &&& final(self)@.queue2 == old(self)@.queue2.remove_value(key)
                &&& !has_key(final(self)@.entries, key)
                &&& e.queued ==> final(self)@.queue == old(self)@.queue.remove_value(key)
                    && final(self)@.stack == old(self)@.stack.remove_value(key)
                &&& !e.queued ==> removed_hot(old(self)@, key, final(self)@)
            },
            kept_or_dropped(old(self)@.entries, final(self)@.entries),
            final(self)@ == (SegmentView {
                entries: final(self)@.entries,
                stack: final(self)@.stack,
                queue: final(self)@.queue,
                queue2: final(self)@.queue2,
                used_memory: final(self)@.used_memory,
                ..old(self)@
            }),
    {
        let ghost v = self@;
        let i = match self.find(key, hash) {
            Some(i) => i,
            None => {
                proof {
                    if has_key(v.entries, key) && (hash & v.mask) == (get_hash(key) & v.mask) {
                    } else {
                        lemma_kept_same_content(v.entries, v.entries);
                    }
                }
                return None;
            },
        };
        proof {
            let ki = key_index(v.entries, key);
            assert(0 <= ki < v.entries.len() && v.entries[ki].key == key);
            assert(i == ki);
        }
        let old_value = self.entries[i].getValue();
        let hot = self.entries[i].isHot();
        proof {
            lemma_remove_entry(v.entries, i as int);
            lemma_kept_remove(v.entries, i as int);
            assert(v.entries[i as int].queued == v.is_cold(key));
            if v.stack.contains(key) && v.stack.len() > 0 && !hot {
                let p = v.stack.index_of(key);
                assert(v.stack[p] == key);
                lemma_remove_at(v.stack, p);
            }
        }
        self.detach(i);
        let ghost d = self@;
        proof {
            lemma_mem_sum_bounds(v.entries);
            assert(d.used_memory == v.used_memory - v.entries[i as int].memory);
            lemma_kept_same_content(d.entries, d.entries);
            if !hot && d.stack.len() > 0 {
                let p = v.stack.index_of(key);
                if v.stack.contains(key) {
                    assert(v.stack.last() != key);
                    assert(d.stack.last() == v.stack.last());
                } else {
                    v.stack.index_of_first_ensures(key);
                    assert(d.stack == v.stack);
                }
            }
        }
        if hot {
            proof {
                v.queue.index_of_first_ensures(key);
                assert(!v.queue.contains(key));
                assert(d.queue == v.queue);
            }
            if self.queue.len() > 0 {
                let front = self.queue[0];
                proof {
                    assert(d.queue.contains(front)) by {
                        assert(d.queue[0] == front);
                    }
                }
                let j = match self.entry_index(front) {
                    Some(j) => j,
                    None => {
                        return old_value;
                    },
                };
                self.remove_from_queue(j);
                if !self.entries[j].on_stack {
                    self.add_to_stack_bottom(j);
                }
            }
            let ghost u = self@;
            proof {
                lemma_same_keys(d.entries, u.entries);
            }
            self.pruneStack();
            proof {
                let w = self@;
                if v.queue.len() > 0 {
                    let f = v.queue[0];
                    assert(d.queue[0] == f);
                    assert(v.queue.contains(f));
                    assert(!v.queue2.contains(f));
                    assert(!u.queue.contains(f));
                    assert(!w.is_cold(f));
                    let s0 = v.stack.remove_value(key);
                    assert(d.stack == s0);
                    let jf = key_index(d.entries, f);
                    assert(d.entries[jf].on_stack == s0.contains(f));
                    if !s0.contains(f) {
                        assert(u.stack == s0.push(f));
                    } else {
                        assert(u.stack == s0);
                    }
                }
                assert(w.queue == u.queue && w.queue2 == u.queue2);
                assert forall|j: int| 0 <= j < d.entries.len() implies #[trigger] w.entries[j].key
                    == d.entries[j].key && w.entries[j].value == d.entries[j].value
                    && w.entries[j].memory == d.entries[j].memory by {
                    assert(w.entries[j] == (Entry { on_stack: w.entries[j].on_stack, ..u.entries[j] }));
                }
                lemma_kept_same_content(d.entries, w.entries);
                lemma_mem_sum_same(d.entries, w.entries);
                lemma_same_keys(d.entries, w.entries);
            }
        }
        old_value
    }

    /// Removes non-resident entries from the back of their queue while there
    /// are any and more of them than `non_resident_queue_size` times the
    /// resident entries, not counting the entry `pending`. (A non-resident entry keeps
    /// no value, so none is kept for being still reachable.)
    fn trimNonResidentQueue(&mut self, pending: i64)
        requires
            old(self)@.wf(),
            old(self)@.pending(pending, old(self)@.entry(pending).value),
        ensures
            final(self)@.wf(),
            final(self)@.pending(pending, old(self)@.entry(pending).value),
            kept_or_dropped(old(self)@.entries, final(self)@.entries),
            final(self)@.stack.len() <= old(self)@.stack.len(),
            final(self)@.entries.len() - final(self)@.queue2.len() == old(self)@.entries.len()
                - old(self)@.queue2.len(),
            final(self)@ == (SegmentView {
                entries: final(self)@.entries,
                stack: final(self)@.stack,
                queue2: final(self)@.queue2,
                ..old(self)@
            }),
            ({
                let v = old(self)@;
                let n = trimmed_len(
                    v.queue2.len() as int,
                    v.non_resident_queue_size * (v.entries.len() - 1 - v.queue2.len()),
                );
                let gone = v.queue2.subrange(n, v.queue2.len() as int);
                &&& final(self)@.queue2 == v.queue2.subrange(0, n)
                &&& forall|x: i64| #[trigger] has_key(final(self)@.entries, x) == (has_key(v.entries, x) && !gone.contains(x))
                &&& forall|x: i64| #[trigger] final(self)@.stack.contains(x) == (v.stack.contains(x) && !gone.contains(x))
            }),
    {
        let ghost v = self@;
        let ghost pv = v.entry(pending).value;
        proof {
            lemma_queue2_len(v, pending);
            lemma_kept_same_content(v.entries, v.entries);
        }
        let resident: i128 = (self.entries.len() as i128) - 1 - (self.queue2.len() as i128);
        proof {
            assert(0 <= resident <= usize::MAX);
            assert(i32::MIN <= self.non_resident_queue_size <= i32::MAX);
            assert((self.non_resident_queue_size as i128) * resident <= 0x1_0000_0000_0000_0000_0000_0000) by (nonlinear_arith)
                requires
                    0 <= resident <= 0xffff_ffff_ffff_ffff,
                    -0x8000_0000 <= self.non_resident_queue_size <= 0x7fff_ffff,
            ;
            assert((self.non_resident_queue_size as i128) * resident >= -0x1_0000_0000_0000_0000_0000_0000) by (nonlinear_arith)
                requires
                    0 <= resident <= 0xffff_ffff_ffff_ffff,
                    -0x8000_0000 <= self.non_resident_queue_size <= 0x7fff_ffff,
            ;
        }
        let limit: i128 = (self.non_resident_queue_size as i128) * resident;
        proof {
            let l = v.queue2.len() as int;
            assert(v.queue2.subrange(0, l) =~= v.queue2);
            assert forall|x: i64| !#[trigger] v.queue2.subrange(l, l).contains(x) by {
                assert(v.queue2.subrange(l, l).len() == 0);
            }
        }
        while self.queue2.len() > 0 && (self.queue2.len() as i128) > limit
            invariant
                self@.wf(),
                self@.pending(pending, pv),
                kept_or_dropped(v.entries, self@.entries),
                self@.stack.len() <= v.stack.len(),
                self@.entries.len() - self@.queue2.len() == v.entries.len() - v.queue2.len(),
                self@ == (SegmentView {
                    entries: self@.entries,
                    stack: self@.stack,
                    queue2: self@.queue2,
                    ..v
                }),
                limit == v.non_resident_queue_size * (v.entries.len() - 1 - v.queue2.len()),
                self@.queue2.len() <= v.queue2.len(),
                self@.queue2 == v.queue2.subrange(0, self@.queue2.len() as int),
                self@.queue2.len() < v.queue2.len() ==> self@.queue2.len() >= limit,
                forall|x: i64|
                    #[trigger] has_key(self@.entries, x) == (has_key(v.entries, x) && !v.queue2.subrange(
                        self@.queue2.len() as int,
                        v.queue2.len() as int,
                    ).contains(x)),
                forall|x: i64|
                    #[trigger] self@.stack.contains(x) == (v.stack.contains(x) && !v.queue2.subrange(
                        self@.queue2.len() as int,
                        v.queue2.len() as int,
                    ).contains(x)),
            decreases self@.queue2.len(),
        {
            let ghost u = self@;
            let k = self.queue2[self.queue2.len() - 1];
            proof {
                assert(u.queue2.contains(k)) by {
                    assert(u.queue2[u.queue2.len() - 1] == k);
                }
                assert(k != pending);
                let ki = key_index(u.entries, k);
                assert(0 <= ki < u.entries.len() && u.entries[ki].key == k);
                assert(u.entries[ki].queued);
                assert(u.entries[ki].memory == 0);
                lemma_remove_at(u.queue2, u.queue2.len() - 1);
                assert(u.queue2.remove(u.queue2.len() - 1) =~= u.queue2.drop_last());
                u.queue.index_of_first_ensures(k);
                u.stack.index_of_first_ensures(k);
                if u.stack.contains(k) {
                    lemma_remove_at(u.stack, u.stack.index_of(k));
                }
                lemma_remove_entry(u.entries, ki);
            }
            let h = getHash(k);
            self.remove(k, h);
            proof {
                let w = self@;
                let ki = key_index(u.entries, k);
                let r = u.entries.remove(ki);
                lemma_same_keys(r, w.entries);
                let pi = key_index(u.entries, pending);
                assert(0 <= pi < u.entries.len() && u.entries[pi].key == pending);
                let pj = if pi < ki { pi } else { pi - 1 };
                assert(pi != ki);
                assert(r[pj] == u.entries[pi]);
                assert(w.entries[pj].key == pending && w.entries[pj].value == r[pj].value);
                lemma_value_of_key(u.entries, w.entries, pending, pi, pj);
                let n = u.queue2.len() - 1;
                let l = v.queue2.len() as int;
                assert(u.queue2[n] == v.queue2.subrange(0, n + 1)[n]);
                assert(v.queue2[n] == k);
                assert(w.queue2 =~= v.queue2.subrange(0, n));
                lemma_subrange_step(v.queue2, n, l);
                lemma_remove_entry(u.entries, ki);
                assert forall|x: i64| #[trigger] has_key(w.entries, x) == (has_key(u.entries, x) && x != k) by {
                    assert(has_key(r, x) == has_key(w.entries, x));
                }
                assert forall|x: i64| #[trigger] w.stack.contains(x) == (u.stack.contains(x) && x != k) by {
                    if !u.stack.contains(k) {
                        assert(u.stack.index_of_first(k) is None);
                        assert(w.stack == u.stack);
                    }
                }
            }
        }
        proof {
            let n = self@.queue2.len() as int;
            let l = v.queue2.len() as int;
            assert(n == trimmed_len(l, limit as int));
        }
    }

    /// One round of eviction, the entry `pending` aside: while at most one
    /// in 32 of the other resident entries is in the cold queue, the oldest
    /// hot entry becomes cold; then, while more memory is used than allowed,
    /// the oldest resident cold entry becomes non-resident.
    fn evictBlock(&mut self, pending: i64)
        requires
            old(self)@.wf(),
            old(self)@.pending(pending, old(self)@.entry(pending).value),
        ensures
            final(self)@.wf(),
            final(self)@.pending(pending, old(self)@.entry(pending).value),
            kept_or_dropped(old(self)@.entries, final(self)@.entries),
            final(self)@.used_memory <= old(self)@.used_memory,
            final(self)@.used_memory <= final(self)@.max_memory || final(self)@.queue.len() == 0,
            old(self)@.stack.len() == 0 ==> final(self)@.stack.len() == 0,
            final(self)@.evict_measure() <= old(self)@.evict_measure(),
            old(self)@.stack.len() > 0 && old(self)@.queue.len() == 0 ==> final(self)@.evict_measure()
                < old(self)@.evict_measure(),
            final(self)@ == (SegmentView {
                entries: final(self)@.entries,
                stack: final(self)@.stack,
                queue: final(self)@.queue,
                queue2: final(self)@.queue2,
                used_memory: final(self)@.used_memory,
                ..old(self)@
            }),
    {
        let ghost v = self@;
        let ghost pv = v.entry(pending).value;
        proof {
            lemma_kept_same_content(v.entries, v.entries);
        }
        while (self.queue.len() as i128) <= ((self.entries.len() as i128) - 1 - (self.queue2.len() as i128)) / 32
            && self.stack.len() > 0
            invariant
                self@.wf(),
                self@.pending(pending, pv),
                kept_or_dropped(v.entries, self@.entries),
                self@.entries.len() == v.entries.len(),
                self@.queue2 == v.queue2,
                self@.used_memory == v.used_memory,
                self@.stack.len() <= v.stack.len(),
                self@.evict_measure() <= v.evict_measure(),
                v.stack.len() > 0 && v.queue.len() == 0 ==> self@.evict_measure() < v.evict_measure() || (
                self@.queue.len() == 0 && self@.stack.len() > 0),
                self@ == (SegmentView {
                    entries: self@.entries,
                    stack: self@.stack,
                    queue: self@.queue,
                    ..v
                }),
            decreases self@.stack.len(),
        {
            let ghost u = self@;
            self.convertOldestHotToCold();
            proof {
                let w = self@;
                lemma_kept_same_content(u.entries, w.entries);
                let pi = key_index(u.entries, pending);
                assert(0 <= pi < u.entries.len() && u.entries[pi].key == pending);
                assert(w.entries[pi].key == pending && w.entries[pi].value == u.entries[pi].value);
                lemma_value_of_key(u.entries, w.entries, pending, pi, pi);
                assert(u.stack.last() != pending) by {
                    assert(u.stack.contains(u.stack.last())) by {
                        assert(u.stack[u.stack.len() - 1] == u.stack.last());
                    }
                }
                assert(w.stack.len() <= u.stack.len());
                assert forall|x: i64| w.stack.contains(x) implies u.stack.contains(x) by {
                    let j = choose|j: int| 0 <= j < w.stack.len() && w.stack[j] == x;
                    assert(u.stack[j] == x);
                }
                lemma_add(u.queue, u.stack.last());
                lemma_mem_sum_same(u.entries, w.entries);
            }
        }
        proof {
            lemma_queue2_len(self@, pending);
        }
        while self.used_memory > self.max_memory && self.queue.len() > 0
            invariant
                self@.wf(),
                self@.pending(pending, pv),
                kept_or_dropped(v.entries, self@.entries),
                self@.used_memory <= v.used_memory,
                v.stack.len() == 0 ==> self@.stack.len() == 0,
                self@.evict_measure() <= v.evict_measure(),
                v.stack.len() > 0 && v.queue.len() == 0 ==> self@.evict_measure() < v.evict_measure(),
                self@ == (SegmentView {
                    entries: self@.entries,
                    stack: self@.stack,
                    queue: self@.queue,
                    queue2: self@.queue2,
                    used_memory: self@.used_memory,
                    ..v
                }),
            decreases self@.queue.len(),
        {
            let ghost u = self@;
            let k = self.queue[self.queue.len() - 1];
            proof {
                assert(u.queue.contains(k)) by {
                    assert(u.queue[u.queue.len() - 1] == k);
                }
            }
            let i = match self.entry_index(k) {
                Some(i) => i,
                None => {
                    return ;
                },
            };
            self.make_non_resident(i);
            let ghost m = self@;
            proof {
                lemma_mem_sum_bounds(u.entries);
                assert(k != pending);
                lemma_kept_drop_value(u.entries, i as int, Entry { value: None, memory: 0, ..u.entries[i as int] });
                let pi = key_index(u.entries, pending);
                assert(0 <= pi < u.entries.len() && u.entries[pi].key == pending);
                assert(pi != i);
                lemma_value_of_key(u.entries, m.entries, pending, pi, pi);
                assert(!u.queue2.contains(k));
                lemma_add(u.queue2, k);
                lemma_remove_at(u.queue, u.queue.len() - 1);
                assert(u.queue.remove(u.queue.len() - 1) =~= u.queue.drop_last());
                assert(m.stack.len() > 0 ==> m.stack.last() == u.stack.last());
            }
            self.trimNonResidentQueue(pending);
        }
    }

    /// Evicts, the entry `pending` aside, until no more memory is used than
    /// allowed, or nothing is left to evict.
    fn evict(&mut self, pending: i64)
        requires
            old(self)@.wf(),
            old(self)@.pending(pending, old(self)@.entry(pending).value),
        ensures
            final(self)@.wf(),
            final(self)@.pending(pending, old(self)@.entry(pending).value),
            kept_or_dropped(old(self)@.entries, final(self)@.entries),
            final(self)@.used_memory <= old(self)@.used_memory,
            final(self)@.used_memory <= final(self)@.max_memory || (final(self)@.queue.len() == 0
                && final(self)@.stack.len() == 0),
            final(self)@ == (SegmentView {
                entries: final(self)@.entries,
                stack: final(self)@.stack,
                queue: final(self)@.queue,
                queue2: final(self)@.queue2,
                used_memory: final(self)@.used_memory,
                ..old(self)@
            }),
    {
        let ghost v = self@;
        let ghost pv = v.entry(pending).value;
        self.evictBlock(pending);
        while self.used_memory > self.max_memory && (self.queue.len() > 0 || self.stack.len() > 0)
            invariant
                self@.wf(),
                self@.pending(pending, pv),
                kept_or_dropped(v.entries, self@.entries),
                self@.used_memory <= v.used_memory,
                self@.used_memory <= self@.max_memory || self@.queue.len() == 0,
                self@ == (SegmentView {
                    entries: self@.entries,
                    stack: self@.stack,
                    queue: self@.queue,
                    queue2: self@.queue2,
                    used_memory: self@.used_memory,
                    ..v
                }),
            decreases self@.evict_measure(),
        {
            proof {
                lemma_queue2_len(self@, pending);
            }
            self.evictBlock(pending);
            proof {
                lemma_queue2_len(self@, pending);
            }
        }
    }

    /// Adds a new entry for `key` with `value` and its memory, in no list.
    fn push_new(&mut self, key: i64, value: V, memory: i32)
        requires
            old(self)@.wf(),
            !has_key(old(self)@.entries, key),
            0 <= memory,
            old(self)@.used_memory + memory <= i64::MAX,
        ensures
            final(self)@.wf(),
            final(self)@.pending(key, Some(value)),
            final(self)@ == (SegmentView {
                entries: old(self)@.entries.push(
                    Entry {
                        key,
                        value: Some(value),
                        memory,
                        top_move: 0,
                        on_stack: false,
                        queued: false,
                    },
                ),
                used_memory: (old(self)@.used_memory + memory) as i64,
                ..old(self)@
            }),
    {
        let ghost a = self@;
        let e = Entry::new3(key, value, memory);
        proof {
            lemma_push_entry(a.entries, e);
            assert(a.entries.push(e).drop_last() =~= a.entries);
        }
        self.entries.push(e);
        self.used_memory = self.used_memory + memory as i64;
        proof {
            let b = self@;
            assert(b.entries == a.entries.push(e));
            assert forall|j: int| 0 <= j < b.entries.len() implies {
                let f = #[trigger] b.entries[j];
                &&& f.on_stack == b.stack.contains(f.key)
                &&& f.queued == b.is_cold(f.key)
                &&& 0 <= f.memory
                &&& b.queue2.contains(f.key) <==> f.value is None
                &&& f.value is None ==> f.memory == 0
            } by {
                if j < a.entries.len() {
                    assert(b.entries[j] == a.entries[j]);
                } else {
                    assert(b.entries[j] == e);
                }
            }
            if b.stack.len() > 0 {
                let x = b.stack.last();
                assert(b.stack.contains(x)) by {
                    assert(b.stack[b.stack.len() - 1] == x);
                }
                let ai = key_index(a.entries, x);
                assert(0 <= ai < a.entries.len() && a.entries[ai].key == x);
                assert(b.entries[ai] == a.entries[ai]);
                lemma_key_index(b.entries, ai);
            }
        }
    }

    /// Places the new entry `key` on the top of the stack, in front of the
    /// cold queue first where `cold` holds and the stack is not empty.
    fn place_new(&mut self, key: i64, cold: bool)
        requires
            old(self)@.wf(),
            old(self)@.pending(key, old(self)@.entry(key).value),
        ensures
            final(self)@.wf(),
            same_content(old(self)@.entries, final(self)@.entries),
            kept_or_dropped(old(self)@.entries, final(self)@.entries),
            has_key(final(self)@.entries, key),
            final(self)@.entry(key).value == old(self)@.entry(key).value,
            final(self)@.used_memory == old(self)@.used_memory,
            final(self)@.max_memory == old(self)@.max_memory,
            final(self)@.mask == old(self)@.mask,
            ({
                let v = old(self)@;
                let j = key_index(v.entries, key);
                let to_queue = cold && v.stack.len() > 0;
                final(self)@ == (SegmentView {
                    entries: v.entries.update(
                        j,
                        Entry {
                            on_stack: true,
                            queued: to_queue,
                            top_move: v.stack_move_round_count,
                            ..v.entries[j]
                        },
                    ),
                    stack: seq![key] + v.stack,
                    queue: if to_queue {
                        seq![key] + v.queue
                    } else {
                        v.queue
                    },
                    stack_move_round_count: vstd::wrapping::i32_specs::wrapping_add(v.stack_move_round_count, 1),
                    ..v
                })
            }),
    {
        let ghost c = self@;
        let j = match self.entry_index(key) {
            Some(j) => j,
            None => {
                proof {
                    lemma_kept_same_content(c.entries, c.entries);
                }
                return ;
            },
        };
        if cold && self.stack.len() > 0 {
            proof {
                assert(c.stack.contains(c.stack.last())) by {
                    assert(c.stack[c.stack.len() - 1] == c.stack.last());
                }
            }
            self.add_to_queue(j);
        }
        let ghost d = self@;
        proof {
            lemma_same_keys(c.entries, d.entries);
            lemma_mem_sum_same(c.entries, d.entries);
            if d.stack.len() > 0 {
                let x = d.stack.last();
                assert(d.stack.contains(x)) by {
                    assert(d.stack[d.stack.len() - 1] == x);
                }
                let xi = key_index(c.entries, x);
                assert(0 <= xi < c.entries.len() && c.entries[xi].key == x);
                assert(x != key);
                lemma_key_index(d.entries, xi);
            }
        }
        self.add_to_stack(j);
        proof {
            let f = self@;
            lemma_same_keys(c.entries, f.entries);
            lemma_kept_same_content(c.entries, f.entries);
            lemma_value_of_key(c.entries, f.entries, key, j as int, j as int);
            lemma_mem_sum_same(c.entries, f.entries);
            if d.stack.len() > 0 {
                assert(f.stack.last() == d.stack.last());
            } else {
                assert(f.stack.last() == key);
            }
        }
    }

    /// Puts `value` under `key`, with its memory, and gives back the value
    /// that was there. An entry that takes more memory than the segment may
    /// use is not kept. Else, where the segment then uses more memory than
    /// allowed, cold entries are evicted and the new entry is cold if the
    /// stack is not empty; the new entry goes to the top of the stack, and is
    /// used once more where the key was there before.
    fn put(&mut self, key: i64, hash: i32, value: V, memory: i32) -> (r: Option<V>)
        requires
            old(self)@.wf(),
            hash == get_hash(key),
            0 <= memory,
            old(self)@.used_memory + memory <= i64::MAX,
        ensures
            final(self)@.wf(),
            !has_key(old(self)@.entries, key) ==> r is None,
            has_key(old(self)@.entries, key) && old(self)@.entry(key).value is None ==> r is None,
            has_key(old(self)@.entries, key) ==> (old(self)@.entry(key).value matches Some(v) ==> (r matches Some(
                w,
            ) && cloned::<V>(v, w))),
            memory > old(self)@.max_memory ==> !has_key(final(self)@.entries, key),
            memory <= old(self)@.max_memory ==> has_key(final(self)@.entries, key) && final(self)@.entry(
                key,
            ).value == Some(value),
            forall|x: i64|
                #[trigger] has_key(final(self)@.entries, x) && x != key ==> has_key(old(self)@.entries, x) && (
                final(self)@.entry(x).value == old(self)@.entry(x).value || final(self)@.entry(x).value is None),
            final(self)@.max_memory == old(self)@.max_memory,
            final(self)@.mask == old(self)@.mask,
            memory <= old(self)@.max_memory ==> final(self)@.used_memory <= final(self)@.max_memory || (
            final(self)@.queue.len() == 0 && final(self)@.stack == seq![key]),
            !has_key(old(self)@.entries, key) && memory <= old(self)@.max_memory ==> final(self)@.stack.len()
                > 0 && final(self)@.stack[0] == key,
            !has_key(old(self)@.entries, key) && old(self)@.used_memory + memory <= old(self)@.max_memory ==> {
                &&& final(self)@.stack == seq![key] + old(self)@.stack
                &&& final(self)@.queue == old(self)@.queue
                &&& final(self)@.queue2 == old(self)@.queue2
                &&& !final(self)@.is_cold(key)
            },
            !has_key(old(self)@.entries, key) && memory <= old(self)@.max_memory && old(self)@.used_memory
                + memory > old(self)@.max_memory ==> (final(self)@.queue.len() > 0 && final(self)@.queue[0]
                == key) || final(self)@.stack == seq![key],
    {
        let ghost v = self@;
        let found = self.find(key, hash);
        let existed = found.is_some();
        let mut old_value: Option<V> = None;
        match found {
            Some(i) => {
                proof {
                    let ki = key_index(v.entries, key);
                    assert(0 <= ki < v.entries.len() && v.entries[ki].key == key);
                }
                old_value = self.entries[i].getValue();
                self.remove(key, hash);
            },
            None => {
                proof {
                    lemma_kept_same_content(v.entries, v.entries);
                }
            },
        }
        let ghost a = self@;
        proof {
            lemma_mem_sum_bounds(v.entries);
            lemma_mem_sum_bounds(a.entries);
        }
        if (memory as i64) > self.max_memory {
            return old_value;
        }
        self.push_new(key, value, memory);
        let ghost b = self@;
        let over = self.used_memory > self.max_memory;
        if over {
            self.evict(key);
        }
        let ghost c = self@;
        proof {
            if !over {
                lemma_kept_same_content(b.entries, c.entries);
            }
        }
        self.place_new(key, over);
        let ghost f = self@;
        proof {
            lemma_kept_trans(b.entries, c.entries, f.entries);
        }
        if existed {
            let j = match self.entry_index(key) {
                Some(j) => j,
                None => {
                    return old_value;
                },
            };
            self.access(j);
            proof {
                let w = self@;
                lemma_kept_same_content(f.entries, w.entries);
                lemma_value_of_key(f.entries, w.entries, key, j as int, j as int);
                lemma_kept_trans(b.entries, f.entries, w.entries);
            }
        }
        proof {
            let w = self@;
            let e = Entry { key, value: Some(value), memory, top_move: 0, on_stack: false, queued: false };
            assert(b.entries == a.entries.push(e));
            lemma_put_others(v.entries, a.entries, e, w.entries);
        }
        old_value
    }

    /// An empty segment: no entries, no memory used or allowed, one hash
    /// bucket.
    pub fn default1() -> (s: Segment<V>)
        ensures
            s@.wf(),
            s@ == (SegmentView::<V> {
                entries: Seq::empty(),
                stack: Seq::empty(),
                queue: Seq::empty(),
                queue2: Seq::empty(),
                used_memory: 0,
                max_memory: 0,
                mask: 0,
                stack_move_distance: 0,
                non_resident_queue_size: 0,
                non_resident_queue_size_high: 0,
                stack_move_round_count: 0,
                hit_count: 0,
                miss_count: 0,
            }),
    {
        Segment {
            entries: Vec::new(),
            stack: Vec::new(),
            queue: Vec::new(),
            queue2: Vec::new(),
            used_memory: 0,
            max_memory: 0,
            mask: 0,
            stack_move_distance: 0,
            non_resident_queue_size: 0,
            non_resident_queue_size_high: 0,
            stack_move_round_count: 0,
            hit_count: 0,
            miss_count: 0,
        }
    }

    /// An empty segment with `len` hash buckets and these settings.
    pub fn new5(
        max_memory: i64,
        stack_move_distance: i32,
        len: i32,
        non_resident_queue_size: i32,
        non_resident_queue_size_high: i32,
    ) -> (s: Segment<V>)
        requires
            len > i32::MIN,
        ensures
            len >= 1 ==> s@.wf(),
            s@ == (SegmentView::<V> {
                entries: Seq::empty(),
                stack: Seq::empty(),
                queue: Seq::empty(),
                queue2: Seq::empty(),
                used_memory: 0,
                max_memory,
                mask: (len - 1) as i32,
                stack_move_distance,
                non_resident_queue_size,
                non_resident_queue_size_high,
                stack_move_round_count: 0,
                hit_count: 0,
                miss_count: 0,
            }),
    {
        let mut s = Self::default1();
        s.init5(max_memory, stack_move_distance, len, non_resident_queue_size, non_resident_queue_size_high);
        s
    }

    /// Empties the segment and gives it `len` hash buckets and these
    /// settings; its counters stay.
    fn init5(
        &mut self,
        max_memory: i64,
        stack_move_distance: i32,
        len: i32,
        non_resident_queue_size: i32,
        non_resident_queue_size_high: i32,
    )
        requires
            len > i32::MIN,
        ensures
            final(self)@ == (SegmentView::<V> {
                entries: Seq::empty(),
                stack: Seq::empty(),
                queue: Seq::empty(),
                queue2: Seq::empty(),
                used_memory: 0,
                max_memory,
                mask: (len - 1) as i32,
                stack_move_distance,
                non_resident_queue_size,
                non_resident_queue_size_high,
                ..old(self)@
            }),
    {
        self.max_memory = max_memory;
        self.stack_move_distance = stack_move_distance;
        self.non_resident_queue_size = non_resident_queue_size;
        self.non_resident_queue_size_high = non_resident_queue_size_high;
        self.mask = len - 1;
        self.entries = Vec::new();
        self.stack = Vec::new();
        self.queue = Vec::new();
        self.queue2 = Vec::new();
        self.used_memory = 0;
        proof {
            assert(self@.entries =~= Seq::<Entry<V>>::empty());
        }
    }

    /// The number of hash buckets that the segment should be resized to, or
    /// 0 where it should keep its size; see `new_map_len`.
    pub fn getNewMapLen(&self) -> (r: i32)
        requires
            self@.wf(),
        ensures
            r == new_map_len(self@.mask + 1, self@.entries.len() as int),
    {
        let len: i128 = self.mask as i128 + 1;
        let map_size: i128 = self.entries.len() as i128;
        if len * 3 < map_size * 4 && len < 0x1000_0000i128 {
            return (len * 2) as i32;
        }
        if len > 32 && len / 8 > map_size {
            return (len / 2) as i32;
        }
        0
    }

    /// Whether an entry of `es` has the key `k`.
    fn has_entry(es: &Vec<Entry<V>>, k: i64) -> (r: bool)
        ensures
            r == has_key(es@, k),
    {
        let mut i: usize = 0;
        while i < es.len()
            invariant
                i <= es@.len(),
                forall|j: int| 0 <= j < i ==> es@[j].key != k,
            decreases es@.len() - i,
        {
            if es[i].key == k {
                return true;
            }
            i = i + 1;
        }
        false
    }

    /// Adds to `es` a resized copy of the entry of `k` in this segment, on
    /// its lists, and its memory to `used`.
    fn push_copy(&self, k: i64, top_move: Option<i32>, es: &mut Vec<Entry<V>>, used: &mut i64)
        requires
            self@.wf(),
            in_lists(self@, k),
            partial_copy(self@, old(es)@, *old(used)),
            !has_key(old(es)@, k),
            top_move is None <==> !self@.stack.contains(k),
            top_move matches Some(t) ==> t == self@.stack.len() - 1 - self@.stack.index_of(k),
        ensures
            partial_copy(self@, final(es)@, *final(used)),
            final(es)@.len() == old(es)@.len() + 1,
            final(es)@.drop_last() == old(es)@,
            final(es)@.last().key == k,
    {
        let ghost v = self@;
        proof {
            assert(has_key(v.entries, k));
        }
        let oi = match self.entry_index(k) {
            Some(oi) => oi,
            None => {
                return ;
            },
        };
        let mut e = Entry::new1(&self.entries[oi]);
        e.on_stack = self.entries[oi].on_stack;
        e.queued = self.entries[oi].queued;
        match top_move {
            Some(t) => {
                e.top_move = t;
            },
            None => {},
        }
        let ghost es0 = es@;
        proof {
            lemma_mem_sum_bounds(v.entries);
            assert(resized_copy(v, e));
            lemma_push_entry(es0, e);
            assert(es0.push(e).drop_last() =~= es0);
            let es1 = es0.push(e);
            assert forall|i: int| 0 <= i < es1.len() implies has_key(v.entries, #[trigger] es1[i].key)
                && v.entries[key_index(v.entries, es1[i].key)].memory == es1[i].memory by {
                if i < es0.len() {
                    assert(es1[i] == es0[i]);
                    assert(resized_copy(v, es0[i]));
                } else {
                    assert(es1[i] == e);
                }
            }
            lemma_sub_sum(es1, v.entries);
        }
        *used = *used + e.memory as i64;
        es.push(e);
        proof {
            let es1 = es@;
            assert forall|i: int| 0 <= i < es1.len() implies resized_copy(v, #[trigger] es1[i]) && in_lists(v, es1[i].key) by {
                if i < es0.len() {
                    assert(es1[i] == es0[i]);
                } else {
                    assert(es1[i] == e);
                }
            }
        }
    }

    /// Adds resized copies of the entries of `list`, from its back to its
    /// front, that `es` does not hold yet.
    fn push_copies(&self, list: &Vec<i64>, es: &mut Vec<Entry<V>>, used: &mut i64)
        requires
            self@.wf(),
            list@ == self@.queue || list@ == self@.queue2,
            partial_copy(self@, old(es)@, *old(used)),
            forall|x: i64| #[trigger] self@.stack.contains(x) ==> has_key(old(es)@, x),
        ensures
            partial_copy(self@, final(es)@, *final(used)),
            forall|x: i64| #[trigger] has_key(old(es)@, x) ==> has_key(final(es)@, x),
            forall|x: i64| #[trigger] list@.contains(x) ==> has_key(final(es)@, x),
    {
        let ghost v = self@;
        let ghost es_start = es@;
        let mut q = list.len();
        while q > 0
            invariant
                v == self@,
                self@.wf(),
                list@ == self@.queue || list@ == self@.queue2,
                q <= list@.len(),
                partial_copy(self@, es@, *used),
                forall|x: i64| #[trigger] self@.stack.contains(x) ==> has_key(es@, x),
                forall|x: i64| #[trigger] has_key(es_start, x) ==> has_key(es@, x),
                forall|j: int| q <= j < list@.len() ==> has_key(es@, #[trigger] list@[j]),
            decreases q,
        {
            q = q - 1;
            let k = list[q];
            if !Self::has_entry(es, k) {
                let ghost es0 = es@;
                proof {
                    assert(list@.contains(k)) by {
                        assert(list@[q as int] == k);
                    }
                    assert(!self@.stack.contains(k));
                }
                self.push_copy(k, None, es, used);
                proof {
                    let es1 = es@;
                    assert forall|x: i64| has_key(es0, x) implies has_key(es1, x) by {
                        let j = choose|j: int| 0 <= j < es0.len() && es0[j].key == x;
                        assert(es1[j] == es0[j]);
                    }
                    assert(es1[es1.len() - 1].key == k);
                }
            }
        }
        proof {
            assert forall|x: i64| #[trigger] list@.contains(x) implies has_key(es@, x) by {
                let j = choose|j: int| 0 <= j < list@.len() && list@[j] == x;
                assert(has_key(es@, list@[j]));
            }
        }
    }

    /// A copy of `list`.
    fn copy_keys(list: &Vec<i64>) -> (r: Vec<i64>)
        ensures
            r@ == list@,
    {
        let mut r: Vec<i64> = Vec::new();
        let mut i: usize = 0;
        while i < list.len()
            invariant
                i <= list@.len(),
                r@ == list@.subrange(0, i as int),
            decreases list@.len() - i,
        {
            r.push(list[i]);
            i = i + 1;
        }
        proof {
            assert(r@ =~= list@);
        }
        r
    }

    /// A resized copy of the segment `old` with `len` hash buckets: the same
    /// stack and queues, with copies of the entries on them, which are moved
    /// to the top of the new stack from the bottom of the old one up.
    pub fn new2(old: &Segment<V>, len: i32) -> (s: Segment<V>)
        requires
            old@.wf(),
            len > i32::MIN,
            old@.stack.len() < i32::MAX,
        ensures
            len >= 1 ==> s@.wf(),
            s@.links(),
            s@.used_memory == mem_sum(s@.entries),
            s@.used_memory <= old@.used_memory,
            s@.stack == old@.stack,
            s@.queue == old@.queue,
            s@.queue2 == old@.queue2,
            forall|i: int| 0 <= i < s@.entries.len() ==> resized_copy(old@, #[trigger] s@.entries[i]),
            forall|x: i64| #[trigger] has_key(s@.entries, x) == in_lists(old@, x),
            s@.max_memory == old@.max_memory,
            s@.mask == len - 1,
            s@.stack_move_distance == old@.stack_move_distance,
            s@.non_resident_queue_size == old@.non_resident_queue_size,
            s@.non_resident_queue_size_high == old@.non_resident_queue_size_high,
            s@.stack_move_round_count == old@.stack.len(),
            s@.hit_count == old@.hit_count,
            s@.miss_count == old@.miss_count,
    {
        let ghost v = old@;
        let n = old.stack.len();
        let mut es: Vec<Entry<V>> = Vec::new();
        let mut used: i64 = 0;
        let mut round: i32 = 0;
        let mut p: usize = n;
        proof {
            assert(es@ =~= Seq::<Entry<V>>::empty());
        }
        while p > 0
            invariant
                v == old@,
                old@.wf(),
                n == v.stack.len(),
                n < i32::MAX,
                p <= n,
                round == n - p,
                es@.len() == n - p,
                partial_copy(v, es@, used),
                forall|i: int| 0 <= i < es@.len() ==> (#[trigger] es@[i]).key == v.stack[n - 1 - i],
            decreases p,
        {
            p = p - 1;
            let k = old.stack[p];
            proof {
                assert(v.stack.contains(k)) by {
                    assert(v.stack[p as int] == k);
                }
                assert(v.stack.index_of(k) == p) by {
                    let q = v.stack.index_of(k);
                    assert(v.stack[q] == k);
                    if q != p {
                        assert(v.stack[q] != v.stack[p as int]);
                    }
                }
                assert(!has_key(es@, k)) by {
                    if has_key(es@, k) {
                        let j = choose|j: int| 0 <= j < es@.len() && es@[j].key == k;
                        assert(v.stack[n - 1 - j] == k);
                        assert(n - 1 - j != p);
                    }
                }
            }
            let ghost es0 = es@;
            old.push_copy(k, Some(round), &mut es, &mut used);
            round = round + 1;
            proof {
                assert forall|i: int| 0 <= i < es@.len() implies (#[trigger] es@[i]).key == v.stack[n - 1 - i] by {
                    if i < es0.len() {
                        assert(es@[i] == es0[i]);
                    }
                }
            }
        }
        proof {
            assert forall|x: i64| #[trigger] v.stack.contains(x) implies has_key(es@, x) by {
                let j = choose|j: int| 0 <= j < v.stack.len() && v.stack[j] == x;
                assert(es@[n - 1 - j].key == x);
            }
        }
        let ghost es1 = es@;
        old.push_copies(&old.queue, &mut es, &mut used);
        let ghost es2 = es@;
        old.push_copies(&old.queue2, &mut es, &mut used);
        let stack = Self::copy_keys(&old.stack);
        let queue = Self::copy_keys(&old.queue);
        let queue2 = Self::copy_keys(&old.queue2);
        let s = Segment {
            entries: es,
            stack,
            queue,
            queue2,
            used_memory: used,
            max_memory: old.max_memory,
            mask: len - 1,
            stack_move_distance: old.stack_move_distance,
            non_resident_queue_size: old.non_resident_queue_size,
            non_resident_queue_size_high: old.non_resident_queue_size_high,
            stack_move_round_count: round,
            hit_count: old.hit_count,
            miss_count: old.miss_count,
        };
        proof {
            let w = s@;
            assert forall|x: i64| #[trigger] has_key(w.entries, x) == in_lists(v, x) by {
                if has_key(w.entries, x) {
                    let j = choose|j: int| 0 <= j < w.entries.len() && w.entries[j].key == x;
                    assert(in_lists(v, w.entries[j].key));
                }
                if in_lists(v, x) {
                    if v.stack.contains(x) {
                        assert(has_key(es1, x));
                        assert(has_key(es2, x));
                    } else if v.queue.contains(x) {
                        assert(has_key(es2, x));
                    }
                }
            }
            assert forall|j: int| 0 <= j < w.entries.len() implies {
                let e = #[trigger] w.entries[j];
                &&& e.on_stack == w.stack.contains(e.key)
                &&& e.queued == w.is_cold(e.key)
                &&& 0 <= e.memory
                &&& w.queue2.contains(e.key) <==> e.value is None
                &&& e.value is None ==> e.memory == 0
            } by {
                let e = w.entries[j];
                assert(resized_copy(v, e));
                let oi = key_index(v.entries, e.key);
                assert(0 <= oi < v.entries.len() && v.entries[oi].key == e.key);
            }
            lemma_sub_sum(w.entries, v.entries);
        }
        s
    }
}


/// The new number of hash buckets for a segment with `len` buckets and `size`
/// entries: twice as many above 75% use while under 2^28 buckets, half as
/// many below 12.5% use with more than 32 buckets, else 0 for no change.
pub open spec fn new_map_len(len: int, size: int) -> int {
    if len * 3 < size * 4 && len < 0x1000_0000 {
        len * 2
    } else if len > 32 && len / 8 > size {
        len / 2
    } else {
        0
    }
}

/// The bits of the hash of a key: the two halves of the key folded together,
/// the upper half dropped, then mixed.
pub open spec fn hash_bits(key: i64) -> u32 {
    let x = ((key as u64 >> 32u64) ^ (key as u64)) as u32;
    let h1 = x >> 16u32;
    let h2 = vstd::wrapping::u32_specs::wrapping_mul((h1 >> 16u32) ^ h1, 0x45d9f3bu32);
    let h3 = vstd::wrapping::u32_specs::wrapping_mul((h2 >> 16u32) ^ h2, 0x45d9f3bu32);
    (h3 >> 16u32) ^ h3
}

/// The hash of a key; see `hash_bits`.
pub open spec fn get_hash(key: i64) -> i32 {
    hash_bits(key) as i32
}

/// The hash of a key; see `hash_bits`.
pub fn getHash(key: i64) -> (h: i32)
    ensures
        h == get_hash(key),
{
    let x: u32 = (((key as u64) >> 32u64) ^ (key as u64)) as u32;
    let h1: u32 = x >> 16u32;
    let h2: u32 = ((h1 >> 16u32) ^ h1).wrapping_mul(0x45d9f3bu32);
    let h3: u32 = ((h2 >> 16u32) ^ h2).wrapping_mul(0x45d9f3bu32);
    let h: u32 = (h3 >> 16u32) ^ h3;
    h as i32
}


/// The number of one bits among the lowest `n` bits of `x`.
pub open spec fn ones_below(x: u64, n: nat) -> nat
    decreases n,
{
    if n == 0 {
        0
    } else {
        ones_below(x, (n - 1) as nat) + (if (x >> ((n - 1) as u64)) & 1 == 1 {
            1nat
        } else {
            0nat
        })
    }
}

/// The number of one bits of `x`, as `count_ones` gives it.
pub open spec fn bit_count(x: i32) -> nat {
    ones_below(x as u32 as u64, 32)
}

proof fn lemma_ones_below_zero(x: u64, n: nat)
    requires
        n <= 32,
        ones_below(x, n) == 0,
    ensures
        x & (((1u64 << (n as u64)) - 1) as u64) == 0,
    decreases n,
{
    if n > 0 {
        lemma_ones_below_zero(x, (n - 1) as nat);
        let m = (n - 1) as u64;
        assert((x >> m) & 1 != 1);
        assert(x & (((1u64 << m) - 1) as u64) == 0 && (x >> m) & 1 != 1 && m < 32 ==> x & (((1u64 << (m
            + 1)) - 1) as u64) == 0) by (bit_vector);
    } else {
        assert(x & (((1u64 << 0u64) - 1) as u64) == 0) by (bit_vector);
    }
}

/// The number of one bits of a nonzero value is between 1 and 32.
pub proof fn lemma_bit_count_bounds(x: i32)
    ensures
        bit_count(x) <= 32,
        x != 0 ==> bit_count(x) >= 1,
{
    let y = x as u32 as u64;
    lemma_ones_below_le(y, 32);
    if x != 0 && bit_count(x) == 0 {
        lemma_ones_below_zero(y, 32);
        assert(y & (((1u64 << 32u64) - 1) as u64) == 0 && y < 0x1_0000_0000 ==> y == 0) by (bit_vector);
        assert(y == 0);
        assert(x as u32 == 0);
        assert(x == 0) by (bit_vector)
            requires
                x as u32 == 0,
        ;
    }
}

proof fn lemma_ones_below_le(x: u64, n: nat)
    ensures
        ones_below(x, n) <= n,
    decreases n,
{
    if n > 0 {
        lemma_ones_below_le(x, (n - 1) as nat);
    }
}

/// The number of one bits of `x`.
fn count_ones(x: i32) -> (r: u32)
    ensures
        r == bit_count(x),
{
    let y: u64 = x as u32 as u64;
    let mut c: u32 = 0;
    let mut i: u64 = 0;
    while i < 32
        invariant
            i <= 32,
            c == ones_below(y, i as nat),
            y == x as u32 as u64,
        decreases 32 - i,
    {
        proof {
            lemma_ones_below_le(y, i as nat);
        }
        if (y >> i) & 1 == 1 {
            c = c + 1;
        }
        i = i + 1;
    }
    c
}

/// The segment that a hash falls in: its bits shifted right by `shift`,
/// masked with `mask`.
pub open spec fn segment_index(hash: i32, shift: i32, mask: i32) -> int {
    ((((hash as u32) >> (shift as u32)) as i32) & mask) as int
}

/// What a cache holds: the memory it may use, its segments, how many there
/// should be, the shift and mask that pick a segment for a hash, and the
/// settings its segments are made with.
#[verifier::ext_equal]
pub struct CacheView<V> {
    pub max_memory: i64,
    pub segments: Seq<SegmentView<V>>,
    pub segment_count: i32,
    pub segment_shift: i32,
    pub segment_mask: i32,
    pub stack_move_distance: i32,
    pub non_resident_queue_size: i32,
    pub non_resident_queue_size_high: i32,
}

impl<V> CacheView<V> {
    /// Every hash picks one of the segments, and every segment is well formed.
    pub open spec fn wf(self) -> bool {
        &&& 0 <= self.segment_mask < self.segments.len()
        &&& 0 <= self.segment_shift < 32
        &&& forall|i: int| 0 <= i < self.segments.len() ==> (#[trigger] self.segments[i]).wf()
    }

    /// The index of the segment of `key`.
    pub open spec fn index_of_key(self, key: i64) -> int {
        segment_index(get_hash(key), self.segment_shift, self.segment_mask)
    }

    /// The segment of `key`.
    pub open spec fn segment_of(self, key: i64) -> SegmentView<V> {
        self.segments[self.index_of_key(key)]
    }
}

/// In a well formed cache every key picks one of the segments.
pub proof fn lemma_segment_index_bounds<V>(c: CacheView<V>, key: i64)
    requires
        c.wf(),
    ensures
        0 <= c.index_of_key(key) < c.segments.len(),
{
    let y = ((get_hash(key) as u32) >> (c.segment_shift as u32)) as i32;
    let m = c.segment_mask;
    assert(m >= 0 ==> (y & m) >= 0 && (y & m) <= m) by (bit_vector);
}

/// What a lookup of `key` does to a cache `before`, leaving it `after`, and
/// gives back: only the segment of the key changes, and there not what it
/// holds; a key that the segment does not hold resident gives nothing and is
/// counted as a miss, one that it holds gives a clone of its value, is
/// counted as a hit and used by the LIRS policy (see `accessed`).
pub open spec fn get_outcome<V: Clone>(before: CacheView<V>, key: i64, after: CacheView<V>, r: Option<V>) -> bool {
    let seg = before.segment_of(key);
    &&& after.segments.len() == before.segments.len()
    &&& forall|j: int|
        0 <= j < before.segments.len() && j != before.index_of_key(key) ==> #[trigger] after.segments[j]
            == before.segments[j]
    &&& same_content(seg.entries, after.segment_of(key).entries)
    &&& after == (CacheView { segments: after.segments, ..before })
    &&& !has_key(seg.entries, key) ==> r is None
    &&& has_key(seg.entries, key) && seg.entry(key).value is None ==> r is None
    &&& has_key(seg.entries, key) ==> (seg.entry(key).value matches Some(v) ==> (r matches Some(w) && cloned::<V>(
        v,
        w,
    )))
    &&& r is None ==> after.segment_of(key) == (SegmentView {
        miss_count: vstd::wrapping::i32_specs::wrapping_add(seg.miss_count, 1),
        ..seg
    })
    &&& r is Some ==> after.segment_of(key).hit_count == vstd::wrapping::i32_specs::wrapping_add(seg.hit_count, 1)
        && accessed(seg, key_index(seg.entries, key), SegmentView { hit_count: seg.hit_count, ..after.segment_of(key) })
}

/// What a put of `value` under `key` with `memory` does to a cache `before`,
/// leaving it `after`, and gives back: no value is refused and changes
/// nothing; otherwise only the segment of the key changes; there the key
/// holds the value where its memory fits the segment and is gone where it
/// does not, no other key is added, and every other key keeps its value or
/// loses it to eviction. Where the memory fits, the segment then uses no more
/// memory than it may, unless eviction emptied its cold queue and left the
/// key alone on its stack. A new key goes to the top of the stack; where the
/// segment had room for it, nothing is evicted and the key is hot, the lists
/// otherwise as they were.
pub open spec fn put_outcome<V: Clone>(
    before: CacheView<V>,
    key: i64,
    value: Option<V>,
    memory: i32,
    after: CacheView<V>,
    r: Result<(), DbError>,
) -> bool {
    let seg = before.segment_of(key);
    let new_seg = after.segment_of(key);
    &&& value is None ==> (r matches Err(e) && is_error(
        e,
        error_code::GENERAL_ERROR_1,
        seq!["The value may not be null"@],
    )) && after == before
    &&& value is Some ==> r is Ok
    &&& after.segments.len() == before.segments.len()
    &&& forall|j: int|
        0 <= j < before.segments.len() && j != before.index_of_key(key) ==> #[trigger] after.segments[j]
            == before.segments[j]
    &&& after == (CacheView { segments: after.segments, ..before })
    &&& value matches Some(v) ==> (memory <= seg.max_memory ==> has_key(new_seg.entries, key) && new_seg.entry(
        key,
    ).value == Some(v))
    &&& value is Some && memory > seg.max_memory ==> !has_key(new_seg.entries, key)
    &&& forall|x: i64| #[trigger] has_key(new_seg.entries, x) ==> x == key || has_key(seg.entries, x)
    &&& forall|x: i64|
        #[trigger] has_key(new_seg.entries, x) && x != key ==> value_kept(seg.entry(x).value, new_seg.entry(x).value)
            || new_seg.entry(x).value is None
    &&& new_seg.max_memory == seg.max_memory
    &&& value is Some && memory <= seg.max_memory ==> new_seg.used_memory <= new_seg.max_memory || (
    new_seg.queue.len() == 0 && new_seg.stack == seq![key])
    &&& value is Some && !has_key(seg.entries, key) && memory <= seg.max_memory ==> new_seg.stack.len() > 0
        && new_seg.stack[0] == key
    &&& value is Some && !has_key(seg.entries, key) && seg.used_memory + memory <= seg.max_memory ==> {
        &&& new_seg.stack == seq![key] + seg.stack
        &&& new_seg.queue == seg.queue
        &&& new_seg.queue2 == seg.queue2
        &&& !new_seg.is_cold(key)
    }
}

/// A lookup right after a put finds the value put, where its memory fits
/// the segment of the key.
pub proof fn law_get_after_put<V: Clone>(
    c0: CacheView<V>,
    c1: CacheView<V>,
    c2: CacheView<V>,
    key: i64,
    value: V,
    memory: i32,
    r1: Result<(), DbError>,
    r2: Option<V>,
)
    requires
        put_outcome(c0, key, Some(value), memory, c1, r1),
        get_outcome(c1, key, c2, r2),
        memory <= c0.segment_of(key).max_memory,
    ensures
        r2 matches Some(w) && cloned::<V>(value, w),
{
}

/// A value whose memory exceeds what the segment of its key may use is not
/// kept: a lookup right after its put finds nothing.
pub proof fn law_oversized_not_kept<V: Clone>(
    c0: CacheView<V>,
    c1: CacheView<V>,
    c2: CacheView<V>,
    key: i64,
    value: V,
    memory: i32,
    r1: Result<(), DbError>,
    r2: Option<V>,
)
    requires
        put_outcome(c0, key, Some(value), memory, c1, r1),
        get_outcome(c1, key, c2, r2),
        memory > c0.segment_of(key).max_memory,
    ensures
        r2 is None,
{
}

/// A put makes up no other key: where a lookup of another key right after it
/// finds a value, the cache held that key before.
pub proof fn law_put_adds_no_other_key<V: Clone>(
    c0: CacheView<V>,
    c1: CacheView<V>,
    c2: CacheView<V>,
    key: i64,
    other: i64,
    value: Option<V>,
    memory: i32,
    r1: Result<(), DbError>,
    r2: Option<V>,
)
    requires
        c0.wf(),
        put_outcome(c0, key, value, memory, c1, r1),
        get_outcome(c1, other, c2, r2),
        other != key,
    ensures
        r2 is Some ==> has_key(c0.segment_of(other).entries, other),
{
    if r2 is Some {
        let i = c0.index_of_key(other);
        let j = c0.index_of_key(key);
        assert(c1.index_of_key(other) == i && c1.index_of_key(key) == j);
        assert(has_key(c1.segments[i].entries, other));
        if i != j {
            lemma_segment_index_bounds(c0, other);
            assert(c1.segments[i] == c0.segments[i]);
        } else {
            assert(has_key(c1.segment_of(key).entries, other));
        }
    }
}

/// A cache with long keys, split into segments by the hash of the key, each
/// of which evicts by the LIRS policy.
pub struct CacheLongKeyLIRS<V> {
    max_memory: i64,
    segments: Vec<Segment<V>>,
    segment_count: i32,
    segment_shift: i32,
    segment_mask: i32,
    stack_move_distance: i32,
    non_resident_queue_size: i32,
    non_resident_queue_size_high: i32,
}

impl<V> View for CacheLongKeyLIRS<V> {
    type V = CacheView<V>;

    closed spec fn view(&self) -> CacheView<V> {
        CacheView {
            max_memory: self.max_memory,
            segments: self.segments@.map_values(|s: Segment<V>| s@),
            segment_count: self.segment_count,
            segment_shift: self.segment_shift,
            segment_mask: self.segment_mask,
            stack_move_distance: self.stack_move_distance,
            non_resident_queue_size: self.non_resident_queue_size,
            non_resident_queue_size_high: self.non_resident_queue_size_high,
        }
    }
}

impl<V: Clone> CacheLongKeyLIRS<V> {
    /// A cache with the settings of `config`; see `init`.
    pub fn new(config: &CacheLongKeyLIRSConfig) -> (c: CacheLongKeyLIRS<V>)
        requires
            config.segment_count > 0,
        ensures
            config.segment_count >= 2 ==> c@.wf(),
            c@.max_memory == config.max_memory,
            c@.segment_count == config.segment_count,
            c@.segment_mask == config.segment_count - 1,
            c@.segment_shift == 32 - bit_count((config.segment_count - 1) as i32),
            c@.stack_move_distance == config.stack_move_distance,
            c@.non_resident_queue_size == config.non_resident_queue_size,
            c@.non_resident_queue_size_high == config.non_resident_queue_size_high,
            c@.segments.len() == (if config.segment_count > 0 {
                config.segment_count as int
            } else {
                0
            }),
            forall|i: int|
                0 <= i < c@.segments.len() ==> #[trigger] c@.segments[i] == empty_segment::<V>(
                    max_item_size_of(config.max_memory, config.segment_count) as i64,
                    *config,
                ),
    {
        let mut c = CacheLongKeyLIRS {
            max_memory: 0,
            segments: Vec::new(),
            segment_count: 0,
            segment_shift: 0,
            segment_mask: 0,
            stack_move_distance: 0,
            non_resident_queue_size: 0,
            non_resident_queue_size_high: 0,
        };
        c.init(config);
        c
    }

    /// Sets up the cache with the settings of `config`: `segment_count` empty
    /// segments, each allowed the largest item size and with 8 hash buckets,
    /// and the shift and mask that pick a segment from the high bits of a
    /// hash.
    pub fn init(&mut self, config: &CacheLongKeyLIRSConfig)
        requires
            config.segment_count > 0,
        ensures
            config.segment_count >= 2 ==> final(self)@.wf(),
            final(self)@.max_memory == config.max_memory,
            final(self)@.segment_count == config.segment_count,
            final(self)@.segment_mask == config.segment_count - 1,
            final(self)@.segment_shift == 32 - bit_count((config.segment_count - 1) as i32),
            final(self)@.stack_move_distance == config.stack_move_distance,
            final(self)@.non_resident_queue_size == config.non_resident_queue_size,
            final(self)@.non_resident_queue_size_high == config.non_resident_queue_size_high,
            final(self)@.segments.len() == (if config.segment_count > 0 {
                config.segment_count as int
            } else {
                0
            }),
            forall|i: int|
                0 <= i < final(self)@.segments.len() ==> #[trigger] final(self)@.segments[i]
                    == empty_segment::<V>(max_item_size_of(config.max_memory, config.segment_count) as i64, *config),
    {
        self.segment_count = config.segment_count;
        self.max_memory = config.max_memory;
        self.non_resident_queue_size = config.non_resident_queue_size;
        self.non_resident_queue_size_high = config.non_resident_queue_size_high;
        self.segment_mask = self.segment_count - 1;
        self.stack_move_distance = config.stack_move_distance;
        self.segments = Vec::new();
        proof {
            assert(self@.segments =~= Seq::<SegmentView<V>>::empty());
        }
        self.clear();
        let ones = count_ones(self.segment_mask);
        proof {
            lemma_bit_count_bounds(self.segment_mask);
        }
        self.segment_shift = 32 - ones as i32;
        proof {
            let w = self@;
            if config.segment_count >= 2 {
                assert forall|i: int| 0 <= i < w.segments.len() implies (#[trigger] w.segments[i]).wf() by {
                    assert(w.segments[i] == empty_segment::<V>(
                        max_item_size_of(config.max_memory, config.segment_count) as i64,
                        *config,
                    ));
                }
            }
        }
    }

    /// Adds `segment_count` empty segments, each allowed the largest item
    /// size, with 8 hash buckets and the settings of the cache.
    pub fn clear(&mut self)
        requires
            old(self)@.segment_count > 0,
        ensures
            final(self)@ == (CacheView {
                segments: old(self)@.segments + Seq::new(
                    (if old(self)@.segment_count > 0 {
                        old(self)@.segment_count as nat
                    } else {
                        0nat
                    }),
                    |i: int|
                        empty_segment_with::<V>(
                            max_item_size_of(old(self)@.max_memory, old(self)@.segment_count) as i64,
                            old(self)@.stack_move_distance,
                            old(self)@.non_resident_queue_size,
                            old(self)@.non_resident_queue_size_high,
                        ),
                ),
                ..old(self)@
            }),
    {
        let ghost v = self@;
        let max = self.get_max_item_size();
        let mut i: i32 = 0;
        let n: i32 = if self.segment_count > 0 {
            self.segment_count
        } else {
            0
        };
        let ghost e = empty_segment_with::<V>(
            max,
            v.stack_move_distance,
            v.non_resident_queue_size,
            v.non_resident_queue_size_high,
        );
        while i < n
            invariant
                0 <= i <= n,
                n == (if v.segment_count > 0 {
                    v.segment_count
                } else {
                    0
                }),
                max == max_item_size_of(v.max_memory, v.segment_count),
                e == empty_segment_with::<V>(
                    max,
                    v.stack_move_distance,
                    v.non_resident_queue_size,
                    v.non_resident_queue_size_high,
                ),
                self@ == (CacheView {
                    segments: v.segments + Seq::new(i as nat, |j: int| e),
                    ..v
                }),
            decreases n - i,
        {
            let s = Segment::<V>::new5(
                max,
                self.stack_move_distance,
                8,
                self.non_resident_queue_size,
                self.non_resident_queue_size_high,
            );
            proof {
                assert(s@.mask == 7);
                assert(s@.max_memory == e.max_memory);
                assert(s@.stack_move_distance == e.stack_move_distance);
                assert(s@.non_resident_queue_size == e.non_resident_queue_size);
                assert(s@.non_resident_queue_size_high == e.non_resident_queue_size_high);
                assert(s@ =~= e);
            }
            let ghost before = self.segments@;
            self.segments.push(s);
            i = i + 1;
            proof {
                assert(self.segments@ == before.push(s));
                assert(self@.segments =~= v.segments + Seq::new((i - 1) as nat, |j: int| e) + seq![e]);
                assert(self@.segments =~= v.segments + Seq::new(i as nat, |j: int| e));
            }
        }
    }

    /// The largest item that fits: the memory of one segment, and at least 1.
    pub fn get_max_item_size(&self) -> (r: i64)
        requires
            self@.segment_count > 0,
        ensures
            r == max_item_size_of(self@.max_memory, self@.segment_count),
    {
        let per_segment = self.max_memory / (self.segment_count as i64);
        if per_segment > 1 {
            per_segment
        } else {
            1
        }
    }

    /// Sets the memory the cache may use; each segment, where there are any,
    /// may use one more than its share of it.
    pub fn setMaxMemory(&mut self, max_memory: i64)
        requires
            !(old(self)@.segments.len() == 1 && max_memory == i64::MAX),
        ensures
            old(self)@.wf() ==> final(self)@.wf(),
            final(self)@ == (CacheView {
                max_memory,
                segments: old(self)@.segments.map_values(
                    |sv: SegmentView<V>|
                        SegmentView {
                            max_memory: (1 + div_trunc(max_memory as int, old(self)@.segments.len() as int)) as i64,
                            ..sv
                        },
                ),
                ..old(self)@
            }),
    {
        let ghost v = self@;
        self.max_memory = max_memory;
        let len = self.segments.len();
        if len == 0 {
            proof {
                assert(self@.segments =~= v.segments.map_values(
                    |sv: SegmentView<V>|
                        SegmentView {
                            max_memory: (1 + div_trunc(max_memory as int, v.segments.len() as int)) as i64,
                            ..sv
                        },
                ));
            }
            return ;
        }
        let q: i128 = (max_memory as i128) / (len as i128);
        proof {
            assert(q == div_trunc(max_memory as int, len as int));
            let a = max_memory as int;
            let b = len as int;
            if a >= 0 {
                assert(0 <= a / b <= a) by (nonlinear_arith)
                    requires
                        a >= 0,
                        b >= 1,
                ;
                if b >= 2 && a > 0 {
                    assert(a / b < a) by (nonlinear_arith)
                        requires
                            a > 0,
                            b >= 2,
                    ;
                }
            } else {
                assert(0 <= (-a) / b <= -a) by (nonlinear_arith)
                    requires
                        a < 0,
                        b >= 1,
                ;
            }
        }
        let m: i64 = (1 + q) as i64;
        let mut i: usize = 0;
        while i < len
            invariant
                len == self.segments@.len(),
                len == v.segments.len(),
                i <= len,
                m == 1 + div_trunc(max_memory as int, len as int),
                self@.max_memory == max_memory,
                forall|j: int| 0 <= j < i ==> #[trigger] self@.segments[j] == (SegmentView { max_memory: m, ..v.segments[j] }),
                forall|j: int| i <= j < len ==> #[trigger] self@.segments[j] == v.segments[j],
                self@ == (CacheView { max_memory, segments: self@.segments, ..v }),
            decreases len - i,
        {
            let ghost before = self.segments@;
            let ghost prev = self@;
            proof {
                assert forall|j: int| 0 <= j < len implies #[trigger] prev.segments[j] == before[j]@ by {}
            }
            self.segments[i].max_memory = m;
            proof {
                assert forall|j: int| 0 <= j < len implies #[trigger] self@.segments[j] == self.segments@[j]@ by {}
                assert(self.segments@[i as int]@ == (SegmentView { max_memory: m, ..before[i as int]@ }));
                assert forall|j: int| 0 <= j < len && j != i implies self.segments@[j] == before[j] by {}
                assert forall|j: int| 0 <= j <= i implies #[trigger] self@.segments[j] == (SegmentView {
                    max_memory: m,
                    ..v.segments[j]
                }) by {
                    assert(self@.segments[j] == self.segments@[j]@);
                    assert(prev.segments[j] == before[j]@);
                    if j < i {
                        assert(self.segments@[j] == before[j]);
                    }
                }
                assert forall|j: int| i < j < len implies #[trigger] self@.segments[j] == v.segments[j] by {
                    assert(self@.segments[j] == self.segments@[j]@);
                    assert(prev.segments[j] == before[j]@);
                    assert(self.segments@[j] == before[j]);
                }
            }
            i = i + 1;
        }
        proof {
            assert(self@.segments =~= v.segments.map_values(
                |sv: SegmentView<V>|
                    SegmentView {
                        max_memory: (1 + div_trunc(max_memory as int, v.segments.len() as int)) as i64,
                        ..sv
                    },
            ));
        }
    }

    /// The index of the segment of a hash: its bits shifted right by the
    /// segment shift, masked with the segment mask.
    fn getSegmentIndex(&self, hash: i32) -> (r: i32)
        requires
            self@.wf(),
        ensures
            r == segment_index(hash, self@.segment_shift, self@.segment_mask),
            0 <= r <= self@.segment_mask,
    {
        let x: u32 = (hash as u32) >> (self.segment_shift as u32);
        let y: i32 = x as i32;
        let m = self.segment_mask;
        proof {
            assert(m >= 0 ==> (y & m) >= 0 && (y & m) <= m) by (bit_vector);
        }
        y & m
    }

    /// Resizes the segment at `index` where it should have another number of
    /// hash buckets; see `new_map_len`.
    fn resizeIfNeeded(&mut self, index: usize)
        requires
            old(self)@.wf(),
            index < old(self)@.segments.len(),
            old(self)@.segments[index as int].stack.len() < i32::MAX,
        ensures
            final(self)@.wf(),
            final(self)@.segments.len() == old(self)@.segments.len(),
            forall|j: int|
                0 <= j < old(self)@.segments.len() && j != index ==> #[trigger] final(self)@.segments[j]
                    == old(self)@.segments[j],
            final(self)@ == (CacheView { segments: final(self)@.segments, ..old(self)@ }),
            final(self)@.segments[index as int].used_memory <= old(self)@.segments[index as int].used_memory,
            final(self)@.segments[index as int].max_memory == old(self)@.segments[index as int].max_memory,
            forall|x: i64|
                #[trigger] has_key(final(self)@.segments[index as int].entries, x) ==> has_key(
                    old(self)@.segments[index as int].entries,
                    x,
                ) && value_kept(
                    old(self)@.segments[index as int].entry(x).value,
                    final(self)@.segments[index as int].entry(x).value,
                ),
            ({
                let sv = old(self)@.segments[index as int];
                let n = new_map_len(sv.mask + 1, sv.entries.len() as int);
                let nv = final(self)@.segments[index as int];
                &&& n == 0 ==> final(self)@ == old(self)@
                &&& n != 0 ==> {
                    &&& nv.mask == n - 1
                    &&& nv.stack == sv.stack
                    &&& nv.queue == sv.queue
                    &&& nv.queue2 == sv.queue2
                    &&& forall|x: i64| #[trigger] has_key(nv.entries, x) == in_lists(sv, x)
                    &&& forall|i: int| 0 <= i < nv.entries.len() ==> resized_copy(sv, #[trigger] nv.entries[i])
                    &&& nv.used_memory == mem_sum(nv.entries)
                    &&& nv.stack_move_distance == sv.stack_move_distance
                    &&& nv.non_resident_queue_size == sv.non_resident_queue_size
                    &&& nv.non_resident_queue_size_high == sv.non_resident_queue_size_high
                    &&& nv.stack_move_round_count == sv.stack.len()
                    &&& nv.hit_count == sv.hit_count
                    &&& nv.miss_count == sv.miss_count
                }
            }),
    {
        let ghost v = self@;
        proof {
            assert(v.segments[index as int].wf());
        }
        let new_len = self.segments[index].getNewMapLen();
        if new_len != 0 {
            proof {
                let sv = v.segments[index as int];
                assert(new_len >= 1) by {
                    assert(sv.mask + 1 >= 1);
                }
            }
            let s2 = Segment::new2(&self.segments[index], new_len);
            proof {
                let sv = v.segments[index as int];
                assert forall|x: i64| #[trigger] has_key(s2@.entries, x) implies has_key(sv.entries, x)
                    && value_kept(sv.entry(x).value, s2@.entry(x).value) by {
                    assert(in_lists(sv, x));
                    assert(resized_copy(sv, s2@.entries[key_index(s2@.entries, x)]));
                }
            }
            self.segments.set(index, s2);
            proof {
                assert forall|i: int| 0 <= i < self@.segments.len() implies (#[trigger] self@.segments[i]).wf() by {
                    if i != index {
                        assert(self@.segments[i] == v.segments[i]);
                    }
                }
            }
        }
    }

    /// The value of `key` where its segment holds it resident; the use is
    /// noted by that segment.
    pub fn get(&mut self, key: i64) -> (r: Option<V>)
        requires
            old(self)@.wf(),
        ensures
            final(self)@.wf(),
            get_outcome(old(self)@, key, final(self)@, r),
    {
        let ghost v = self@;
        let hash = getHash(key);
        let index = self.getSegmentIndex(hash) as usize;
        proof {
            assert(v.segments[index as int].wf());
        }
        let entry = self.segments[index].find(key, hash);
        let r = self.segments[index].get(entry);
        proof {
            assert forall|i: int| 0 <= i < self@.segments.len() implies (#[trigger] self@.segments[i]).wf() by {
                if i != index {
                    assert(self@.segments[i] == v.segments[i]);
                }
            }
        }
        r
    }

    /// Puts `value` under `key`, with its memory, in the segment of the key,
    /// which is resized first where it should be, and evicts cold entries
    /// there to keep within its memory; a missing value is refused.
    pub fn put(&mut self, key: i64, value: Option<V>, memory: i32) -> (r: Result<(), DbError>)
        requires
            old(self)@.wf(),
            0 <= memory,
            old(self)@.segment_of(key).used_memory + memory <= i64::MAX,
            old(self)@.segment_of(key).stack.len() < i32::MAX,
        ensures
            final(self)@.wf(),
            put_outcome(old(self)@, key, value, memory, final(self)@, r),
    {
        let ghost v = self@;
        let value = match value {
            Some(value) => value,
            None => {
                return Err(DbError::get(error_code::GENERAL_ERROR_1, one_param("The value may not be null")));
            },
        };
        let hash = getHash(key);
        let index = self.getSegmentIndex(hash) as usize;
        self.resizeIfNeeded(index);
        let ghost u = self@;
        proof {
            assert(u.segments[index as int].wf());
        }
        self.segments[index].put(key, hash, value, memory);
        proof {
            assert forall|i: int| 0 <= i < self@.segments.len() implies (#[trigger] self@.segments[i]).wf() by {
                if i != index {
                    assert(self@.segments[i] == u.segments[i]);
                }
            }
            assert forall|j: int| 0 <= j < v.segments.len() && j != v.index_of_key(key) implies #[trigger] self@.segments[j]
                == v.segments[j] by {
                assert(self@.segments[j] == u.segments[j]);
            }
        }
        Ok(())
    }
}

/// An empty segment allowed `max` memory, with 8 hash buckets and these
/// settings.
pub open spec fn empty_segment_with<V>(
    max: i64,
    stack_move_distance: i32,
    non_resident_queue_size: i32,
    non_resident_queue_size_high: i32,
) -> SegmentView<V> {
    SegmentView {
        entries: Seq::empty(),
        stack: Seq::empty(),
        queue: Seq::empty(),
        queue2: Seq::empty(),
        used_memory: 0,
        max_memory: max,
        mask: 7,
        stack_move_distance,
        non_resident_queue_size,
        non_resident_queue_size_high,
        stack_move_round_count: 0,
        hit_count: 0,
        miss_count: 0,
    }
}

/// An empty segment allowed `max` memory, with 8 hash buckets and the
/// settings of `config`.
pub open spec fn empty_segment<V>(max: i64, config: CacheLongKeyLIRSConfig) -> SegmentView<V> {
    empty_segment_with(
        max,
        config.stack_move_distance,
        config.non_resident_queue_size,
        config.non_resident_queue_size_high,
    )
}

} // verus!
