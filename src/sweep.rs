use vstd::prelude::*;
use crate::record::{RawMember, TelegramMember, normalize_all, normalized};
use crate::cache::{CacheStore, has_id, ids_unique};

verus! {

/// The store after offering `items` in order while at most `room` more
/// records may become unique: a record is appended iff its id is new, and
/// offering stops once `room` records were appended.
pub open spec fn merged(store: Seq<TelegramMember>, items: Seq<TelegramMember>, room: nat) -> Seq<
    TelegramMember,
>
    decreases items.len(),
{
    if room == 0 || items.len() == 0 {
        store
    } else if has_id(store, items[0].id) {
        merged(store, items.drop_first(), room)
    } else {
        merged(store.push(items[0]), items.drop_first(), (room - 1) as nat)
    }
}

/// `store` followed by each record of `items` whose id is neither in
/// `store` nor earlier in `items`, in order of first occurrence.
pub open spec fn first_seen(store: Seq<TelegramMember>, items: Seq<TelegramMember>) -> Seq<
    TelegramMember,
>
    decreases items.len(),
{
    if items.len() == 0 {
        store
    } else if has_id(store, items[0].id) {
        first_seen(store, items.drop_first())
    } else {
        first_seen(store.push(items[0]), items.drop_first())
    }
}

/// `first_seen` only appends to the store.
pub proof fn lemma_first_seen_extends(store: Seq<TelegramMember>, items: Seq<TelegramMember>)
    ensures
        first_seen(store, items).len() >= store.len(),
        first_seen(store, items).take(store.len() as int) == store,
    decreases items.len(),
{
    if items.len() == 0 {
        assert(store.take(store.len() as int) =~= store);
    } else if has_id(store, items[0].id) {
        lemma_first_seen_extends(store, items.drop_first());
    } else {
        let s2 = store.push(items[0]);
        lemma_first_seen_extends(s2, items.drop_first());
        let f = first_seen(s2, items.drop_first());
        assert(f.take(store.len() as int) =~= s2.take(s2.len() as int).take(store.len() as int));
        assert(s2.take(store.len() as int) =~= store);
    }
}

/// Deduplication keeps the first-seen record of every id: starting from a
/// store with unique ids, `first_seen` has unique ids, holds every id offered,
/// and each record it appends is the first record of `items` with that id,
/// one whose id the store did not hold.
pub proof fn lemma_first_seen_dedup(store: Seq<TelegramMember>, items: Seq<TelegramMember>)
    requires
        ids_unique(store),
    ensures
        ids_unique(first_seen(store, items)),
        forall|j: int| 0 <= j < items.len() ==> has_id(first_seen(store, items), #[trigger] items[j].id),
        forall|k: int|
            store.len() <= k < first_seen(store, items).len() ==> !has_id(store, #[trigger] first_seen(store, items)[k].id)
                && exists|j: int|
                0 <= j < items.len() && items[j] == first_seen(store, items)[k] && forall|i: int|
                    0 <= i < j ==> items[i].id != first_seen(store, items)[k].id,
    decreases items.len(),
{
    lemma_first_seen_extends(store, items);
    let f = first_seen(store, items);
    if items.len() > 0 {
        let x = items[0];
        let t = items.drop_first();
        if has_id(store, x.id) {
            lemma_first_seen_dedup(store, t);
            lemma_first_seen_extends(store, t);
            assert forall|j: int| 0 <= j < items.len() implies has_id(f, #[trigger] items[j].id) by {
                if j == 0 {
                    let w = choose|w: int| 0 <= w < store.len() && store[w].id == x.id;
                    assert(f.take(store.len() as int)[w] == store[w]);
                } else {
                    assert(items[j] == t[j - 1]);
                }
            }
            assert forall|k: int| store.len() <= k < f.len() implies !has_id(store, #[trigger] f[k].id)
                && exists|j: int|
                0 <= j < items.len() && items[j] == f[k] && forall|i: int|
                    0 <= i < j ==> items[i].id != f[k].id by {
                let jt = choose|jt: int|
                    0 <= jt < t.len() && t[jt] == f[k] && forall|i: int| 0 <= i < jt ==> t[i].id != f[k].id;
                assert(items[jt + 1] == f[k]);
                assert forall|i: int| 0 <= i < jt + 1 implies items[i].id != f[k].id by {
                    if i > 0 {
                        assert(items[i] == t[i - 1]);
                    }
                }
            }
        } else {
            let s2 = store.push(x);
            assert(ids_unique(s2)) by {
                assert forall|a: int, b: int| 0 <= a < b < s2.len() implies s2[a].id != s2[b].id by {
                    if b == store.len() {
                        assert(store[a].id == s2[a].id);
                    }
                }
            }
            lemma_first_seen_dedup(s2, t);
            lemma_first_seen_extends(s2, t);
            assert(f.take(s2.len() as int) == s2);
            assert(f.take(s2.len() as int)[store.len() as int] == x);
            assert forall|j: int| 0 <= j < items.len() implies has_id(f, #[trigger] items[j].id) by {
                if j == 0 {
                    assert(f[store.len() as int] == x);
                } else {
                    assert(items[j] == t[j - 1]);
                }
            }
            assert forall|k: int| store.len() <= k < f.len() implies !has_id(store, #[trigger] f[k].id)
                && exists|j: int|
                0 <= j < items.len() && items[j] == f[k] && forall|i: int|
                    0 <= i < j ==> items[i].id != f[k].id by {
                if k == store.len() {
                    assert(f[k] == x);
                    assert(items[0] == f[k]);
                } else {
                    let jt = choose|jt: int|
                        0 <= jt < t.len() && t[jt] == f[k] && forall|i: int|
                            0 <= i < jt ==> t[i].id != f[k].id;
                    assert(!has_id(s2, f[k].id));
                    assert(s2[store.len() as int] == x);
                    assert(x.id != f[k].id);
                    assert forall|w: int| 0 <= w < store.len() implies store[w].id != f[k].id by {
                        assert(s2[w] == store[w]);
                    }
                    assert(items[jt + 1] == f[k]);
                    assert forall|i: int| 0 <= i < jt + 1 implies items[i].id != f[k].id by {
                        if i > 0 {
                            assert(items[i] == t[i - 1]);
                        }
                    }
                }
            }
        }
    }
}

/// A capped merge is the uncapped deduplication cut after `room` new
/// records: the merge keeps first-occurrence order and stops exactly at the cap.
pub proof fn lemma_merged_is_capped_first_seen(
    store: Seq<TelegramMember>,
    items: Seq<TelegramMember>,
    room: nat,
)
    ensures
        ({
            let f = first_seen(store, items);
            merged(store, items, room) == f.take(
                if store.len() + room < f.len() { (store.len() + room) as int } else { f.len() as int },
            )
        }),
    decreases items.len(),
{
    lemma_first_seen_extends(store, items);
    let f = first_seen(store, items);
    if items.len() == 0 {
        assert(f.take(f.len() as int) =~= f);
    } else if room == 0 {
    } else if has_id(store, items[0].id) {
        lemma_merged_is_capped_first_seen(store, items.drop_first(), room);
    } else {
        lemma_merged_is_capped_first_seen(store.push(items[0]), items.drop_first(), (room - 1) as nat);
    }
}

/// A merged result holds each id once, keeps every record of the store in
/// place, and appends only first-seen records, each carrying an id the store
/// did not hold and equal to the first record of `items` with that id.
pub proof fn lemma_merged_dedup(store: Seq<TelegramMember>, items: Seq<TelegramMember>, room: nat)
    requires
        ids_unique(store),
    ensures
        ids_unique(merged(store, items, room)),
        merged(store, items, room).len() >= store.len(),
        merged(store, items, room).take(store.len() as int) == store,
        forall|k: int|
            store.len() <= k < merged(store, items, room).len() ==> !has_id(store, #[trigger] merged(store, items, room)[k].id)
                && exists|j: int|
                0 <= j < items.len() && items[j] == merged(store, items, room)[k] && forall|i: int|
                    0 <= i < j ==> items[i].id != merged(store, items, room)[k].id,
{
    lemma_merged_is_capped_first_seen(store, items, room);
    lemma_first_seen_dedup(store, items);
    lemma_first_seen_extends(store, items);
    let f = first_seen(store, items);
    let m = merged(store, items, room);
    assert(m.take(store.len() as int) =~= f.take(store.len() as int));
    assert forall|k: int| store.len() <= k < m.len() implies !has_id(store, #[trigger] m[k].id)
        && exists|j: int|
        0 <= j < items.len() && items[j] == m[k] && forall|i: int|
            0 <= i < j ==> items[i].id != m[k].id by {
        assert(m[k] == f[k]);
    }
}

/// The cap holds: a merge appends at most `room` records, and exactly `room`
/// when `items` offers at least `room` ids that the store does not hold.
pub proof fn lemma_merged_cap(store: Seq<TelegramMember>, items: Seq<TelegramMember>, room: nat)
    ensures
        merged(store, items, room).len() <= store.len() + room,
        first_seen(store, items).len() >= store.len() + room ==> merged(store, items, room).len()
            == store.len() + room,
        first_seen(store, items).len() < store.len() + room ==> merged(store, items, room)
            == first_seen(store, items),
{
    lemma_merged_is_capped_first_seen(store, items, room);
    let f = first_seen(store, items);
    if f.len() < store.len() + room {
        assert(f.take(f.len() as int) =~= f);
    }
}

/// Merging batch after batch, each with the room the earlier ones left,
/// gives the merge of their concatenation.
pub proof fn lemma_merged_concat(
    store: Seq<TelegramMember>,
    a: Seq<TelegramMember>,
    b: Seq<TelegramMember>,
    room: nat,
)
    ensures
        store.len() <= merged(store, a, room).len() <= store.len() + room,
        merged(merged(store, a, room), b, (room - (merged(store, a, room).len() - store.len())) as nat)
            == merged(store, a + b, room),
    decreases a.len(),
{
    if a.len() == 0 {
        assert(a + b =~= b);
    } else if room == 0 {
    } else {
        assert((a + b)[0] == a[0]);
        assert((a + b).drop_first() =~= a.drop_first() + b);
        if has_id(store, a[0].id) {
            lemma_merged_concat(store, a.drop_first(), b, room);
        } else {
            lemma_merged_concat(store.push(a[0]), a.drop_first(), b, (room - 1) as nat);
        }
    }
}

/// The batches of a sweep joined in query order.
pub open spec fn flatten(batches: Seq<Seq<TelegramMember>>) -> Seq<TelegramMember>
    decreases batches.len(),
{
    if batches.len() == 0 {
        Seq::empty()
    } else {
        batches[0] + flatten(batches.drop_first())
    }
}

/// The store after merging the batches one at a time, each with the room
/// that the earlier ones left, as a sweep does.
pub open spec fn merged_each(
    store: Seq<TelegramMember>,
    batches: Seq<Seq<TelegramMember>>,
    room: nat,
) -> Seq<TelegramMember>
    decreases batches.len(),
{
    if batches.len() == 0 {
        store
    } else {
        let next = merged(store, batches[0], room);
        merged_each(next, batches.drop_first(), (room - (next.len() - store.len())) as nat)
    }
}

/// A whole sweep, batch by batch, ends where a single merge of all its
/// batches joined would: a prefix whose search failed contributes the empty
/// batch, so the result is the deduplicated union of the successful batches.
pub proof fn lemma_sweep_merges_union(
    store: Seq<TelegramMember>,
    batches: Seq<Seq<TelegramMember>>,
    room: nat,
)
    ensures
        merged_each(store, batches, room) == merged(store, flatten(batches), room),
    decreases batches.len(),
{
    if batches.len() > 0 {
        let next = merged(store, batches[0], room);
        lemma_merged_concat(store, batches[0], flatten(batches.drop_first()), room);
        lemma_sweep_merges_union(next, batches.drop_first(), (room - (next.len() - store.len())) as nat);
    } else {
        assert(merged(store, Seq::<TelegramMember>::empty(), room) == store);
    }
}

/// A whole sweep from an empty cache, batch by batch (a failed search being
/// the empty batch), ends with the first-seen record of each distinct id of
/// the successful batches, in order of first occurrence, cut after `cap`:
/// its ids are unique, and it holds exactly `cap` records when the batches
/// offer at least `cap` distinct ids, every distinct id otherwise.
pub proof fn lemma_fresh_sweep_result(batches: Seq<Seq<TelegramMember>>, cap: nat)
    ensures
        ({
            let r = merged_each(Seq::empty(), batches, cap);
            let f = first_seen(Seq::empty(), flatten(batches));
            &&& r == f.take(if cap < f.len() { cap as int } else { f.len() as int })
            &&& ids_unique(r)
            &&& ids_unique(f)
            &&& forall|j: int| 0 <= j < flatten(batches).len() ==> has_id(f, #[trigger] flatten(batches)[j].id)
            &&& f.len() >= cap ==> r.len() == cap
            &&& f.len() < cap ==> r == f
        }),
{
    let e = Seq::<TelegramMember>::empty();
    let items = flatten(batches);
    lemma_sweep_merges_union(e, batches, cap);
    lemma_merged_is_capped_first_seen(e, items, cap);
    lemma_merged_dedup(e, items, cap);
    lemma_first_seen_dedup(e, items);
    lemma_merged_cap(e, items, cap);
}

/// The search prefixes of a sweep, in the order they are queried.
pub open spec fn sweep_prefixes() -> Seq<Seq<char>> {
    seq![""@, "a"@, "e"@, "i"@, "o"@, "u"@, "s"@, "t"@, "n"@, "r"@]
}

/// The default prefix list: the empty prefix, then common letters.
pub fn default_patterns() -> (r: Vec<String>)
    ensures
        r@.map_values(|p: String| p@) == sweep_prefixes(),
{
    let mut r: Vec<String> = Vec::new();
    r.push("".to_string());
    r.push("a".to_string());
    r.push("e".to_string());
    r.push("i".to_string());
    r.push("o".to_string());
    r.push("u".to_string());
    r.push("s".to_string());
    r.push("t".to_string());
    r.push("n".to_string());
    r.push("r".to_string());
    assert(r@.map_values(|p: String| p@) =~= sweep_prefixes());
    r
}

/// Minimum spacing, in seconds, between consecutive search queries.
pub struct RateLimiter {
    pub spacing_secs: u64,
}

impl RateLimiter {
    /// The baseline spacing of two seconds.
    pub fn new() -> (r: RateLimiter)
        ensures
            r.spacing_secs == 2,
    {
        RateLimiter { spacing_secs: 2 }
    }

    pub fn with_spacing(spacing_secs: u64) -> (r: RateLimiter)
        ensures
            r.spacing_secs == spacing_secs,
    {
        RateLimiter { spacing_secs }
    }

    /// How long the caller waits before issuing the next query.
    pub fn wait_before_next(&self) -> (r: u64)
        ensures
            r == self.spacing_secs,
    {
        self.spacing_secs
    }
}

/// One enumeration request: a channel, a cap on returned records, and the
/// prefixes to sweep.
pub struct ScrapingTask {
    pub target: String,
    pub max_members: u32,
    pub patterns: Vec<String>,
}

/// What the sweep asks its driver to do next.
pub enum SweepStep {
    /// Query the channel for members matching `prefix`, at most `limit` of them.
    Search { prefix: String, limit: u32 },
    /// The sweep is over.
    Finished,
}

/// Progress of one sweep: the task, the next prefix to query and how many
/// records this sweep has made unique so far.
pub struct Sweep {
    pub task: ScrapingTask,
    pub next: usize,
    pub added: u32,
    pub limiter: RateLimiter,
}

impl Sweep {
    pub fn new(task: ScrapingTask, limiter: RateLimiter) -> (r: Sweep)
        ensures
            r.task == task,
            r.limiter == limiter,
            r.next == 0,
            r.added == 0,
    {
        Sweep { task, next: 0, added: 0, limiter }
    }

    /// The sweep has a query left: the cap is not reached and prefixes remain.
    pub open spec fn searching(&self) -> bool {
        self.added < self.task.max_members && self.next < self.task.patterns@.len()
    }

    /// Records this sweep may still make unique.
    pub open spec fn room(&self) -> nat {
        if self.added <= self.task.max_members {
            (self.task.max_members - self.added) as nat
        } else {
            0
        }
    }

    pub fn next_step(&self) -> (r: SweepStep)
        ensures
            self.searching() ==> r == (SweepStep::Search {
                prefix: self.task.patterns@[self.next as int],
                limit: (self.task.max_members - self.added) as u32,
            }),
            !self.searching() ==> r == SweepStep::Finished,
    {
        if self.added < self.task.max_members && self.next < self.task.patterns.len() {
            SweepStep::Search {
                prefix: self.task.patterns[self.next].clone(),
                limit: self.task.max_members - self.added,
            }
        } else {
            SweepStep::Finished
        }
    }
}

/// Offers each member of `batch`, normalized under `channel`, to the cache,
/// stopping once `room` new records were stored; returns how many were.
pub fn merge_batch(cache: &mut CacheStore, batch: &Vec<RawMember>, channel: &String, room: u32) -> (added: u32)
    requires
        old(cache).wf(),
    ensures
        final(cache).wf(),
        final(cache)@ == merged(old(cache)@, normalize_all(batch@, *channel), room as nat),
        final(cache)@.len() == old(cache)@.len() + added,
        added <= room,
{
    let ghost items = normalize_all(batch@, *channel);
    let ghost goal = merged(old(cache)@, items, room as nat);
    let ghost start = cache@.len();
    let mut added: u32 = 0;
    let mut k: usize = 0;
    assert(items.skip(0) =~= items);
    while k < batch.len()
        invariant
            cache.wf(),
            items == normalize_all(batch@, *channel),
            items.len() == batch@.len(),
            k <= batch@.len(),
            added <= room,
            cache@.len() == start + added,
            merged(cache@, items.skip(k as int), (room - added) as nat) == goal,
        ensures
            added == room || k == batch@.len(),
        decreases batch@.len() - k,
    {
        if added == room {
            break;
        }
        let m = batch[k].normalize(channel);
        assert(items.skip(k as int)[0] == m);
        assert(items.skip(k as int).drop_first() =~= items.skip(k + 1));
        if cache.try_insert(m) {
            added = added + 1;
        }
        k = k + 1;
    }
    proof {
        if added == room {
            assert(merged(cache@, items.skip(k as int), 0) == cache@);
        } else {
            assert(items.skip(k as int).len() == 0);
            assert(merged(cache@, items.skip(k as int), (room - added) as nat) == cache@);
        }
    }
    added
}

} // verus!
