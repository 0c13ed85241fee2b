use vstd::prelude::*;
use dashmap::DashMap;
use crate::record::TelegramMember;

verus! {

#[verifier::external_type_specification]
#[verifier::external_body]
#[verifier::reject_recursive_types(K)]
#[verifier::reject_recursive_types(V)]
#[verifier::reject_recursive_types(S)]
pub struct ExDashMap<K, V, S>(DashMap<K, V, S>);

/// The entries of an id index: member id to position in insertion order.
pub uninterp spec fn index_entries(m: DashMap<i64, usize>) -> Map<i64, usize>;

/// Relies on `DashMap::new`: a new map holds no entries.
#[verifier::external_body]
fn index_new() -> (r: DashMap<i64, usize>)
    ensures
        forall|k: i64| !#[trigger] index_entries(r).contains_key(k),
{
    DashMap::new()
}

/// Relies on `DashMap::contains_key`: true iff the key has an entry.
#[verifier::external_body]
fn index_contains(m: &DashMap<i64, usize>, id: i64) -> (r: bool)
    ensures
        r == index_entries(*m).contains_key(id),
{
    m.contains_key(&id)
}

/// Relies on `DashMap::insert`: the key is mapped to the value, other entries stay.
#[verifier::external_body]
fn index_insert(m: &mut DashMap<i64, usize>, id: i64, pos: usize)
    ensures
        index_entries(*final(m)) == index_entries(*old(m)).insert(id, pos),
{
    m.insert(id, pos);
}

/// Relies on `DashMap::get`: the value stored under the key, if any.
#[verifier::external_body]
fn index_get(m: &DashMap<i64, usize>, id: i64) -> (r: Option<usize>)
    ensures
        index_entries(*m).contains_key(id) ==> r == Some(index_entries(*m)[id]),
        !index_entries(*m).contains_key(id) ==> r.is_none(),
{
    m.get(&id).map(|e| *e.value())
}

/// Whether some record of `s` carries `id`.
pub open spec fn has_id(s: Seq<TelegramMember>, id: i64) -> bool {
    exists|i: int| 0 <= i < s.len() && s[i].id == id
}

/// No two records of `s` share an id.
pub open spec fn ids_unique(s: Seq<TelegramMember>) -> bool {
    forall|i: int, j: int| 0 <= i < j < s.len() ==> s[i].id != s[j].id
}

/// The store after offering one record: appended iff its id is new.
pub open spec fn offer(s: Seq<TelegramMember>, m: TelegramMember) -> Seq<TelegramMember> {
    if has_id(s, m.id) {
        s
    } else {
        s.push(m)
    }
}

/// Identity-keyed store of member records, first-seen wins, kept in the
/// order in which records first became unique.
pub struct CacheStore {
    records: Vec<TelegramMember>,
    index: DashMap<i64, usize>,
}

impl View for CacheStore {
    type V = Seq<TelegramMember>;

    closed spec fn view(&self) -> Seq<TelegramMember> {
        self.records@
    }
}

impl CacheStore {
    /// The id index maps each stored id to the position of its record.
    pub closed spec fn index_agrees(&self) -> bool {
        let e = index_entries(self.index);
        &&& forall|i: int|
            0 <= i < self.records@.len() ==> #[trigger] e.contains_key(self.records@[i].id)
                && e[self.records@[i].id] == i
        &&& forall|k: i64|
            #[trigger] e.contains_key(k) ==> e[k] < self.records@.len() && self.records@[e[k] as int].id
                == k
    }

    /// The store is well formed: its index and its records agree, and ids are unique.
    pub open spec fn wf(&self) -> bool {
        self.index_agrees() && ids_unique(self@)
    }

    pub fn new() -> (r: CacheStore)
        ensures
            r.wf(),
            r@ == Seq::<TelegramMember>::empty(),
    {
        CacheStore { records: Vec::new(), index: index_new() }
    }

    pub fn len(&self) -> (r: usize)
        ensures
            r == self@.len(),
    {
        self.records.len()
    }

    /// Whether a record with this id is stored.
    pub fn contains(&self, id: i64) -> (r: bool)
        requires
            self.wf(),
        ensures
            r == has_id(self@, id),
    {
        let r = index_contains(&self.index, id);
        proof {
            if has_id(self@, id) {
                let i = choose|i: int| 0 <= i < self@.len() && self@[i].id == id;
                assert(index_entries(self.index).contains_key(self.records@[i].id));
            }
            if r {
                let p = index_entries(self.index)[id] as int;
                assert(0 <= p < self@.len() && self@[p].id == id);
            }
        }
        r
    }

    /// Stores `m` iff no record with its id is stored yet; returns whether it did.
    pub fn try_insert(&mut self, m: TelegramMember) -> (r: bool)
        requires
            old(self).wf(),
        ensures
            final(self).wf(),
            r == !has_id(old(self)@, m.id),
            final(self)@ == offer(old(self)@, m),
    {
        if self.contains(m.id) {
            return false;
        }
        let pos = self.records.len();
        let id = m.id;
        let ghost prev = self.records@;
        let ghost pe = index_entries(self.index);
        index_insert(&mut self.index, id, pos);
        self.records.push(m);
        proof {
            let e = index_entries(self.index);
            assert forall|i: int| 0 <= i < self.records@.len() implies #[trigger] e.contains_key(
                self.records@[i].id,
            ) && e[self.records@[i].id] == i by {
                if i < prev.len() {
                    assert(pe.contains_key(prev[i].id));
                    assert(prev[i].id != id);
                }
            }
            assert forall|k: i64| #[trigger] e.contains_key(k) implies e[k] < self.records@.len()
                && self.records@[e[k] as int].id == k by {
                if k != id {
                    assert(pe.contains_key(k));
                }
            }
            assert forall|i: int, j: int| 0 <= i < j < self@.len() implies self@[i].id
                != self@[j].id by {
                if j == prev.len() {
                    assert(!has_id(prev, id));
                    assert(prev[i].id == self@[i].id);
                }
            }
        }
        true
    }

    /// The stored record with this id, if any.
    pub fn get(&self, id: i64) -> (r: Option<&TelegramMember>)
        requires
            self.wf(),
        ensures
            has_id(self@, id) ==> r.is_some() && r.unwrap().id == id && exists|i: int|
                0 <= i < self@.len() && self@[i] == *r.unwrap(),
            !has_id(self@, id) ==> r.is_none(),
    {
        match index_get(&self.index, id) {
            Some(p) => {
                proof {
                    assert(index_entries(self.index).contains_key(id));
                }
                Some(&self.records[p])
            },
            None => {
                proof {
                    if has_id(self@, id) {
                        let i = choose|i: int| 0 <= i < self@.len() && self@[i].id == id;
                        assert(index_entries(self.index).contains_key(self.records@[i].id));
                    }
                }
                None
            },
        }
    }

    /// Copies of the first `n` stored records (all, if fewer), in insertion order.
    pub fn snapshot(&self, n: usize) -> (r: Vec<TelegramMember>)
        ensures
            r@ == self@.take(if n < self@.len() { n as int } else { self@.len() as int }),
    {
        let end = if n < self.records.len() { n } else { self.records.len() };
        let mut out: Vec<TelegramMember> = Vec::new();
        let mut i: usize = 0;
        while i < end
            invariant
                end <= self.records@.len(),
                i <= end,
                out@ == self@.take(i as int),
            decreases end - i,
        {
            out.push(self.records[i].duplicate());
            i = i + 1;
            assert(out@ =~= self@.take(i as int));
        }
        out
    }
}

} // verus!
