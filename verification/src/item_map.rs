//! A sparse item-to-number table backed by `vector_map::VecMap`.

use vstd::prelude::*;
use vector_map::VecMap;
use crate::catalog::{ItemId, lemma_item_id_view};

verus! {

broadcast use lemma_item_id_view;

#[verifier::external_type_specification]
#[verifier::external_body]
#[verifier::reject_recursive_types(K)]
#[verifier::reject_recursive_types(V)]
pub struct ExVecMap<K, V>(VecMap<K, V>);

/// The `(key, value)` entries of a `VecMap<u32, u32>`, in its storage order.
pub uninterp spec fn vec_map_entries(m: VecMap<u32, u32>) -> Seq<(u32, u32)>;

/// The first position of key `k` among `entries`, or `-1` when it does not occur.
pub open spec fn key_position(entries: Seq<(u32, u32)>, k: u32) -> int
    decreases entries.len(),
{
    if entries.len() == 0 {
        -1
    } else if entries[0].0 == k {
        0
    } else {
        let p = key_position(entries.drop_first(), k);
        if p < 0 {
            -1
        } else {
            p + 1
        }
    }
}

/// No key occurs twice among `entries`.
pub open spec fn keys_unique(entries: Seq<(u32, u32)>) -> bool {
    forall|i: int, j: int|
        0 <= i < entries.len() && 0 <= j < entries.len() && i != j ==> #[trigger] entries[i].0
            != #[trigger] entries[j].0
}

/// The value stored under `k` (at its first position), if any.
pub open spec fn entry_value(entries: Seq<(u32, u32)>, k: u32) -> Option<u32> {
    let p = key_position(entries, k);
    if p >= 0 {
        Some(entries[p].1)
    } else {
        None
    }
}

/// `key_position` finds the first occurrence, and reports `-1` only for absent keys.
pub proof fn lemma_key_position(entries: Seq<(u32, u32)>, k: u32)
    ensures
        key_position(entries, k) >= 0 ==> key_position(entries, k) < entries.len() && entries[key_position(
            entries,
            k,
        )].0 == k && forall|j: int| 0 <= j < key_position(entries, k) ==> #[trigger] entries[j].0 != k,
        key_position(entries, k) < 0 ==> key_position(entries, k) == -1 && forall|j: int|
            0 <= j < entries.len() ==> #[trigger] entries[j].0 != k,
    decreases entries.len(),
{
    if entries.len() > 0 && entries[0].0 != k {
        let rest = entries.drop_first();
        lemma_key_position(rest, k);
        assert forall|j: int| 1 <= j < entries.len() implies #[trigger] entries[j].0 == rest[j - 1].0 by {}
    }
}

/// With unique keys, the position of a key is the one place it occurs.
pub proof fn lemma_key_position_unique(entries: Seq<(u32, u32)>, i: int)
    requires
        keys_unique(entries),
        0 <= i < entries.len(),
    ensures
        key_position(entries, entries[i].0) == i,
{
    lemma_key_position(entries, entries[i].0);
}

/// `VecMap::new`: an empty map.
#[verifier::external_body]
fn vec_map_new() -> (m: VecMap<u32, u32>)
    ensures
        vec_map_entries(m) == Seq::<(u32, u32)>::empty(),
{
    VecMap::new()
}

/// `VecMap::with_capacity`: an empty map (the capacity is only reserved storage). Its
/// two vectors of 4-byte values panic when the reservation's byte size exceeds
/// `isize::MAX`, which `requires` rules out.
#[verifier::external_body]
fn vec_map_with_capacity(capacity: usize) -> (m: VecMap<u32, u32>)
    requires
        capacity * 4 <= isize::MAX,
    ensures
        vec_map_entries(m) == Seq::<(u32, u32)>::empty(),
{
    VecMap::with_capacity(capacity)
}

/// `VecMap::len`: the number of stored entries.
#[verifier::external_body]
fn vec_map_len(m: &VecMap<u32, u32>) -> (r: usize)
    ensures
        r == vec_map_entries(*m).len(),
{
    m.len()
}

/// `VecMap::is_empty`: whether no entry is stored.
#[verifier::external_body]
fn vec_map_is_empty(m: &VecMap<u32, u32>) -> (r: bool)
    ensures
        r == (vec_map_entries(*m).len() == 0),
{
    m.is_empty()
}

/// `VecMap::insert`: overwrites the value at the key's first position and returns the
/// old value, or appends the entry and returns `None` when the key is absent.
#[verifier::external_body]
fn vec_map_insert(m: &mut VecMap<u32, u32>, key: u32, value: u32) -> (r: Option<u32>)
    ensures
        key_position(vec_map_entries(*old(m)), key) >= 0 ==> {
            let p = key_position(vec_map_entries(*old(m)), key);
            &&& vec_map_entries(*final(m)) == vec_map_entries(*old(m)).update(p, (key, value))
            &&& r == Some(vec_map_entries(*old(m))[p].1)
        },
        key_position(vec_map_entries(*old(m)), key) < 0 ==> {
            &&& vec_map_entries(*final(m)) == vec_map_entries(*old(m)).push((key, value))
            &&& r is None
        },
{
    m.insert(key, value)
}

/// `VecMap::get`: the value at the key's first position, if the key occurs.
#[verifier::external_body]
fn vec_map_get(m: &VecMap<u32, u32>, key: u32) -> (r: Option<&u32>)
    ensures
        match r {
            Some(v) => entry_value(vec_map_entries(*m), key) == Some(*v),
            None => entry_value(vec_map_entries(*m), key) is None,
        },
{
    m.get(&key)
}

/// `VecMap::iter`: the entries in storage order, copied out.
#[verifier::external_body]
fn vec_map_pairs(m: &VecMap<u32, u32>) -> (r: Vec<(u32, u32)>)
    ensures
        r@ == vec_map_entries(*m),
{
    m.iter().map(|(k, v)| (*k, *v)).collect()
}

/// `VecMap`'s `clone` (derived): a copy with the same entries in the same order.
#[verifier::external_body]
fn vec_map_clone(m: &VecMap<u32, u32>) -> (r: VecMap<u32, u32>)
    ensures
        vec_map_entries(r) == vec_map_entries(*m),
{
    m.clone()
}

/// `VecMap`'s `==`: equal lengths, and every entry of `a` is found, with the same
/// value, at its key's first position in `b`.
#[verifier::external_body]
fn vec_map_eq(a: &VecMap<u32, u32>, b: &VecMap<u32, u32>) -> (r: bool)
    ensures
        r == (vec_map_entries(*a).len() == vec_map_entries(*b).len() && forall|i: int|
            0 <= i < vec_map_entries(*a).len() ==> #[trigger] entry_value(
                vec_map_entries(*b),
                vec_map_entries(*a)[i].0,
            ) == Some(vec_map_entries(*a)[i].1)),
{
    a == b
}

/// Sparse map keyed by [`ItemId`] whose keys are unique by construction.
///
/// It is backed by a vector map and meant for small tables such as scenario supply
/// and outpost prices. Keys are stored by their item number.
#[derive(Debug)]
pub struct ItemU32Map(VecMap<u32, u32>);

impl Clone for ItemU32Map {
    fn clone(&self) -> (r: Self)
        ensures
            r@ == self@,
    {
        proof {
            use_type_invariant(self);
        }
        ItemU32Map(vec_map_clone(&self.0))
    }
}

/// Two tables are equal when they have the same number of entries and every entry of
/// the first is found, with the same value, in the second.
pub open spec fn same_entries(a: Seq<(u32, u32)>, b: Seq<(u32, u32)>) -> bool {
    a.len() == b.len() && forall|i: int| 0 <= i < a.len() ==> #[trigger] entry_value(b, a[i].0) == Some(a[i].1)
}

impl PartialEq for ItemU32Map {
    fn eq(&self, other: &Self) -> (r: bool) {
        vec_map_eq(&self.0, &other.0)
    }
}

impl vstd::std_specs::cmp::PartialEqSpecImpl for ItemU32Map {
    open spec fn obeys_eq_spec() -> bool {
        true
    }

    open spec fn eq_spec(&self, other: &Self) -> bool {
        same_entries(self@, other@)
    }
}

impl From<Vec<(ItemId, u32)>> for ItemU32Map {
    /// Builds a map from `(item, value)` pairs, as [`ItemU32Map::from_vec`] does.
    fn from(pairs: Vec<(ItemId, u32)>) -> (r: Self)
        ensures
            r@ == inserted_entries(pairs@),
            forall|k: nat| #[trigger] r.lookup(k) == last_value_for(pairs@, k),
    {
        ItemU32Map::from_vec(pairs)
    }
}

impl vstd::std_specs::convert::FromSpecImpl<Vec<(ItemId, u32)>> for ItemU32Map {
    /// Two maps with the same entries need not be the same value, so `from` is
    /// described by its own `ensures` over the entries, not by a value.
    open spec fn obeys_from_spec() -> bool {
        false
    }

    open spec fn from_spec(pairs: Vec<(ItemId, u32)>) -> Self {
        choose|m: ItemU32Map| m@ == inserted_entries(pairs@)
    }
}

impl<const N: usize> From<[(ItemId, u32); N]> for ItemU32Map {
    /// Builds a map from an array of `(item, value)` pairs, inserting them in order.
    fn from(pairs: [(ItemId, u32); N]) -> (r: Self)
        ensures
            r@ == inserted_entries(pairs@),
            forall|k: nat| #[trigger] r.lookup(k) == last_value_for(pairs@, k),
    {
        let mut v: Vec<(ItemId, u32)> = Vec::with_capacity(N);
        let mut i: usize = 0;
        while i < N
            invariant
                pairs@.len() == N,
                i <= N,
                v@ == pairs@.take(i as int),
            decreases N - i,
        {
            v.push(pairs[i]);
            assert(v@ =~= pairs@.take(i + 1));
            i = i + 1;
        }
        assert(v@ =~= pairs@);
        ItemU32Map::from_vec(v)
    }
}

impl<const N: usize> vstd::std_specs::convert::FromSpecImpl<[(ItemId, u32); N]> for ItemU32Map {
    /// As for vectors: `from` is described by its own `ensures` over the entries.
    open spec fn obeys_from_spec() -> bool {
        false
    }

    open spec fn from_spec(pairs: [(ItemId, u32); N]) -> Self {
        choose|m: ItemU32Map| m@ == inserted_entries(pairs@)
    }
}

impl Default for ItemU32Map {
    fn default() -> (r: Self)
        ensures
            r.wf(),
            r@ == Seq::<(u32, u32)>::empty(),
    {
        ItemU32Map::new()
    }
}

impl View for ItemU32Map {
    type V = Seq<(u32, u32)>;

    /// The `(item number, value)` entries in storage (first-insertion) order.
    closed spec fn view(&self) -> Seq<(u32, u32)> {
        vec_map_entries(self.0)
    }
}

impl ItemU32Map {
    /// No item occurs twice.
    pub open spec fn wf(&self) -> bool {
        keys_unique(self@)
    }

    /// Every table keeps its items unique.
    #[verifier::type_invariant]
    spec fn unique_items(self) -> bool {
        keys_unique(self@)
    }

    /// The value stored for item number `k`, if any.
    pub open spec fn lookup(&self, k: nat) -> Option<u32> {
        if k <= u32::MAX {
            entry_value(self@, k as u32)
        } else {
            None
        }
    }

    /// An empty map.
    pub fn new() -> (r: Self)
        ensures
            r.wf(),
            r@ == Seq::<(u32, u32)>::empty(),
    {
        ItemU32Map(vec_map_new())
    }

    /// An empty map with room reserved for `capacity` entries (a reservation the
    /// allocator can hold: its byte size must fit `isize`).
    pub fn with_capacity(capacity: usize) -> (r: Self)
        requires
            capacity * 4 <= isize::MAX,
        ensures
            r.wf(),
            r@ == Seq::<(u32, u32)>::empty(),
    {
        ItemU32Map(vec_map_with_capacity(capacity))
    }

    /// The number of distinct items stored.
    pub fn len(&self) -> (r: usize)
        ensures
            r == self@.len(),
    {
        vec_map_len(&self.0)
    }

    /// Whether no item is stored.
    pub fn is_empty(&self) -> (r: bool)
        ensures
            r == (self@.len() == 0),
    {
        vec_map_is_empty(&self.0)
    }

    /// Stores `value` for `item` and returns the value it replaced, if any. A new item
    /// goes to the end; an existing one keeps its place.
    pub fn insert(&mut self, item: ItemId, value: u32) -> (r: Option<u32>)
        ensures
            final(self).wf(),
            r == old(self).lookup(item@),
            old(self).lookup(item@) is Some ==> final(self)@ == old(self)@.update(
                key_position(old(self)@, item@ as u32),
                (item@ as u32, value),
            ),
            old(self).lookup(item@) is None ==> final(self)@ == old(self)@.push((item@ as u32, value)),
            insert_lookups(*old(self), *final(self), item@, value),
    {
        proof {
            use_type_invariant(&*self);
        }
        let key = item.as_u32();
        proof {
            lemma_key_position(self@, key);
        }
        let mut entries = vec_map_new();
        std::mem::swap(&mut entries, &mut self.0);
        let r = vec_map_insert(&mut entries, key, value);
        proof {
            let o = old(self)@;
            let n = vec_map_entries(entries);
            assert forall|i: int, j: int|
                0 <= i < n.len() && 0 <= j < n.len() && i != j implies #[trigger] n[i].0 != #[trigger] n[j].0 by {
                if key_position(o, key) < 0 {
                    if i < o.len() && j < o.len() {
                        assert(n[i] == o[i] && n[j] == o[j]);
                    } else if i < o.len() {
                        assert(n[i] == o[i]);
                    } else {
                        assert(n[j] == o[j]);
                    }
                } else {
                    let p = key_position(o, key);
                    assert(n[i].0 == o[i].0);
                    assert(n[j].0 == o[j].0);
                }
            }
        }
        self.0 = entries;
        proof {
            let o = old(self)@;
            let n = self@;
            assert forall|k: nat| #[trigger] self.lookup(k) == (if k == item@ {
                Some(value)
            } else {
                old(self).lookup(k)
            }) by {
                if k == item@ {
                    if key_position(o, key) >= 0 {
                        lemma_key_position_unique(n, key_position(o, key));
                    } else {
                        lemma_key_position_unique(n, o.len() as int);
                    }
                } else if k <= u32::MAX {
                    let kk = k as u32;
                    lemma_key_position(o, kk);
                    lemma_key_position(n, kk);
                    if key_position(o, kk) >= 0 {
                        let p = key_position(o, kk);
                        assert(n[p] == o[p]);
                        lemma_key_position_unique(n, p);
                    } else if key_position(n, kk) >= 0 {
                        let q = key_position(n, kk);
                        if q < o.len() {
                            assert(n[q].0 == o[q].0);
                        }
                    }
                }
            }
        }
        r
    }

    /// The value stored for `item`, if any.
    pub fn get(&self, item: ItemId) -> (r: Option<&u32>)
        ensures
            match r {
                Some(v) => self.lookup(item@) == Some(*v),
                None => self.lookup(item@) is None,
            },
    {
        vec_map_get(&self.0, item.as_u32())
    }

    /// The `(item, value)` entries in storage order.
    pub fn iter(&self) -> (r: Vec<(ItemId, u32)>)
        ensures
            r@.len() == self@.len(),
            forall|i: int| 0 <= i < r@.len() ==> #[trigger] r@[i].0@ == self@[i].0 && r@[i].1 == self@[i].1,
    {
        let pairs = vec_map_pairs(&self.0);
        let mut r: Vec<(ItemId, u32)> = Vec::new();
        let mut i: usize = 0;
        while i < pairs.len()
            invariant
                pairs@ == self@,
                i <= pairs@.len(),
                r@.len() == i,
                forall|j: int| 0 <= j < i ==> #[trigger] r@[j].0@ == self@[j].0 && r@[j].1 == self@[j].1,
            decreases pairs@.len() - i,
        {
            let (k, v) = pairs[i];
            r.push((ItemId::from_index(k as usize), v));
            i = i + 1;
        }
        r
    }

    /// Builds a map from `(item, value)` pairs, inserting them in order, so a later
    /// pair for the same item overwrites an earlier one.
    pub fn from_vec(pairs: Vec<(ItemId, u32)>) -> (r: Self)
        ensures
            r.wf(),
            r@ == inserted_entries(pairs@),
            forall|k: nat| #[trigger] r.lookup(k) == last_value_for(pairs@, k),
            forall|i: int| #![trigger r@[i]] 0 <= i < r@.len() ==> exists|j: int| #![trigger pairs@[j]] 0 <= j < pairs@.len() && pairs@[j].0@ == r@[i].0,
    {
        let mut map = ItemU32Map::new();
        let mut i: usize = 0;
        while i < pairs.len()
            invariant
                map.wf(),
                i <= pairs@.len(),
                map@ == inserted_entries(pairs@.take(i as int)),
                forall|k: nat| #[trigger] map.lookup(k) == last_value_for(pairs@.take(i as int), k),
                forall|e: int| #![trigger map@[e]] 0 <= e < map@.len() ==> exists|j: int| #![trigger pairs@[j]] 0 <= j < i && pairs@[j].0@ == map@[e].0,
            decreases pairs@.len() - i,
        {
            let (item, value) = pairs[i];
            let ghost before = map;
            map.insert(item, value);
            proof {
                let t = pairs@.take(i + 1);
                assert(t.drop_last() =~= pairs@.take(i as int));
                assert forall|k: nat| #[trigger] map.lookup(k) == last_value_for(t, k) by {
                    assert(before.lookup(k) == last_value_for(pairs@.take(i as int), k));
                }
                assert forall|e: int| #![trigger map@[e]] 0 <= e < map@.len() implies exists|j: int| #![trigger pairs@[j]] 0 <= j < i + 1 && pairs@[j].0@ == map@[e].0 by {
                    assert(item@ <= u32::MAX);
                    if e < before@.len() {
                        if before.lookup(item@) is Some {
                            lemma_key_position(before@, item@ as u32);
                            assert(map@[e].0 == before@[e].0);
                        } else {
                            assert(map@[e] == before@[e]);
                        }
                    } else {
                        if before.lookup(item@) is Some {
                            lemma_key_position(before@, item@ as u32);
                            assert(map@.len() == before@.len());
                        }
                        assert(map@[e] == (item@ as u32, value));
                        assert(pairs@[i as int].0@ == map@[e].0);
                    }
                }
            }
            i = i + 1;
        }
        assert(pairs@.take(pairs@.len() as int) =~= pairs@);
        map
    }
}

/// The entries that inserting `pairs` in order into an empty table leaves: each item
/// at the place of its first pair, with the value of its last.
pub open spec fn inserted_entries(pairs: Seq<(ItemId, u32)>) -> Seq<(u32, u32)>
    decreases pairs.len(),
{
    if pairs.len() == 0 {
        Seq::empty()
    } else {
        let e = inserted_entries(pairs.drop_last());
        let k = pairs.last().0@ as u32;
        let p = key_position(e, k);
        if p >= 0 {
            e.update(p, (k, pairs.last().1))
        } else {
            e.push((k, pairs.last().1))
        }
    }
}

/// The value of the last pair for item number `k` in `pairs`, if any pair has it.
pub open spec fn last_value_for(pairs: Seq<(ItemId, u32)>, k: nat) -> Option<u32>
    decreases pairs.len(),
{
    if pairs.len() == 0 {
        None
    } else if pairs.last().0@ == k {
        Some(pairs.last().1)
    } else {
        last_value_for(pairs.drop_last(), k)
    }
}

/// The item numbers stored in a table, in storage order.
pub open spec fn stored_items(entries: Seq<(u32, u32)>) -> Seq<u32> {
    entries.map_values(|e: (u32, u32)| e.0)
}

/// The table holds one entry per distinct item: its length is the number of
/// distinct items stored.
pub proof fn law_len_counts_distinct_items(m: ItemU32Map)
    requires
        m.wf(),
    ensures
        m@.len() == stored_items(m@).to_set().len(),
        stored_items(m@).no_duplicates(),
{
    let ks = stored_items(m@);
    assert forall|i: int, j: int| 0 <= i < ks.len() && 0 <= j < ks.len() && i != j implies ks[i] != ks[j] by {
        assert(m@[i].0 != m@[j].0);
    }
    ks.unique_seq_to_set();
}

/// What `insert` does to lookups: the inserted item now maps to the new value, and
/// every other item keeps its value.
pub open spec fn insert_lookups(old: ItemU32Map, new: ItemU32Map, item: nat, value: u32) -> bool {
    forall|k: nat| #[trigger] new.lookup(k) == (if k == item { Some(value) } else { old.lookup(k) })
}

/// Read after write: after `insert(item, value)`, `get(item)` is `Some(value)`, the
/// previous value is what was returned, and other items are unaffected; inserting an
/// item that is already present keeps the number of entries.
pub proof fn law_insert_then_get(old: ItemU32Map, new: ItemU32Map, item: nat, value: u32, r: Option<u32>, other: nat)
    requires
        old.wf(),
        new.wf(),
        insert_lookups(old, new, item, value),
        r == old.lookup(item),
        old.lookup(item) is Some ==> new@.len() == old@.len(),
        old.lookup(item) is None ==> new@.len() == old@.len() + 1,
    ensures
        new.lookup(item) == Some(value),
        other != item ==> new.lookup(other) == old.lookup(other),
        r is Some ==> new@.len() == old@.len(),
{
    assert(new.lookup(item) == Some(value));
    assert(new.lookup(other) == (if other == item { Some(value) } else { old.lookup(other) }));
}

} // verus!
