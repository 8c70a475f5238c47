//! A key-to-id index over `String` keys, kept as two parallel vectors.

use vstd::prelude::*;
use crate::text::str_eq;

verus! {

/// Maps distinct string keys to numeric ids.
#[derive(Debug)]
pub struct KeyIndex {
    keys: Vec<String>,
    ids: Vec<u32>,
}

impl View for KeyIndex {
    type V = Map<Seq<char>, u32>;

    closed spec fn view(&self) -> Map<Seq<char>, u32> {
        Map::new(
            |k: Seq<char>| exists|i: int| 0 <= i < self.keys@.len() && #[trigger] self.keys@[i]@ == k,
            |k: Seq<char>|
                self.ids@[choose|i: int| 0 <= i < self.keys@.len() && #[trigger] self.keys@[i]@ == k],
        )
    }
}

impl KeyIndex {
    /// The vectors line up and no key occurs twice.
    pub closed spec fn wf(&self) -> bool {
        &&& self.keys@.len() == self.ids@.len()
        &&& forall|i: int, j: int|
            0 <= i < self.keys@.len() && 0 <= j < self.keys@.len() && i != j
                ==> #[trigger] self.keys@[i]@ != #[trigger] self.keys@[j]@
    }

    proof fn lemma_view_at(&self, i: int)
        requires
            self.wf(),
            0 <= i < self.keys@.len(),
        ensures
            self@.contains_key(self.keys@[i]@),
            self@[self.keys@[i]@] == self.ids@[i],
    {
        let k = self.keys@[i]@;
        assert(self.keys@[i]@ == k);
        let j = choose|j: int| 0 <= j < self.keys@.len() && #[trigger] self.keys@[j]@ == k;
        assert(self.keys@[j]@ == k);
    }

    /// An empty index.
    pub fn new() -> (r: Self)
        ensures
            r.wf(),
            r@ == Map::<Seq<char>, u32>::empty(),
    {
        let r = KeyIndex { keys: Vec::new(), ids: Vec::new() };
        assert(r@ =~= Map::<Seq<char>, u32>::empty());
        r
    }

    /// A copy with the same keys and ids.
    pub fn copy(&self) -> (r: Self)
        ensures
            r.wf() == self.wf(),
            r@ == self@,
    {
        let mut keys: Vec<String> = Vec::with_capacity(self.keys.len());
        let mut i: usize = 0;
        while i < self.keys.len()
            invariant
                i <= self.keys@.len(),
                keys@ == self.keys@.take(i as int),
            decreases self.keys@.len() - i,
        {
            keys.push(self.keys[i].clone());
            assert(keys@ =~= self.keys@.take(i + 1));
            i = i + 1;
        }
        let mut ids: Vec<u32> = Vec::with_capacity(self.ids.len());
        let mut j: usize = 0;
        while j < self.ids.len()
            invariant
                j <= self.ids@.len(),
                ids@ == self.ids@.take(j as int),
            decreases self.ids@.len() - j,
        {
            ids.push(self.ids[j]);
            assert(ids@ =~= self.ids@.take(j + 1));
            j = j + 1;
        }
        assert(keys@ =~= self.keys@);
        assert(ids@ =~= self.ids@);
        let r = KeyIndex { keys, ids };
        assert(r@ =~= self@);
        r
    }

    /// The id stored for `key`, if any.
    pub fn get(&self, key: &str) -> (r: Option<u32>)
        requires
            self.wf(),
        ensures
            r == (if self@.contains_key(key@) { Some(self@[key@]) } else { None::<u32> }),
    {
        let mut i: usize = 0;
        while i < self.keys.len()
            invariant
                self.wf(),
                i <= self.keys@.len(),
                forall|j: int| 0 <= j < i ==> #[trigger] self.keys@[j]@ != key@,
            decreases self.keys@.len() - i,
        {
            if str_eq(self.keys[i].as_str(), key) {
                proof {
                    self.lemma_view_at(i as int);
                }
                return Some(self.ids[i]);
            }
            i = i + 1;
        }
        assert(!self@.contains_key(key@));
        None
    }

    /// Adds a new key with its id.
    pub fn insert(&mut self, key: String, id: u32)
        requires
            old(self).wf(),
            !old(self)@.contains_key(key@),
        ensures
            final(self).wf(),
            final(self)@ == old(self)@.insert(key@, id),
    {
        let ghost k = key@;
        let ghost old_self = *self;
        self.keys.push(key);
        self.ids.push(id);
        proof {
            let n = old_self.keys@.len() as int;
            assert forall|i: int| 0 <= i < n implies #[trigger] self.keys@[i]@ != k by {
                if self.keys@[i]@ == k {
                    assert(old_self.keys@[i]@ == k);
                }
            }
            assert(self.wf());
            assert forall|q: Seq<char>| #[trigger] self@.contains_key(q) <==> old_self@.insert(k, id).contains_key(q) by {
                if q != k && self@.contains_key(q) {
                    let i = choose|i: int| 0 <= i < self.keys@.len() && #[trigger] self.keys@[i]@ == q;
                    assert(old_self.keys@[i]@ == q);
                }
                if q != k && old_self@.contains_key(q) {
                    let i = choose|i: int| 0 <= i < old_self.keys@.len() && #[trigger] old_self.keys@[i]@ == q;
                    assert(self.keys@[i]@ == q);
                }
                if q == k {
                    assert(self.keys@[n]@ == k);
                }
            }
            assert forall|q: Seq<char>| #[trigger] self@.contains_key(q) implies self@[q] == old_self@.insert(k, id)[q] by {
                if q == k {
                    self.lemma_view_at(n);
                } else {
                    let i = choose|i: int| 0 <= i < self.keys@.len() && #[trigger] self.keys@[i]@ == q;
                    self.lemma_view_at(i);
                    old_self.lemma_view_at(i);
                }
            }
            assert(self@ =~= old_self@.insert(k, id));
        }
    }
}

} // verus!
