//! Orders used for sorting: lexicographic order on text, and stable sorting by key.
//!
//! Text is ordered by the code points of its characters, position by position, a
//! shorter prefix first. On UTF-8 strings this is the order that comparing their
//! bytes gives, which is how `String` values compare.

use vstd::prelude::*;
use crate::text::chars_of;

verus! {

/// `a` comes before `b` in code-point lexicographic order.
pub open spec fn lex_lt(a: Seq<char>, b: Seq<char>) -> bool
    decreases a.len(),
{
    if a.len() == 0 {
        b.len() > 0
    } else if b.len() == 0 {
        false
    } else if a[0] != b[0] {
        (a[0] as u32) < (b[0] as u32)
    } else {
        lex_lt(a.drop_first(), b.drop_first())
    }
}

/// No text comes before itself.
pub proof fn lemma_lex_irreflexive(a: Seq<char>)
    ensures
        !lex_lt(a, a),
    decreases a.len(),
{
    if a.len() > 0 {
        lemma_lex_irreflexive(a.drop_first());
    }
}

/// Of two different texts, one comes before the other, and not both ways.
pub proof fn lemma_lex_total(a: Seq<char>, b: Seq<char>)
    ensures
        a != b ==> (lex_lt(a, b) || lex_lt(b, a)),
        !(lex_lt(a, b) && lex_lt(b, a)),
    decreases a.len(),
{
    if a.len() > 0 && b.len() > 0 {
        if a[0] == b[0] {
            lemma_lex_total(a.drop_first(), b.drop_first());
            if a.drop_first() == b.drop_first() {
                assert(a =~= seq![a[0]] + a.drop_first());
                assert(b =~= seq![b[0]] + b.drop_first());
            }
        } else {
            vstd::utf8::char_u32_cast(a[0], a[0] as u32);
            vstd::utf8::char_u32_cast(b[0], b[0] as u32);
            assert((a[0] as u32) != (b[0] as u32));
        }
    } else if a.len() == 0 && b.len() == 0 {
        assert(a =~= b);
    }
}

/// The order is transitive.
pub proof fn lemma_lex_transitive(a: Seq<char>, b: Seq<char>, c: Seq<char>)
    requires
        lex_lt(a, b),
        lex_lt(b, c),
    ensures
        lex_lt(a, c),
    decreases a.len(),
{
    if a.len() > 0 && b.len() > 0 && c.len() > 0 {
        if a[0] == b[0] && b[0] == c[0] {
            lemma_lex_transitive(a.drop_first(), b.drop_first(), c.drop_first());
        }
    }
}

/// Whether `a` comes before `b` in code-point lexicographic order.
pub fn lex_less(a: &str, b: &str) -> (r: bool)
    ensures
        r == lex_lt(a@, b@),
{
    let va = chars_of(a);
    let vb = chars_of(b);
    let mut i: usize = 0;
    assert(a@.skip(0) =~= a@);
    assert(b@.skip(0) =~= b@);
    while i < va.len() && i < vb.len()
        invariant
            va@ == a@,
            vb@ == b@,
            i <= va@.len(),
            i <= vb@.len(),
            lex_lt(a@, b@) == lex_lt(a@.skip(i as int), b@.skip(i as int)),
        decreases va@.len() - i,
    {
        let x = va[i];
        let y = vb[i];
        if x != y {
            return (x as u32) < (y as u32);
        }
        assert(a@.skip(i as int).drop_first() =~= a@.skip(i + 1));
        assert(b@.skip(i as int).drop_first() =~= b@.skip(i + 1));
        i = i + 1;
    }
    i == va.len() && i < vb.len()
}

/// A sort key under a strict weak order: `key_lt` is asymmetric, and "not less"
/// is transitive.
pub trait SortKey: Sized {
    spec fn key_lt(&self, other: &Self) -> bool;

    fn less(&self, other: &Self) -> (r: bool)
        ensures
            r == self.key_lt(other),
    ;

    proof fn lemma_weak_order(a: &Self, b: &Self, c: &Self)
        ensures
            a.key_lt(b) ==> !b.key_lt(a),
            !a.key_lt(b) && !b.key_lt(c) ==> !a.key_lt(c),
    ;
}

/// `p` lists each of `0..n` exactly once.
pub open spec fn is_permutation(p: Seq<usize>, n: nat) -> bool {
    &&& p.len() == n
    &&& forall|a: int| 0 <= a < p.len() ==> #[trigger] p[a] < n
    &&& forall|a: int, b: int| 0 <= a < p.len() && 0 <= b < p.len() && a != b ==> #[trigger] p[a] != #[trigger] p[b]
}

/// Reading `keys` in the order `p` never goes down, and keys that are not less
/// than each other keep their original relative order: `p` is the stable sort order.
pub open spec fn stably_sorted<K: SortKey>(keys: Seq<K>, p: Seq<usize>) -> bool {
    forall|a: int, b: int|
        0 <= a < b < p.len() ==> !keys[#[trigger] p[b] as int].key_lt(&keys[#[trigger] p[a] as int]) && (
        !keys[p[a] as int].key_lt(&keys[p[b] as int]) ==> p[a] < p[b])
}

/// The stable sort order of `keys`: positions of `keys` listed so that the keys never
/// go down, equal keys in their original order.
pub fn stable_order<K: SortKey>(keys: &Vec<K>) -> (p: Vec<usize>)
    ensures
        is_permutation(p@, keys@.len()),
        stably_sorted(keys@, p@),
{
    let mut p: Vec<usize> = Vec::new();
    let mut i: usize = 0;
    while i < keys.len()
        invariant
            i <= keys@.len(),
            p@.len() == i,
            forall|a: int| 0 <= a < p@.len() ==> #[trigger] p@[a] < i,
            forall|a: int, b: int| 0 <= a < p@.len() && 0 <= b < p@.len() && a != b ==> #[trigger] p@[a] != #[trigger] p@[b],
            stably_sorted(keys@, p@),
        decreases keys@.len() - i,
    {
        let mut pos: usize = 0;
        while pos < p.len()
            invariant
                i < keys@.len(),
                pos <= p@.len(),
                forall|a: int| 0 <= a < p@.len() ==> #[trigger] p@[a] < i,
                forall|a: int| 0 <= a < pos ==> !keys@[i as int].key_lt(&keys@[#[trigger] p@[a] as int]),
            ensures
                pos < p@.len() ==> keys@[i as int].key_lt(&keys@[p@[pos as int] as int]),
            decreases p@.len() - pos,
        {
            if keys[i].less(&keys[p[pos]]) {
                break;
            }
            pos = pos + 1;
        }
        let ghost old_p = p@;
        p.insert(pos, i);
        proof {
            let np = p@;
            assert forall|a: int| 0 <= a < np.len() implies #[trigger] np[a] < i + 1 by {
                if a < pos {
                    assert(np[a] == old_p[a]);
                } else if a > pos {
                    assert(np[a] == old_p[a - 1]);
                }
            }
            assert forall|a: int, b: int| 0 <= a < np.len() && 0 <= b < np.len() && a != b implies #[trigger] np[a] != #[trigger] np[b] by {
                if a != pos && b != pos {
                    let oa = if a < pos { a } else { a - 1 };
                    let ob = if b < pos { b } else { b - 1 };
                    assert(np[a] == old_p[oa]);
                    assert(np[b] == old_p[ob]);
                } else if a == pos {
                    let ob = if b < pos { b } else { b - 1 };
                    assert(np[b] == old_p[ob]);
                } else {
                    let oa = if a < pos { a } else { a - 1 };
                    assert(np[a] == old_p[oa]);
                }
            }
            let x = &keys@[i as int];
            assert forall|a: int, b: int| 0 <= a < b < np.len() implies !keys@[#[trigger] np[b] as int].key_lt(&keys@[#[trigger] np[a] as int]) && (
                !keys@[np[a] as int].key_lt(&keys@[np[b] as int]) ==> np[a] < np[b]) by {
                if b < pos {
                    assert(np[a] == old_p[a] && np[b] == old_p[b]);
                } else if a > pos {
                    assert(np[a] == old_p[a - 1] && np[b] == old_p[b - 1]);
                } else if a < pos && b > pos {
                    assert(np[a] == old_p[a] && np[b] == old_p[b - 1]);
                } else if a == pos {
                    // the new key is less than everything after it
                    let y = &keys@[old_p[pos as int] as int];
                    let z = &keys@[old_p[b - 1] as int];
                    assert(np[b] == old_p[b - 1]);
                    assert(x.key_lt(y));
                    if b - 1 > pos {
                        assert(!z.key_lt(y));
                        K::lemma_weak_order(x, z, y);
                    }
                    K::lemma_weak_order(x, z, z);
                } else {
                    // b == pos: everything before the new key is not greater than it
                    assert(np[a] == old_p[a]);
                }
            }
        }
        i = i + 1;
    }
    p
}

/// The elements of `items` reordered so that position `i` holds `items[p[i]]`.
pub fn permute<T>(items: Vec<T>, p: &Vec<usize>) -> (r: Vec<T>)
    requires
        is_permutation(p@, items@.len()),
    ensures
        r@.len() == items@.len(),
        forall|i: int| 0 <= i < r@.len() ==> #[trigger] r@[i] == items@[p@[i] as int],
{
    let n = items.len();
    let ghost orig = items@;
    let mut items = items;
    let mut slots: Vec<Option<T>> = Vec::new();
    while items.len() > 0
        invariant
            n == orig.len(),
            slots@.len() + items@.len() == n,
            items@ == orig.take(items@.len() as int),
            forall|q: int| 0 <= q < slots@.len() ==> #[trigger] slots@[q] == Some(orig[n - 1 - q]),
        decreases items@.len(),
    {
        let x = items.pop().unwrap();
        slots.push(Some(x));
        assert(items@ =~= orig.take(items@.len() as int));
    }
    let mut r: Vec<T> = Vec::new();
    let mut i: usize = 0;
    while i < n
        invariant
            n == orig.len(),
            slots@.len() == n,
            is_permutation(p@, n as nat),
            i <= n,
            r@.len() == i,
            forall|k: int| 0 <= k < i ==> #[trigger] r@[k] == orig[p@[k] as int],
            forall|q: int| 0 <= q < n ==> (#[trigger] slots@[q] is Some <==> (forall|k: int| 0 <= k < i ==> p@[k] != n - 1 - q)),
            forall|q: int| 0 <= q < n && #[trigger] slots@[q] is Some ==> slots@[q] == Some(orig[n - 1 - q]),
        decreases n - i,
    {
        let j = p[i];
        let slot = n - 1 - j;
        let mut taken: Option<T> = None;
        slots.set_and_swap(slot, &mut taken);
        proof {
            assert(forall|k: int| 0 <= k < i ==> p@[k] != p@[i as int]);
        }
        let x = taken.unwrap();
        r.push(x);
        proof {
            assert forall|q: int| 0 <= q < n implies (#[trigger] slots@[q] is Some <==> (forall|k: int| 0 <= k < i + 1 ==> p@[k] != n - 1 - q)) by {
                if q != slot {
                    if !(forall|k: int| 0 <= k < i + 1 ==> p@[k] != n - 1 - q) {
                        let k = choose|k: int| 0 <= k < i + 1 && p@[k] == n - 1 - q;
                        assert(k != i);
                    }
                } else {
                    assert(p@[i as int] == n - 1 - q);
                }
            }
        }
        i = i + 1;
    }
    r
}

/// `out` is `input` stably sorted by key.
pub open spec fn is_stable_sort_of<K: SortKey>(out: Seq<K>, input: Seq<K>) -> bool {
    exists|p: Seq<usize>|
        #![trigger is_permutation(p, input.len())]
        is_permutation(p, input.len()) && stably_sorted(input, p) && out.len() == input.len()
            && forall|i: int| 0 <= i < out.len() ==> #[trigger] out[i] == input[p[i] as int]
}

/// A stable sort never goes down: no element of the output is less than one before it.
pub proof fn law_stable_sort_never_goes_down<K: SortKey>(out: Seq<K>, input: Seq<K>)
    requires
        is_stable_sort_of(out, input),
    ensures
        forall|i: int, j: int| #![trigger out[i], out[j]] 0 <= i < j < out.len() ==> !out[j].key_lt(&out[i]),
{
    let p = choose|p: Seq<usize>|
        #![trigger is_permutation(p, input.len())]
        is_permutation(p, input.len()) && stably_sorted(input, p) && out.len() == input.len()
            && forall|i: int| 0 <= i < out.len() ==> #[trigger] out[i] == input[p[i] as int];
    assert forall|i: int, j: int| #![trigger out[i], out[j]] 0 <= i < j < out.len() implies !out[j].key_lt(&out[i]) by {
        assert(out[i] == input[p[i] as int]);
        assert(out[j] == input[p[j] as int]);
        assert(!input[p[j] as int].key_lt(&input[p[i] as int]));
    }
}

/// Sorts by key, keeping elements with equal keys in their original order.
pub fn stable_sort<K: SortKey>(v: Vec<K>) -> (r: Vec<K>)
    ensures
        is_stable_sort_of(r@, v@),
{
    let ghost input = v@;
    let p = stable_order(&v);
    let r = permute(v, &p);
    assert(is_permutation(p@, input.len()));
    r
}

/// Lexicographic order on text is a strict total order.
pub proof fn lemma_lex_order(a: Seq<char>, b: Seq<char>, c: Seq<char>)
    ensures
        !lex_lt(a, a),
        a != b ==> (lex_lt(a, b) || lex_lt(b, a)),
        !(lex_lt(a, b) && lex_lt(b, a)),
        b != c ==> (lex_lt(b, c) || lex_lt(c, b)),
        a != c ==> (lex_lt(a, c) || lex_lt(c, a)),
        !(lex_lt(b, c) && lex_lt(c, b)),
        !(lex_lt(a, c) && lex_lt(c, a)),
        lex_lt(a, b) && lex_lt(b, c) ==> lex_lt(a, c),
        lex_lt(b, a) && lex_lt(a, c) ==> lex_lt(b, c),
        lex_lt(c, b) && lex_lt(b, a) ==> lex_lt(c, a),
        lex_lt(b, c) && lex_lt(c, a) ==> lex_lt(b, a),
        lex_lt(a, c) && lex_lt(c, b) ==> lex_lt(a, b),
        lex_lt(c, a) && lex_lt(a, b) ==> lex_lt(c, b),
{
    lemma_lex_irreflexive(a);
    lemma_lex_total(a, b);
    lemma_lex_total(b, c);
    lemma_lex_total(a, c);
    if lex_lt(a, b) && lex_lt(b, c) {
        lemma_lex_transitive(a, b, c);
    }
    if lex_lt(b, a) && lex_lt(a, c) {
        lemma_lex_transitive(b, a, c);
    }
    if lex_lt(c, b) && lex_lt(b, a) {
        lemma_lex_transitive(c, b, a);
    }
    if lex_lt(b, c) && lex_lt(c, a) {
        lemma_lex_transitive(b, c, a);
    }
    if lex_lt(a, c) && lex_lt(c, b) {
        lemma_lex_transitive(a, c, b);
    }
    if lex_lt(c, a) && lex_lt(a, b) {
        lemma_lex_transitive(c, a, b);
    }
}

/// `s` is strictly increasing in lexicographic order (so it has no repeats).
pub open spec fn strictly_increasing(s: Seq<Seq<char>>) -> bool {
    forall|a: int, b: int| 0 <= a < b < s.len() ==> lex_lt(#[trigger] s[a], #[trigger] s[b])
}

/// The views of a vector of strings.
pub open spec fn string_views(v: Seq<String>) -> Seq<Seq<char>> {
    v.map_values(|x: String| x@)
}

/// Adds `s` to an ordered set of strings kept as a strictly increasing vector.
pub fn insert_sorted_unique(set: &mut Vec<String>, s: String)
    requires
        strictly_increasing(string_views(old(set)@)),
    ensures
        strictly_increasing(string_views(final(set)@)),
        string_views(final(set)@).to_set() == string_views(old(set)@).to_set().insert(s@),
{
    let ghost old_v = string_views(set@);
    let mut pos: usize = 0;
    while pos < set.len()
        invariant
            old_v == string_views(set@),
            pos <= set@.len(),
            forall|a: int| 0 <= a < pos ==> lex_lt(#[trigger] old_v[a], s@),
        ensures
            pos < set@.len() ==> !lex_lt(old_v[pos as int], s@),
        decreases set@.len() - pos,
    {
        if !lex_less(set[pos].as_str(), s.as_str()) {
            break;
        }
        pos = pos + 1;
    }
    if pos < set.len() && set[pos] == s {
        assert(old_v[pos as int] == s@);
        assert(old_v.to_set().insert(s@) =~= old_v.to_set());
        return;
    }
    let ghost sv = s@;
    set.insert(pos, s);
    proof {
        let nv = string_views(set@);
        assert(nv =~= old_v.insert(pos as int, sv));
        if pos < old_v.len() {
            assert(!lex_lt(old_v[pos as int], sv));
            assert(old_v[pos as int] != sv);
            lemma_lex_total(old_v[pos as int], sv);
        }
        assert forall|a: int, b: int| 0 <= a < b < nv.len() implies lex_lt(#[trigger] nv[a], #[trigger] nv[b]) by {
            if b < pos {
            } else if a > pos {
                assert(nv[a] == old_v[a - 1] && nv[b] == old_v[b - 1]);
            } else if a < pos && b > pos {
                assert(nv[a] == old_v[a] && nv[b] == old_v[b - 1]);
                if b - 1 > pos {
                    lemma_lex_transitive(sv, old_v[pos as int], old_v[b - 1]);
                }
                lemma_lex_transitive(old_v[a], sv, old_v[b - 1]);
            } else if a == pos {
                assert(nv[b] == old_v[b - 1]);
                if b - 1 > pos {
                    lemma_lex_transitive(sv, old_v[pos as int], old_v[b - 1]);
                }
            } else {
                assert(nv[a] == old_v[a]);
            }
        }
        assert(nv.to_set() =~= old_v.to_set().insert(sv)) by {
            assert forall|x: Seq<char>| #[trigger] nv.to_set().contains(x) implies old_v.to_set().insert(sv).contains(x) by {
                let k = choose|k: int| 0 <= k < nv.len() && nv[k] == x;
                if k < pos {
                    assert(old_v[k] == x);
                } else if k > pos {
                    assert(old_v[k - 1] == x);
                }
            }
            assert forall|x: Seq<char>| #[trigger] old_v.to_set().insert(sv).contains(x) implies nv.to_set().contains(x) by {
                if x == sv {
                    assert(nv[pos as int] == x);
                } else {
                    let k = choose|k: int| 0 <= k < old_v.len() && old_v[k] == x;
                    if k < pos {
                        assert(nv[k] == x);
                    } else {
                        assert(nv[k + 1] == x);
                    }
                }
            }
        }
    }
}

} // verus!
