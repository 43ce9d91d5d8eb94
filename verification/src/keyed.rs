//! Association lists keyed by a string: the pet state keeps its sessions,
//! pending approvals / questions and finished sessions in vectors whose
//! entries have pairwise distinct keys. Insertion replaces the entry with the
//! same key in place or appends a new one; removal deletes the entry.

use vstd::prelude::*;

verus! {

/// A record stored in a keyed vector: it has a view and a string key.
pub trait Keyed: Sized + View {
    /// The key of a record, on its view.
    spec fn key_of(v: Self::V) -> Seq<char>;

    /// The key of this record.
    fn key(&self) -> (r: &str)
        ensures
            r@ == Self::key_of(self@),
    ;
}

/// The views of a sequence of records.
pub open spec fn views<R: View>(s: Seq<R>) -> Seq<R::V> {
    s.map_values(|r: R| r@)
}

/// The key function of a record type, as a spec closure.
pub open spec fn key_fn<R: Keyed>() -> spec_fn(R::V) -> Seq<char> {
    |v: R::V| R::key_of(v)
}

/// Index of the first entry of `s` with key `k`, or -1 when there is none.
pub open spec fn find_key<V>(s: Seq<V>, kf: spec_fn(V) -> Seq<char>, k: Seq<char>) -> int
    decreases s.len(),
{
    if s.len() == 0 {
        -1
    } else if kf(s[0]) == k {
        0
    } else {
        let r = find_key(s.drop_first(), kf, k);
        if r < 0 {
            -1
        } else {
            r + 1
        }
    }
}

/// Whether some entry of `s` has key `k`.
pub open spec fn has_key<V>(s: Seq<V>, kf: spec_fn(V) -> Seq<char>, k: Seq<char>) -> bool {
    exists|i: int| 0 <= i < s.len() && kf(s[i]) == k
}

/// The entry of `s` with key `k`, if any.
pub open spec fn lookup_key<V>(s: Seq<V>, kf: spec_fn(V) -> Seq<char>, k: Seq<char>) -> Option<V> {
    let i = find_key(s, kf, k);
    if i >= 0 {
        Some(s[i])
    } else {
        None
    }
}

/// `s` with `x` stored under its key: the entry with that key is replaced in
/// place, or `x` is appended when there is none.
pub open spec fn upsert_key<V>(s: Seq<V>, kf: spec_fn(V) -> Seq<char>, x: V) -> Seq<V> {
    let i = find_key(s, kf, kf(x));
    if i >= 0 {
        s.update(i, x)
    } else {
        s.push(x)
    }
}

/// `s` without the entry with key `k`.
pub open spec fn remove_key<V>(s: Seq<V>, kf: spec_fn(V) -> Seq<char>, k: Seq<char>) -> Seq<V> {
    let i = find_key(s, kf, k);
    if i >= 0 {
        s.remove(i)
    } else {
        s
    }
}

/// The keys of the entries of `s` are pairwise distinct.
pub open spec fn keys_unique<V>(s: Seq<V>, kf: spec_fn(V) -> Seq<char>) -> bool {
    forall|i: int, j: int| 0 <= i < s.len() && 0 <= j < s.len() && i != j ==> kf(s[i]) != kf(s[j])
}

/// Characterises `find_key` as the first index with key `k`.
pub proof fn lemma_find_key<V>(s: Seq<V>, kf: spec_fn(V) -> Seq<char>, k: Seq<char>)
    ensures
        -1 <= find_key(s, kf, k) < s.len(),
        find_key(s, kf, k) >= 0 ==> kf(s[find_key(s, kf, k)]) == k,
        find_key(s, kf, k) >= 0 ==> forall|j: int|
            0 <= j < find_key(s, kf, k) ==> kf(#[trigger] s[j]) != k,
        find_key(s, kf, k) < 0 ==> forall|j: int| 0 <= j < s.len() ==> kf(#[trigger] s[j]) != k,
        (find_key(s, kf, k) >= 0) == has_key(s, kf, k),
    decreases s.len(),
{
    if s.len() > 0 && kf(s[0]) != k {
        lemma_find_key(s.drop_first(), kf, k);
        let r = find_key(s.drop_first(), kf, k);
        assert forall|j: int| 0 <= j < s.len() && (r < 0 || j < r + 1) implies kf(#[trigger] s[j])
            != k by {
            if j > 0 {
                assert(s[j] == s.drop_first()[j - 1]);
            }
        }
        if r >= 0 {
            assert(s[r + 1] == s.drop_first()[r]);
        }
    }
}

/// With distinct keys, an entry that has key `k` is the one `find_key` finds.
pub proof fn lemma_find_key_unique<V>(s: Seq<V>, kf: spec_fn(V) -> Seq<char>, i: int)
    requires
        keys_unique(s, kf),
        0 <= i < s.len(),
    ensures
        find_key(s, kf, kf(s[i])) == i,
{
    lemma_find_key(s, kf, kf(s[i]));
}

/// Storing an entry keeps the keys distinct, and the entry is then found under its key.
pub proof fn lemma_upsert_key<V>(s: Seq<V>, kf: spec_fn(V) -> Seq<char>, x: V)
    requires
        keys_unique(s, kf),
    ensures
        keys_unique(upsert_key(s, kf, x), kf),
        lookup_key(upsert_key(s, kf, x), kf, kf(x)) == Some(x),
        forall|k: Seq<char>|
            k != kf(x) ==> lookup_key(#[trigger] upsert_key(s, kf, x), kf, k) == lookup_key(
                s,
                kf,
                k,
            ),
{
    lemma_find_key(s, kf, kf(x));
    let t = upsert_key(s, kf, x);
    let i = find_key(s, kf, kf(x));
    assert forall|a: int, b: int| 0 <= a < t.len() && 0 <= b < t.len() && a != b implies kf(t[a])
        != kf(t[b]) by {
        if i >= 0 {
        } else {
        }
    }
    if i >= 0 {
        lemma_find_key_unique(t, kf, i);
    } else {
        lemma_find_key_unique(t, kf, s.len() as int);
    }
    assert forall|k: Seq<char>| k != kf(x) implies lookup_key(#[trigger] upsert_key(s, kf, x), kf, k)
        == lookup_key(s, kf, k) by {
        lemma_find_key(s, kf, k);
        lemma_find_key(t, kf, k);
        let j = find_key(s, kf, k);
        if j >= 0 {
            lemma_find_key_unique(t, kf, j);
        } else {
            let jt = find_key(t, kf, k);
            if jt >= 0 {
                assert(jt < s.len());
            }
        }
    }
}

/// Removing a key keeps the keys distinct and leaves no entry with that key.
pub proof fn lemma_remove_key<V>(s: Seq<V>, kf: spec_fn(V) -> Seq<char>, k: Seq<char>)
    requires
        keys_unique(s, kf),
    ensures
        keys_unique(remove_key(s, kf, k), kf),
        !has_key(remove_key(s, kf, k), kf, k),
{
    lemma_find_key(s, kf, k);
    let i = find_key(s, kf, k);
    let t = remove_key(s, kf, k);
    if i >= 0 {
        assert forall|a: int, b: int| 0 <= a < t.len() && 0 <= b < t.len() && a != b implies kf(
            t[a],
        ) != kf(t[b]) by {
            let a2 = if a < i {
                a
            } else {
                a + 1
            };
            let b2 = if b < i {
                b
            } else {
                b + 1
            };
            assert(t[a] == s[a2]);
            assert(t[b] == s[b2]);
        }
        assert forall|j: int| 0 <= j < t.len() implies kf(#[trigger] t[j]) != k by {
            let j2 = if j < i {
                j
            } else {
                j + 1
            };
            assert(t[j] == s[j2]);
        }
    }
}

/// Filtering keeps the keys distinct.
pub proof fn lemma_filter_unique<V>(s: Seq<V>, kf: spec_fn(V) -> Seq<char>, p: spec_fn(V) -> bool)
    requires
        keys_unique(s, kf),
    ensures
        keys_unique(s.filter(p), kf),
        forall|j: int| 0 <= j < s.filter(p).len() ==> s.contains(#[trigger] s.filter(p)[j]),
    decreases s.len(),
{
    reveal(Seq::filter);
    if s.len() > 0 {
        let d = s.drop_last();
        assert(keys_unique(d, kf));
        lemma_filter_unique(d, kf, p);
        let f = d.filter(p);
        if p(s.last()) {
            let t = f.push(s.last());
            assert forall|j: int| 0 <= j < f.len() implies kf(#[trigger] f[j]) != kf(s.last()) by {
                assert(d.contains(f[j]));
                let m = choose|m: int| 0 <= m < d.len() && d[m] == f[j];
                assert(s[m] == f[j]);
            }
            assert forall|j: int| 0 <= j < t.len() implies s.contains(#[trigger] t[j]) by {
                if j < f.len() {
                    assert(d.contains(f[j]));
                    let m = choose|m: int| 0 <= m < d.len() && d[m] == f[j];
                    assert(s[m] == t[j]);
                } else {
                    assert(s[s.len() - 1] == t[j]);
                }
            }
        } else {
            assert forall|j: int| 0 <= j < f.len() implies s.contains(#[trigger] f[j]) by {
                assert(d.contains(f[j]));
                let m = choose|m: int| 0 <= m < d.len() && d[m] == f[j];
                assert(s[m] == f[j]);
            }
        }
    }
}

/// The index of the first record of `v` whose key is `k`.
pub fn find_index<R: Keyed>(v: &Vec<R>, k: &str) -> (r: Option<usize>)
    ensures
        match r {
            Some(i) => i < v.len() && find_key(views(v@), key_fn::<R>(), k@) == i,
            None => find_key(views(v@), key_fn::<R>(), k@) == -1,
        },
{
    let ghost s = views(v@);
    let ghost kf = key_fn::<R>();
    proof {
        lemma_find_key(s, kf, k@);
    }
    let mut i: usize = 0;
    while i < v.len()
        invariant
            i <= v.len(),
            s == views(v@),
            kf == key_fn::<R>(),
            forall|j: int| 0 <= j < i ==> kf(#[trigger] s[j]) != k@,
            -1 <= find_key(s, kf, k@) < s.len(),
            find_key(s, kf, k@) >= 0 ==> kf(s[find_key(s, kf, k@)]) == k@,
            find_key(s, kf, k@) >= 0 ==> forall|j: int|
                0 <= j < find_key(s, kf, k@) ==> kf(#[trigger] s[j]) != k@,
            find_key(s, kf, k@) < 0 ==> forall|j: int| 0 <= j < s.len() ==> kf(#[trigger] s[j]) != k@,
        decreases v.len() - i,
    {
        let ki = v[i].key();
        if crate::strings::str_eq(ki, k) {
            assert(kf(s[i as int]) == k@);
            return Some(i);
        }
        assert(kf(s[i as int]) != k@);
        i = i + 1;
    }
    None
}

/// Stores `x` under its key: replaces the record with the same key in place,
/// or appends `x` when there is none.
pub fn upsert<R: Keyed>(v: &mut Vec<R>, x: R)
    ensures
        views(final(v)@) == upsert_key(views(old(v)@), key_fn::<R>(), x@),
{
    let ghost xv = x@;
    let found = find_index(v, x.key());
    match found {
        Some(i) => {
            v.set(i, x);
            assert(views(v@) =~= views(old(v)@).update(i as int, xv));
        },
        None => {
            v.push(x);
            assert(views(v@) =~= views(old(v)@).push(xv));
        },
    }
}

/// Removes the record whose key is `k`, if any.
pub fn remove_by_key<R: Keyed>(v: &mut Vec<R>, k: &str)
    ensures
        views(final(v)@) == remove_key(views(old(v)@), key_fn::<R>(), k@),
{
    let found = find_index(v, k);
    match found {
        Some(i) => {
            v.remove(i);
            assert(views(v@) =~= views(old(v)@).remove(i as int));
        },
        None => {},
    }
}

/// The record whose key is `k`, if any.
pub fn get_by_key<'a, R: Keyed>(v: &'a Vec<R>, k: &str) -> (r: Option<&'a R>)
    ensures
        match r {
            Some(x) => lookup_key(views(v@), key_fn::<R>(), k@) == Some(x@),
            None => lookup_key(views(v@), key_fn::<R>(), k@) is None,
        },
{
    match find_index(v, k) {
        Some(i) => Some(&v[i]),
        None => None,
    }
}

} // verus!

verus! {

/// Keeps the records of `v` whose flag in `keep` is set, in order.
pub fn filter_vec<R: View>(v: Vec<R>, keep: &Vec<bool>, Ghost(p): Ghost<spec_fn(R::V) -> bool>) -> (r: Vec<R>)
    requires
        keep.len() == v.len(),
        forall|i: int| 0 <= i < v.len() ==> keep@[i] == p(#[trigger] v@[i]@),
    ensures
        views(r@) == views(v@).filter(p),
{
    let ghost vs = v@;
    let mut r: Vec<R> = Vec::new();
    let mut idx: usize = 0;
    proof {
        reveal(Seq::filter);
        assert(views(vs.take(0)) =~= Seq::<R::V>::empty());
    }
    for x in it: v
        invariant
            it.seq() == vs,
            idx == it.index(),
            keep.len() == vs.len(),
            forall|i: int| 0 <= i < vs.len() ==> keep@[i] == p(#[trigger] vs[i]@),
            views(r@) == views(vs.take(idx as int)).filter(p),
    {
        proof {
            reveal(Seq::filter);
            assert(views(vs.take(idx + 1)).drop_last() =~= views(vs.take(idx as int)));
            assert(views(vs.take(idx + 1)).last() == vs[idx as int]@);
        }
        if keep[idx] {
            let ghost before = r@;
            r.push(x);
            assert(views(r@) =~= views(before).push(vs[idx as int]@));
        }
        idx = idx + 1;
    }
    assert(vs.take(vs.len() as int) =~= vs);
    r
}

} // verus!
