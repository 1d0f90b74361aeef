//! An association map with a mathematical `Map` view, used for every keyed
//! storage table of the contracts.

use vstd::prelude::*;

verus! {

/// Keys of a `KeyMap`: equality is decided on the key's view.
pub trait MapKey: View + Sized {
    fn key_eq(&self, other: &Self) -> (b: bool)
        ensures
            b == (self@ == other@),
    ;

    fn key_copy(&self) -> (r: Self)
        ensures
            r@ == self@,
    ;
}

impl MapKey for i128 {
    fn key_eq(&self, other: &Self) -> (b: bool) {
        *self == *other
    }

    fn key_copy(&self) -> (r: Self) {
        *self
    }
}

impl MapKey for u32 {
    fn key_eq(&self, other: &Self) -> (b: bool) {
        *self == *other
    }

    fn key_copy(&self) -> (r: Self) {
        *self
    }
}

impl MapKey for String {
    fn key_eq(&self, other: &Self) -> (b: bool) {
        *self == *other
    }

    fn key_copy(&self) -> (r: Self) {
        self.clone()
    }
}

impl MapKey for (i128, String) {
    fn key_eq(&self, other: &Self) -> (b: bool) {
        self.0 == other.0 && self.1 == other.1
    }

    fn key_copy(&self) -> (r: Self) {
        (self.0, self.1.clone())
    }
}

impl MapKey for (String, i128) {
    fn key_eq(&self, other: &Self) -> (b: bool) {
        self.0 == other.0 && self.1 == other.1
    }

    fn key_copy(&self) -> (r: Self) {
        (self.0.clone(), self.1)
    }
}

/// Values that can be copied without changing their view.
pub trait Duplicate: View + Sized {
    fn duplicate(&self) -> (r: Self)
        ensures
            r@ == self@,
    ;
}

impl Duplicate for bool {
    fn duplicate(&self) -> (r: Self) {
        *self
    }
}

impl Duplicate for String {
    fn duplicate(&self) -> (r: Self) {
        self.clone()
    }
}

/// A finite map stored as a list of entries with pairwise distinct keys.
pub struct KeyMap<K: View, V: View> {
    entries: Vec<(K, V)>,
}

/// No key occurs twice among the entries.
pub closed spec fn distinct_keys<K: View, V>(s: Seq<(K, V)>) -> bool {
    forall|i: int, j: int| 0 <= i < j < s.len() ==> #[trigger] s[i].0@ != #[trigger] s[j].0@
}

/// The map that a list of entries stands for.
pub closed spec fn entry_map<K: View, V: View>(s: Seq<(K, V)>) -> Map<K::V, V::V> {
    Map::new(
        |k: K::V| exists|i: int| 0 <= i < s.len() && #[trigger] s[i].0@ == k,
        |k: K::V| s[choose|i: int| 0 <= i < s.len() && #[trigger] s[i].0@ == k].1@,
    )
}

proof fn lemma_entry<K: View, V: View>(s: Seq<(K, V)>, i: int)
    requires
        distinct_keys(s),
        0 <= i < s.len(),
    ensures
        entry_map(s).contains_key(s[i].0@),
        entry_map(s)[s[i].0@] == s[i].1@,
{
    let k = s[i].0@;
    assert(s[i].0@ == k);
    let j = choose|j: int| 0 <= j < s.len() && #[trigger] s[j].0@ == k;
    if j < i {
        assert(s[j].0@ != s[i].0@);
    } else if i < j {
        assert(s[i].0@ != s[j].0@);
    }
}

proof fn lemma_set<K: View, V: View>(s: Seq<(K, V)>, i: int, x: (K, V))
    requires
        distinct_keys(s),
        0 <= i < s.len(),
        x.0@ == s[i].0@,
    ensures
        distinct_keys(s.update(i, x)),
        entry_map(s.update(i, x)) == entry_map(s).insert(x.0@, x.1@),
{
    let t = s.update(i, x);
    assert forall|a: int, b: int| 0 <= a < b < t.len() implies #[trigger] t[a].0@ != #[trigger] t[b].0@ by {
        assert(s[a].0@ != s[b].0@);
    }
    let target = entry_map(s).insert(x.0@, x.1@);
    assert forall|kk: K::V| #[trigger] entry_map(t).contains_key(kk) == target.contains_key(kk) by {
        if entry_map(t).contains_key(kk) {
            let j = choose|j: int| 0 <= j < t.len() && #[trigger] t[j].0@ == kk;
            if j != i {
                lemma_entry(s, j);
            }
        }
        if entry_map(s).contains_key(kk) && kk != x.0@ {
            let j = choose|j: int| 0 <= j < s.len() && #[trigger] s[j].0@ == kk;
            lemma_entry(t, j);
        }
        if kk == x.0@ {
            lemma_entry(t, i);
        }
    }
    assert forall|kk: K::V| #[trigger] entry_map(t).contains_key(kk) implies entry_map(t)[kk] == target[kk] by {
        let j = choose|j: int| 0 <= j < t.len() && #[trigger] t[j].0@ == kk;
        lemma_entry(t, j);
        if j != i {
            lemma_entry(s, j);
        }
    }
    assert(entry_map(t) =~= target);
}

proof fn lemma_push<K: View, V: View>(s: Seq<(K, V)>, x: (K, V))
    requires
        distinct_keys(s),
        !entry_map(s).contains_key(x.0@),
    ensures
        distinct_keys(s.push(x)),
        entry_map(s.push(x)) == entry_map(s).insert(x.0@, x.1@),
{
    let t = s.push(x);
    let n = s.len() as int;
    assert forall|a: int, b: int| 0 <= a < b < t.len() implies #[trigger] t[a].0@ != #[trigger] t[b].0@ by {
        if b < n {
            assert(s[a].0@ != s[b].0@);
        } else {
            assert(t[a] == s[a]);
            lemma_entry(s, a);
        }
    }
    let target = entry_map(s).insert(x.0@, x.1@);
    assert forall|kk: K::V| #[trigger] entry_map(t).contains_key(kk) == target.contains_key(kk) by {
        if entry_map(t).contains_key(kk) {
            let j = choose|j: int| 0 <= j < t.len() && #[trigger] t[j].0@ == kk;
            if j != n {
                assert(t[j] == s[j]);
                lemma_entry(s, j);
            }
        }
        if entry_map(s).contains_key(kk) {
            let j = choose|j: int| 0 <= j < s.len() && #[trigger] s[j].0@ == kk;
            assert(t[j] == s[j]);
            lemma_entry(t, j);
        }
        if kk == x.0@ {
            lemma_entry(t, n);
        }
    }
    assert forall|kk: K::V| #[trigger] entry_map(t).contains_key(kk) implies entry_map(t)[kk] == target[kk] by {
        let j = choose|j: int| 0 <= j < t.len() && #[trigger] t[j].0@ == kk;
        lemma_entry(t, j);
        if j != n {
            assert(t[j] == s[j]);
            lemma_entry(s, j);
        }
    }
    assert(entry_map(t) =~= target);
}

proof fn lemma_remove<K: View, V: View>(s: Seq<(K, V)>, i: int)
    requires
        distinct_keys(s),
        0 <= i < s.len(),
    ensures
        distinct_keys(s.remove(i)),
        entry_map(s.remove(i)) == entry_map(s).remove(s[i].0@),
{
    let t = s.remove(i);
    let k = s[i].0@;
    assert forall|j: int| 0 <= j < t.len() implies #[trigger] t[j] == s[if j < i { j } else { j + 1 }] by {}
    assert forall|a: int, b: int| 0 <= a < b < t.len() implies #[trigger] t[a].0@ != #[trigger] t[b].0@ by {
        let a2 = if a < i { a } else { a + 1 };
        let b2 = if b < i { b } else { b + 1 };
        assert(t[a] == s[a2]);
        assert(t[b] == s[b2]);
        assert(s[a2].0@ != s[b2].0@);
    }
    let target = entry_map(s).remove(k);
    assert forall|kk: K::V| #[trigger] entry_map(t).contains_key(kk) == target.contains_key(kk) by {
        if entry_map(t).contains_key(kk) {
            let j = choose|j: int| 0 <= j < t.len() && #[trigger] t[j].0@ == kk;
            let j2 = if j < i { j } else { j + 1 };
            assert(t[j] == s[j2]);
            lemma_entry(s, j2);
            if j2 < i {
                assert(s[j2].0@ != s[i].0@);
            } else {
                assert(s[i].0@ != s[j2].0@);
            }
        }
        if entry_map(s).contains_key(kk) && kk != k {
            let j = choose|j: int| 0 <= j < s.len() && #[trigger] s[j].0@ == kk;
            assert(j != i);
            let j2 = if j < i { j } else { j - 1 };
            assert(t[j2] == s[j]);
            lemma_entry(t, j2);
        }
    }
    assert forall|kk: K::V| #[trigger] entry_map(t).contains_key(kk) implies entry_map(t)[kk] == target[kk] by {
        let j = choose|j: int| 0 <= j < t.len() && #[trigger] t[j].0@ == kk;
        let j2 = if j < i { j } else { j + 1 };
        assert(t[j] == s[j2]);
        lemma_entry(t, j);
        lemma_entry(s, j2);
    }
    assert(entry_map(t) =~= target);
}

/// The position of `k` among the entries `s`, if it is there.
fn find_in<K: MapKey, V>(s: &Vec<(K, V)>, k: &K) -> (r: Option<usize>)
    ensures
        match r {
            Some(i) => i < s@.len() && s@[i as int].0@ == k@,
            None => forall|j: int| 0 <= j < s@.len() ==> #[trigger] s@[j].0@ != k@,
        },
{
    let mut i: usize = 0;
    while i < s.len()
        invariant
            i <= s@.len(),
            forall|j: int| 0 <= j < i ==> #[trigger] s@[j].0@ != k@,
        decreases s@.len() - i,
    {
        if s[i].0.key_eq(k) {
            return Some(i);
        }
        i = i + 1;
    }
    None
}

impl<K: View, V: View> View for KeyMap<K, V> {
    type V = Map<K::V, V::V>;

    closed spec fn view(&self) -> Map<K::V, V::V> {
        entry_map(self.entries@)
    }
}

impl<K: View, V: View> KeyMap<K, V> {
    #[verifier::type_invariant]
    closed spec fn keys_distinct(&self) -> bool {
        distinct_keys(self.entries@)
    }
}

impl<K: MapKey, V: View> KeyMap<K, V> {
    pub fn new() -> (m: Self)
        ensures
            m@ == Map::<K::V, V::V>::empty(),
    {
        let m = KeyMap { entries: Vec::new() };
        assert(m@ =~= Map::<K::V, V::V>::empty());
        m
    }

    /// The entries of the map, each key once.
    pub fn entries(&self) -> (r: &Vec<(K, V)>)
        ensures
            distinct_keys(r@),
            entry_map(r@) == self@,
    {
        proof {
            use_type_invariant(self);
        }
        &self.entries
    }

    pub fn is_empty(&self) -> (b: bool)
        ensures
            b == (self@ == Map::<K::V, V::V>::empty()),
    {
        proof {
            use_type_invariant(self);
        }
        if self.entries.len() == 0 {
            assert(self@ =~= Map::<K::V, V::V>::empty());
            true
        } else {
            proof {
                lemma_entry(self.entries@, 0);
            }
            false
        }
    }

    pub fn contains_key(&self, k: &K) -> (b: bool)
        ensures
            b == self@.contains_key(k@),
    {
        proof {
            use_type_invariant(self);
        }
        match find_in(&self.entries, k) {
            Some(i) => {
                proof {
                    lemma_entry(self.entries@, i as int);
                }
                true
            },
            None => false,
        }
    }

    pub fn get(&self, k: &K) -> (r: Option<&V>)
        ensures
            match r {
                Some(v) => self@.contains_key(k@) && v@ == self@[k@],
                None => !self@.contains_key(k@),
            },
    {
        proof {
            use_type_invariant(self);
        }
        match find_in(&self.entries, k) {
            Some(i) => {
                proof {
                    lemma_entry(self.entries@, i as int);
                }
                Some(&self.entries[i].1)
            },
            None => None,
        }
    }

    pub fn insert(&mut self, k: K, v: V)
        ensures
            final(self)@ == old(self)@.insert(k@, v@),
    {
        proof {
            use_type_invariant(&*self);
        }
        let mut e: Vec<(K, V)> = Vec::new();
        std::mem::swap(&mut e, &mut self.entries);
        let ghost pre = e@;
        match find_in(&e, &k) {
            Some(i) => {
                proof {
                    lemma_set(pre, i as int, (k, v));
                }
                e.set(i, (k, v));
            },
            None => {
                proof {
                    lemma_push(pre, (k, v));
                }
                e.push((k, v));
            },
        }
        self.entries = e;
    }

    /// Removes the entry of `k` and hands its value back.
    pub fn take(&mut self, k: &K) -> (r: Option<V>)
        ensures
            final(self)@ == old(self)@.remove(k@),
            match r {
                Some(v) => old(self)@.contains_key(k@) && v@ == old(self)@[k@],
                None => !old(self)@.contains_key(k@),
            },
    {
        proof {
            use_type_invariant(&*self);
        }
        let mut e: Vec<(K, V)> = Vec::new();
        std::mem::swap(&mut e, &mut self.entries);
        let ghost pre = e@;
        match find_in(&e, k) {
            Some(i) => {
                proof {
                    lemma_entry(pre, i as int);
                    lemma_remove(pre, i as int);
                }
                let (_, v) = e.remove(i);
                self.entries = e;
                Some(v)
            },
            None => {
                assert(entry_map(pre).remove(k@) =~= entry_map(pre));
                self.entries = e;
                None
            },
        }
    }

    pub fn remove(&mut self, k: &K)
        ensures
            final(self)@ == old(self)@.remove(k@),
    {
        let _ = self.take(k);
    }
}

impl<K: MapKey, V: Duplicate> Duplicate for KeyMap<K, V> {
    fn duplicate(&self) -> (r: Self) {
        proof {
            use_type_invariant(self);
        }
        let mut entries: Vec<(K, V)> = Vec::new();
        let mut i: usize = 0;
        while i < self.entries.len()
            invariant
                i <= self.entries@.len(),
                entries@.len() == i,
                forall|j: int| 0 <= j < i ==> #[trigger] entries@[j].0@ == self.entries@[j].0@
                    && entries@[j].1@ == self.entries@[j].1@,
            decreases self.entries@.len() - i,
        {
            let k = self.entries[i].0.key_copy();
            let v = self.entries[i].1.duplicate();
            entries.push((k, v));
            i = i + 1;
        }
        let ghost s = self.entries@;
        let ghost t = entries@;
        proof {
            assert forall|a: int, b: int| 0 <= a < b < t.len() implies #[trigger] t[a].0@ != #[trigger] t[b].0@ by {
                assert(s[a].0@ != s[b].0@);
            }
            assert forall|kk: K::V| #[trigger] entry_map(t).contains_key(kk) == entry_map(s).contains_key(kk) by {
                if entry_map(t).contains_key(kk) {
                    let j = choose|j: int| 0 <= j < t.len() && #[trigger] t[j].0@ == kk;
                    lemma_entry(s, j);
                }
                if entry_map(s).contains_key(kk) {
                    let j = choose|j: int| 0 <= j < s.len() && #[trigger] s[j].0@ == kk;
                    lemma_entry(t, j);
                }
            }
            assert forall|kk: K::V| #[trigger] entry_map(t).contains_key(kk) implies entry_map(t)[kk]
                == entry_map(s)[kk] by {
                let j = choose|j: int| 0 <= j < t.len() && #[trigger] t[j].0@ == kk;
                lemma_entry(t, j);
                lemma_entry(s, j);
            }
            assert(entry_map(t) =~= entry_map(s));
        }
        KeyMap { entries }
    }
}

} // verus!
