use vstd::prelude::*;
use vstd::hash_map::StringHashMap;

verus! {

/// A `String`-keyed hash map that also keeps a list of its keys, so that
/// its entries can be listed (in no promised order).
///
/// The map itself is vstd's `StringHashMap`, which has no way to list its
/// entries; the key list supplies that. (A std `HashMap<String, _>` used
/// directly would have no key model for `String` to reason with.)
///
/// Well-formed (`wf`) when the key list holds every key of the map exactly
/// once and nothing else.
#[verifier::reject_recursive_types(V)]
pub struct StrMap<V> {
    map: StringHashMap<V>,
    keys: Vec<String>,
}

impl<V> View for StrMap<V> {
    type V = Map<Seq<char>, V>;

    closed spec fn view(&self) -> Map<Seq<char>, V> {
        self.map@
    }
}

impl<V> StrMap<V> {
    /// The key list holds each key of the map once, and nothing else.
    pub closed spec fn wf(&self) -> bool {
        &&& forall|i: int, j: int|
            0 <= i < j < self.keys@.len() ==> (#[trigger] self.keys@[i])@ != (#[trigger] self.keys@[j])@
        &&& forall|i: int| 0 <= i < self.keys@.len() ==> self.map@.contains_key((#[trigger] self.keys@[i])@)
        &&& forall|k: Seq<char>|
            #[trigger] self.map@.contains_key(k) ==> exists|i: int| 0 <= i < self.keys@.len() && self.keys@[i]@ == k
    }

    /// An empty map.
    pub fn new() -> (m: Self)
        ensures
            m.wf(),
            m@ == Map::<Seq<char>, V>::empty(),
    {
        StrMap { map: StringHashMap::new(), keys: Vec::new() }
    }

    /// Whether `k` has an entry.
    pub fn contains_key(&self, k: &str) -> (r: bool)
        ensures
            r == self@.contains_key(k@),
    {
        self.map.contains_key(k)
    }

    /// The entry of `k`, if any.
    pub fn get(&self, k: &str) -> (r: Option<&V>)
        ensures
            match r {
                Some(v) => self@.contains_key(k@) && *v == self@[k@],
                None => !self@.contains_key(k@),
            },
    {
        self.map.get(k)
    }

    /// Sets the entry of `k` to `v`, replacing any earlier one.
    pub fn insert(&mut self, k: String, v: V)
        requires
            old(self).wf(),
        ensures
            final(self).wf(),
            final(self)@ == old(self)@.insert(k@, v),
    {
        let ghost old_keys = self.keys@;
        if !self.map.contains_key(k.as_str()) {
            let k2 = k.clone();
            self.keys.push(k2);
            proof {
                assert(self.keys@[old_keys.len() as int]@ == k@);
            }
        }
        self.map.insert(k, v);
        proof {
            assert forall|key: Seq<char>| #[trigger] self.map@.contains_key(key) implies exists|i: int|
                0 <= i < self.keys@.len() && self.keys@[i]@ == key by {
                if key == k@ {
                    if old_keys.len() < self.keys@.len() {
                        assert(self.keys@[old_keys.len() as int]@ == key);
                    } else {
                        assert(old(self).map@.contains_key(key));
                    }
                } else {
                    assert(old(self).map@.contains_key(key));
                    let i = choose|i: int| 0 <= i < old_keys.len() && old_keys[i]@ == key;
                    assert(self.keys@[i] == old_keys[i]);
                }
            }
        }
    }

    /// Every key, once each.
    pub fn keys(&self) -> (r: Vec<String>)
        requires
            self.wf(),
        ensures
            forall|i: int| 0 <= i < r@.len() ==> self@.contains_key((#[trigger] r@[i])@),
            forall|k: Seq<char>| #[trigger] self@.contains_key(k) ==> exists|i: int| 0 <= i < r@.len() && r@[i]@ == k,
            forall|i: int, j: int| 0 <= i < j < r@.len() ==> (#[trigger] r@[i])@ != (#[trigger] r@[j])@,
    {
        let mut out: Vec<String> = Vec::new();
        let mut i: usize = 0;
        while i < self.keys.len()
            invariant
                self.wf(),
                i <= self.keys@.len(),
                out@.len() == i,
                forall|j: int| 0 <= j < i ==> (#[trigger] out@[j])@ == self.keys@[j]@,
            decreases self.keys@.len() - i,
        {
            out.push(self.keys[i].clone());
            i = i + 1;
        }
        proof {
            assert forall|a: int| 0 <= a < out@.len() implies self@.contains_key((#[trigger] out@[a])@) by {
                assert(out@[a]@ == self.keys@[a]@);
            }
            assert forall|kk: Seq<char>| #[trigger] self@.contains_key(kk) implies exists|a: int|
                0 <= a < out@.len() && out@[a]@ == kk by {
                let j = choose|j: int| 0 <= j < self.keys@.len() && self.keys@[j]@ == kk;
                assert(out@[j]@ == self.keys@[j]@);
            }
            assert forall|a: int, b: int| 0 <= a < b < out@.len() implies (#[trigger] out@[a])@ != (
            #[trigger] out@[b])@ by {
                assert(out@[a]@ == self.keys@[a]@);
                assert(out@[b]@ == self.keys@[b]@);
                assert(self.keys@[a]@ != self.keys@[b]@);
            }
        }
        out
    }

    /// Index of `key` in the key list, if it has an entry.
    fn key_index(&self, key: &String) -> (r: Option<usize>)
        requires
            self.wf(),
        ensures
            match r {
                Some(i) => i < self.keys@.len() && self.keys@[i as int]@ == key@,
                None => !self@.contains_key(key@),
            },
    {
        let mut i: usize = 0;
        while i < self.keys.len()
            invariant
                self.wf(),
                i <= self.keys@.len(),
                forall|j: int| 0 <= j < i ==> (#[trigger] self.keys@[j])@ != key@,
            decreases self.keys@.len() - i,
        {
            if self.keys[i] == *key {
                return Some(i);
            }
            i = i + 1;
        }
        None
    }

    /// Removes the entry of `k`, if any.
    pub fn remove(&mut self, k: &str)
        requires
            old(self).wf(),
        ensures
            final(self).wf(),
            final(self)@ == old(self)@.remove(k@),
    {
        let key = k.to_owned();
        let ghost old_keys = self.keys@;
        match self.key_index(&key) {
            Some(i) => {
                self.keys.remove(i);
                self.map.remove(k);
                proof {
                    let new_keys = self.keys@;
                    assert forall|a: int, b: int| 0 <= a < b < new_keys.len() implies (
                    #[trigger] new_keys[a])@ != (#[trigger] new_keys[b])@ by {
                        let oa = if a < i { a } else { a + 1 };
                        let ob = if b < i { b } else { b + 1 };
                        assert(new_keys[a] == old_keys[oa]);
                        assert(new_keys[b] == old_keys[ob]);
                    }
                    assert forall|a: int| 0 <= a < new_keys.len() implies self.map@.contains_key(
                        (#[trigger] new_keys[a])@,
                    ) by {
                        let oa = if a < i { a } else { a + 1 };
                        assert(new_keys[a] == old_keys[oa]);
                        assert(old_keys[oa]@ != old_keys[i as int]@);
                    }
                    assert forall|kk: Seq<char>| #[trigger] self.map@.contains_key(kk) implies exists|a: int|
                        0 <= a < new_keys.len() && new_keys[a]@ == kk by {
                        assert(old(self).map@.contains_key(kk));
                        let j = choose|j: int| 0 <= j < old_keys.len() && old_keys[j]@ == kk;
                        assert(j != i);
                        if j < i {
                            assert(new_keys[j] == old_keys[j]);
                        } else {
                            assert(new_keys[j - 1] == old_keys[j]);
                        }
                    }
                    assert(self.wf());
                }
            },
            None => {
                self.map.remove(k);
                proof {
                    assert(self.map@ =~= old(self).map@);
                    assert(self.keys@ == old_keys);
                }
            },
        }
    }
}

impl<V: Copy> StrMap<V> {
    /// Removes the entry of `k` and hands back its value, if there was one.
    pub fn take(&mut self, k: &str) -> (r: Option<V>)
        requires
            old(self).wf(),
        ensures
            final(self).wf(),
            final(self)@ == old(self)@.remove(k@),
            r == (if old(self)@.contains_key(k@) { Some(old(self)@[k@]) } else { None::<V> }),
    {
        let r = match self.map.get(k) {
            Some(v) => Some(*v),
            None => None,
        };
        self.remove(k);
        r
    }

    /// Every entry, once each.
    pub fn entries(&self) -> (r: Vec<(String, V)>)
        requires
            self.wf(),
        ensures
            forall|i: int|
                0 <= i < r@.len() ==> self@.contains_key((#[trigger] r@[i]).0@) && self@[r@[i].0@] == r@[i].1,
            forall|k: Seq<char>|
                #[trigger] self@.contains_key(k) ==> exists|i: int| 0 <= i < r@.len() && r@[i].0@ == k,
            forall|i: int, j: int| 0 <= i < j < r@.len() ==> (#[trigger] r@[i]).0@ != (#[trigger] r@[j]).0@,
    {
        let mut out: Vec<(String, V)> = Vec::new();
        let mut i: usize = 0;
        while i < self.keys.len()
            invariant
                self.wf(),
                i <= self.keys@.len(),
                out@.len() == i,
                forall|j: int| 0 <= j < i ==> (#[trigger] out@[j]).0@ == self.keys@[j]@,
                forall|j: int| 0 <= j < i ==> self@.contains_key((#[trigger] out@[j]).0@) && self@[out@[j].0@] == out@[j].1,
            decreases self.keys@.len() - i,
        {
            let k = self.keys[i].clone();
            proof {
                assert(self.map@.contains_key(self.keys@[i as int]@));
            }
            let v = *self.map.get(k.as_str()).unwrap();
            out.push((k, v));
            i = i + 1;
        }
        proof {
            assert forall|kk: Seq<char>| #[trigger] self@.contains_key(kk) implies exists|a: int|
                0 <= a < out@.len() && out@[a].0@ == kk by {
                let j = choose|j: int| 0 <= j < self.keys@.len() && self.keys@[j]@ == kk;
                assert(out@[j].0@ == self.keys@[j]@);
            }
            assert forall|a: int, b: int| 0 <= a < b < out@.len() implies (#[trigger] out@[a]).0@ != (
            #[trigger] out@[b]).0@ by {
                assert(out@[a].0@ == self.keys@[a]@);
                assert(out@[b].0@ == self.keys@[b]@);
                assert(self.keys@[a]@ != self.keys@[b]@);
            }
        }
        out
    }
}

} // verus!
