//! A map keyed by text: the keyed collection behind headers, query parameters,
//! cookies, session data and connection tables. Entries keep the order in which
//! their keys were first inserted.
use vstd::prelude::*;

verus! {

/// A finite map from text keys to values, each key held once.
#[derive(Debug)]
pub struct StringMap<V> {
    keys: Vec<String>,
    vals: Vec<V>,
}

/// The map that parallel sequences of distinct keys and of values describe.
pub open spec fn map_of<V>(ks: Seq<Seq<char>>, vs: Seq<V>) -> Map<Seq<char>, V> {
    Map::new(|k: Seq<char>| ks.contains(k), |k: Seq<char>| vs[ks.index_of(k)])
}

/// Replacing the value at position `i` of a duplicate-free key sequence is
/// inserting that value under the key at `i`.
pub proof fn lemma_map_of_update<V>(ks: Seq<Seq<char>>, vs: Seq<V>, i: int)
    requires
        ks.no_duplicates(),
        ks.len() == vs.len(),
        0 <= i < ks.len(),
    ensures
        forall|x: V| #[trigger] map_of(ks, vs.update(i, x)) == map_of(ks, vs).insert(ks[i], x),
{
    assert forall|x: V| #[trigger] map_of(ks, vs.update(i, x)) == map_of(ks, vs).insert(ks[i], x) by {
        let m1 = map_of(ks, vs.update(i, x));
        let m2 = map_of(ks, vs).insert(ks[i], x);
        assert forall|q: Seq<char>| m1.contains_key(q) <==> m2.contains_key(q) by {
            if q == ks[i] {
                assert(ks.contains(q));
            }
        }
        assert forall|q: Seq<char>| #[trigger] m1.contains_key(q) implies m1[q] == m2[q] by {
            let j = ks.index_of(q);
            assert(ks[j] == q);
            if q == ks[i] {
                assert(j == i);
            }
        }
        assert(m1 =~= m2);
    }
}

impl<V: Clone> Clone for StringMap<V> {
    /// The same keys in the same order, each value cloned.
    fn clone(&self) -> (r: Self)
        ensures
            r.key_seq() == self.key_seq(),
            r.val_seq().len() == self.val_seq().len(),
            forall|i: int| 0 <= i < r.val_seq().len() ==> cloned::<V>(self.val_seq()[i], #[trigger] r.val_seq()[i]),
            r.wf(),
    {
        proof {
            use_type_invariant(self);
        }
        let keys = self.keys.clone();
        let vals = self.vals.clone();
        proof {
            assert forall|i: int| 0 <= i < keys@.len() implies keys@[i] == self.keys@[i] by {
                assert(cloned::<String>(self.keys@[i], keys@[i]));
            }
            assert(keys@ =~= self.keys@);
        }
        let r = StringMap { keys, vals };
        proof {
            assert(r.key_seq() =~= self.key_seq());
        }
        r
    }
}

impl<V> View for StringMap<V> {
    type V = Map<Seq<char>, V>;

    open spec fn view(&self) -> Map<Seq<char>, V> {
        map_of(self.key_seq(), self.val_seq())
    }
}

impl<V> StringMap<V> {
    /// The keys, in entry order.
    pub closed spec fn key_seq(&self) -> Seq<Seq<char>> {
        self.keys@.map_values(|k: String| k@)
    }

    /// The values, in entry order.
    pub closed spec fn val_seq(&self) -> Seq<V> {
        self.vals@
    }

    /// Keys and values line up, and no key occurs twice.
    #[verifier::type_invariant]
    pub closed spec fn wf(&self) -> bool {
        &&& self.keys@.len() == self.vals@.len()
        &&& self.key_seq().no_duplicates()
    }

    /// The number of entries.
    pub open spec fn spec_len(&self) -> nat {
        self.key_seq().len()
    }

    proof fn lemma_lookup(&self, i: int)
        requires
            self.wf(),
            0 <= i < self.spec_len(),
        ensures
            self@.contains_key(self.key_seq()[i]),
            self@[self.key_seq()[i]] == self.val_seq()[i],
    {
        let k = self.key_seq()[i];
        assert(self.key_seq().contains(k));
        let j = self.key_seq().index_of(k);
        assert(self.key_seq()[j] == k);
    }

    /// Every key of the map sits at some position of the key sequence.
    pub proof fn lemma_wf_facts(&self)
        requires
            self.wf(),
        ensures
            self.key_seq().len() == self.val_seq().len(),
            self.key_seq().no_duplicates(),
            forall|k: Seq<char>| #[trigger]
                self@.contains_key(k) <==> self.key_seq().contains(k),
            forall|i: int|
                0 <= i < self.spec_len() ==> #[trigger] self@[self.key_seq()[i]]
                    == self.val_seq()[i],
            self@.dom().finite(),
            self@.len() == self.spec_len(),
    {
        assert forall|i: int| 0 <= i < self.spec_len() implies #[trigger] self@[self.key_seq()[i]]
            == self.val_seq()[i] by {
            self.lemma_lookup(i);
        }
        assert(self@.dom() =~= self.key_seq().to_set());
        self.key_seq().unique_seq_to_set();
    }

    /// An empty map.
    pub fn new() -> (m: Self)
        ensures
            m.wf(),
            m@ == Map::<Seq<char>, V>::empty(),
            m.spec_len() == 0,
    {
        let m = StringMap { keys: Vec::new(), vals: Vec::new() };
        assert(m.key_seq() =~= Seq::<Seq<char>>::empty());
        assert(m@ =~= Map::<Seq<char>, V>::empty());
        m
    }

    fn find(&self, k: &str) -> (r: Option<usize>)
        ensures
            match r {
                Some(i) => i < self.spec_len() && self.key_seq()[i as int] == k@,
                None => !self.key_seq().contains(k@),
            },
    {
        proof {
            use_type_invariant(self);
        }
        let mut i: usize = 0;
        while i < self.keys.len()
            invariant
                self.wf(),
                0 <= i <= self.keys@.len(),
                forall|j: int| 0 <= j < i ==> self.key_seq()[j] != k@,
            decreases self.keys@.len() - i,
        {
            if crate::text::chars_equal(&crate::text::chars_of(self.keys[i].as_str()), k) {
                return Some(i);
            }
            i = i + 1;
        }
        None
    }

    /// The number of entries.
    pub fn len(&self) -> (n: usize)
        ensures
            n == self@.len(),
            n == self.spec_len(),
    {
        proof {
            use_type_invariant(self);
            self.lemma_wf_facts();
        }
        self.keys.len()
    }

    /// Whether the map has no entry.
    pub fn is_empty(&self) -> (b: bool)
        ensures
            b == (self@.len() == 0),
    {
        proof {
            use_type_invariant(self);
            self.lemma_wf_facts();
        }
        self.keys.len() == 0
    }

    /// Whether `k` has an entry.
    pub fn contains_key(&self, k: &str) -> (b: bool)
        ensures
            b == self@.contains_key(k@),
    {
        proof {
            use_type_invariant(self);
            self.lemma_wf_facts();
        }
        self.find(k).is_some()
    }

    /// The value held for `k`, if any.
    pub fn get(&self, k: &str) -> (r: Option<&V>)
        ensures
            r.is_some() == self@.contains_key(k@),
            r matches Some(v) ==> *v == self@[k@],
    {
        proof {
            use_type_invariant(self);
            self.lemma_wf_facts();
        }
        match self.find(k) {
            Some(i) => Some(&self.vals[i]),
            None => None,
        }
    }

    /// A mutable borrow of the value held for `k`, if any.
    pub fn get_mut(&mut self, k: &str) -> (r: Option<&mut V>)
        ensures
            final(self).wf(),
            final(self).key_seq() == old(self).key_seq(),
            r.is_some() == old(self)@.contains_key(k@),
            r matches Some(v) ==> {
                &&& *v == old(self)@[k@]
                &&& final(self)@ == old(self)@.insert(k@, *final(v))
            },
            r is None ==> final(self)@ == old(self)@,
    {
        proof {
            use_type_invariant(&*self);
            old(self).lemma_wf_facts();
        }
        match self.find(k) {
            Some(i) => {
                proof {
                    lemma_map_of_update(old(self).key_seq(), old(self).val_seq(), i as int);
                }
                let r = self.slot_mut(i);
                Some(r)
            },
            None => None,
        }
    }

    /// A mutable borrow of the value at position `i`.
    fn slot_mut(&mut self, i: usize) -> (r: &mut V)
        requires
            i < old(self).spec_len(),
        ensures
            *r == old(self).val_seq()[i as int],
            final(self).key_seq() == old(self).key_seq(),
            final(self).val_seq() == old(self).val_seq().update(i as int, *final(r)),
        no_unwind
    {
        proof {
            use_type_invariant(&*self);
        }
        &mut self.vals[i]
    }

    /// Puts `v` under `k`, replacing the value held there before; a new key is
    /// added after all others. Gives back the value that was replaced.
    pub fn insert(&mut self, k: String, v: V) -> (r: Option<V>)
        ensures
            final(self).wf(),
            final(self)@ == old(self)@.insert(k@, v),
            r.is_some() == old(self)@.contains_key(k@),
            r matches Some(o) ==> o == old(self)@[k@],
            old(self)@.contains_key(k@) ==> final(self).key_seq() == old(self).key_seq(),
            !old(self)@.contains_key(k@) ==> final(self).key_seq() == old(self).key_seq().push(k@),
    {
        proof {
            use_type_invariant(&*self);
            old(self).lemma_wf_facts();
        }
        match self.find(k.as_str()) {
            Some(i) => {
                let ghost new_v = v;
                let mut v = v;
                let slot = self.slot_mut(i);
                std::mem::swap(slot, &mut v);
                proof {
                    use_type_invariant(&*self);
                    assert(self.val_seq() == old(self).val_seq().update(i as int, new_v));
                    lemma_map_of_update(old(self).key_seq(), old(self).val_seq(), i as int);
                    assert(self@ == map_of(old(self).key_seq(), old(self).val_seq().update(i as int, new_v)));
                }
                Some(v)
            },
            None => {
                let ghost ks = self.key_seq();
                let mut tmp = StringMap::<V>::new();
                std::mem::swap(self, &mut tmp);
                proof {
                    use_type_invariant(&tmp);
                }
                let StringMap { mut keys, mut vals } = tmp;
                let ghost kv = k@;
                keys.push(k);
                vals.push(v);
                proof {
                    let nks = keys@.map_values(|s: String| s@);
                    assert(nks =~= ks.push(kv));
                    assert forall|a: int, b: int|
                        0 <= a < nks.len() && 0 <= b < nks.len() && a != b
                        implies nks[a] != nks[b] by {
                        if a == ks.len() {
                            assert(ks[b] == nks[b]);
                        } else if b == ks.len() {
                            assert(ks[a] == nks[a]);
                        } else {
                            assert(ks[a] == nks[a] && ks[b] == nks[b]);
                        }
                    }
                }
                *self = StringMap { keys, vals };
                proof {
                    assert(self.key_seq() =~= ks.push(k@));
                    self.lemma_wf_facts();
                    assert forall|q: Seq<char>| #[trigger] self@.contains_key(q) implies self@[q]
                        == old(self)@.insert(k@, v)[q] by {
                        let j = self.key_seq().index_of(q);
                        assert(self.key_seq()[j] == q);
                        if j < ks.len() {
                            assert(ks[j] == q);
                            assert(old(self)@[q] == old(self).val_seq()[j]);
                        }
                    }
                    assert forall|q: Seq<char>|
                        self@.contains_key(q) <==> old(self)@.insert(k@, v).contains_key(q) by {
                        if old(self)@.contains_key(q) {
                            let j = ks.index_of(q);
                            assert(self.key_seq()[j] == q);
                        }
                        if q == k@ {
                            assert(self.key_seq()[ks.len() as int] == q);
                        }
                    }
                    assert(self@ =~= old(self)@.insert(k@, v));
                }
                None
            },
        }
    }

    /// Takes the entry for `k` out, if there is one; the others keep their order.
    pub fn remove(&mut self, k: &str) -> (r: Option<V>)
        ensures
            final(self).wf(),
            final(self)@ == old(self)@.remove(k@),
            r.is_some() == old(self)@.contains_key(k@),
            r matches Some(o) ==> o == old(self)@[k@],
    {
        proof {
            use_type_invariant(&*self);
            old(self).lemma_wf_facts();
        }
        match self.find(k) {
            Some(i) => {
                let ghost ks = self.key_seq();
                let ghost vs = self.val_seq();
                let mut tmp = StringMap::<V>::new();
                std::mem::swap(self, &mut tmp);
                proof {
                    use_type_invariant(&tmp);
                }
                let StringMap { mut keys, mut vals } = tmp;
                keys.remove(i);
                let r = vals.remove(i);
                proof {
                    let nks = keys@.map_values(|s: String| s@);
                    assert(nks =~= ks.remove(i as int));
                    assert forall|a: int, b: int|
                        0 <= a < nks.len() && 0 <= b < nks.len() && a != b
                        implies nks[a] != nks[b] by {
                        let a0 = if a < i { a } else { a + 1 };
                        let b0 = if b < i { b } else { b + 1 };
                        assert(nks[a] == ks[a0] && nks[b] == ks[b0]);
                    }
                }
                *self = StringMap { keys, vals };
                proof {
                    assert(self.key_seq() =~= ks.remove(i as int));
                    assert(self.val_seq() =~= vs.remove(i as int));
                    self.lemma_wf_facts();
                    assert forall|q: Seq<char>|
                        self@.contains_key(q) <==> old(self)@.remove(k@).contains_key(q) by {
                        if self@.contains_key(q) {
                            let j = self.key_seq().index_of(q);
                            assert(self.key_seq()[j] == q);
                            if j < i {
                                assert(ks[j] == q);
                            } else {
                                assert(ks[j + 1] == q);
                            }
                        }
                        if old(self)@.remove(k@).contains_key(q) {
                            let j = ks.index_of(q);
                            assert(ks[j] == q);
                            assert(j != i);
                            if j < i {
                                assert(self.key_seq()[j] == q);
                            } else {
                                assert(self.key_seq()[j - 1] == q);
                            }
                        }
                    }
                    assert forall|q: Seq<char>| #[trigger] self@.contains_key(q) implies self@[q]
                        == old(self)@[q] by {
                        let j = self.key_seq().index_of(q);
                        assert(self.key_seq()[j] == q);
                        if j < i {
                            assert(ks[j] == q);
                            assert(old(self)@[ks[j]] == vs[j]);
                        } else {
                            assert(ks[j + 1] == q);
                            assert(old(self)@[ks[j + 1]] == vs[j + 1]);
                        }
                    }
                    assert(self@ =~= old(self)@.remove(k@));
                }
                Some(r)
            },
            None => {
                proof {
                    assert(old(self)@.remove(k@) =~= old(self)@);
                }
                None
            },
        }
    }

    /// The key of the entry at position `i`.
    pub fn key_at(&self, i: usize) -> (k: &String)
        requires
            i < self.spec_len(),
        ensures
            k@ == self.key_seq()[i as int],
    {
        proof {
            use_type_invariant(self);
        }
        &self.keys[i]
    }

    /// The value of the entry at position `i`.
    pub fn value_at(&self, i: usize) -> (v: &V)
        requires
            i < self.spec_len(),
        ensures
            *v == self.val_seq()[i as int],
            *v == self@[self.key_seq()[i as int]],
    {
        proof {
            use_type_invariant(self);
            self.lemma_wf_facts();
        }
        &self.vals[i]
    }
}

/// Inserting under a new key adds one entry; inserting under a present key
/// keeps the count.
pub proof fn law_insert_count<V>(before: StringMap<V>, after: StringMap<V>, k: Seq<char>, v: V)
    requires
        before.wf(),
        after.wf(),
        after@ == before@.insert(k, v),
    ensures
        !before@.contains_key(k) ==> after@.len() == before@.len() + 1,
        before@.contains_key(k) ==> after@.len() == before@.len(),
{
    before.lemma_wf_facts();
    after.lemma_wf_facts();
}

/// Removing a present key drops one entry; removing an absent one changes
/// nothing.
pub proof fn law_remove_count<V>(before: StringMap<V>, after: StringMap<V>, k: Seq<char>)
    requires
        before.wf(),
        after.wf(),
        after@ == before@.remove(k),
    ensures
        before@.contains_key(k) ==> after@.len() == before@.len() - 1,
        !before@.contains_key(k) ==> after@ == before@,
{
    before.lemma_wf_facts();
    after.lemma_wf_facts();
    if !before@.contains_key(k) {
        assert(after@ =~= before@);
    }
}

} // verus!
