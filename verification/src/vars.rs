use vstd::prelude::*;

verus! {

/// The variables of a run: each key is bound to one value, and binding a
/// key again replaces its value.
pub struct Vars {
    entries: Vec<(String, String)>,
}

/// The key of an entry, as characters.
pub open spec fn entry_key(e: (String, String)) -> Seq<char> {
    e.0@
}

/// The value of an entry, as characters.
pub open spec fn entry_value(e: (String, String)) -> Seq<char> {
    e.1@
}

impl Vars {
    /// No key occurs twice among the entries.
    pub closed spec fn wf(&self) -> bool {
        forall|i: int, j: int|
            0 <= i < self.entries@.len() && 0 <= j < self.entries@.len() && i != j
                ==> entry_key(#[trigger] self.entries@[i]) != entry_key(#[trigger] self.entries@[j])
    }

    closed spec fn has_key_at(&self, k: Seq<char>, i: int) -> bool {
        0 <= i < self.entries@.len() && entry_key(self.entries@[i]) == k
    }

    closed spec fn index_of(&self, k: Seq<char>) -> int {
        choose|i: int| self.has_key_at(k, i)
    }
}

impl View for Vars {
    type V = Map<Seq<char>, Seq<char>>;

    closed spec fn view(&self) -> Map<Seq<char>, Seq<char>> {
        Map::new(
            |k: Seq<char>| exists|i: int| self.has_key_at(k, i),
            |k: Seq<char>| entry_value(self.entries@[self.index_of(k)]),
        )
    }
}

impl Vars {
    proof fn lemma_lookup(&self, k: Seq<char>, i: int)
        requires
            self.wf(),
            self.has_key_at(k, i),
        ensures
            self@.contains_key(k),
            self@[k] == entry_value(self.entries@[i]),
    {
        let j = self.index_of(k);
        assert(self.has_key_at(k, j));
        if i != j {
            assert(entry_key(self.entries@[i]) != entry_key(self.entries@[j]));
        }
    }

    /// An empty set of variables.
    pub fn new() -> (v: Vars)
        ensures
            v.wf(),
            v@ == Map::<Seq<char>, Seq<char>>::empty(),
    {
        let v = Vars { entries: Vec::new() };
        assert(v@ =~= Map::<Seq<char>, Seq<char>>::empty());
        v
    }

    /// The number of bound keys.
    pub fn len(&self) -> (n: usize)
        requires
            self.wf(),
        ensures
            n == self@.len(),
    {
        proof {
            self.lemma_dom_len();
        }
        self.entries.len()
    }

    proof fn lemma_dom_len(&self)
        requires
            self.wf(),
        ensures
            self@.dom().finite(),
            self@.len() == self.entries@.len(),
    {
        let keys = self.entries@.map_values(|e: (String, String)| entry_key(e));
        assert forall|a: int, b: int| 0 <= a < keys.len() && 0 <= b < keys.len() && a != b implies keys[a] != keys[b] by {
            assert(entry_key(self.entries@[a]) != entry_key(self.entries@[b]));
        }
        assert(keys.no_duplicates());
        assert forall|k: Seq<char>| self@.dom().contains(k) <==> keys.to_set().contains(k) by {
            if self@.dom().contains(k) {
                let i = choose|i: int| self.has_key_at(k, i);
                assert(keys[i] == k);
            }
            if keys.to_set().contains(k) {
                let i = choose|i: int| 0 <= i < keys.len() && keys[i] == k;
                assert(self.has_key_at(k, i));
            }
        }
        assert(self@.dom() =~= keys.to_set());
        keys.unique_seq_to_set();
    }

    /// Position of `key` among the entries, if it is bound.
    fn find(&self, key: &str) -> (r: Option<usize>)
        requires
            self.wf(),
        ensures
            match r {
                Some(i) => self.has_key_at(key@, i as int),
                None => !self@.contains_key(key@),
            },
    {
        let k = key.to_owned();
        let mut i: usize = 0;
        while i < self.entries.len()
            invariant
                i <= self.entries@.len(),
                k@ == key@,
                forall|j: int| 0 <= j < i ==> entry_key(#[trigger] self.entries@[j]) != key@,
            decreases self.entries@.len() - i,
        {
            if self.entries[i].0 == k {
                return Some(i);
            }
            i = i + 1;
        }
        proof {
            if self@.contains_key(key@) {
                let j = choose|j: int| self.has_key_at(key@, j);
                assert(entry_key(self.entries@[j]) != key@);
            }
        }
        None
    }

    /// The value bound to `key`, if any.
    pub fn get(&self, key: &str) -> (r: Option<String>)
        requires
            self.wf(),
        ensures
            match r {
                Some(v) => self@.contains_key(key@) && v@ == self@[key@],
                None => !self@.contains_key(key@),
            },
    {
        match self.find(key) {
            Some(i) => {
                proof {
                    self.lemma_lookup(key@, i as int);
                }
                Some(self.entries[i].1.clone())
            },
            None => None,
        }
    }

    /// Binds `key` to `value`, replacing an earlier binding of `key`.
    pub fn insert(&mut self, key: &str, value: &str)
        requires
            old(self).wf(),
        ensures
            final(self).wf(),
            final(self)@ == old(self)@.insert(key@, value@),
    {
        let ghost old_self = *self;
        let found = self.find(key);
        match found {
            Some(i) => {
                let k = self.entries[i].0.clone();
                self.entries.set(i, (k, value.to_owned()));
                proof {
                    assert forall|a: int, b: int|
                        0 <= a < self.entries@.len() && 0 <= b < self.entries@.len() && a != b
                        implies entry_key(#[trigger] self.entries@[a]) != entry_key(#[trigger] self.entries@[b]) by {
                        assert(entry_key(self.entries@[a]) == entry_key(old_self.entries@[a]));
                        assert(entry_key(self.entries@[b]) == entry_key(old_self.entries@[b]));
                    }
                    assert(self.has_key_at(key@, i as int) && entry_value(self.entries@[i as int]) == value@);
                    self.lemma_insert_view(old_self, key@, value@);
                }
            },
            None => {
                self.entries.push((key.to_owned(), value.to_owned()));
                proof {
                    assert forall|a: int, b: int|
                        0 <= a < self.entries@.len() && 0 <= b < self.entries@.len() && a != b
                        implies entry_key(#[trigger] self.entries@[a]) != entry_key(#[trigger] self.entries@[b]) by {
                        if a < old_self.entries@.len() && b < old_self.entries@.len() {
                            assert(self.entries@[a] == old_self.entries@[a]);
                            assert(self.entries@[b] == old_self.entries@[b]);
                        } else if a < old_self.entries@.len() {
                            assert(old_self.has_key_at(entry_key(self.entries@[a]), a));
                        } else {
                            assert(old_self.has_key_at(entry_key(self.entries@[b]), b));
                        }
                    }
                    let ghost n = old_self.entries@.len() as int;
                    assert(self.has_key_at(key@, n) && entry_value(self.entries@[n]) == value@);
                    self.lemma_insert_view(old_self, key@, value@);
                }
            },
        }
    }

    proof fn lemma_insert_view(&self, old_self: Vars, k: Seq<char>, v: Seq<char>)
        requires
            old_self.wf(),
            self.wf(),
            exists|i: int| self.has_key_at(k, i) && entry_value(#[trigger] self.entries@[i]) == v,
            forall|i: int| 0 <= i < self.entries@.len() && entry_key(#[trigger] self.entries@[i]) != k
                ==> old_self.has_key_at(entry_key(self.entries@[i]), i) && self.entries@[i] == old_self.entries@[i],
            forall|i: int| old_self.has_key_at(#[trigger] entry_key(old_self.entries@[i]), i) && entry_key(old_self.entries@[i]) != k
                ==> i < self.entries@.len() && self.entries@[i] == old_self.entries@[i],
        ensures
            self@ == old_self@.insert(k, v),
    {
        let i0 = choose|i: int| self.has_key_at(k, i) && entry_value(self.entries@[i]) == v;
        self.lemma_lookup(k, i0);
        assert forall|q: Seq<char>| #[trigger] self@.contains_key(q) <==> old_self@.insert(k, v).contains_key(q) by {
            if q != k {
                if self@.contains_key(q) {
                    let i = choose|i: int| self.has_key_at(q, i);
                    assert(old_self.has_key_at(q, i));
                }
                if old_self@.contains_key(q) {
                    let i = choose|i: int| old_self.has_key_at(q, i);
                    assert(entry_key(old_self.entries@[i]) == q);
                    assert(self.has_key_at(q, i));
                }
            }
        }
        assert forall|q: Seq<char>| #[trigger] self@.contains_key(q) implies self@[q] == old_self@.insert(k, v)[q] by {
            if q != k {
                let i = choose|i: int| self.has_key_at(q, i);
                self.lemma_lookup(q, i);
                assert(old_self.has_key_at(q, i));
                old_self.lemma_lookup(q, i);
            }
        }
        assert(self@ =~= old_self@.insert(k, v));
    }
}


/// After `insert(k, v)`, `get(k)` finds `v`, and every other key keeps its
/// binding.
pub proof fn law_get_after_insert(before: Vars, after: Vars, k: Seq<char>, v: Seq<char>)
    requires
        after@ == before@.insert(k, v),
    ensures
        after@.contains_key(k),
        after@[k] == v,
        forall|q: Seq<char>| q != k ==> (after@.contains_key(q) == before@.contains_key(q)),
        forall|q: Seq<char>| q != k && before@.contains_key(q) ==> after@[q] == before@[q],
{
}

} // verus!
