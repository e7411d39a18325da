//! A map from names to values that keeps its entries in the byte-wise
//! order of the names, the iteration order of the `.trurl/` collections.
use vstd::prelude::*;
use crate::text::{compare_str, lemma_bytes_lt_irreflexive, lemma_bytes_lt_transitive, name_lt, str_eq, Cmp};

verus! {

/// One named entry.
pub struct Named<T> {
    pub name: String,
    pub value: T,
}

/// Entries ordered by name, each name at most once.
pub struct NameMap<T> {
    pub entries: Vec<Named<T>>,
}

impl<T> NameMap<T> {
    /// Names strictly increase along the entries.
    pub open spec fn wf(&self) -> bool {
        forall|i: int, j: int|
            0 <= i < j < self.entries@.len() ==> name_lt(
                #[trigger] self.entries@[i].name@,
                #[trigger] self.entries@[j].name@,
            )
    }

    pub open spec fn has(&self, k: Seq<char>) -> bool {
        exists|i: int| 0 <= i < self.entries@.len() && #[trigger] self.entries@[i].name@ == k
    }

    pub open spec fn index_of(&self, k: Seq<char>) -> int {
        choose|i: int| 0 <= i < self.entries@.len() && #[trigger] self.entries@[i].name@ == k
    }

    /// The entries as a mathematical map from names to values.
    pub open spec fn as_map(&self) -> Map<Seq<char>, T> {
        Map::new(|k: Seq<char>| self.has(k), |k: Seq<char>| self.entries@[self.index_of(k)].value)
    }

    /// In a well-formed map each name sits at exactly one index.
    pub proof fn lemma_index(&self, i: int)
        requires
            self.wf(),
            0 <= i < self.entries@.len(),
        ensures
            self.has(self.entries@[i].name@),
            self.index_of(self.entries@[i].name@) == i,
            self.as_map()[self.entries@[i].name@] == self.entries@[i].value,
    {
        let k = self.entries@[i].name@;
        assert(self.entries@[i].name@ == k);
        let j = self.index_of(k);
        if j != i {
            if j < i {
                assert(name_lt(self.entries@[j].name@, self.entries@[i].name@));
            } else {
                assert(name_lt(self.entries@[i].name@, self.entries@[j].name@));
            }
            lemma_bytes_lt_irreflexive(vstd::utf8::encode_utf8(k));
        }
    }

    pub fn new() -> (m: Self)
        ensures
            m.wf(),
            m.entries@.len() == 0,
            m.as_map() == Map::<Seq<char>, T>::empty(),
    {
        let m = NameMap { entries: Vec::new() };
        assert(m.as_map() =~= Map::<Seq<char>, T>::empty());
        m
    }

    /// Whether the names strictly increase along the entries.
    pub fn is_well_formed(&self) -> (r: bool)
        ensures
            r == self.wf(),
    {
        let n = self.entries.len();
        if n == 0 {
            return true;
        }
        for i in 0..n - 1
            invariant
                n == self.entries@.len(),
                n > 0,
                forall|a: int, b: int|
                    0 <= a < b <= i ==> name_lt(
                        #[trigger] self.entries@[a].name@,
                        #[trigger] self.entries@[b].name@,
                    ),
        {
            if compare_str(self.entries[i].name.as_str(), self.entries[i + 1].name.as_str()) != Cmp::Less {
                assert(!name_lt(self.entries@[i as int].name@, self.entries@[i + 1].name@));
                return false;
            }
            assert forall|a: int, b: int|
                0 <= a < b <= i + 1 implies name_lt(
                    #[trigger] self.entries@[a].name@,
                    #[trigger] self.entries@[b].name@,
                ) by {
                if b == i + 1 && a < i {
                    assert(name_lt(self.entries@[a].name@, self.entries@[i as int].name@));
                    lemma_bytes_lt_transitive(
                        vstd::utf8::encode_utf8(self.entries@[a].name@),
                        vstd::utf8::encode_utf8(self.entries@[i as int].name@),
                        vstd::utf8::encode_utf8(self.entries@[i + 1].name@),
                    );
                }
            }
        }
        true
    }

    pub fn len(&self) -> (n: usize)
        ensures
            n == self.entries@.len(),
    {
        self.entries.len()
    }

    /// The index of the entry named `k`, if there is one.
    pub fn find(&self, k: &str) -> (r: Option<usize>)
        ensures
            r is None ==> !self.has(k@),
            r matches Some(i) ==> i < self.entries@.len() && self.entries@[i as int].name@ == k@,
    {
        let n = self.entries.len();
        for i in 0..n
            invariant
                n == self.entries@.len(),
                forall|j: int| 0 <= j < i ==> self.entries@[j].name@ != k@,
        {
            if str_eq(self.entries[i].name.as_str(), k) {
                return Some(i);
            }
        }
        None
    }

    pub fn contains_key(&self, k: &str) -> (r: bool)
        ensures
            r == self.has(k@),
    {
        self.find(k).is_some()
    }

    pub fn get(&self, k: &str) -> (r: Option<&T>)
        requires
            self.wf(),
        ensures
            r is Some == self.has(k@),
            r matches Some(v) ==> *v == self.as_map()[k@],
    {
        match self.find(k) {
            Some(i) => {
                proof {
                    self.lemma_index(i as int);
                }
                Some(&self.entries[i].value)
            },
            None => None,
        }
    }

    /// Inserts or replaces the value under `name`.
    pub fn insert(&mut self, name: String, value: T)
        requires
            old(self).wf(),
        ensures
            final(self).wf(),
            final(self).as_map() == old(self).as_map().insert(name@, value),
    {
        let ghost k = name@;
        let ghost v = value;
        let n = self.entries.len();
        let mut i: usize = 0;
        let mut found_equal = false;
        while i < n
            invariant_except_break
                n == self.entries@.len(),
                self.wf(),
                self == old(self),
                i <= n,
                !found_equal,
                forall|j: int| 0 <= j < i ==> name_lt(#[trigger] self.entries@[j].name@, name@),
            ensures
                n == self.entries@.len(),
                self.wf(),
                self == old(self),
                i <= n,
                forall|j: int| 0 <= j < i ==> name_lt(#[trigger] self.entries@[j].name@, name@),
                found_equal ==> i < n && self.entries@[i as int].name@ == name@,
                !found_equal && i < n ==> name_lt(name@, self.entries@[i as int].name@),
            decreases n - i,
        {
            let c = compare_str(self.entries[i].name.as_str(), name.as_str());
            if c == Cmp::Equal {
                found_equal = true;
                break;
            } else if c == Cmp::Greater {
                break;
            }
            i = i + 1;
        }
        if found_equal {
            let ghost old_entries = self.entries@;
            self.entries.set(i, Named { name, value });
            proof {
                assert forall|a: int, b: int|
                    0 <= a < b < self.entries@.len() implies name_lt(
                    #[trigger] self.entries@[a].name@,
                    #[trigger] self.entries@[b].name@,
                ) by {
                    assert(name_lt(old_entries[a].name@, old_entries[b].name@));
                }
                self.lemma_map_after_set(old(self), i as int, k, v);
            }
            return;
        }
        let ghost old_entries = self.entries@;
        proof {
            if i < n {
                assert(name_lt(name@, old_entries[i as int].name@));
            }
        }
        self.entries.insert(i, Named { name, value });
        proof {
            assert forall|a: int, b: int|
                0 <= a < b < self.entries@.len() implies name_lt(
                #[trigger] self.entries@[a].name@,
                #[trigger] self.entries@[b].name@,
            ) by {
                if b < i {
                    assert(name_lt(old_entries[a].name@, old_entries[b].name@));
                } else if b == i {
                    assert(name_lt(old_entries[a].name@, k));
                } else if a == i {
                    if b - 1 > i {
                        assert(name_lt(old_entries[i as int].name@, old_entries[b - 1].name@));
                        lemma_bytes_lt_transitive(
                            vstd::utf8::encode_utf8(k),
                            vstd::utf8::encode_utf8(old_entries[i as int].name@),
                            vstd::utf8::encode_utf8(old_entries[b - 1].name@),
                        );
                    }
                } else if a < i {
                    assert(name_lt(old_entries[a].name@, k));
                    if b - 1 > i {
                        assert(name_lt(old_entries[i as int].name@, old_entries[b - 1].name@));
                        lemma_bytes_lt_transitive(
                            vstd::utf8::encode_utf8(k),
                            vstd::utf8::encode_utf8(old_entries[i as int].name@),
                            vstd::utf8::encode_utf8(old_entries[b - 1].name@),
                        );
                    }
                    lemma_bytes_lt_transitive(
                        vstd::utf8::encode_utf8(old_entries[a].name@),
                        vstd::utf8::encode_utf8(k),
                        vstd::utf8::encode_utf8(old_entries[b - 1].name@),
                    );
                } else {
                    assert(name_lt(old_entries[a - 1].name@, old_entries[b - 1].name@));
                }
            }
            self.lemma_map_after_insert(old(self), i as int, k, v);
        }
    }

    proof fn lemma_map_after_set(&self, prev: &Self, i: int, k: Seq<char>, v: T)
        requires
            prev.wf(),
            self.wf(),
            0 <= i < prev.entries@.len(),
            prev.entries@[i].name@ == k,
            self.entries@.len() == prev.entries@.len(),
            self.entries@[i].name@ == k,
            self.entries@[i].value == v,
            forall|j: int| 0 <= j < prev.entries@.len() && j != i ==> self.entries@[j] == prev.entries@[j],
        ensures
            self.as_map() == prev.as_map().insert(k, v),
    {
        assert forall|key: Seq<char>| #[trigger] self.has(key) == (prev.has(key) || key == k) by {
            if self.has(key) {
                let j = self.index_of(key);
                if j != i {
                    assert(prev.entries@[j].name@ == key);
                }
            }
            if prev.has(key) {
                let j = prev.index_of(key);
                if j != i {
                    assert(self.entries@[j].name@ == key);
                }
            }
        }
        assert forall|key: Seq<char>| self.has(key) implies #[trigger] self.as_map()[key] == prev.as_map().insert(k, v)[key] by {
            let j = self.index_of(key);
            assert(self.entries@[j].name@ == key);
            self.lemma_index(j);
            self.lemma_index(i);
            if j != i {
                assert(key != k);
                prev.lemma_index(j);
                assert(prev.entries@[j].name@ == key);
            } else {
                assert(key == k);
            }
        }
        assert(self.as_map() =~= prev.as_map().insert(k, v));
    }

    proof fn lemma_map_after_insert(&self, prev: &Self, i: int, k: Seq<char>, v: T)
        requires
            prev.wf(),
            self.wf(),
            0 <= i <= prev.entries@.len(),
            self.entries@.len() == prev.entries@.len() + 1,
            self.entries@[i].name@ == k,
            self.entries@[i].value == v,
            forall|j: int| 0 <= j < i ==> self.entries@[j] == prev.entries@[j],
            forall|j: int| i < j < self.entries@.len() ==> self.entries@[j] == prev.entries@[j - 1],
        ensures
            self.as_map() == prev.as_map().insert(k, v),
    {
        assert forall|key: Seq<char>| #[trigger] self.has(key) == (prev.has(key) || key == k) by {
            if self.has(key) {
                let j = self.index_of(key);
                if j < i {
                    assert(prev.entries@[j].name@ == key);
                } else if j > i {
                    assert(prev.entries@[j - 1].name@ == key);
                }
            }
            if prev.has(key) {
                let j = prev.index_of(key);
                if j < i {
                    assert(self.entries@[j].name@ == key);
                } else {
                    assert(self.entries@[j + 1].name@ == key);
                }
            }
            if key == k {
                assert(self.entries@[i].name@ == key);
            }
        }
        assert forall|key: Seq<char>| self.has(key) implies #[trigger] self.as_map()[key] == prev.as_map().insert(k, v)[key] by {
            let j = self.index_of(key);
            assert(self.entries@[j].name@ == key);
            self.lemma_index(j);
            self.lemma_index(i);
            if j < i {
                assert(key != k);
                prev.lemma_index(j);
                assert(prev.entries@[j].name@ == key);
            } else if j > i {
                assert(key != k);
                prev.lemma_index(j - 1);
                assert(prev.entries@[j - 1].name@ == key);
            }
        }
        assert(self.as_map() =~= prev.as_map().insert(k, v));
    }

    /// Removes the entry named `k`, handing back its value.
    pub fn remove(&mut self, k: &str) -> (r: Option<T>)
        requires
            old(self).wf(),
        ensures
            final(self).wf(),
            final(self).as_map() == old(self).as_map().remove(k@),
            r is Some == old(self).has(k@),
            r matches Some(v) ==> v == old(self).as_map()[k@],
            forall|j: int| 0 <= j < final(self).entries@.len() ==> old(self).entries@.contains(#[trigger] final(self).entries@[j]),
    {
        match self.find(k) {
            None => {
                assert(self.as_map() =~= old(self).as_map().remove(k@));
                None
            },
            Some(i) => {
                proof {
                    self.lemma_index(i as int);
                }
                let ghost prev = self.entries@;
                let e = self.entries.remove(i);
                proof {
                    assert forall|a: int, b: int|
                        0 <= a < b < self.entries@.len() implies name_lt(
                        #[trigger] self.entries@[a].name@,
                        #[trigger] self.entries@[b].name@,
                    ) by {
                        let a0 = if a < i { a } else { a + 1 };
                        let b0 = if b < i { b } else { b + 1 };
                        assert(self.entries@[a] == prev[a0]);
                        assert(self.entries@[b] == prev[b0]);
                        assert(name_lt(prev[a0].name@, prev[b0].name@));
                    }
                    assert forall|j: int| 0 <= j < self.entries@.len() implies old(self).entries@.contains(#[trigger] self.entries@[j]) by {
                        let j0 = if j < i { j } else { j + 1 };
                        assert(self.entries@[j] == prev[j0]);
                    }
                    assert forall|key: Seq<char>| #[trigger] self.has(key) == (old(self).has(key) && key != k@) by {
                        if self.has(key) {
                            let j = self.index_of(key);
                            let j0 = if j < i { j } else { j + 1 };
                            assert(prev[j0].name@ == key);
                            old(self).lemma_index(j0);
                        }
                        if old(self).has(key) && key != k@ {
                            let j = old(self).index_of(key);
                            if j < i {
                                assert(self.entries@[j].name@ == key);
                            } else {
                                assert(j != i);
                                assert(self.entries@[j - 1].name@ == key);
                            }
                        }
                    }
                    assert forall|key: Seq<char>| self.has(key) implies #[trigger] self.as_map()[key] == old(self).as_map().remove(k@)[key] by {
                        let j = self.index_of(key);
                        self.lemma_index(j);
                        let j0 = if j < i { j } else { j + 1 };
                        assert(self.entries@[j] == prev[j0]);
                        old(self).lemma_index(j0);
                    }
                    assert(self.as_map() =~= old(self).as_map().remove(k@));
                }
                Some(e.value)
            },
        }
    }
}

} // verus!
