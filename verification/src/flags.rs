//! A small map from path strings to booleans, kept as a list of distinct
//! keys (the sidebar's explicit expand/collapse choices).

use vstd::prelude::*;

verus! {

pub open spec fn keys_unique(s: Seq<(String, bool)>) -> bool {
    forall|i: int, j: int| 0 <= i < j < s.len() ==> #[trigger] s[i].0@ != #[trigger] s[j].0@
}

pub open spec fn has_key(s: Seq<(String, bool)>, k: Seq<char>) -> bool {
    exists|i: int| 0 <= i < s.len() && #[trigger] s[i].0@ == k
}

pub open spec fn entries_map(s: Seq<(String, bool)>) -> Map<Seq<char>, bool> {
    Map::new(
        |k: Seq<char>| has_key(s, k),
        |k: Seq<char>| s[choose|i: int| 0 <= i < s.len() && #[trigger] s[i].0@ == k].1,
    )
}

proof fn lemma_entry_value(s: Seq<(String, bool)>, i: int)
    requires
        keys_unique(s),
        0 <= i < s.len(),
    ensures
        entries_map(s).contains_key(s[i].0@),
        entries_map(s)[s[i].0@] == s[i].1,
{
    let k = s[i].0@;
    assert(has_key(s, k));
    let j = choose|j: int| 0 <= j < s.len() && #[trigger] s[j].0@ == k;
    if j != i {
        if j < i {
            assert(s[j].0@ != s[i].0@);
        } else {
            assert(s[i].0@ != s[j].0@);
        }
    }
}

/// Boolean flags keyed by path.
#[derive(Debug)]
pub struct PathFlags {
    entries: Vec<(String, bool)>,
}

impl PathFlags {
    #[verifier::type_invariant]
    spec fn wf(self) -> bool {
        keys_unique(self.entries@)
    }

    pub closed spec fn view(&self) -> Map<Seq<char>, bool> {
        entries_map(self.entries@)
    }

    pub fn new() -> (m: Self)
        ensures
            m@ == Map::<Seq<char>, bool>::empty(),
    {
        let m = PathFlags { entries: Vec::new() };
        assert(m@ =~= Map::<Seq<char>, bool>::empty());
        m
    }

    fn find(&self, k: &str) -> (r: Option<usize>)
        ensures
            match r {
                Some(i) => i < self.entries@.len() && self.entries@[i as int].0@ == k@,
                None => !has_key(self.entries@, k@),
            },
    {
        let mut i: usize = 0;
        while i < self.entries.len()
            invariant
                i <= self.entries@.len(),
                forall|j: int| 0 <= j < i ==> #[trigger] self.entries@[j].0@ != k@,
            decreases self.entries@.len() - i,
        {
            if crate::text::str_eq(self.entries[i].0.as_str(), k) {
                return Some(i);
            }
            i += 1;
        }
        None
    }

    pub fn get(&self, k: &str) -> (r: Option<bool>)
        ensures
            r.is_some() == self@.contains_key(k@),
            r.is_some() ==> r.unwrap() == self@[k@],
    {
        proof {
            use_type_invariant(self);
        }
        match self.find(k) {
            Some(i) => {
                proof {
                    lemma_entry_value(self.entries@, i as int);
                }
                Some(self.entries[i].1)
            },
            None => None,
        }
    }

    pub fn remove(&mut self, k: &str)
        ensures
            final(self)@ == old(self)@.remove(k@),
    {
        proof {
            use_type_invariant(&*self);
        }
        match self.find(k) {
            Some(i) => {
                let ghost s = self.entries@;
                let mut entries = Vec::new();
                std::mem::swap(&mut entries, &mut self.entries);
                entries.remove(i);
                proof {
                    let t = entries@;
                    assert(t == s.remove(i as int));
                    assert forall|a: int, b: int| 0 <= a < b < t.len() implies #[trigger] t[a].0@
                        != #[trigger] t[b].0@ by {
                        let a2 = if a < i { a } else { a + 1 };
                        let b2 = if b < i { b } else { b + 1 };
                        assert(s[a2].0@ != s[b2].0@);
                    }
                    assert forall|q: Seq<char>| #[trigger] has_key(t, q) <==> has_key(s, q) && q
                        != k@ by {
                        if has_key(t, q) {
                            let a = choose|a: int| 0 <= a < t.len() && #[trigger] t[a].0@ == q;
                            let a2 = if a < i { a } else { a + 1 };
                            assert(s[a2].0@ == q);
                            if q == k@ {
                                assert(s[a2].0@ == s[i as int].0@);
                            }
                        }
                        if has_key(s, q) && q != k@ {
                            let a = choose|a: int| 0 <= a < s.len() && #[trigger] s[a].0@ == q;
                            let a2 = if a < i { a } else { a - 1 };
                            assert(t[a2].0@ == q);
                        }
                    }
                    assert forall|q: Seq<char>| #[trigger] entries_map(t).contains_key(q) implies entries_map(t)[q]
                        == entries_map(s)[q] by {
                        let a = choose|a: int| 0 <= a < t.len() && #[trigger] t[a].0@ == q;
                        let a2 = if a < i { a } else { a + 1 };
                        lemma_entry_value(t, a);
                        lemma_entry_value(s, a2);
                    }
                    assert(entries_map(t) =~= entries_map(s).remove(k@));
                }
                *self = PathFlags { entries };
            },
            None => {
                assert(self@ =~= self@.remove(k@));
            },
        }
    }

    pub fn insert(&mut self, k: String, v: bool)
        ensures
            final(self)@ == old(self)@.insert(k@, v),
    {
        self.remove(k.as_str());
        proof {
            use_type_invariant(&*self);
            assert(!self@.contains_key(k@));
        }
        let ghost s = self.entries@;
        let mut entries = Vec::new();
        std::mem::swap(&mut entries, &mut self.entries);
        entries.push((k, v));
        proof {
            let t = entries@;
            assert forall|i: int, j: int| 0 <= i < j < t.len() implies #[trigger] t[i].0@
                != #[trigger] t[j].0@ by {
                if j == s.len() {
                    assert(s[i].0@ == t[i].0@);
                    assert(has_key(s, s[i].0@));
                } else {
                    assert(s[i].0@ != s[j].0@);
                }
            }
            assert forall|q: Seq<char>| #[trigger] has_key(t, q) <==> has_key(s, q) || q == k@ by {
                if has_key(s, q) {
                    let i = choose|i: int| 0 <= i < s.len() && #[trigger] s[i].0@ == q;
                    assert(t[i].0@ == q);
                }
                if q == k@ {
                    assert(t[s.len() as int].0@ == q);
                }
                if has_key(t, q) && q != k@ {
                    let i = choose|i: int| 0 <= i < t.len() && #[trigger] t[i].0@ == q;
                    assert(s[i].0@ == q);
                }
            }
            assert forall|q: Seq<char>| #[trigger] entries_map(t).contains_key(q) implies entries_map(t)[q]
                == entries_map(s).insert(k@, v)[q] by {
                if q == k@ {
                    lemma_entry_value(t, s.len() as int);
                } else {
                    let i = choose|i: int| 0 <= i < t.len() && #[trigger] t[i].0@ == q;
                    lemma_entry_value(t, i);
                    lemma_entry_value(s, i);
                }
            }
            assert(entries_map(t) =~= entries_map(s).insert(k@, v));
        }
        *self = PathFlags { entries };
    }

    /// A copy of these flags.
    pub fn copy(&self) -> (r: Self)
        ensures
            r@ == self@,
    {
        proof {
            use_type_invariant(self);
        }
        let mut v: Vec<(String, bool)> = Vec::new();
        let mut i: usize = 0;
        while i < self.entries.len()
            invariant
                i <= self.entries@.len(),
                keys_unique(self.entries@),
                v@.len() == i,
                forall|j: int| 0 <= j < i ==> #[trigger] v@[j].0@ == self.entries@[j].0@ && v@[j].1 == self.entries@[j].1,
            decreases self.entries@.len() - i,
        {
            v.push((self.entries[i].0.clone(), self.entries[i].1));
            i += 1;
        }
        proof {
            assert forall|a: int, b: int| 0 <= a < b < v@.len() implies #[trigger] v@[a].0@ != #[trigger] v@[b].0@ by {
                assert(self.entries@[a].0@ != self.entries@[b].0@);
            }
            assert forall|k: Seq<char>| #[trigger] has_key(v@, k) <==> has_key(self.entries@, k) by {
                if has_key(v@, k) {
                    let i = choose|i: int| 0 <= i < v@.len() && #[trigger] v@[i].0@ == k;
                    assert(self.entries@[i].0@ == k);
                }
                if has_key(self.entries@, k) {
                    let i = choose|i: int| 0 <= i < self.entries@.len() && #[trigger] self.entries@[i].0@ == k;
                    assert(v@[i].0@ == k);
                }
            }
            assert forall|k: Seq<char>| #[trigger] entries_map(v@).contains_key(k) implies entries_map(v@)[k]
                == entries_map(self.entries@)[k] by {
                let i = choose|i: int| 0 <= i < v@.len() && #[trigger] v@[i].0@ == k;
                lemma_entry_value(v@, i);
                lemma_entry_value(self.entries@, i);
            }
            assert(entries_map(v@) =~= entries_map(self.entries@));
        }
        PathFlags { entries: v }
    }

    /// The flags as `(path, value)` pairs, for saving.
    pub fn to_pairs(&self) -> (v: Vec<(String, bool)>)
        ensures
            forall|k: Seq<char>| #[trigger] self@.contains_key(k) <==> exists|i: int| 0 <= i < v@.len() && #[trigger] v@[i].0@ == k,
            forall|i: int| 0 <= i < v@.len() ==> self@[#[trigger] v@[i].0@] == v@[i].1,
    {
        proof {
            use_type_invariant(self);
        }
        let mut v: Vec<(String, bool)> = Vec::new();
        let mut i: usize = 0;
        while i < self.entries.len()
            invariant
                i <= self.entries@.len(),
                keys_unique(self.entries@),
                v@.len() == i,
                forall|j: int| 0 <= j < i ==> #[trigger] v@[j].0@ == self.entries@[j].0@ && v@[j].1 == self.entries@[j].1,
            decreases self.entries@.len() - i,
        {
            v.push((self.entries[i].0.clone(), self.entries[i].1));
            i += 1;
        }
        proof {
            assert forall|k: Seq<char>| #[trigger] self@.contains_key(k) <==> exists|i: int| 0 <= i < v@.len() && #[trigger] v@[i].0@ == k by {
                if self@.contains_key(k) {
                    let i = choose|i: int| 0 <= i < self.entries@.len() && #[trigger] self.entries@[i].0@ == k;
                    assert(v@[i].0@ == k);
                }
                if exists|i: int| 0 <= i < v@.len() && #[trigger] v@[i].0@ == k {
                    let i = choose|i: int| 0 <= i < v@.len() && #[trigger] v@[i].0@ == k;
                    assert(self.entries@[i].0@ == k);
                }
            }
            assert forall|i: int| 0 <= i < v@.len() implies self@[#[trigger] v@[i].0@] == v@[i].1 by {
                lemma_entry_value(self.entries@, i);
            }
        }
        v
    }

    /// Flags built from `(path, value)` pairs: exactly the paths named by
    /// some pair are present.
    pub fn from_pairs(pairs: Vec<(String, bool)>) -> (m: Self)
        ensures
            forall|k: Seq<char>| #[trigger] m@.contains_key(k) <==> exists|i: int| 0 <= i < pairs@.len() && #[trigger] pairs@[i].0@ == k,
    {
        let mut m = PathFlags::new();
        let mut i: usize = 0;
        while i < pairs.len()
            invariant
                i <= pairs@.len(),
                forall|k: Seq<char>| #[trigger] m@.contains_key(k) <==> exists|j: int| 0 <= j < i && #[trigger] pairs@[j].0@ == k,
            decreases pairs@.len() - i,
        {
            let ghost before = m@;
            m.insert(pairs[i].0.clone(), pairs[i].1);
            proof {
                assert forall|k: Seq<char>| #[trigger] m@.contains_key(k) <==> exists|j: int| 0 <= j < i + 1 && #[trigger] pairs@[j].0@ == k by {
                    if k == pairs@[i as int].0@ {
                        assert(pairs@[i as int].0@ == k);
                    }
                    if exists|j: int| 0 <= j < i + 1 && #[trigger] pairs@[j].0@ == k {
                        let j = choose|j: int| 0 <= j < i + 1 && #[trigger] pairs@[j].0@ == k;
                        if j < i {
                            assert(before.contains_key(k));
                        }
                    }
                }
            }
            i += 1;
        }
        m
    }
}

} // verus!
