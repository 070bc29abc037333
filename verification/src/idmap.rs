//! A map keyed by worktree id `(repo index, worktree index)`, the shape in
//! which per-worktree UI state (terminals, diffs, main-pane views) is kept.

use vstd::prelude::*;

verus! {

/// `(repo index, worktree index)` of a worktree in the sidebar.
pub type WorktreeId = (usize, usize);

/// How the indices of one repository's worktrees move after a re-list.
pub enum IndexRemap {
    /// Old index `i` goes to `table[i]`; indices past the table, and
    /// `None` entries, are dropped.
    Table(Vec<Option<usize>>),
    /// Index `w` was removed: it is dropped and later ones shift down one.
    Removed(usize),
}

/// Which keys move, and how.
pub enum KeyRemap {
    /// Keys of repository `repo` are re-indexed; other keys stay.
    InRepo(usize, IndexRemap),
    /// Repository `repo` was removed: its keys are dropped and the keys of
    /// later repositories shift down one.
    RepoRemoved(usize),
}

pub open spec fn spec_index_remap(m: IndexRemap, i: usize) -> Option<usize> {
    match m {
        IndexRemap::Table(t) => if i < t.len() { t[i as int] } else { None },
        IndexRemap::Removed(w) => if i < w {
            Some(i)
        } else if i == w {
            None
        } else {
            Some((i - 1) as usize)
        },
    }
}

/// Where key `k` goes under `m`, or `None` when it is dropped.
pub open spec fn spec_key_remap(m: KeyRemap, k: WorktreeId) -> Option<WorktreeId> {
    match m {
        KeyRemap::InRepo(r, im) => if k.0 == r {
            match spec_index_remap(im, k.1) {
                Some(w) => Some((r, w)),
                None => None,
            }
        } else {
            Some(k)
        },
        KeyRemap::RepoRemoved(r) => if k.0 < r {
            Some(k)
        } else if k.0 == r {
            None
        } else {
            Some(((k.0 - 1) as usize, k.1))
        },
    }
}

/// No two keys are sent to the same place by `f`.
pub open spec fn remap_injective(f: spec_fn(WorktreeId) -> Option<WorktreeId>) -> bool {
    forall|a: WorktreeId, b: WorktreeId|
        #![trigger f(a), f(b)]
        a != b && f(a).is_some() ==> f(a) != f(b)
}

/// `new` is `old` with every key `k` moved to `f(k)` (dropped when `f(k)`
/// is `None`): a key is present when some key of `old` goes to it, and
/// when `f` is injective it carries that key's value.
pub open spec fn remapped<V>(old: Map<WorktreeId, V>, f: spec_fn(WorktreeId) -> Option<WorktreeId>, new: Map<WorktreeId, V>) -> bool {
    &&& forall|k: WorktreeId|
        #![trigger new.contains_key(k)]
        new.contains_key(k) <==> exists|j: WorktreeId|
            #![trigger old.contains_key(j)]
            old.contains_key(j) && f(j) == Some(k)
    &&& forall|j: WorktreeId|
        #![trigger old.contains_key(j)]
        old.contains_key(j) && remap_injective(f) && f(j).is_some() ==> new[f(j).unwrap()] == old[j]
}

/// Where index `i` goes under `m`.
pub fn index_remap(m: &IndexRemap, i: usize) -> (r: Option<usize>)
    ensures
        r == spec_index_remap(*m, i),
{
    match m {
        IndexRemap::Table(t) => if i < t.len() {
            t[i]
        } else {
            None
        },
        IndexRemap::Removed(w) => if i < *w {
            Some(i)
        } else if i == *w {
            None
        } else {
            Some(i - 1)
        },
    }
}

/// Where key `k` goes under `m`.
pub fn key_remap(m: &KeyRemap, k: WorktreeId) -> (r: Option<WorktreeId>)
    ensures
        r == spec_key_remap(*m, k),
{
    match m {
        KeyRemap::InRepo(r, im) => if k.0 == *r {
            match index_remap(im, k.1) {
                Some(w) => Some((*r, w)),
                None => None,
            }
        } else {
            Some(k)
        },
        KeyRemap::RepoRemoved(r) => if k.0 < *r {
            Some(k)
        } else if k.0 == *r {
            None
        } else {
            Some((k.0 - 1, k.1))
        },
    }
}

/// Map from worktree id to `V`, kept as a list of distinct keys.
pub struct WorktreeMap<V> {
    entries: Vec<(WorktreeId, V)>,
}

pub open spec fn keys_unique<V>(s: Seq<(WorktreeId, V)>) -> bool {
    forall|i: int, j: int| 0 <= i < j < s.len() ==> #[trigger] s[i].0 != #[trigger] s[j].0
}

pub open spec fn has_key<V>(s: Seq<(WorktreeId, V)>, k: WorktreeId) -> bool {
    exists|i: int| 0 <= i < s.len() && #[trigger] s[i].0 == k
}

pub open spec fn entries_map<V>(s: Seq<(WorktreeId, V)>) -> Map<WorktreeId, V> {
    Map::new(
        |k: WorktreeId| has_key(s, k),
        |k: WorktreeId| s[choose|i: int| 0 <= i < s.len() && #[trigger] s[i].0 == k].1,
    )
}

proof fn lemma_entry_value<V>(s: Seq<(WorktreeId, V)>, i: int)
    requires
        keys_unique(s),
        0 <= i < s.len(),
    ensures
        entries_map(s).contains_key(s[i].0),
        entries_map(s)[s[i].0] == s[i].1,
{
    let k = s[i].0;
    assert(has_key(s, k));
    let j = choose|j: int| 0 <= j < s.len() && #[trigger] s[j].0 == k;
    if j != i {
        if j < i {
            assert(s[j].0 != s[i].0);
        } else {
            assert(s[i].0 != s[j].0);
        }
    }
}

proof fn lemma_push<V>(s: Seq<(WorktreeId, V)>, k: WorktreeId, v: V)
    requires
        keys_unique(s),
        !has_key(s, k),
    ensures
        keys_unique(s.push((k, v))),
        entries_map(s.push((k, v))) =~= entries_map(s).insert(k, v),
{
    let t = s.push((k, v));
    assert forall|i: int, j: int| 0 <= i < j < t.len() implies #[trigger] t[i].0 != #[trigger] t[j].0 by {
        if j == s.len() {
            assert(s[i].0 == t[i].0);
        } else {
            assert(s[i].0 != s[j].0);
        }
    }
    assert forall|q: WorktreeId| #[trigger] has_key(t, q) <==> has_key(s, q) || q == k by {
        if has_key(s, q) {
            let i = choose|i: int| 0 <= i < s.len() && #[trigger] s[i].0 == q;
            assert(t[i].0 == q);
        }
        if q == k {
            assert(t[s.len() as int].0 == q);
        }
        if has_key(t, q) && q != k {
            let i = choose|i: int| 0 <= i < t.len() && #[trigger] t[i].0 == q;
            assert(s[i].0 == q);
        }
    }
    assert forall|q: WorktreeId| #[trigger] entries_map(t).contains_key(q) implies entries_map(t)[q]
        == entries_map(s).insert(k, v)[q] by {
        if q == k {
            lemma_entry_value(t, s.len() as int);
        } else {
            let i = choose|i: int| 0 <= i < t.len() && #[trigger] t[i].0 == q;
            lemma_entry_value(t, i);
            lemma_entry_value(s, i);
        }
    }
}

proof fn lemma_remove_at<V>(s: Seq<(WorktreeId, V)>, i: int)
    requires
        keys_unique(s),
        0 <= i < s.len(),
    ensures
        keys_unique(s.remove(i)),
        entries_map(s.remove(i)) =~= entries_map(s).remove(s[i].0),
{
    let t = s.remove(i);
    let k = s[i].0;
    assert forall|a: int, b: int| 0 <= a < b < t.len() implies #[trigger] t[a].0 != #[trigger] t[b].0 by {
        let a2 = if a < i { a } else { a + 1 };
        let b2 = if b < i { b } else { b + 1 };
        assert(t[a] == s[a2]);
        assert(t[b] == s[b2]);
        assert(s[a2].0 != s[b2].0);
    }
    assert forall|q: WorktreeId| #[trigger] has_key(t, q) <==> has_key(s, q) && q != k by {
        if has_key(t, q) {
            let a = choose|a: int| 0 <= a < t.len() && #[trigger] t[a].0 == q;
            let a2 = if a < i { a } else { a + 1 };
            assert(s[a2].0 == q);
            if q == k {
                assert(s[a2].0 == s[i].0);
            }
        }
        if has_key(s, q) && q != k {
            let a = choose|a: int| 0 <= a < s.len() && #[trigger] s[a].0 == q;
            let a2 = if a < i { a } else { a - 1 };
            assert(t[a2].0 == q);
        }
    }
    assert forall|q: WorktreeId| #[trigger] entries_map(t).contains_key(q) implies entries_map(t)[q]
        == entries_map(s)[q] by {
        let a = choose|a: int| 0 <= a < t.len() && #[trigger] t[a].0 == q;
        let a2 = if a < i { a } else { a + 1 };
        lemma_entry_value(t, a);
        assert(t[a] == s[a2]);
        lemma_entry_value(s, a2);
    }
}

impl<V> WorktreeMap<V> {
    #[verifier::type_invariant]
    spec fn wf(self) -> bool {
        keys_unique(self.entries@)
    }

    pub closed spec fn view(&self) -> Map<WorktreeId, V> {
        entries_map(self.entries@)
    }

    pub fn new() -> (m: Self)
        ensures
            m@ == Map::<WorktreeId, V>::empty(),
    {
        let m = WorktreeMap { entries: Vec::new() };
        assert(m@ =~= Map::<WorktreeId, V>::empty());
        m
    }

    fn find(&self, k: WorktreeId) -> (r: Option<usize>)
        ensures
            match r {
                Some(i) => i < self.entries@.len() && self.entries@[i as int].0 == k,
                None => !has_key(self.entries@, k),
            },
    {
        let mut i: usize = 0;
        while i < self.entries.len()
            invariant
                i <= self.entries@.len(),
                forall|j: int| 0 <= j < i ==> #[trigger] self.entries@[j].0 != k,
            decreases self.entries@.len() - i,
        {
            let key = self.entries[i].0;
            if key.0 == k.0 && key.1 == k.1 {
                return Some(i);
            }
            i += 1;
        }
        None
    }

    pub fn contains_key(&self, k: WorktreeId) -> (b: bool)
        ensures
            b == self@.contains_key(k),
    {
        self.find(k).is_some()
    }

    pub fn get(&self, k: WorktreeId) -> (r: Option<&V>)
        ensures
            r.is_some() == self@.contains_key(k),
            r.is_some() ==> *r.unwrap() == self@[k],
    {
        proof {
            use_type_invariant(self);
        }
        match self.find(k) {
            Some(i) => {
                proof {
                    lemma_entry_value(self.entries@, i as int);
                }
                Some(&self.entries[i].1)
            },
            None => None,
        }
    }

    pub fn remove(&mut self, k: WorktreeId) -> (r: Option<V>)
        ensures
            final(self)@ == old(self)@.remove(k),
            r.is_some() == old(self)@.contains_key(k),
            r.is_some() ==> r.unwrap() == old(self)@[k],
    {
        proof {
            use_type_invariant(&*self);
        }
        match self.find(k) {
            Some(i) => {
                proof {
                    lemma_entry_value(self.entries@, i as int);
                    lemma_remove_at(self.entries@, i as int);
                }
                let mut entries = Vec::new();
                std::mem::swap(&mut entries, &mut self.entries);
                let (_, v) = entries.remove(i);
                *self = WorktreeMap { entries };
                Some(v)
            },
            None => {
                assert(self@ =~= self@.remove(k));
                None
            },
        }
    }

    pub fn insert(&mut self, k: WorktreeId, v: V)
        ensures
            final(self)@ == old(self)@.insert(k, v),
    {
        let _ = self.remove(k);
        proof {
            use_type_invariant(&*self);
            assert(!self@.contains_key(k));
            assert(!has_key(self.entries@, k));
            lemma_push(self.entries@, k, v);
        }
        let mut entries = Vec::new();
        std::mem::swap(&mut entries, &mut self.entries);
        entries.push((k, v));
        *self = WorktreeMap { entries };
        assert(self@ =~= old(self)@.insert(k, v));
    }

    /// Move every key by `m`, dropping the keys that `m` drops.
    pub fn remap(&mut self, m: &KeyRemap)
        ensures
            remapped(old(self)@, |k: WorktreeId| spec_key_remap(*m, k), final(self)@),
    {
        proof {
            use_type_invariant(&*self);
        }
        let mut rest = Vec::new();
        std::mem::swap(&mut rest, &mut self.entries);
        let ghost orig = rest@;
        let ghost mm = *m;
        let ghost f = |k: WorktreeId| spec_key_remap(*m, k);
        let mut out: WorktreeMap<V> = WorktreeMap::new();
        while rest.len() > 0
            invariant
                rest@.len() <= orig.len(),
                rest@ == orig.subrange(0, rest@.len() as int),
                keys_unique(orig),
                mm == *m,
                forall|k: WorktreeId|
                    #![trigger out@.contains_key(k)]
                    out@.contains_key(k) <==> exists|j: int|
                        rest@.len() <= j < orig.len() && spec_key_remap(mm, #[trigger] orig[j].0) == Some(k),
                f == (|k: WorktreeId| spec_key_remap(mm, k)),
                forall|j: int|
                    rest@.len() <= j < orig.len() && remap_injective(f) && spec_key_remap(
                        mm,
                        #[trigger] orig[j].0,
                    ).is_some() ==> out@[spec_key_remap(mm, orig[j].0).unwrap()] == orig[j].1,
            decreases rest@.len(),
        {
            let ghost before = out@;
            let ghost n = rest@.len();
            let (k, v) = rest.pop().unwrap();
            assert(orig[n - 1] == (k, v));
            match key_remap(m, k) {
                Some(nk) => {
                    out.insert(nk, v);
                    assert forall|j: int|
                        n <= j < orig.len() && remap_injective(f) && spec_key_remap(
                            mm,
                            #[trigger] orig[j].0,
                        ).is_some() implies out@[spec_key_remap(mm, orig[j].0).unwrap()]
                        == orig[j].1 by {
                        assert(orig[n - 1].0 != orig[j].0);
                        assert(f(orig[j].0) != f(orig[n - 1].0));
                    }
                    assert forall|q: WorktreeId| #[trigger] out@.contains_key(q) implies exists|j: int|
                        n - 1 <= j < orig.len() && spec_key_remap(mm, #[trigger] orig[j].0)
                            == Some(q) by {
                        if q == nk {
                            assert(spec_key_remap(mm, orig[n - 1].0) == Some(q));
                        } else {
                            assert(before.contains_key(q));
                        }
                    }
                },
                None => {},
            }
        }
        proof {
            assert forall|k: WorktreeId| #[trigger] out@.contains_key(k) <==> exists|j: WorktreeId|
                #![trigger entries_map(orig).contains_key(j)]
                entries_map(orig).contains_key(j) && f(j) == Some(k) by {
                if out@.contains_key(k) {
                    let i = choose|i: int|
                        0 <= i < orig.len() && spec_key_remap(mm, #[trigger] orig[i].0) == Some(k);
                    lemma_entry_value(orig, i);
                }
                if exists|j: WorktreeId|
                    #![trigger entries_map(orig).contains_key(j)]
                    entries_map(orig).contains_key(j) && f(j) == Some(k) {
                    let j = choose|j: WorktreeId|
                        #![trigger entries_map(orig).contains_key(j)]
                        entries_map(orig).contains_key(j) && f(j) == Some(k);
                    let i = choose|i: int| 0 <= i < orig.len() && #[trigger] orig[i].0 == j;
                    assert(spec_key_remap(mm, orig[i].0) == Some(k));
                }
            }
            assert forall|j: WorktreeId|
                #![trigger entries_map(orig).contains_key(j)]
                entries_map(orig).contains_key(j) && remap_injective(f) && f(j).is_some() implies out@[f(j).unwrap()] == entries_map(orig)[j] by {
                let i = choose|i: int| 0 <= i < orig.len() && #[trigger] orig[i].0 == j;
                lemma_entry_value(orig, i);
            }
        }
        *self = out;
    }
}

} // verus!
